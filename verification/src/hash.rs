//! `digest`, `hmac` and the fixed-algorithm digest functions.
use crate::digests as dg;
use crate::text::{chars_of, eq_lit, lower_seq, remove_all, to_lower, without_char};
use vstd::prelude::*;
use vstd::string::StringSliceAdditionalSpecFns;

verus! {

#[derive(Clone, Copy, Debug, PartialEq, Eq, Structural)]
pub enum DigestAlgorithm {
    Md5,
    Sha1,
    Sha224,
    Sha256,
    Sha384,
    Sha512,
    Sha3_256,
    Sha3_512,
    Blake2b,
}

#[derive(Clone, Copy, Debug, PartialEq, Eq, Structural)]
pub enum HashError {
    /// `digest` was given a name it does not know.
    UnknownDigest,
    /// `hmac` was given a name it does not know.
    UnknownHmac,
}

/// An algorithm name with its letters lower-cased and its hyphens removed.
pub open spec fn normalize(name: Seq<char>) -> Seq<char> {
    remove_all(lower_seq(name), '-')
}

/// The algorithms that `digest` accepts, by normalized name.
pub open spec fn digest_algorithm(n: Seq<char>) -> Option<DigestAlgorithm> {
    if n == "md5"@ {
        Some(DigestAlgorithm::Md5)
    } else if n == "sha1"@ {
        Some(DigestAlgorithm::Sha1)
    } else if n == "sha224"@ {
        Some(DigestAlgorithm::Sha224)
    } else if n == "sha256"@ {
        Some(DigestAlgorithm::Sha256)
    } else if n == "sha384"@ {
        Some(DigestAlgorithm::Sha384)
    } else if n == "sha512"@ {
        Some(DigestAlgorithm::Sha512)
    } else if n == "sha3256"@ {
        Some(DigestAlgorithm::Sha3_256)
    } else if n == "sha3512"@ {
        Some(DigestAlgorithm::Sha3_512)
    } else if n == "blake2b"@ || n == "blake2b512"@ {
        Some(DigestAlgorithm::Blake2b)
    } else {
        None
    }
}

/// The algorithms that `hmac` accepts: those of `digest` but BLAKE2b.
pub open spec fn hmac_algorithm(n: Seq<char>) -> Option<DigestAlgorithm> {
    match digest_algorithm(n) {
        Some(DigestAlgorithm::Blake2b) => None,
        other => other,
    }
}

pub open spec fn digest_of(a: DigestAlgorithm, data: Seq<u8>) -> Seq<u8> {
    match a {
        DigestAlgorithm::Md5 => dg::md5_digest(data),
        DigestAlgorithm::Sha1 => dg::sha1_digest(data),
        DigestAlgorithm::Sha224 => dg::sha224_digest(data),
        DigestAlgorithm::Sha256 => dg::sha256_digest(data),
        DigestAlgorithm::Sha384 => dg::sha384_digest(data),
        DigestAlgorithm::Sha512 => dg::sha512_digest(data),
        DigestAlgorithm::Sha3_256 => dg::sha3_256_digest(data),
        DigestAlgorithm::Sha3_512 => dg::sha3_512_digest(data),
        DigestAlgorithm::Blake2b => dg::blake2b512_digest(data),
    }
}

/// The HMAC of `data` under `key`; BLAKE2b has none here.
pub open spec fn hmac_of(a: DigestAlgorithm, key: Seq<u8>, data: Seq<u8>) -> Seq<u8> {
    match a {
        DigestAlgorithm::Md5 => dg::hmac_md5(key, data),
        DigestAlgorithm::Sha1 => dg::hmac_sha1(key, data),
        DigestAlgorithm::Sha224 => dg::hmac_sha224(key, data),
        DigestAlgorithm::Sha256 => dg::hmac_sha256(key, data),
        DigestAlgorithm::Sha384 => dg::hmac_sha384(key, data),
        DigestAlgorithm::Sha512 => dg::hmac_sha512(key, data),
        DigestAlgorithm::Sha3_256 => dg::hmac_sha3_256(key, data),
        DigestAlgorithm::Sha3_512 => dg::hmac_sha3_512(key, data),
        DigestAlgorithm::Blake2b => Seq::empty(),
    }
}

/// The output size of each algorithm, in bytes.
pub open spec fn output_len(a: DigestAlgorithm) -> nat {
    match a {
        DigestAlgorithm::Md5 => 16,
        DigestAlgorithm::Sha1 => 20,
        DigestAlgorithm::Sha224 => 28,
        DigestAlgorithm::Sha256 => 32,
        DigestAlgorithm::Sha384 => 48,
        DigestAlgorithm::Sha512 => 64,
        DigestAlgorithm::Sha3_256 => 32,
        DigestAlgorithm::Sha3_512 => 64,
        DigestAlgorithm::Blake2b => 64,
    }
}

pub open spec fn digest_spec(data: Seq<u8>, name: Seq<char>) -> Result<Seq<u8>, HashError> {
    match digest_algorithm(normalize(name)) {
        Some(a) => Ok(digest_of(a, data)),
        None => Err(HashError::UnknownDigest),
    }
}

pub open spec fn hmac_spec(data: Seq<u8>, key: Seq<u8>, name: Seq<char>) -> Result<
    Seq<u8>,
    HashError,
> {
    match hmac_algorithm(normalize(name)) {
        Some(a) => Ok(hmac_of(a, key, data)),
        None => Err(HashError::UnknownHmac),
    }
}

/// The name selects the digest it names: `md5` MD5 (RFC 1321), `sha1`,
/// `sha224`, `sha256`, `sha384` and `sha512` the SHA functions of FIPS 180-4,
/// `sha3-256` and `sha3-512` those of FIPS 202, `blake2b` and `blake2b512`
/// the 64-byte BLAKE2b of RFC 7693; letter case and hyphens aside, any other
/// name is refused.
pub proof fn lemma_digest_names(data: Seq<u8>, name: Seq<char>)
    ensures
        normalize(name) == "md5"@ ==> digest_spec(data, name) == Ok::<Seq<u8>, HashError>(
            dg::md5_digest(data),
        ),
        normalize(name) == "sha1"@ ==> digest_spec(data, name) == Ok::<Seq<u8>, HashError>(
            dg::sha1_digest(data),
        ),
        normalize(name) == "sha224"@ ==> digest_spec(data, name) == Ok::<Seq<u8>, HashError>(
            dg::sha224_digest(data),
        ),
        normalize(name) == "sha256"@ ==> digest_spec(data, name) == Ok::<Seq<u8>, HashError>(
            dg::sha256_digest(data),
        ),
        normalize(name) == "sha384"@ ==> digest_spec(data, name) == Ok::<Seq<u8>, HashError>(
            dg::sha384_digest(data),
        ),
        normalize(name) == "sha512"@ ==> digest_spec(data, name) == Ok::<Seq<u8>, HashError>(
            dg::sha512_digest(data),
        ),
        normalize(name) == "sha3256"@ ==> digest_spec(data, name) == Ok::<Seq<u8>, HashError>(
            dg::sha3_256_digest(data),
        ),
        normalize(name) == "sha3512"@ ==> digest_spec(data, name) == Ok::<Seq<u8>, HashError>(
            dg::sha3_512_digest(data),
        ),
        normalize(name) == "blake2b"@ || normalize(name) == "blake2b512"@ ==> digest_spec(data, name)
            == Ok::<Seq<u8>, HashError>(dg::blake2b512_digest(data)),
        !known_digest_name(normalize(name)) ==> digest_spec(data, name) == Err::<Seq<u8>, HashError>(
            HashError::UnknownDigest,
        ),
{
    lemma_digest_algorithm_cases(normalize(name));
}

/// The name selects the HMAC over the digest it names (RFC 2104): `md5`,
/// `sha1`, `sha224`, `sha256`, `sha384`, `sha512`, `sha3-256` and
/// `sha3-512`; BLAKE2b and every other name are refused.
pub proof fn lemma_hmac_names(data: Seq<u8>, key: Seq<u8>, name: Seq<char>)
    ensures
        normalize(name) == "md5"@ ==> hmac_spec(data, key, name) == Ok::<Seq<u8>, HashError>(
            dg::hmac_md5(key, data),
        ),
        normalize(name) == "sha1"@ ==> hmac_spec(data, key, name) == Ok::<Seq<u8>, HashError>(
            dg::hmac_sha1(key, data),
        ),
        normalize(name) == "sha224"@ ==> hmac_spec(data, key, name) == Ok::<Seq<u8>, HashError>(
            dg::hmac_sha224(key, data),
        ),
        normalize(name) == "sha256"@ ==> hmac_spec(data, key, name) == Ok::<Seq<u8>, HashError>(
            dg::hmac_sha256(key, data),
        ),
        normalize(name) == "sha384"@ ==> hmac_spec(data, key, name) == Ok::<Seq<u8>, HashError>(
            dg::hmac_sha384(key, data),
        ),
        normalize(name) == "sha512"@ ==> hmac_spec(data, key, name) == Ok::<Seq<u8>, HashError>(
            dg::hmac_sha512(key, data),
        ),
        normalize(name) == "sha3256"@ ==> hmac_spec(data, key, name) == Ok::<Seq<u8>, HashError>(
            dg::hmac_sha3_256(key, data),
        ),
        normalize(name) == "sha3512"@ ==> hmac_spec(data, key, name) == Ok::<Seq<u8>, HashError>(
            dg::hmac_sha3_512(key, data),
        ),
        !known_digest_name(normalize(name)) || normalize(name) == "blake2b"@ || normalize(name)
            == "blake2b512"@ ==> hmac_spec(data, key, name) == Err::<Seq<u8>, HashError>(
            HashError::UnknownHmac,
        ),
{
    lemma_digest_algorithm_cases(normalize(name));
}

/// Which algorithm each known normalized name selects.
proof fn lemma_digest_algorithm_cases(n: Seq<char>)
    ensures
        n == "md5"@ ==> digest_algorithm(n) == Some(DigestAlgorithm::Md5),
        n == "sha1"@ ==> digest_algorithm(n) == Some(DigestAlgorithm::Sha1),
        n == "sha224"@ ==> digest_algorithm(n) == Some(DigestAlgorithm::Sha224),
        n == "sha256"@ ==> digest_algorithm(n) == Some(DigestAlgorithm::Sha256),
        n == "sha384"@ ==> digest_algorithm(n) == Some(DigestAlgorithm::Sha384),
        n == "sha512"@ ==> digest_algorithm(n) == Some(DigestAlgorithm::Sha512),
        n == "sha3256"@ ==> digest_algorithm(n) == Some(DigestAlgorithm::Sha3_256),
        n == "sha3512"@ ==> digest_algorithm(n) == Some(DigestAlgorithm::Sha3_512),
        n == "blake2b"@ || n == "blake2b512"@ ==> digest_algorithm(n) == Some(
            DigestAlgorithm::Blake2b,
        ),
        !known_digest_name(n) ==> digest_algorithm(n) is None,
{
    reveal_strlit("md5");
    reveal_strlit("sha1");
    reveal_strlit("sha224");
    reveal_strlit("sha256");
    reveal_strlit("sha384");
    reveal_strlit("sha512");
    reveal_strlit("sha3256");
    reveal_strlit("sha3512");
    reveal_strlit("blake2b");
    reveal_strlit("blake2b512");
    if n.len() == 6 {
        if n == "sha256"@ {
            assert(n[4] != "sha224"@[4]);
        }
        if n == "sha384"@ {
            assert(n[3] != "sha224"@[3] && n[3] != "sha256"@[3]);
        }
        if n == "sha512"@ {
            assert(n[3] != "sha224"@[3] && n[3] != "sha256"@[3] && n[3] != "sha384"@[3]);
        }
    }
    if n.len() == 7 {
        if n == "sha3512"@ {
            assert(n[4] != "sha3256"@[4]);
        }
        if n == "blake2b"@ {
            assert(n[0] != "sha3256"@[0] && n[0] != "sha3512"@[0]);
        }
    }
}

/// The normalized names that `digest` knows.
pub open spec fn known_digest_name(n: Seq<char>) -> bool {
    ||| n == "md5"@
    ||| n == "sha1"@
    ||| n == "sha224"@
    ||| n == "sha256"@
    ||| n == "sha384"@
    ||| n == "sha512"@
    ||| n == "sha3256"@
    ||| n == "sha3512"@
    ||| n == "blake2b"@
    ||| n == "blake2b512"@
}

pub open spec fn view_result(r: Result<Vec<u8>, HashError>) -> Result<Seq<u8>, HashError> {
    match r {
        Ok(v) => Ok(v@),
        Err(e) => Err(e),
    }
}

/// The algorithm a `digest` name selects: case does not matter, hyphens are
/// ignored.
pub fn parse_digest_name(algorithm: &str) -> (r: Option<DigestAlgorithm>)
    ensures
        r == digest_algorithm(normalize(algorithm@)),
{
    let n = without_char(&to_lower(&chars_of(algorithm)), '-');
    if eq_lit(&n, "md5") {
        Some(DigestAlgorithm::Md5)
    } else if eq_lit(&n, "sha1") {
        Some(DigestAlgorithm::Sha1)
    } else if eq_lit(&n, "sha224") {
        Some(DigestAlgorithm::Sha224)
    } else if eq_lit(&n, "sha256") {
        Some(DigestAlgorithm::Sha256)
    } else if eq_lit(&n, "sha384") {
        Some(DigestAlgorithm::Sha384)
    } else if eq_lit(&n, "sha512") {
        Some(DigestAlgorithm::Sha512)
    } else if eq_lit(&n, "sha3256") {
        Some(DigestAlgorithm::Sha3_256)
    } else if eq_lit(&n, "sha3512") {
        Some(DigestAlgorithm::Sha3_512)
    } else if eq_lit(&n, "blake2b") || eq_lit(&n, "blake2b512") {
        Some(DigestAlgorithm::Blake2b)
    } else {
        None
    }
}

/// The digest of `data` by a known algorithm.
pub fn digest_with(a: DigestAlgorithm, data: &[u8]) -> (out: Vec<u8>)
    ensures
        out@ == digest_of(a, data@),
        out@.len() == output_len(a),
{
    match a {
        DigestAlgorithm::Md5 => dg::md5_digest_vec(data),
        DigestAlgorithm::Sha1 => dg::sha1_digest_vec(data),
        DigestAlgorithm::Sha224 => dg::sha224_digest_vec(data),
        DigestAlgorithm::Sha256 => dg::sha256_digest_vec(data),
        DigestAlgorithm::Sha384 => dg::sha384_digest_vec(data),
        DigestAlgorithm::Sha512 => dg::sha512_digest_vec(data),
        DigestAlgorithm::Sha3_256 => dg::sha3_256_digest_vec(data),
        DigestAlgorithm::Sha3_512 => dg::sha3_512_digest_vec(data),
        DigestAlgorithm::Blake2b => dg::blake2b512_digest_vec(data),
    }
}

/// The digest of `data` by the algorithm `algorithm` names.
pub fn digest_bytes(data: &[u8], algorithm: &str) -> (r: Result<Vec<u8>, HashError>)
    ensures
        view_result(r) == digest_spec(data@, algorithm@),
        r matches Ok(d) ==> d@.len() == output_len(
            digest_algorithm(normalize(algorithm@))->Some_0,
        ),
{
    match parse_digest_name(algorithm) {
        Some(a) => Ok(digest_with(a, data)),
        None => Err(HashError::UnknownDigest),
    }
}

/// The HMAC of `data` under `key` by the algorithm `algorithm` names.
pub fn hmac_bytes(data: &[u8], key: &[u8], algorithm: &str) -> (r: Result<Vec<u8>, HashError>)
    ensures
        view_result(r) == hmac_spec(data@, key@, algorithm@),
        r matches Ok(d) ==> d@.len() == output_len(hmac_algorithm(normalize(algorithm@))->Some_0),
{
    let a = match parse_digest_name(algorithm) {
        Some(a) => a,
        None => return Err(HashError::UnknownHmac),
    };
    let out = match a {
        DigestAlgorithm::Md5 => dg::hmac_md5_vec(key, data),
        DigestAlgorithm::Sha1 => dg::hmac_sha1_vec(key, data),
        DigestAlgorithm::Sha224 => dg::hmac_sha224_vec(key, data),
        DigestAlgorithm::Sha256 => dg::hmac_sha256_vec(key, data),
        DigestAlgorithm::Sha384 => dg::hmac_sha384_vec(key, data),
        DigestAlgorithm::Sha512 => dg::hmac_sha512_vec(key, data),
        DigestAlgorithm::Sha3_256 => dg::hmac_sha3_256_vec(key, data),
        DigestAlgorithm::Sha3_512 => dg::hmac_sha3_512_vec(key, data),
        DigestAlgorithm::Blake2b => return Err(HashError::UnknownHmac),
    };
    Ok(out)
}

/// `digest(bytea, text)`.
pub fn digest_bytea(data: &[u8], algorithm: &str) -> (r: Result<Vec<u8>, HashError>)
    ensures
        view_result(r) == digest_spec(data@, algorithm@),
{
    digest_bytes(data, algorithm)
}

/// `digest(text, text)`: the digest of the UTF-8 encoding of the text.
pub fn digest_text(data: &str, algorithm: &str) -> (r: Result<Vec<u8>, HashError>)
    ensures
        view_result(r) == digest_spec(data.spec_bytes(), algorithm@),
{
    digest_bytes(data.as_bytes(), algorithm)
}

/// `hmac(bytea, bytea, text)`.
pub fn hmac_bytea(data: &[u8], key: &[u8], algorithm: &str) -> (r: Result<Vec<u8>, HashError>)
    ensures
        view_result(r) == hmac_spec(data@, key@, algorithm@),
{
    hmac_bytes(data, key, algorithm)
}

/// `hmac(text, text, text)`: over the UTF-8 encodings of data and key.
pub fn hmac_text(data: &str, key: &str, algorithm: &str) -> (r: Result<Vec<u8>, HashError>)
    ensures
        view_result(r) == hmac_spec(data.spec_bytes(), key.spec_bytes(), algorithm@),
{
    hmac_bytes(data.as_bytes(), key.as_bytes(), algorithm)
}

/// `blake2b(bytea)`: the 64-byte BLAKE2b digest.
pub fn blake2b(data: &[u8]) -> (out: Vec<u8>)
    ensures
        out@ == digest_of(DigestAlgorithm::Blake2b, data@),
        out@.len() == 64,
{
    digest_with(DigestAlgorithm::Blake2b, data)
}

/// `sha3_256(bytea)`.
pub fn sha3_256(data: &[u8]) -> (out: Vec<u8>)
    ensures
        out@ == digest_of(DigestAlgorithm::Sha3_256, data@),
        out@.len() == 32,
{
    digest_with(DigestAlgorithm::Sha3_256, data)
}

/// `sha3_512(bytea)`.
pub fn sha3_512(data: &[u8]) -> (out: Vec<u8>)
    ensures
        out@ == digest_of(DigestAlgorithm::Sha3_512, data@),
        out@.len() == 64,
{
    digest_with(DigestAlgorithm::Sha3_512, data)
}

/// `fips_mode()`: no OpenSSL FIPS provider stands behind this library.
pub fn fips_mode() -> (r: bool)
    ensures
        !r,
{
    false
}

} // verus!
