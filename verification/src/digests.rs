//! Message digests, HMACs and HKDF of the RustCrypto hash crates. Each function
//! makes one call of a crate; a spec function of the same stem names what
//! it returns, and the output length is the digest size the crate fixes.
use sha2::Digest;
use hmac::{KeyInit, Mac};
use vstd::prelude::*;

verus! {

/// The MD5 digest of `data`.
pub uninterp spec fn md5_digest(data: Seq<u8>) -> Seq<u8>;

/// `<md5::Md5 as Digest>::digest`, whose output is 16 bytes.
#[verifier::external_body]
pub(crate) fn md5_digest_vec(data: &[u8]) -> (out: Vec<u8>)
    ensures
        out@ == md5_digest(data@),
        out@.len() == 16,
{
    md5::Md5::digest(data).to_vec()
}

/// The SHA-1 digest of `data`.
pub uninterp spec fn sha1_digest(data: Seq<u8>) -> Seq<u8>;

/// `<sha1::Sha1 as Digest>::digest`, whose output is 20 bytes.
#[verifier::external_body]
pub(crate) fn sha1_digest_vec(data: &[u8]) -> (out: Vec<u8>)
    ensures
        out@ == sha1_digest(data@),
        out@.len() == 20,
{
    sha1::Sha1::digest(data).to_vec()
}

/// The SHA-224 digest of `data`.
pub uninterp spec fn sha224_digest(data: Seq<u8>) -> Seq<u8>;

/// `<sha2::Sha224 as Digest>::digest`, whose output is 28 bytes.
#[verifier::external_body]
pub(crate) fn sha224_digest_vec(data: &[u8]) -> (out: Vec<u8>)
    ensures
        out@ == sha224_digest(data@),
        out@.len() == 28,
{
    sha2::Sha224::digest(data).to_vec()
}

/// The SHA-256 digest of `data`.
pub uninterp spec fn sha256_digest(data: Seq<u8>) -> Seq<u8>;

/// `<sha2::Sha256 as Digest>::digest`, whose output is 32 bytes.
#[verifier::external_body]
pub(crate) fn sha256_digest_vec(data: &[u8]) -> (out: Vec<u8>)
    ensures
        out@ == sha256_digest(data@),
        out@.len() == 32,
{
    sha2::Sha256::digest(data).to_vec()
}

/// The SHA-384 digest of `data`.
pub uninterp spec fn sha384_digest(data: Seq<u8>) -> Seq<u8>;

/// `<sha2::Sha384 as Digest>::digest`, whose output is 48 bytes.
#[verifier::external_body]
pub(crate) fn sha384_digest_vec(data: &[u8]) -> (out: Vec<u8>)
    ensures
        out@ == sha384_digest(data@),
        out@.len() == 48,
{
    sha2::Sha384::digest(data).to_vec()
}

/// The SHA-512 digest of `data`.
pub uninterp spec fn sha512_digest(data: Seq<u8>) -> Seq<u8>;

/// `<sha2::Sha512 as Digest>::digest`, whose output is 64 bytes.
#[verifier::external_body]
pub(crate) fn sha512_digest_vec(data: &[u8]) -> (out: Vec<u8>)
    ensures
        out@ == sha512_digest(data@),
        out@.len() == 64,
{
    sha2::Sha512::digest(data).to_vec()
}

/// The SHA3-256 digest of `data`.
pub uninterp spec fn sha3_256_digest(data: Seq<u8>) -> Seq<u8>;

/// `<sha3::Sha3_256 as Digest>::digest`, whose output is 32 bytes.
#[verifier::external_body]
pub(crate) fn sha3_256_digest_vec(data: &[u8]) -> (out: Vec<u8>)
    ensures
        out@ == sha3_256_digest(data@),
        out@.len() == 32,
{
    sha3::Sha3_256::digest(data).to_vec()
}

/// The SHA3-512 digest of `data`.
pub uninterp spec fn sha3_512_digest(data: Seq<u8>) -> Seq<u8>;

/// `<sha3::Sha3_512 as Digest>::digest`, whose output is 64 bytes.
#[verifier::external_body]
pub(crate) fn sha3_512_digest_vec(data: &[u8]) -> (out: Vec<u8>)
    ensures
        out@ == sha3_512_digest(data@),
        out@.len() == 64,
{
    sha3::Sha3_512::digest(data).to_vec()
}

/// The BLAKE2b-512 digest of `data`.
pub uninterp spec fn blake2b512_digest(data: Seq<u8>) -> Seq<u8>;

/// `<blake2::Blake2b512 as Digest>::digest`, whose output is 64 bytes.
#[verifier::external_body]
pub(crate) fn blake2b512_digest_vec(data: &[u8]) -> (out: Vec<u8>)
    ensures
        out@ == blake2b512_digest(data@),
        out@.len() == 64,
{
    blake2::Blake2b512::digest(data).to_vec()
}

/// HMAC-MD5 of `data` under `key`.
pub uninterp spec fn hmac_md5(key: Seq<u8>, data: Seq<u8>) -> Seq<u8>;

/// `hmac::Hmac::<md5::Md5>`: keyed with `new_from_slice`, which accepts keys
/// of any length, fed `data`, finalized; the tag is 16 bytes.
#[verifier::external_body]
pub(crate) fn hmac_md5_vec(key: &[u8], data: &[u8]) -> (out: Vec<u8>)
    ensures
        out@ == hmac_md5(key@, data@),
        out@.len() == 16,
{
    let mut mac = hmac::Hmac::<md5::Md5>::new_from_slice(key).unwrap();
    mac.update(data);
    mac.finalize().into_bytes().to_vec()
}

/// HMAC-SHA-1 of `data` under `key`.
pub uninterp spec fn hmac_sha1(key: Seq<u8>, data: Seq<u8>) -> Seq<u8>;

/// `hmac::Hmac::<sha1::Sha1>`: keyed with `new_from_slice`, which accepts keys
/// of any length, fed `data`, finalized; the tag is 20 bytes.
#[verifier::external_body]
pub(crate) fn hmac_sha1_vec(key: &[u8], data: &[u8]) -> (out: Vec<u8>)
    ensures
        out@ == hmac_sha1(key@, data@),
        out@.len() == 20,
{
    let mut mac = hmac::Hmac::<sha1::Sha1>::new_from_slice(key).unwrap();
    mac.update(data);
    mac.finalize().into_bytes().to_vec()
}

/// HMAC-SHA-224 of `data` under `key`.
pub uninterp spec fn hmac_sha224(key: Seq<u8>, data: Seq<u8>) -> Seq<u8>;

/// `hmac::Hmac::<sha2::Sha224>`: keyed with `new_from_slice`, which accepts keys
/// of any length, fed `data`, finalized; the tag is 28 bytes.
#[verifier::external_body]
pub(crate) fn hmac_sha224_vec(key: &[u8], data: &[u8]) -> (out: Vec<u8>)
    ensures
        out@ == hmac_sha224(key@, data@),
        out@.len() == 28,
{
    let mut mac = hmac::Hmac::<sha2::Sha224>::new_from_slice(key).unwrap();
    mac.update(data);
    mac.finalize().into_bytes().to_vec()
}

/// HMAC-SHA-256 of `data` under `key`.
pub uninterp spec fn hmac_sha256(key: Seq<u8>, data: Seq<u8>) -> Seq<u8>;

/// `hmac::Hmac::<sha2::Sha256>`: keyed with `new_from_slice`, which accepts keys
/// of any length, fed `data`, finalized; the tag is 32 bytes.
#[verifier::external_body]
pub(crate) fn hmac_sha256_vec(key: &[u8], data: &[u8]) -> (out: Vec<u8>)
    ensures
        out@ == hmac_sha256(key@, data@),
        out@.len() == 32,
{
    let mut mac = hmac::Hmac::<sha2::Sha256>::new_from_slice(key).unwrap();
    mac.update(data);
    mac.finalize().into_bytes().to_vec()
}

/// HMAC-SHA-384 of `data` under `key`.
pub uninterp spec fn hmac_sha384(key: Seq<u8>, data: Seq<u8>) -> Seq<u8>;

/// `hmac::Hmac::<sha2::Sha384>`: keyed with `new_from_slice`, which accepts keys
/// of any length, fed `data`, finalized; the tag is 48 bytes.
#[verifier::external_body]
pub(crate) fn hmac_sha384_vec(key: &[u8], data: &[u8]) -> (out: Vec<u8>)
    ensures
        out@ == hmac_sha384(key@, data@),
        out@.len() == 48,
{
    let mut mac = hmac::Hmac::<sha2::Sha384>::new_from_slice(key).unwrap();
    mac.update(data);
    mac.finalize().into_bytes().to_vec()
}

/// HMAC-SHA-512 of `data` under `key`.
pub uninterp spec fn hmac_sha512(key: Seq<u8>, data: Seq<u8>) -> Seq<u8>;

/// `hmac::Hmac::<sha2::Sha512>`: keyed with `new_from_slice`, which accepts keys
/// of any length, fed `data`, finalized; the tag is 64 bytes.
#[verifier::external_body]
pub(crate) fn hmac_sha512_vec(key: &[u8], data: &[u8]) -> (out: Vec<u8>)
    ensures
        out@ == hmac_sha512(key@, data@),
        out@.len() == 64,
{
    let mut mac = hmac::Hmac::<sha2::Sha512>::new_from_slice(key).unwrap();
    mac.update(data);
    mac.finalize().into_bytes().to_vec()
}

/// HMAC-SHA3-256 of `data` under `key`.
pub uninterp spec fn hmac_sha3_256(key: Seq<u8>, data: Seq<u8>) -> Seq<u8>;

/// `hmac::SimpleHmac::<sha3::Sha3_256>` (the SHA-3 cores are not eager hashes,
/// which `hmac::Hmac` needs): keyed with `new_from_slice`, which accepts keys
/// of any length, fed `data`, finalized; the tag is 32 bytes.
#[verifier::external_body]
pub(crate) fn hmac_sha3_256_vec(key: &[u8], data: &[u8]) -> (out: Vec<u8>)
    ensures
        out@ == hmac_sha3_256(key@, data@),
        out@.len() == 32,
{
    let mut mac = hmac::SimpleHmac::<sha3::Sha3_256>::new_from_slice(key).unwrap();
    mac.update(data);
    mac.finalize().into_bytes().to_vec()
}

/// HMAC-SHA3-512 of `data` under `key`.
pub uninterp spec fn hmac_sha3_512(key: Seq<u8>, data: Seq<u8>) -> Seq<u8>;

/// `hmac::SimpleHmac::<sha3::Sha3_512>` (the SHA-3 cores are not eager hashes,
/// which `hmac::Hmac` needs): keyed with `new_from_slice`, which accepts keys
/// of any length, fed `data`, finalized; the tag is 64 bytes.
#[verifier::external_body]
pub(crate) fn hmac_sha3_512_vec(key: &[u8], data: &[u8]) -> (out: Vec<u8>)
    ensures
        out@ == hmac_sha3_512(key@, data@),
        out@.len() == 64,
{
    let mut mac = hmac::SimpleHmac::<sha3::Sha3_512>::new_from_slice(key).unwrap();
    mac.update(data);
    mac.finalize().into_bytes().to_vec()
}

/// HKDF-SHA256 output keying material of `length` bytes.
pub uninterp spec fn hkdf_sha256(ikm: Seq<u8>, salt: Seq<u8>, info: Seq<u8>, length: nat) -> Seq<u8>;

/// `hkdf::SimpleHkdf::<sha2::Sha256>::new(Some(salt), ikm)`, then `expand` into a
/// buffer of `length` bytes, which fails exactly where `length` exceeds 255
/// hash outputs (8160 bytes).
#[verifier::external_body]
pub(crate) fn hkdf_sha256_vec(ikm: &[u8], salt: &[u8], info: &[u8], length: usize) -> (out: Option<Vec<u8>>)
    ensures
        out is Some <==> length <= 8160,
        out matches Some(o) ==> o@ == hkdf_sha256(ikm@, salt@, info@, length as nat) && o@.len()
            == length,
{
    let mut okm = vec![0u8; length];
    hkdf::SimpleHkdf::<sha2::Sha256>::new(Some(salt), ikm).expand(info, &mut okm).ok()?;
    Some(okm)
}

/// HKDF-SHA512 output keying material of `length` bytes.
pub uninterp spec fn hkdf_sha512(ikm: Seq<u8>, salt: Seq<u8>, info: Seq<u8>, length: nat) -> Seq<u8>;

/// `hkdf::SimpleHkdf::<sha2::Sha512>::new(Some(salt), ikm)`, then `expand` into a
/// buffer of `length` bytes, which fails exactly where `length` exceeds 255
/// hash outputs (16320 bytes).
#[verifier::external_body]
pub(crate) fn hkdf_sha512_vec(ikm: &[u8], salt: &[u8], info: &[u8], length: usize) -> (out: Option<Vec<u8>>)
    ensures
        out is Some <==> length <= 16320,
        out matches Some(o) ==> o@ == hkdf_sha512(ikm@, salt@, info@, length as nat) && o@.len()
            == length,
{
    let mut okm = vec![0u8; length];
    hkdf::SimpleHkdf::<sha2::Sha512>::new(Some(salt), ikm).expand(info, &mut okm).ok()?;
    Some(okm)
}

} // verus!
