//! Calls of the `pwhash` crate, which computes crypt(3) password hashes.
//! The hash of a chosen salt is named; a hash made with a fresh random salt
//! is described by the shape that pwhash's format strings give it.
#![allow(deprecated)]
use pwhash::{bcrypt, bsdi_crypt, md5_crypt, sha256_crypt, sha512_crypt, unix_crypt, HashSetup};
use vstd::prelude::*;

verus! {

/// The characters of pwhash's hash64 encodings: `.`, `/`, digits and ASCII
/// letters.
pub open spec fn is_hash64(c: char) -> bool {
    ||| c == '.'
    ||| c == '/'
    ||| ('0' <= c && c <= '9')
    ||| ('A' <= c && c <= 'Z')
    ||| ('a' <= c && c <= 'z')
}

/// Every character of `s` from `lo` up to `hi` is a hash64 character.
pub open spec fn hash64_between(s: Seq<char>, lo: int, hi: int) -> bool {
    forall|i: int| lo <= i < hi ==> is_hash64(#[trigger] s[i])
}

pub open spec fn digit_char(n: nat) -> char {
    ((n % 10) + 48) as char
}

/// The decimal digits of `n`, as `format!("{}")` writes them.
pub open spec fn decimal_string(n: nat) -> Seq<char>
    decreases n,
{
    if n < 10 {
        seq![digit_char(n)]
    } else {
        decimal_string(n / 10).push(digit_char(n))
    }
}

/// `$2a$`, the cost in two digits, `$`, then 22 characters of salt and 31
/// of checksum: `format!("${}${:02}${}{}", ...)` in pwhash's bcrypt.
pub open spec fn bcrypt_format(h: Seq<char>, cost: nat) -> bool {
    &&& h.len() == 60
    &&& h.take(4) == "$2a$"@
    &&& h[4] == digit_char(cost / 10)
    &&& h[5] == digit_char(cost)
    &&& h[6] == '$'
    &&& hash64_between(h, 7, 60)
}

/// Two characters of salt and eleven of checksum.
pub open spec fn des_format(h: Seq<char>) -> bool {
    h.len() == 13 && hash64_between(h, 0, 13)
}

/// The hash64 character of a value below 64: `./0-9A-Za-z` in order.
pub open spec fn hash64_char(v: nat) -> char {
    if v < 12 {
        (v + 46) as char
    } else if v < 38 {
        (v + 53) as char
    } else {
        (v + 59) as char
    }
}

/// A count in four hash64 characters, the low six bits first, as pwhash's
/// `encode_val` writes the rounds of an extended DES hash.
pub open spec fn rounds_chars(r: nat) -> Seq<char> {
    seq![
        hash64_char(r % 64),
        hash64_char((r / 64) % 64),
        hash64_char((r / 4096) % 64),
        hash64_char((r / 262144) % 64),
    ]
}

/// `_`, the rounds in four characters, four characters of salt, eleven of
/// checksum.
pub open spec fn xdes_format(h: Seq<char>, rounds: nat) -> bool {
    &&& h.len() == 20
    &&& h[0] == '_'
    &&& h.subrange(1, 5) == rounds_chars(rounds)
    &&& hash64_between(h, 1, 20)
}

/// `$1$`, eight characters of salt, `$`, 22 of checksum.
pub open spec fn md5_format(h: Seq<char>) -> bool {
    &&& h.len() == 34
    &&& h.take(3) == "$1$"@
    &&& hash64_between(h, 3, 11)
    &&& h[11] == '$'
    &&& hash64_between(h, 12, 34)
}

/// The part of a SHA-crypt hash before its salt: `$5$rounds=N$` or
/// `$6$rounds=N$`.
pub open spec fn sha_head(magic: Seq<char>, rounds: nat) -> Seq<char> {
    magic + "rounds="@ + decimal_string(rounds) + "$"@
}

/// The head, sixteen characters of salt, `$`, and a checksum of
/// `checksum_len` characters.
pub open spec fn sha_format(h: Seq<char>, magic: Seq<char>, rounds: nat, checksum_len: nat) -> bool {
    let p = sha_head(magic, rounds);
    &&& h.len() == p.len() + 17 + checksum_len
    &&& h.take(p.len() as int) == p
    &&& hash64_between(h, p.len() as int, p.len() + 16int)
    &&& h[p.len() + 16int] == '$'
    &&& hash64_between(h, p.len() + 17int, h.len() as int)
}

/// What crypt(3) gives for a password and a salt or earlier hash; `None`
/// where pwhash refuses the salt.
pub uninterp spec fn crypt_hash(password: Seq<u8>, setting: Seq<char>) -> Option<Seq<char>>;

/// Whether no character of a setting lies below U+0020. pwhash's salt
/// decoders subtract 0x20 from each character before their range test, which
/// overflows on a lower one.
pub open spec fn no_control_chars(s: Seq<char>) -> bool {
    forall|i: int| 0 <= i < s.len() ==> (s[i] as u32) >= 0x20
}

/// `pwhash::unix::crypt`: recognizes the format by the setting's prefix and
/// hashes the password with the salt and rounds the setting holds.
#[verifier::external_body]
pub(crate) fn unix_crypt_of(password: &[u8], setting: &str) -> (out: Option<String>)
    requires
        no_control_chars(setting@),
    ensures
        match out {
            Some(h) => crypt_hash(password@, setting@) == Some(h@),
            None => crypt_hash(password@, setting@) is None,
        },
{
    pwhash::unix::crypt(password, setting).ok()
}

/// `pwhash::bcrypt::hash_with` of the empty password with the given cost,
/// variant 2a and a random salt. A cost from 4 to 31 is accepted.
#[verifier::external_body]
pub(crate) fn bcrypt_random_hash(cost: u32) -> (out: String)
    requires
        4 <= cost <= 31,
    ensures
        bcrypt_format(out@, cost as nat),
{
    bcrypt::hash_with(
        bcrypt::BcryptSetup {
            cost: Some(cost),
            variant: Some(bcrypt::BcryptVariant::V2a),
            ..Default::default()
        },
        b"",
    ).unwrap()
}

/// `pwhash::unix_crypt::hash` of the empty password with a random salt,
/// which pwhash draws from its own alphabet, so the hash does not fail.
#[verifier::external_body]
pub(crate) fn des_random_hash() -> (out: String)
    ensures
        des_format(out@),
{
    unix_crypt::hash(b"").unwrap()
}

/// `pwhash::bsdi_crypt::hash_with` of the empty password with a random salt;
/// rounds from 1 to 16777215 are accepted and written after the `_`.
#[verifier::external_body]
pub(crate) fn xdes_random_hash(rounds: u32) -> (out: String)
    requires
        1 <= rounds <= 16_777_215,
    ensures
        xdes_format(out@, rounds as nat),
{
    bsdi_crypt::hash_with(HashSetup { salt: None, rounds: Some(rounds) }, b"").unwrap()
}

/// `pwhash::md5_crypt::hash` of the empty password with a random salt,
/// which does not fail.
#[verifier::external_body]
pub(crate) fn md5_random_hash() -> (out: String)
    ensures
        md5_format(out@),
{
    md5_crypt::hash(b"").unwrap()
}

/// `pwhash::sha256_crypt::hash_with` of the empty password with a random
/// salt and the given rounds, which it writes out.
#[verifier::external_body]
pub(crate) fn sha256_random_hash(rounds: u32) -> (out: String)
    requires
        1000 <= rounds <= 999_999_999,
    ensures
        sha_format(out@, "$5$"@, rounds as nat, 43),
{
    sha256_crypt::hash_with(HashSetup { salt: None, rounds: Some(rounds) }, b"").unwrap()
}

/// `pwhash::sha512_crypt::hash_with` of the empty password with a random
/// salt and the given rounds, which it writes out.
#[verifier::external_body]
pub(crate) fn sha512_random_hash(rounds: u32) -> (out: String)
    requires
        1000 <= rounds <= 999_999_999,
    ensures
        sha_format(out@, "$6$"@, rounds as nat, 86),
{
    sha512_crypt::hash_with(HashSetup { salt: None, rounds: Some(rounds) }, b"").unwrap()
}

/// `pwhash::sha256_crypt::DEFAULT_ROUNDS`.
#[verifier::external_body]
pub(crate) fn sha256_default_rounds() -> (r: u32)
    ensures
        r == 5000,
{
    sha256_crypt::DEFAULT_ROUNDS
}

/// `pwhash::sha512_crypt::DEFAULT_ROUNDS`.
#[verifier::external_body]
pub(crate) fn sha512_default_rounds() -> (r: u32)
    ensures
        r == 5000,
{
    sha512_crypt::DEFAULT_ROUNDS
}

} // verus!
