use pg_crypto::hash::{
    blake2b, digest_bytea, digest_text, fips_mode, hmac_bytea, hmac_text, parse_digest_name,
    sha3_256, sha3_512, DigestAlgorithm, HashError,
};

fn hex(bytes: &[u8]) -> String {
    bytes.iter().map(|b| format!("{b:02x}")).collect()
}

#[test]
fn digest_md5_of_abc() {
    assert_eq!(hex(&digest_text("abc", "md5").unwrap()), "900150983cd24fb0d6963f7d28e17f72");
}

#[test]
fn digest_sha1_of_abc() {
    assert_eq!(
        hex(&digest_bytea(b"abc", "sha1").unwrap()),
        "a9993e364706816aba3e25717850c26c9cd0d89d"
    );
}

#[test]
fn digest_sha256_name_forms() {
    let expected = "ba7816bf8f01cfea414140de5dae2223b00361a396177a9cb410ff61f20015ad";
    assert_eq!(hex(&digest_text("abc", "sha256").unwrap()), expected);
    assert_eq!(hex(&digest_text("abc", "SHA-256").unwrap()), expected);
    assert_eq!(hex(&digest_text("abc", "Sha2-56").unwrap()), expected);
}

#[test]
fn digest_output_lengths() {
    let cases = [
        ("md5", 16),
        ("sha1", 20),
        ("sha224", 28),
        ("sha256", 32),
        ("sha384", 48),
        ("sha512", 64),
        ("sha3-256", 32),
        ("sha3-512", 64),
        ("blake2b", 64),
        ("blake2b512", 64),
    ];
    for (name, len) in cases {
        assert_eq!(digest_bytea(b"data", name).unwrap().len(), len, "{name}");
    }
}

#[test]
fn digest_unknown_name() {
    assert_eq!(digest_text("abc", "sha999"), Err(HashError::UnknownDigest));
    assert_eq!(digest_text("abc", " sha256"), Err(HashError::UnknownDigest));
}

#[test]
fn digest_sha3_and_blake2b_helpers() {
    assert_eq!(
        hex(&sha3_256(b"")),
        "a7ffc6f8bf1ed76651c14756a061d662f580ff4de43b49fa82d80a4b80f8434a"
    );
    assert_eq!(sha3_512(b"abc"), digest_bytea(b"abc", "sha3-512").unwrap());
    assert_eq!(blake2b(b"abc"), digest_bytea(b"abc", "blake2b").unwrap());
    assert_eq!(
        hex(&blake2b(b"abc")),
        "ba80a53f981c4d0d6a2797b69f12f6e94c212f14685ac4b74b12bb6fdbffa2d1\
7d87c5392aab792dc252d5de4533cc9518d38aa8dbf1925ab92386edd4009923"
    );
}

#[test]
fn hmac_rfc4231_case2() {
    assert_eq!(
        hex(&hmac_text("what do ya want for nothing?", "Jefe", "sha256").unwrap()),
        "5bdcc146bf60754e6a042426089575c75a003f089d2739839dec58b964ec3843"
    );
}

#[test]
fn hmac_md5_rfc2104() {
    assert_eq!(
        hex(&hmac_bytea(b"what do ya want for nothing?", b"Jefe", "MD5").unwrap()),
        "750c783e6ab0b503eaa86e310a5db738"
    );
}

#[test]
fn hmac_sha3_length() {
    assert_eq!(hmac_bytea(b"m", b"k", "sha3-256").unwrap().len(), 32);
    assert_eq!(hmac_bytea(b"m", b"k", "sha3-512").unwrap().len(), 64);
}

#[test]
fn hmac_refuses_blake2b() {
    assert_eq!(hmac_bytea(b"m", b"k", "blake2b"), Err(HashError::UnknownHmac));
}

#[test]
fn digest_names_parse() {
    assert_eq!(parse_digest_name("SHA-512"), Some(DigestAlgorithm::Sha512));
    assert_eq!(parse_digest_name("sha3-256"), Some(DigestAlgorithm::Sha3_256));
    assert_eq!(parse_digest_name("whirlpool"), None);
}

#[test]
fn fips_mode_is_off() {
    assert!(!fips_mode());
}
