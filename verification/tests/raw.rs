use pg_crypto::raw::{
    decrypt, decrypt_iv, encrypt, encrypt_iv, parse_type, unpadded_block_size, CipherAlgorithm,
    CipherMode, CipherType, Padding, RawError,
};

fn hex(bytes: &[u8]) -> String {
    bytes.iter().map(|b| format!("{b:02x}")).collect()
}

fn unhex(s: &str) -> Vec<u8> {
    (0..s.len()).step_by(2).map(|i| u8::from_str_radix(&s[i..i + 2], 16).unwrap()).collect()
}

fn seq_bytes(n: u8) -> Vec<u8> {
    (0..n).collect()
}

#[test]
fn raw_aes128_ecb_fips197() {
    let data = unhex("00112233445566778899aabbccddeeff");
    let out = encrypt(&data, &seq_bytes(16), "aes-ecb/pad:none").unwrap();
    assert_eq!(hex(&out), "69c4e0d86a7b0430d8cdb78070b4c55a");
    assert_eq!(decrypt(&out, &seq_bytes(16), "aes-ecb/pad:none").unwrap(), data);
}

#[test]
fn raw_aes192_and_aes256_by_key_length() {
    let data = unhex("00112233445566778899aabbccddeeff");
    assert_eq!(
        hex(&encrypt(&data, &seq_bytes(24), "AES-ECB/PAD:NONE").unwrap()),
        "dda97ca4864cdfe06eaf70a0ec0d7191"
    );
    assert_eq!(
        hex(&encrypt(&data, &seq_bytes(32), "rijndael-ecb/pad:none").unwrap()),
        "8ea2b7ca516745bfeafc49904b496089"
    );
}

#[test]
fn raw_short_aes_key_is_zero_padded() {
    let data = b"sixteen byte msg";
    let short = encrypt(data, &[1, 2, 3, 4, 5], "aes").unwrap();
    let mut full = vec![1, 2, 3, 4, 5];
    full.resize(16, 0);
    assert_eq!(short, encrypt(data, &full, "aes").unwrap());
    let mut mid = vec![9u8; 20];
    let a = encrypt(data, &mid, "aes").unwrap();
    mid.resize(24, 0);
    assert_eq!(a, encrypt(data, &mid, "aes").unwrap());
}

#[test]
fn raw_aes_key_too_long() {
    assert_eq!(encrypt(b"x", &[0u8; 33], "aes"), Err(RawError::AesKeyTooLong));
    assert_eq!(decrypt(&[0u8; 16], &[0u8; 33], "aes"), Err(RawError::AesKeyTooLong));
}

#[test]
fn raw_cbc_with_zero_iv_first_block_matches_ecb() {
    let data = unhex("00112233445566778899aabbccddeeff");
    let cbc = encrypt(&data, &seq_bytes(16), "aes-cbc/pad:none").unwrap();
    assert_eq!(hex(&cbc), "69c4e0d86a7b0430d8cdb78070b4c55a");
    let iv_zero = encrypt_iv(&data, &seq_bytes(16), &[], "aes-cbc/pad:none").unwrap();
    assert_eq!(cbc, iv_zero);
}

#[test]
fn raw_pkcs_padding_adds_a_block() {
    let data = [7u8; 16];
    let out = encrypt(&data, b"key", "aes").unwrap();
    assert_eq!(out.len(), 32);
    assert_eq!(decrypt(&out, b"key", "aes").unwrap(), data.to_vec());
    let out = encrypt(b"hello", b"key", "aes-cbc/pad:pkcs").unwrap();
    assert_eq!(out.len(), 16);
    assert_eq!(decrypt(&out, b"key", "aes-cbc").unwrap(), b"hello".to_vec());
}

#[test]
fn raw_iv_changes_cbc_output() {
    let a = encrypt_iv(b"hello world", b"key", b"0123456789abcdef", "aes-cbc").unwrap();
    let b = encrypt(b"hello world", b"key", "aes-cbc").unwrap();
    assert_ne!(a, b);
    assert_eq!(decrypt_iv(&a, b"key", b"0123456789abcdef", "aes-cbc").unwrap(), b"hello world");
}

#[test]
fn raw_cfb_keeps_length() {
    for t in ["aes-cfb", "aes-cfb/pad:none", "bf-cfb", "blowfish-cfb/pad:pkcs"] {
        let out = encrypt_iv(b"hello", b"secret key", b"iv", t).unwrap();
        assert_eq!(out.len(), 5, "{t}");
        assert_eq!(decrypt_iv(&out, b"secret key", b"iv", t).unwrap(), b"hello", "{t}");
    }
}

#[test]
fn raw_blowfish_zero_vector() {
    let out = encrypt(&[0u8; 8], &[0u8; 8], "bf-ecb/pad:none").unwrap();
    assert_eq!(hex(&out), "4ef997456198dd78");
}

#[test]
fn raw_blowfish_key_rules() {
    let data = b"blowfish data";
    assert_eq!(
        encrypt(data, b"ab", "bf").unwrap(),
        encrypt(data, b"abab", "bf").unwrap()
    );
    let long = [5u8; 60];
    assert_eq!(
        encrypt(data, &long, "bf-cbc").unwrap(),
        encrypt(data, &long[..56], "bf-cbc").unwrap()
    );
    assert_eq!(encrypt(data, b"", "bf"), Err(RawError::InvalidBlowfishKey));
}

#[test]
fn raw_type_errors() {
    assert_eq!(encrypt(b"x", b"k", "aes/pad:zero"), Err(RawError::BadPadding));
    assert_eq!(encrypt(b"x", b"k", "des"), Err(RawError::UnknownCipher));
    assert_eq!(encrypt(b"x", b"k", "aes-ofb"), Err(RawError::UnknownCipher));
}

#[test]
fn raw_decrypt_errors() {
    assert_eq!(decrypt(&[0u8; 15], b"k", "aes/pad:none"), Err(RawError::NotBlockAligned));
    assert_eq!(decrypt(&[0u8; 15], b"k", "aes"), Err(RawError::BadCiphertext));
    assert_eq!(decrypt(&[0u8; 7], b"k", "bf-ecb"), Err(RawError::BadCiphertext));
}

#[test]
fn raw_parse_type_forms() {
    assert_eq!(
        parse_type("BF-ECB/pad:none"),
        Ok(CipherType {
            algorithm: CipherAlgorithm::Blowfish,
            mode: CipherMode::Ecb,
            padding: Padding::NoPad,
        })
    );
    assert_eq!(
        parse_type("rijndael"),
        Ok(CipherType {
            algorithm: CipherAlgorithm::Aes,
            mode: CipherMode::Cbc,
            padding: Padding::Pkcs,
        })
    );
}

#[test]
fn raw_unpadded_block_sizes() {
    assert_eq!(unpadded_block_size("aes-ecb/pad:none"), Some(16));
    assert_eq!(unpadded_block_size("bf/pad:none"), Some(8));
    assert_eq!(unpadded_block_size("aes"), None);
    assert_eq!(unpadded_block_size("aes-cfb/pad:none"), None);
}
