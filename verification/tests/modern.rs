use pg_crypto::modern::{
    argon2id_hash, argon2id_verify, box_seal, box_seal_open, ed25519_sign, ed25519_verify,
    hkdf_sha256, hkdf_sha512, secretbox, secretbox_open, validate_hkdf_length,
    x25519, xchacha20poly1305_decrypt, xchacha20poly1305_encrypt, Field, ModernError,
};

fn hex(bytes: &[u8]) -> String {
    bytes.iter().map(|b| format!("{b:02x}")).collect()
}

fn unhex(s: &str) -> Vec<u8> {
    (0..s.len()).step_by(2).map(|i| u8::from_str_radix(&s[i..i + 2], 16).unwrap()).collect()
}

fn base_point() -> Vec<u8> {
    let mut b = vec![0u8; 32];
    b[0] = 9;
    b
}

#[test]
fn argon2id_hash_then_verify() {
    let h = argon2id_hash("hunter2").unwrap();
    assert!(h.starts_with("$argon2id$"));
    assert!(argon2id_verify("hunter2", &h));
    assert!(!argon2id_verify("hunter3", &h));
}

#[test]
fn argon2id_verify_rejects_garbage() {
    assert!(!argon2id_verify("pw", "not a hash"));
}

#[test]
fn xchacha_round_trip_and_layout() {
    let key = [7u8; 32];
    let env = xchacha20poly1305_encrypt(b"attack at dawn", &key, b"header").unwrap();
    assert_eq!(env.len(), 14 + 40);
    assert_eq!(xchacha20poly1305_decrypt(&env, &key, b"header").unwrap(), b"attack at dawn");
    assert_eq!(
        xchacha20poly1305_decrypt(&env, &key, b"other"),
        Err(ModernError::AuthenticationFailed)
    );
    let mut tampered = env.clone();
    tampered[30] ^= 1;
    assert_eq!(
        xchacha20poly1305_decrypt(&tampered, &key, b"header"),
        Err(ModernError::AuthenticationFailed)
    );
}

#[test]
fn xchacha_length_errors() {
    assert_eq!(
        xchacha20poly1305_encrypt(b"x", &[0u8; 31], b""),
        Err(ModernError::WrongLength(Field::AeadKey))
    );
    assert_eq!(
        xchacha20poly1305_decrypt(&[0u8; 39], &[0u8; 32], b""),
        Err(ModernError::InvalidEnvelope)
    );
}

#[test]
fn secretbox_round_trip_and_errors() {
    let key = [3u8; 32];
    let env = secretbox(b"secret", &key).unwrap();
    assert_eq!(env.len(), 6 + 40);
    assert_eq!(secretbox_open(&env, &key).unwrap(), b"secret");
    assert_eq!(secretbox_open(&env, &[4u8; 32]), Err(ModernError::AuthenticationFailed));
    assert_eq!(secretbox_open(&env[..39], &key), Err(ModernError::SecretboxTooShort));
    assert_eq!(secretbox(b"x", &[0u8; 16]), Err(ModernError::WrongLength(Field::SecretboxKey)));
}

#[test]
fn box_seal_round_trip() {
    let sk = [0x42u8; 32];
    let pk = x25519(&sk, &base_point()).unwrap();
    let sealed = box_seal(b"to the recipient", &pk).unwrap();
    assert_eq!(sealed.len(), 16 + 48);
    assert_eq!(box_seal_open(&sealed, &pk, &sk).unwrap(), b"to the recipient");
    let other = [0x43u8; 32];
    let other_pk = x25519(&other, &base_point()).unwrap();
    assert_eq!(
        box_seal_open(&sealed, &other_pk, &other),
        Err(ModernError::AuthenticationFailed)
    );
    assert_eq!(box_seal_open(&sealed[..47], &pk, &sk), Err(ModernError::SealedBoxTooShort));
    assert_eq!(box_seal(b"x", &[0u8; 31]), Err(ModernError::WrongLength(Field::X25519PublicKey)));
}

#[test]
fn ed25519_rfc8032_vector() {
    let seed = "9d61b19deffd5a60ba844af492ec2cc44449c5697b326919703bac031cae7f60";
    let public = "d75a980182b10ab7d54bfed3c964073a0ee172f3daa62325af021a68f707511a";
    let secret = unhex(&format!("{seed}{public}"));
    let sig = ed25519_sign(b"", &secret).unwrap();
    assert_eq!(
        hex(&sig),
        "e5564300c360ac729086e2cc806e828a84877f1eb8e5d974d873e065224901555fb8821590a33bacc61e39701cf9b46bd25bf5f0595bbe24655141438e7a100b"
    );
    assert_eq!(ed25519_verify(b"", &sig, &unhex(public)), Ok(true));
    assert_eq!(ed25519_verify(b"x", &sig, &unhex(public)), Ok(false));
}

#[test]
fn ed25519_length_errors() {
    assert_eq!(ed25519_sign(b"m", &[0u8; 32]), Err(ModernError::WrongLength(Field::Ed25519SecretKey)));
    assert_eq!(
        ed25519_verify(b"m", &[0u8; 63], &[0u8; 32]),
        Err(ModernError::WrongLength(Field::Ed25519Signature))
    );
    assert_eq!(
        ed25519_verify(b"m", &[0u8; 64], &[0u8; 33]),
        Err(ModernError::WrongLength(Field::Ed25519PublicKey))
    );
}

#[test]
fn x25519_rfc7748_vector() {
    let alice = unhex("77076d0a7318a57d3c16c17251b26645df4c2f87ebc0992ab177fba51db92c2a");
    let bob_pk = unhex("de9edb7d7b7dc1b4d35b61c2ece435373f8343c85b78674dadfc7e146f882b4f");
    assert_eq!(
        hex(&x25519(&alice, &bob_pk).unwrap()),
        "4a5d9d5ba4ce2de1728e3bf480350f25e07e21c947d19e3376f09b3c1e161742"
    );
    assert_eq!(
        hex(&x25519(&alice, &base_point()).unwrap()),
        "8520f0098930a754748b7ddcb43ef75a0dbf3a0d26381af4eba4a98eaa9b4e6a"
    );
}

#[test]
fn x25519_errors() {
    assert_eq!(x25519(&[1u8; 31], &[1u8; 32]), Err(ModernError::WrongLength(Field::X25519SecretKey)));
    assert_eq!(x25519(&[1u8; 32], &[1u8; 3]), Err(ModernError::WrongLength(Field::X25519PublicKey)));
    assert_eq!(x25519(&[1u8; 32], &[0u8; 32]), Err(ModernError::KeyAgreementFailed));
}

#[test]
fn hkdf_rfc5869_case1() {
    let ikm = [0x0bu8; 22];
    let salt = unhex("000102030405060708090a0b0c");
    let info = unhex("f0f1f2f3f4f5f6f7f8f9");
    assert_eq!(
        hex(&hkdf_sha256(&ikm, &salt, &info, 42).unwrap()),
        "3cb25f25faacd57a90434f64d0362f2a2d2d0a90cf1a5a4c5db02d56ecc4c5bf34007208d5b887185865"
    );
}

#[test]
fn hkdf_lengths() {
    assert_eq!(hkdf_sha512(b"k", b"s", b"i", 100).unwrap().len(), 100);
    assert_eq!(hkdf_sha512(b"k", b"s", b"i", 16320).unwrap().len(), 16320);
    assert_eq!(hkdf_sha256(b"k", b"s", b"i", 8160).unwrap().len(), 8160);
    assert_eq!(hkdf_sha256(b"k", b"s", b"i", 8161), Err(ModernError::HkdfTooLarge));
    assert_eq!(hkdf_sha256(b"k", b"s", b"i", 0), Err(ModernError::HkdfLength));
    assert_eq!(hkdf_sha512(b"k", b"s", b"i", 16321), Err(ModernError::HkdfLength));
    assert_eq!(validate_hkdf_length(-5), Err(ModernError::HkdfLength));
    assert_eq!(validate_hkdf_length(7), Ok(7));
}
