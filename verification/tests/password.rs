use pg_crypto::password::{crypt, gen_salt, PasswordError};

#[test]
fn crypt_matches_pwhash() {
    for salt in ["ab", "_J9..abcd", "$1$saltsalt", "$5$saltstring", "$6$rounds=5000$saltstring"] {
        assert_eq!(
            crypt("password", salt).unwrap(),
            pwhash::unix::crypt(b"password".as_slice(), salt).unwrap(),
            "{salt}"
        );
    }
}

#[test]
fn crypt_with_stored_hash_reproduces_it() {
    for algorithm in ["bf", "des", "xdes", "md5", "sha256crypt", "sha512crypt"] {
        let salt = gen_salt(algorithm, 0).unwrap();
        let stored = crypt("correct horse", &salt).unwrap();
        assert!(stored.starts_with(&salt[..2]), "{algorithm}");
        assert_eq!(crypt("correct horse", &stored).unwrap(), stored, "{algorithm}");
        assert_ne!(crypt("wrong horse", &stored).unwrap(), stored, "{algorithm}");
    }
}

#[test]
fn crypt_invalid_salt() {
    assert_eq!(crypt("pw", "!!"), Err(PasswordError::InvalidSalt));
}

#[test]
fn gen_salt_bf_shape() {
    let salt = gen_salt("bf", 0).unwrap();
    assert_eq!(salt.len(), 29);
    assert!(salt.starts_with("$2a$06$"));
    let salt = gen_salt("BF", 10).unwrap();
    assert!(salt.starts_with("$2a$10$"));
}

#[test]
fn gen_salt_des_xdes_md5_shapes() {
    assert_eq!(gen_salt("des", 0).unwrap().len(), 2);
    assert_eq!(gen_salt("des", 25).unwrap().len(), 2);
    let x = gen_salt("xdes", 0).unwrap();
    assert_eq!(x.len(), 9);
    assert!(x.starts_with('_'));
    let m = gen_salt("md5", 1000).unwrap();
    assert!(m.starts_with("$1$"));
    assert!(m.ends_with('$'));
    assert_eq!(m.matches('$').count(), 3);
}

#[test]
fn gen_salt_sha_shapes() {
    let s = gen_salt("sha256crypt", 0).unwrap();
    assert!(s.starts_with("$5$"));
    assert!(s.ends_with('$'));
    let s = gen_salt("sha512crypt", 10000).unwrap();
    assert!(s.starts_with("$6$rounds=10000$"));
    assert!(s.ends_with('$'));
}

#[test]
fn gen_salt_count_errors() {
    assert_eq!(gen_salt("bf", 3), Err(PasswordError::BcryptCost));
    assert_eq!(gen_salt("bf", 32), Err(PasswordError::BcryptCost));
    assert_eq!(gen_salt("des", 5), Err(PasswordError::DesRounds));
    assert_eq!(gen_salt("xdes", 2), Err(PasswordError::XdesRounds));
    assert_eq!(gen_salt("xdes", 16_777_217), Err(PasswordError::XdesRounds));
    assert_eq!(gen_salt("md5", 5), Err(PasswordError::Md5Rounds));
    assert_eq!(gen_salt("sha256crypt", 999), Err(PasswordError::ShaRounds));
    assert_eq!(gen_salt("sha512crypt", -1), Err(PasswordError::NegativeRounds));
    assert_eq!(gen_salt("xdes", -3), Err(PasswordError::NegativeRounds));
}

#[test]
fn gen_salt_unknown_algorithm() {
    assert_eq!(gen_salt("sha1crypt", 0), Err(PasswordError::UnknownAlgorithm));
    assert_eq!(gen_salt("", 0), Err(PasswordError::UnknownAlgorithm));
}

#[test]
fn gen_salt_xdes_encodes_rounds() {
    assert!(gen_salt("xdes", 0).unwrap().starts_with("_J9.."));
    assert!(gen_salt("xdes", 725).unwrap().starts_with("_J9.."));
    assert!(gen_salt("xdes", 1).unwrap().starts_with("_/..."));
    assert!(gen_salt("xdes", 7251).unwrap().starts_with("_Hl/."));
}

#[test]
fn crypt_refuses_control_characters() {
    assert_eq!(crypt("x", "\t\t"), Err(PasswordError::InvalidSalt));
    assert_eq!(crypt("x", "$1$\u{1}salt"), Err(PasswordError::InvalidSalt));
}
