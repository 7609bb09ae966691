use pg_crypto::pgp_options::{
    parse_decrypt_options, parse_options, DecryptOptions, PgpCipher, PgpCompression,
    PgpOptionError, PgpOptions, S2kDigest,
};

fn defaults(text_input: bool) -> PgpOptions {
    PgpOptions {
        cipher: PgpCipher::Aes128,
        compression: PgpCompression::Uncompressed,
        compression_level: 6,
        text_input,
        unicode_mode: false,
        convert_crlf: false,
        s2k_mode: 3,
        s2k_count: None,
        s2k_digest: S2kDigest::Sha1,
        s2k_cipher: None,
        use_session_key: false,
    }
}

#[test]
fn options_empty_gives_defaults() {
    assert_eq!(parse_options("", true), Ok(defaults(true)));
    assert_eq!(parse_options(" , ,", false), Ok(defaults(false)));
}

#[test]
fn options_full_set() {
    let o = parse_options(
        "Cipher-Algo=AES256, compress-algo=2, compress-level=9, unicode-mode=1, convert-crlf=1, \
         s2k-mode=3, s2k-count=65536, s2k-digest-algo=MD5, s2k-cipher-algo=bf, sess-key=1, \
         disable-mdc=0, ignore-cipher-failure=1",
        true,
    )
    .unwrap();
    assert_eq!(
        o,
        PgpOptions {
            cipher: PgpCipher::Aes256,
            compression: PgpCompression::Zlib,
            compression_level: 9,
            text_input: true,
            unicode_mode: true,
            convert_crlf: true,
            s2k_mode: 3,
            s2k_count: Some(65536),
            s2k_digest: S2kDigest::Md5,
            s2k_cipher: Some(PgpCipher::Blowfish),
            use_session_key: true,
        }
    );
}

#[test]
fn options_cipher_names() {
    let c = |v: &str| parse_options(&format!("cipher-algo={v}"), false).map(|o| o.cipher);
    assert_eq!(c("bf"), Ok(PgpCipher::Blowfish));
    assert_eq!(c("blowfish"), Ok(PgpCipher::Blowfish));
    assert_eq!(c("aes"), Ok(PgpCipher::Aes128));
    assert_eq!(c("aes192"), Ok(PgpCipher::Aes192));
    assert_eq!(c(" 3DES "), Ok(PgpCipher::TripleDes));
    assert_eq!(c("cast5"), Ok(PgpCipher::Cast5));
    assert_eq!(c("idea"), Err(PgpOptionError::UnsupportedCipher));
}

#[test]
fn options_errors() {
    let e = |s: &str| parse_options(s, false).unwrap_err();
    assert_eq!(e("cipher-algo"), PgpOptionError::InvalidOption);
    assert_eq!(e("unicode-mode=yes"), PgpOptionError::NotBoolean);
    assert_eq!(e("compress-algo=3"), PgpOptionError::BadCompressAlgo);
    assert_eq!(e("compress-level=10"), PgpOptionError::BadCompressLevel);
    assert_eq!(e("compress-level=x"), PgpOptionError::BadCompressLevel);
    assert_eq!(e("s2k-mode=2"), PgpOptionError::BadS2kMode);
    assert_eq!(e("s2k-digest-algo=sha256"), PgpOptionError::UnsupportedS2kDigest);
    assert_eq!(e("s2k-cipher-algo=cast5"), PgpOptionError::UnsupportedS2kCipher);
    assert_eq!(e("s2k-cipher-algo=blowfish"), PgpOptionError::UnsupportedS2kCipher);
    assert_eq!(e("s2k-count=lots"), PgpOptionError::S2kCountNotInteger);
    assert_eq!(e("s2k-count=1023"), PgpOptionError::S2kCountRange);
    assert_eq!(e("s2k-count=65011713"), PgpOptionError::S2kCountRange);
    assert_eq!(e("disable-mdc=1"), PgpOptionError::MdcDisabled);
    assert_eq!(e("armor=1"), PgpOptionError::UnknownOption);
    assert_eq!(e("s2k-mode=1, s2k-count=2048"), PgpOptionError::S2kCountNeedsMode3);
}

#[test]
fn options_first_error_wins() {
    assert_eq!(
        parse_options("compress-algo=9, bogus=1", false),
        Err(PgpOptionError::BadCompressAlgo)
    );
}

#[test]
fn options_count_bounds_accepted() {
    assert_eq!(parse_options("s2k-count=1024", false).unwrap().s2k_count, Some(1024));
    assert_eq!(parse_options("s2k-count=65011712", false).unwrap().s2k_count, Some(65011712));
}

#[test]
fn decrypt_options_parse() {
    assert_eq!(parse_decrypt_options(""), Ok(DecryptOptions { convert_crlf: false }));
    assert_eq!(
        parse_decrypt_options("convert-crlf=1, cipher-algo=whatever, s2k-mode=9"),
        Ok(DecryptOptions { convert_crlf: true })
    );
    assert_eq!(parse_decrypt_options("convert-crlf=2"), Err(PgpOptionError::NotBoolean));
    assert_eq!(parse_decrypt_options("nonsense=1"), Err(PgpOptionError::UnknownOption));
    assert_eq!(parse_decrypt_options("convert-crlf"), Err(PgpOptionError::InvalidOption));
}

#[test]
fn encryption_options_accepted_by_decryption() {
    let s = "cipher-algo=aes256, compress-algo=2, compress-level=9, unicode-mode=1, \
             convert-crlf=1, s2k-mode=1, s2k-digest-algo=md5, s2k-cipher-algo=bf, sess-key=1, \
             disable-mdc=0, ignore-cipher-failure=0";
    assert!(parse_options(s, true).is_ok());
    assert_eq!(parse_decrypt_options(s), Ok(DecryptOptions { convert_crlf: true }));
}
