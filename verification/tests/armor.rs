use pg_crypto::armor::{armor, armor_with_headers, dearmor, pgp_armor_headers, ArmorError};

fn some(v: &[&str]) -> Vec<Option<String>> {
    v.iter().map(|s| Some(s.to_string())).collect()
}

#[test]
fn armor_then_dearmor() {
    let text = armor(b"binary \x00\x01\x02 data").unwrap();
    assert!(text.starts_with("-----BEGIN PGP MESSAGE-----"));
    assert!(text.trim_end().ends_with("-----END PGP MESSAGE-----"));
    assert_eq!(dearmor(&text).unwrap(), b"binary \x00\x01\x02 data");
}

#[test]
fn armor_headers_round_trip() {
    let text = armor_with_headers(
        b"payload",
        &some(&["Comment", "Version"]),
        1,
        &some(&["first", "second"]),
        1,
    )
    .unwrap();
    assert!(text.contains("Comment: first"));
    assert!(text.contains("Version: second"));
    let headers = pgp_armor_headers(&text).unwrap();
    assert_eq!(
        headers,
        vec![
            ("Comment".to_string(), "first".to_string()),
            ("Version".to_string(), "second".to_string())
        ]
    );
    assert_eq!(dearmor(&text).unwrap(), b"payload");
}

#[test]
fn armor_without_headers_has_none() {
    let text = armor(b"abc").unwrap();
    assert_eq!(pgp_armor_headers(&text).unwrap(), vec![]);
}

#[test]
fn armor_header_null_errors() {
    assert_eq!(
        armor_with_headers(b"x", &vec![None], 1, &some(&["v"]), 1),
        Err(ArmorError::NullKey)
    );
    assert_eq!(
        armor_with_headers(b"x", &some(&["k"]), 1, &vec![None], 1),
        Err(ArmorError::NullValue)
    );
}

#[test]
fn armor_header_shape_errors() {
    assert_eq!(
        armor_with_headers(b"x", &some(&["k"]), 2, &some(&["v"]), 2),
        Err(ArmorError::WrongSubscripts)
    );
    assert_eq!(
        armor_with_headers(b"x", &some(&["k"]), 1, &some(&["v"]), 0),
        Err(ArmorError::WrongSubscripts)
    );
    assert_eq!(
        armor_with_headers(b"x", &some(&["k", "l"]), 1, &some(&["v"]), 1),
        Err(ArmorError::MismatchedLengths)
    );
}

#[test]
fn armor_header_content_errors() {
    let check = |k: &str, v: &str| armor_with_headers(b"x", &some(&[k]), 1, &some(&[v]), 1);
    assert_eq!(check("Kéy", "v"), Err(ArmorError::KeyNotAscii));
    assert_eq!(check("a: b", "v"), Err(ArmorError::KeyHasColonSpace));
    assert_eq!(check("a\nb", "v"), Err(ArmorError::KeyHasNewline));
    assert_eq!(check("k", "välue"), Err(ArmorError::ValueNotAscii));
    assert_eq!(check("k", "a\nb"), Err(ArmorError::ValueHasNewline));
    assert!(check("a:b", "c: d").is_ok());
}

#[test]
fn armor_first_faulty_header_decides() {
    assert_eq!(
        armor_with_headers(b"x", &some(&["ok", "a: b", "é"]), 1, &some(&["1", "2", "3"]), 1),
        Err(ArmorError::KeyHasColonSpace)
    );
}

#[test]
fn dearmor_refuses_bad_armor() {
    let text = "-----BEGIN PGP MESSAGE-----\n\n!!!! not base64 !!!!\n-----END PGP MESSAGE-----\n";
    assert_eq!(dearmor(text), Err(ArmorError::InvalidArmor));
}

#[test]
fn armor_of_empty_data_is_empty() {
    assert_eq!(armor(b"").unwrap(), "");
}
