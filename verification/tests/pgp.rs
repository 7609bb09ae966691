#![allow(deprecated)]
use std::cell::Cell;
use std::io::Read;
use std::rc::Rc;

use pg_crypto::pgp::{
    make_s2k, crlf_decode, crlf_encode, decrypted_text, default_s2k_count, key_id_choice,
    key_id_from_packet_kinds, key_id_from_packets, payload, pgp_sym_encrypt,
    pgp_sym_encrypt_bytea, pub_encrypt_plan, s2k_count_from, sym_encrypt, unlock_secret_keys,
    PgpError,
};
use pg_crypto::pgp_engine::{
    S2kSpec, cipher_code, compression_code, digest_code, format_code, LiteralFormat, PacketKind,
};
use pg_crypto::pgp_options::{
    parse_options, DecryptOptions, PgpCipher, PgpCompression, PgpOptionError, S2kDigest,
};
use sequoia_openpgp as openpgp;
use openpgp::cert::CertBuilder;
use openpgp::crypto::{KeyPair, Password, SessionKey};
use openpgp::packet::{PKESK, SKESK};
use openpgp::parse::stream::{
    DecryptionHelper, DecryptorBuilder, MessageStructure, VerificationHelper,
};
use openpgp::parse::{PacketParser, Parse};
use openpgp::policy::StandardPolicy;
use openpgp::serialize::stream::{Encryptor, LiteralWriter, Message};
use std::io::Write;
use openpgp::serialize::MarshalInto;
use openpgp::types::{DataFormat, SymmetricAlgorithm};
use openpgp::{Cert, KeyHandle, Packet};

struct Helper {
    password: Option<Password>,
    pairs: Vec<KeyPair>,
    format: Rc<Cell<Option<DataFormat>>>,
}

impl VerificationHelper for Helper {
    fn inspect(&mut self, pp: &PacketParser) -> openpgp::Result<()> {
        if let Packet::Literal(l) = &pp.packet {
            self.format.set(Some(l.format()));
        }
        Ok(())
    }
    fn get_certs(&mut self, _ids: &[KeyHandle]) -> openpgp::Result<Vec<Cert>> {
        Ok(Vec::new())
    }
    fn check(&mut self, _structure: MessageStructure) -> openpgp::Result<()> {
        Ok(())
    }
}

impl DecryptionHelper for Helper {
    fn decrypt(
        &mut self,
        pkesks: &[PKESK],
        skesks: &[SKESK],
        sym_algo: Option<SymmetricAlgorithm>,
        decrypt: &mut dyn FnMut(Option<SymmetricAlgorithm>, &SessionKey) -> bool,
    ) -> openpgp::Result<Option<Cert>> {
        if let Some(password) = &self.password {
            for skesk in skesks {
                if let Ok((algo, key)) = skesk.decrypt(password) {
                    if decrypt(algo, &key) {
                        return Ok(None);
                    }
                }
            }
        }
        for pkesk in pkesks {
            for pair in &mut self.pairs {
                if let Some((algo, key)) = pkesk.decrypt(pair, sym_algo) {
                    if decrypt(algo, &key) {
                        return Ok(None);
                    }
                }
            }
        }
        Err(openpgp::Error::InvalidOperation("no key".into()).into())
    }
}

fn open(message: &[u8], password: Option<&str>, pairs: Vec<KeyPair>) -> (Vec<u8>, Option<DataFormat>) {
    let policy = StandardPolicy::new();
    let format = Rc::new(Cell::new(None));
    let helper = Helper {
        password: password.map(Password::from),
        pairs,
        format: Rc::clone(&format),
    };
    let mut reader = DecryptorBuilder::from_bytes(message)
        .unwrap()
        .with_policy(&policy, None, helper)
        .unwrap();
    let mut out = Vec::new();
    reader.read_to_end(&mut out).unwrap();
    (out, format.get())
}

fn test_cert(password: Option<&str>) -> Cert {
    CertBuilder::general_purpose(Some("alice@example.org"))
        .set_password(password.map(Password::from))
        .generate()
        .unwrap()
        .0
}

#[test]
fn pgp_sym_text_round_trip() {
    let message = pgp_sym_encrypt("hello\nworld", "secret", "").unwrap();
    let (plain, format) = open(&message, Some("secret"), Vec::new());
    assert_eq!(plain, b"hello\nworld");
    #[allow(deprecated)]
    let text = format == Some(DataFormat::Text);
    assert!(text);
    let text = decrypted_text(plain, LiteralFormat::Text, DecryptOptions { convert_crlf: false });
    assert_eq!(text.unwrap(), "hello\nworld");
}

#[test]
fn pgp_sym_bytea_is_binary() {
    let message = pgp_sym_encrypt_bytea(&[0, 1, 2, 255], "pw", "cipher-algo=aes256").unwrap();
    let (plain, format) = open(&message, Some("pw"), Vec::new());
    assert_eq!(plain, vec![0, 1, 2, 255]);
    assert_eq!(format, Some(DataFormat::Binary));
}

#[test]
fn pgp_sym_session_key_and_compression() {
    let opts = "sess-key=1, s2k-cipher-algo=aes192, compress-algo=2, compress-level=9, \
                s2k-mode=1, s2k-digest-algo=md5";
    let message = pgp_sym_encrypt("compressible compressible compressible", "pw", opts).unwrap();
    let (plain, _) = open(&message, Some("pw"), Vec::new());
    assert_eq!(plain, b"compressible compressible compressible");
}

#[test]
fn pgp_sym_s2k_modes() {
    for opts in ["s2k-mode=0", "s2k-mode=1", "s2k-mode=3, s2k-count=1024", "compress-algo=1"] {
        let message = pgp_sym_encrypt_bytea(b"data", "pw", opts).unwrap();
        assert_eq!(open(&message, Some("pw"), Vec::new()).0, b"data", "{opts}");
    }
}

#[test]
fn pgp_sym_unicode_and_crlf() {
    let message = pgp_sym_encrypt("a\nb", "pw", "unicode-mode=1, convert-crlf=1").unwrap();
    let (plain, format) = open(&message, Some("pw"), Vec::new());
    assert_eq!(plain, b"a\r\nb");
    assert_eq!(format, Some(DataFormat::Unicode));
    let text = decrypted_text(plain, LiteralFormat::Unicode, DecryptOptions { convert_crlf: true });
    assert_eq!(text.unwrap(), "a\nb");
}

#[test]
fn pgp_sym_errors() {
    assert_eq!(
        pgp_sym_encrypt("x", "pw", "s2k-cipher-algo=aes256"),
        Err(PgpError::S2kCipherNeedsSessionKey)
    );
    assert_eq!(
        pgp_sym_encrypt("x", "pw", "cipher-algo=rot13"),
        Err(PgpError::Option(PgpOptionError::UnsupportedCipher))
    );
    assert_eq!(
        sym_encrypt(b"x", "pw", "disable-mdc=1", false),
        Err(PgpError::Option(PgpOptionError::MdcDisabled))
    );
    assert!(pgp_sym_encrypt("x", "pw", "s2k-cipher-algo=aes128").is_ok());
}

#[test]
fn pgp_key_id_of_symmetric_message() {
    let message = pgp_sym_encrypt("x", "pw", "").unwrap();
    assert_eq!(key_id_from_packets(&message).unwrap(), "SYMKEY");
}

#[test]
fn pgp_key_id_without_session_key() {
    let literal = payload(b"plain", parse_options("", false).unwrap());
    assert_eq!(key_id_from_packets(&literal), Err(PgpError::NoSessionKey));
}

#[test]
fn pgp_key_id_choice_cases() {
    assert_eq!(key_id_choice(Ok(Some("ABCD".to_string())), b"").unwrap(), "ABCD");
    assert_eq!(key_id_choice(Ok(None), b""), Err(PgpError::NoUsableKey));
    let message = pgp_sym_encrypt_bytea(b"x", "pw", "").unwrap();
    assert_eq!(key_id_choice(Err(()), &message).unwrap(), "SYMKEY");
}

#[test]
fn pgp_key_id_first_session_key_packet_decides() {
    let ks = vec![PacketKind::Other, PacketKind::Pkesk(None), PacketKind::Skesk];
    assert_eq!(key_id_from_packet_kinds(&ks).unwrap(), "ANYKEY");
    let ks = vec![PacketKind::Other, PacketKind::Skesk, PacketKind::Pkesk(Some("12AB".into()))];
    assert_eq!(key_id_from_packet_kinds(&ks).unwrap(), "SYMKEY");
    let ks = vec![PacketKind::Pkesk(Some("12AB".into()))];
    assert_eq!(key_id_from_packet_kinds(&ks).unwrap(), "12AB");
    assert_eq!(key_id_from_packet_kinds(&vec![PacketKind::Other]), Err(PgpError::NoSessionKey));
}

#[test]
fn crlf_conversions() {
    assert_eq!(crlf_encode(b"a\nb\n"), b"a\r\nb\r\n");
    assert_eq!(crlf_encode(b"a\r\nb"), b"a\r\r\nb");
    assert_eq!(crlf_decode(b"a\r\nb\rc\r"), b"a\nb\rc\r");
    for sample in [&b""[..], b"\n", b"\r", b"\r\n", b"x\r\r\n\ny"] {
        assert_eq!(crlf_decode(&crlf_encode(sample)), sample);
    }
}

#[test]
fn decrypted_text_checks() {
    let none = DecryptOptions { convert_crlf: false };
    assert_eq!(decrypted_text(b"hi".to_vec(), LiteralFormat::Binary, none), Err(PgpError::NotText));
    assert_eq!(decrypted_text(b"hi".to_vec(), LiteralFormat::Unknown, none), Err(PgpError::NotText));
    assert_eq!(decrypted_text(b"h\0i".to_vec(), LiteralFormat::Text, none), Err(PgpError::NulByte));
    assert_eq!(
        decrypted_text(vec![0xff, 0xfe], LiteralFormat::Text, none),
        Err(PgpError::NotUtf8)
    );
    assert_eq!(decrypted_text("grüß".as_bytes().to_vec(), LiteralFormat::Unicode, none).unwrap(), "grüß");
    assert_eq!(
        decrypted_text(b"a\r\nb".to_vec(), LiteralFormat::Text, none).unwrap(),
        "a\r\nb"
    );
}

#[test]
fn s2k_count_values() {
    assert_eq!(s2k_count_from(&[0, 0, 0, 0]), 65536);
    assert_eq!(s2k_count_from(&[255, 255, 255, 255]), 67316);
    assert_eq!(s2k_count_from(&[1, 2, 3, 4]), 106652);
    let n = default_s2k_count().unwrap();
    assert!((65536..=253_952).contains(&n));
}

#[test]
fn payload_literal_packets() {
    let binary = payload(b"Hello world.", parse_options("", false).unwrap());
    assert_eq!(binary, b"\xcb\x12b\x00\x00\x00\x00\x00Hello world.".to_vec());
    let text = payload(b"Hello world.", parse_options("", true).unwrap());
    assert_eq!(text, b"\xcb\x12t\x00\x00\x00\x00\x00Hello world.".to_vec());
    let unicode = payload(b"a\nb", parse_options("unicode-mode=1, convert-crlf=1", true).unwrap());
    assert_eq!(unicode, b"\xcb\x0au\x00\x00\x00\x00\x00a\r\nb".to_vec());
    let bytes_crlf = payload(b"a\nb", parse_options("convert-crlf=1", false).unwrap());
    assert_eq!(bytes_crlf, b"\xcb\x09b\x00\x00\x00\x00\x00a\nb".to_vec());
}

#[test]
fn payload_compression_choice() {
    let mut o = parse_options("compress-algo=1, compress-level=0", false).unwrap();
    assert_eq!(o.compression, PgpCompression::Zip);
    let plain = payload(b"data", o);
    assert_eq!(plain[0], 0xcb);
    o.compression_level = 6;
    let zipped = payload(b"data", o);
    assert_eq!(zipped[0], 0xc8);
}

fn encrypt_to(cert: &Cert, data: &[u8]) -> Vec<u8> {
    let policy = StandardPolicy::new();
    let recipients = cert
        .keys()
        .with_policy(&policy, None)
        .supported()
        .alive()
        .revoked(false)
        .for_transport_encryption();
    let mut out = Vec::new();
    let message = Encryptor::for_recipients(Message::new(&mut out), recipients).build().unwrap();
    let mut w = LiteralWriter::new(message).build().unwrap();
    w.write_all(data).unwrap();
    w.finalize().unwrap();
    out
}

#[test]
fn pgp_pub_message_key_id_and_unlock() {
    let cert = test_cert(None);
    let secret = cert.as_tsk().to_vec().unwrap();
    let message = encrypt_to(&cert, b"to alice");
    let policy = StandardPolicy::new();
    let key = cert.keys().with_policy(&policy, None).for_transport_encryption().next().unwrap();
    let id = key_id_from_packets(&message).unwrap();
    assert!(id.ends_with(&key.key().keyid().to_hex()), "{id}");
    let pairs = unlock_secret_keys(&secret, "").unwrap();
    assert_eq!(open(&message, None, pairs).0, b"to alice");
}

#[test]
fn pub_plan_payload() {
    let cert = test_cert(None);
    let public = cert.to_vec().unwrap();
    let (o, inner) = pub_encrypt_plan(b"Hello world.", &public, "cipher-algo=aes256", false).unwrap();
    assert_eq!(o.cipher, PgpCipher::Aes256);
    assert_eq!(inner, b"\xcb\x12b\x00\x00\x00\x00\x00Hello world.".to_vec());
}

#[test]
fn pub_plan_errors() {
    let cert = test_cert(None);
    let secret = cert.as_tsk().to_vec().unwrap();
    assert_eq!(
        pub_encrypt_plan(b"x", &secret, "", false).unwrap_err(),
        PgpError::SecretKeyGiven
    );
    assert_eq!(
        pub_encrypt_plan(b"x", b"not a key", "", true).unwrap_err(),
        PgpError::InvalidKey
    );
    assert_eq!(
        pub_encrypt_plan(b"x", b"not a key", "compress-algo=7", false).unwrap_err(),
        PgpError::Option(PgpOptionError::BadCompressAlgo)
    );
}

#[test]
fn unlock_keys_with_password() {
    let cert = test_cert(Some("hunter2"));
    let secret = cert.as_tsk().to_vec().unwrap();
    let total = cert.keys().secret().count();
    assert_eq!(unlock_secret_keys(&secret, "hunter2").unwrap().len(), total);
    assert!(matches!(unlock_secret_keys(&secret, "wrong"), Err(PgpError::UnlockFailed)));
}

#[test]
fn unlock_keys_errors() {
    let cert = test_cert(None);
    let public = cert.to_vec().unwrap();
    assert!(matches!(unlock_secret_keys(&public, ""), Err(PgpError::NoKeyMaterial)));
    assert!(matches!(unlock_secret_keys(b"garbage", ""), Err(PgpError::InvalidKey)));
}

#[test]
fn pgp_algorithm_ids() {
    assert_eq!(cipher_code(PgpCipher::TripleDes), 2);
    assert_eq!(cipher_code(PgpCipher::Cast5), 3);
    assert_eq!(cipher_code(PgpCipher::Blowfish), 4);
    assert_eq!(cipher_code(PgpCipher::Aes128), 7);
    assert_eq!(cipher_code(PgpCipher::Aes256), 9);
    assert_eq!(digest_code(S2kDigest::Md5), 1);
    assert_eq!(compression_code(PgpCompression::Zlib), 2);
    assert_eq!(format_code(LiteralFormat::Unicode), b'u');
    assert_eq!(format_code(LiteralFormat::Unknown), b'b');
}

#[test]
fn pgp_sym_legacy_ciphers_round_trip() {
    for opts in ["cipher-algo=bf", "cipher-algo=cast5", "cipher-algo=3des", "cipher-algo=aes192"] {
        let message = pgp_sym_encrypt_bytea(b"legacy", "pw", opts).unwrap();
        let mut policy = StandardPolicy::new();
        for algo in [
            SymmetricAlgorithm::CAST5,
            SymmetricAlgorithm::TripleDES,
            SymmetricAlgorithm::Blowfish,
        ] {
            policy.accept_symmetric_algo(algo);
        }
        let format = Rc::new(Cell::new(None));
        let helper = Helper { password: Some("pw".into()), pairs: Vec::new(), format };
        let result = DecryptorBuilder::from_bytes(&message[..])
            .unwrap()
            .with_policy(&policy, None, helper)
            .map(|mut r| {
                let mut out = Vec::new();
                r.read_to_end(&mut out).map(|_| out)
            });
        let plain = result.unwrap().unwrap();
        assert_eq!(plain, b"legacy", "{opts}");
        assert_eq!(key_id_from_packets(&message).unwrap(), "SYMKEY");
    }
}

#[test]
fn make_s2k_follows_options() {
    match make_s2k(parse_options("s2k-mode=0, s2k-digest-algo=md5", false).unwrap()) {
        Ok(S2kSpec::Simple { hash }) => assert_eq!(hash, 1),
        other => panic!("{other:?}"),
    }
    match make_s2k(parse_options("s2k-mode=1", false).unwrap()) {
        Ok(S2kSpec::Salted { hash, .. }) => assert_eq!(hash, 2),
        other => panic!("{other:?}"),
    }
    match make_s2k(parse_options("s2k-count=100000", false).unwrap()) {
        Ok(S2kSpec::Iterated { hash, hash_bytes, .. }) => {
            assert_eq!(hash, 2);
            assert_eq!(hash_bytes, 102400);
        }
        other => panic!("{other:?}"),
    }
    match make_s2k(parse_options("s2k-count=1025", false).unwrap()) {
        Ok(S2kSpec::Iterated { hash_bytes, .. }) => assert_eq!(hash_bytes, 1088),
        other => panic!("{other:?}"),
    }
    match make_s2k(parse_options("", false).unwrap()) {
        Ok(S2kSpec::Iterated { hash_bytes, .. }) => assert!(hash_bytes >= 65536),
        other => panic!("{other:?}"),
    }
}

#[test]
fn sym_message_is_skesk_then_seip() {
    for opts in ["", "sess-key=1, s2k-cipher-algo=aes256", "cipher-algo=bf, s2k-mode=0"] {
        let message = pgp_sym_encrypt_bytea(b"payload", "pw", opts).unwrap();
        let pile = openpgp::PacketPile::from_bytes(&message).unwrap();
        let tops: Vec<_> = pile.children().collect();
        assert_eq!(tops.len(), 2, "{opts}");
        assert!(matches!(tops[0], Packet::SKESK(_)), "{opts}");
        assert!(matches!(tops[1], Packet::SEIP(_)), "{opts}");
        let skesk_len = tops[0].to_vec().unwrap().len();
        assert_eq!(message[skesk_len], 0xd2, "{opts}");
    }
}
