//! Calls of Sequoia OpenPGP that build the packets of an encrypted message:
//! string-to-key specifiers, session key packets, literal and compressed
//! packets, and the encryption container. Algorithms cross as their
//! OpenPGP IDs and packets as serialized bytes; the randomness Sequoia
//! draws leaves most results unnamed.
#![allow(deprecated)]
use crate::pgp_options::{cipher_spec, PgpCipher, PgpCompression, S2kDigest};
use crate::text::{lower_seq, trim};
use sequoia_openpgp as openpgp;
use openpgp::crypto::{KeyPair, Password, SessionKey, S2K};
use openpgp::packet::skesk::SKESK4;
use openpgp::parse::Parse;
use openpgp::policy::NullPolicy;
use openpgp::serialize::stream::{Compressor, Encryptor, LiteralWriter, Message};
use openpgp::serialize::MarshalInto;
use openpgp::types::{CompressionAlgorithm, CompressionLevel, DataFormat, SymmetricAlgorithm};
use openpgp::{Cert, Packet, PacketPile};
use std::io::Write;
use vstd::prelude::*;

verus! {

/// A string-to-key specifier as plain values (RFC 4880, section 3.7.1):
/// `hash` is the digest's algorithm ID, `hash_bytes` the number of bytes
/// that the iterated mode hashes.
#[derive(Clone, Copy, Debug)]
pub enum S2kSpec {
    Simple { hash: u8 },
    Salted { hash: u8, salt: [u8; 8] },
    Iterated { hash: u8, salt: [u8; 8], hash_bytes: u32 },
}

#[verifier::external_type_specification]
#[verifier::external_body]
pub struct ExNullPolicy(NullPolicy);

#[verifier::external_type_specification]
#[verifier::external_body]
pub struct ExKeyPair(KeyPair);

/// How the body of a literal packet is marked.
#[derive(Clone, Copy, Debug, PartialEq, Eq, Structural)]
pub enum LiteralFormat {
    Binary,
    Text,
    Unicode,
    /// Any other marker, or no literal packet at all.
    Unknown,
}

/// Which step of making a packet failed.
#[derive(Clone, Copy, Debug, PartialEq, Eq, Structural)]
pub enum PacketFault {
    Build,
    Serialize,
}

/// Which step of the encryption container failed.
#[derive(Clone, Copy, Debug, PartialEq, Eq, Structural)]
pub enum SealFault {
    Setup,
    Write,
}

/// A packet of a parsed OpenPGP message, as far as `pgp_key_id` reads it.
#[derive(Debug)]
pub enum PacketKind {
    /// A public-key encrypted session key packet, with the key ID of its
    /// recipient in hexadecimal where it names one.
    Pkesk(Option<String>),
    /// A symmetric-key encrypted session key packet.
    Skesk,
    Other,
}

/// The tag and recipient of a packet: 0 for other packets, 1 for SKESK, 2
/// for PKESK.
pub open spec fn kind_view(k: PacketKind) -> (u8, Option<Seq<char>>) {
    match k {
        PacketKind::Pkesk(Some(id)) => (2, Some(id@)),
        PacketKind::Pkesk(None) => (2, None),
        PacketKind::Skesk => (1, None),
        PacketKind::Other => (0, None),
    }
}

pub open spec fn kinds_view(ks: Seq<PacketKind>) -> Seq<(u8, Option<Seq<char>>)> {
    ks.map_values(|k: PacketKind| kind_view(k))
}

/// The algorithm ID that OpenPGP gives a cipher (RFC 4880, section 9.2).
pub open spec fn cipher_id(c: PgpCipher) -> u8 {
    match c {
        PgpCipher::TripleDes => 2,
        PgpCipher::Cast5 => 3,
        PgpCipher::Blowfish => 4,
        PgpCipher::Aes128 => 7,
        PgpCipher::Aes192 => 8,
        PgpCipher::Aes256 => 9,
    }
}

/// The OpenPGP ID of a cipher.
pub fn cipher_code(c: PgpCipher) -> (id: u8)
    ensures
        id == cipher_id(c),
{
    match c {
        PgpCipher::TripleDes => 2,
        PgpCipher::Cast5 => 3,
        PgpCipher::Blowfish => 4,
        PgpCipher::Aes128 => 7,
        PgpCipher::Aes192 => 8,
        PgpCipher::Aes256 => 9,
    }
}

/// The cipher that `cipher-algo` names (in any letter case, blanks
/// around it aside) goes to OpenPGP under its algorithm ID of RFC 4880,
/// section 9.2, and takes a session key of its key length: `3des` ID 2 and
/// 24 bytes, `cast5` 3 and 16, `bf` or `blowfish` 4 and 16, `aes` or
/// `aes128` 7 and 16, `aes192` 8 and 24, `aes256` 9 and 32.
pub proof fn lemma_cipher_algo_ids(value: Seq<char>)
    ensures
        lower_seq(trim(value)) == "3des"@ ==> (cipher_spec(value) matches Ok(c) && cipher_id(c) == 2
            && key_size_of(cipher_id(c)) == 24),
        lower_seq(trim(value)) == "cast5"@ ==> (cipher_spec(value) matches Ok(c) && cipher_id(c)
            == 3 && key_size_of(cipher_id(c)) == 16),
        lower_seq(trim(value)) == "bf"@ || lower_seq(trim(value)) == "blowfish"@ ==> (cipher_spec(
            value,
        ) matches Ok(c) && cipher_id(c) == 4 && key_size_of(cipher_id(c)) == 16),
        lower_seq(trim(value)) == "aes"@ || lower_seq(trim(value)) == "aes128"@ ==> (cipher_spec(
            value,
        ) matches Ok(c) && cipher_id(c) == 7 && key_size_of(cipher_id(c)) == 16),
        lower_seq(trim(value)) == "aes192"@ ==> (cipher_spec(value) matches Ok(c) && cipher_id(c)
            == 8 && key_size_of(cipher_id(c)) == 24),
        lower_seq(trim(value)) == "aes256"@ ==> (cipher_spec(value) matches Ok(c) && cipher_id(c)
            == 9 && key_size_of(cipher_id(c)) == 32),
{
    let v = lower_seq(trim(value));
    reveal_strlit("bf");
    reveal_strlit("blowfish");
    reveal_strlit("aes");
    reveal_strlit("aes128");
    reveal_strlit("aes192");
    reveal_strlit("aes256");
    reveal_strlit("3des");
    reveal_strlit("cast5");
    if v.len() == 6 {
        if v == "aes192"@ {
            assert(v[4] != "aes128"@[4]);
        }
        if v == "aes256"@ {
            assert(v[3] != "aes128"@[3] && v[3] != "aes192"@[3]);
        }
    }
}

/// Distinct ciphers have distinct OpenPGP IDs, each one that the options
/// can name.
pub proof fn lemma_cipher_ids_distinct(a: PgpCipher, b: PgpCipher)
    ensures
        cipher_id(a) == cipher_id(b) ==> a == b,
        is_cipher_id(cipher_id(a)),
{
}

/// The algorithm ID of an S2K digest (RFC 4880, section 9.4).
pub open spec fn digest_id(d: S2kDigest) -> u8 {
    match d {
        S2kDigest::Md5 => 1,
        S2kDigest::Sha1 => 2,
    }
}

/// The OpenPGP ID of an S2K digest.
pub fn digest_code(d: S2kDigest) -> (id: u8)
    ensures
        id == digest_id(d),
{
    match d {
        S2kDigest::Md5 => 1,
        S2kDigest::Sha1 => 2,
    }
}

/// The algorithm ID of a compression algorithm (RFC 4880, section 9.3).
pub open spec fn compression_id(c: PgpCompression) -> u8 {
    match c {
        PgpCompression::Uncompressed => 0,
        PgpCompression::Zip => 1,
        PgpCompression::Zlib => 2,
    }
}

/// The OpenPGP ID of a compression algorithm.
pub fn compression_code(c: PgpCompression) -> (id: u8)
    ensures
        id == compression_id(c),
{
    match c {
        PgpCompression::Uncompressed => 0,
        PgpCompression::Zip => 1,
        PgpCompression::Zlib => 2,
    }
}

/// The format octet of a literal packet (RFC 4880, section 5.9): `b`, `t`
/// or `u`; an unknown marker is written as binary.
pub open spec fn format_id(f: LiteralFormat) -> u8 {
    match f {
        LiteralFormat::Text => 116,
        LiteralFormat::Unicode => 117,
        _ => 98,
    }
}

/// The format octet of a literal packet.
pub fn format_code(f: LiteralFormat) -> (id: u8)
    ensures
        id == format_id(f),
{
    match f {
        LiteralFormat::Text => 116,
        LiteralFormat::Unicode => 117,
        _ => 98,
    }
}

/// The IDs of the ciphers that the options can name.
pub open spec fn is_cipher_id(id: u8) -> bool {
    id == 2 || id == 3 || id == 4 || id == 7 || id == 8 || id == 9
}

/// The key length in bytes of the cipher with the ID, as
/// `SymmetricAlgorithm::key_size` gives it for these ciphers.
pub open spec fn key_size_of(id: u8) -> nat {
    if id == 2 || id == 8 {
        24
    } else if id == 9 {
        32
    } else {
        16
    }
}

/// `openpgp::crypto::random` into a buffer of `n` bytes.
#[verifier::external_body]
pub(crate) fn random_bytes(n: usize) -> (out: Option<Vec<u8>>)
    ensures
        out matches Some(b) ==> b@.len() == n,
{
    let mut buf = vec![0u8; n];
    openpgp::crypto::random(&mut buf).ok()?;
    Some(buf)
}

/// `SymmetricAlgorithm::key_size` of the cipher with the ID, which knows
/// each of these ciphers.
#[verifier::external_body]
pub(crate) fn cipher_key_size(cipher: u8) -> (n: usize)
    requires
        is_cipher_id(cipher),
    ensures
        n == key_size_of(cipher),
{
    SymmetricAlgorithm::from(cipher).key_size().unwrap()
}

/// `openpgp::crypto::random` into an 8-byte salt.
#[verifier::external_body]
pub(crate) fn random_salt() -> Option<[u8; 8]> {
    let mut salt = [0u8; 8];
    openpgp::crypto::random(&mut salt).ok()?;
    Some(salt)
}

/// The number of hashed bytes that the one-octet count `c` encodes
/// (RFC 4880, section 3.7.1.3): `(16 + c % 16) << (c / 16 + 6)`.
pub open spec fn decoded_count(c: nat) -> nat {
    (16 + c % 16) * vstd::arithmetic::power2::pow2(c / 16 + 6)
}

/// The first encodable count from code `c` on that is at least `n`.
pub open spec fn first_count_from(n: nat, c: nat) -> nat
    decreases 256 - c,
{
    if c >= 256 {
        0x3e00000
    } else if decoded_count(c) >= n {
        decoded_count(c)
    } else {
        first_count_from(n, c + 1)
    }
}

/// The count that Sequoia's `nearest_hash_count` gives for a requested
/// number of hashed bytes: the smallest encodable one at or above it
/// (1024 up to 1024), and 0x3e00000 above that.
pub open spec fn nearest_count(n: nat) -> nat {
    if n <= 1024 {
        1024
    } else if n > 0x3e00000 {
        0x3e00000
    } else {
        first_count_from(n, 0)
    }
}

/// `S2K::new_iterated`, read back as plain values: it refuses counts above
/// 0x3e00000, draws its own salt, and rounds the count up with
/// `nearest_hash_count`.
#[verifier::external_body]
pub(crate) fn iterated_s2k(hash: u8, count: u32) -> (out: Option<S2kSpec>)
    ensures
        count > 0x3e00000 ==> out is None,
        out matches Some(s) ==> (s matches S2kSpec::Iterated { hash: h, hash_bytes: n, .. } && h
            == hash && n == nearest_count(count as nat)),
{
    match S2K::new_iterated(hash.into(), count).ok()? {
        S2K::Iterated { hash, salt, hash_bytes } => Some(S2kSpec::Iterated { hash: hash.into(), salt, hash_bytes }),
        _ => None,
    }
}

/// The key that the S2K derives from a password, of `size` bytes.
pub uninterp spec fn derived_key(s2k: S2kSpec, password: Seq<char>, size: nat) -> Seq<u8>;

/// `S2K::derive_key` of the password, to a key of `size` bytes.
#[verifier::external_body]
pub(crate) fn s2k_derive_key(s2k: &S2kSpec, password: &str, size: usize) -> (out: Option<Vec<u8>>)
    ensures
        out matches Some(k) ==> k@ == derived_key(*s2k, password@, size as nat) && k@.len() == size,
{
    let s2k = match *s2k {
        S2kSpec::Simple { hash } => S2K::Simple { hash: hash.into() },
        S2kSpec::Salted { hash, salt } => S2K::Salted { hash: hash.into(), salt },
        S2kSpec::Iterated { hash, salt, hash_bytes } => S2K::Iterated { hash: hash.into(), salt, hash_bytes },
    };
    let key = s2k.derive_key(&Password::from(password), size).ok()?;
    Some(key.to_vec())
}

/// `SessionKey::new`: `size` random bytes.
#[verifier::external_body]
pub(crate) fn random_session_key(size: usize) -> (out: Option<Vec<u8>>)
    ensures
        out matches Some(k) ==> k@.len() == size,
{
    Some(SessionKey::new(size).ok()?.to_vec())
}

/// The serialized SKESK packet that carries the session key for the
/// payload cipher, encrypted under the S2K cipher and the key the S2K
/// derives from the password.
pub uninterp spec fn skesk_with_key_bytes(
    cipher: u8,
    s2k_cipher: u8,
    s2k: S2kSpec,
    session_key: Seq<u8>,
    password: Seq<char>,
) -> Seq<u8>;

/// `SKESK4::with_password`, which encrypts the session key (prefixed with
/// the payload cipher) under the key the S2K derives from the password, in
/// CFB mode with a zero IV, serialized as a packet.
#[verifier::external_body]
pub(crate) fn skesk_with_session_key(
    cipher: u8,
    s2k_cipher: u8,
    s2k: &S2kSpec,
    session_key: &[u8],
    password: &str,
) -> (out: Result<Vec<u8>, PacketFault>)
    ensures
        out matches Ok(p) ==> p@ == skesk_with_key_bytes(
            cipher,
            s2k_cipher,
            *s2k,
            session_key@,
            password@,
        ),
        out matches Ok(p) ==> packet_kinds(p@) == Some(seq![(1u8, None::<Seq<char>>)]),
{
    let s2k = match *s2k {
        S2kSpec::Simple { hash } => S2K::Simple { hash: hash.into() },
        S2kSpec::Salted { hash, salt } => S2K::Salted { hash: hash.into(), salt },
        S2kSpec::Iterated { hash, salt, hash_bytes } => S2K::Iterated { hash: hash.into(), salt, hash_bytes },
    };
    let key = SessionKey::from(session_key);
    let skesk = SKESK4::with_password(cipher.into(), s2k_cipher.into(), s2k, &key,
        &Password::from(password)).map_err(|_| PacketFault::Build)?;
    Packet::SKESK(skesk.into()).to_vec().map_err(|_| PacketFault::Serialize)
}

/// The serialized SKESK packet that names the cipher and the S2K and
/// carries no encrypted session key.
pub uninterp spec fn skesk_bytes(s2k_cipher: u8, s2k: S2kSpec) -> Seq<u8>;

/// `SKESK4::new` without an encrypted session key (the S2K's key is the
/// session key), serialized as a packet.
#[verifier::external_body]
pub(crate) fn skesk_for_derived_key(s2k_cipher: u8, s2k: &S2kSpec) -> (out: Result<
    Vec<u8>,
    PacketFault,
>)
    ensures
        out matches Ok(p) ==> p@ == skesk_bytes(s2k_cipher, *s2k),
        out matches Ok(p) ==> packet_kinds(p@) == Some(seq![(1u8, None::<Seq<char>>)]),
{
    let s2k = match *s2k {
        S2kSpec::Simple { hash } => S2K::Simple { hash: hash.into() },
        S2kSpec::Salted { hash, salt } => S2K::Salted { hash: hash.into(), salt },
        S2kSpec::Iterated { hash, salt, hash_bytes } => S2K::Iterated { hash: hash.into(), salt, hash_bytes },
    };
    let skesk = SKESK4::new(s2k_cipher.into(), s2k, None).map_err(|_| PacketFault::Build)?;
    Packet::SKESK(skesk.into()).to_vec().map_err(|_| PacketFault::Serialize)
}

/// The literal data packet that Sequoia writes for the data and format,
/// with no file name and no date.
pub uninterp spec fn literal_packet_bytes(data: Seq<u8>, format: u8) -> Seq<u8>;

/// `LiteralWriter` with the format, the data written and finalized: a
/// serialized literal data packet. Writing into memory does not fail.
#[verifier::external_body]
pub(crate) fn literal_packet(data: &[u8], format: u8) -> (out: Vec<u8>)
    ensures
        out@ == literal_packet_bytes(data@, format),
{
    let mut out = Vec::new();
    let message = Message::new(&mut out);
    let mut literal = LiteralWriter::new(message).format(DataFormat::from(format)).build().unwrap();
    literal.write_all(data).unwrap();
    literal.finalize().unwrap();
    out
}

/// The compressed data packet that Sequoia writes around the packets with
/// the algorithm and level.
pub uninterp spec fn compressed_packet_bytes(inner: Seq<u8>, algo: u8, level: u8) -> Seq<u8>;

/// `Compressor` with the algorithm (uncompressed, ZIP or zlib, which this
/// build of Sequoia supports) and a level up to 9, the packets written and
/// finalized: a serialized compressed data packet. Writing into memory does
/// not fail.
#[verifier::external_body]
pub(crate) fn compressed_packet(inner: &[u8], algo: u8, level: u8) -> (out: Vec<u8>)
    requires
        algo <= 2,
        level <= 9,
    ensures
        out@ == compressed_packet_bytes(inner@, algo, level),
{
    let mut out = Vec::new();
    let level = CompressionLevel::new(level).unwrap();
    let message = Message::new(&mut out);
    let mut w = Compressor::new(message).algo(CompressionAlgorithm::from(algo)).level(level).build().unwrap();
    w.write_all(inner).unwrap();
    w.finalize().unwrap();
    out
}

/// A message of one or more PKESK packets and then an integrity-protected
/// data packet that the cipher and some session key open to `inner`.
pub open spec fn pkesk_message(m: Seq<u8>, cipher: u8, inner: Seq<u8>) -> bool {
    exists|i: int, key: Seq<u8>|
        #![trigger seip_open(m.skip(i), cipher, key)]
        {
            &&& 0 < i < m.len()
            &&& m[i] == seip_octet()
            &&& packet_kinds(m.take(i)) matches Some(ks) && ks.len() >= 1 && forall|j: int|
                0 <= j < ks.len() ==> (#[trigger] ks[j]).0 == 2
            &&& seip_open(m.skip(i), cipher, key) == Some(inner)
        }
}

/// The first octet of an integrity-protected data packet (SEIP, tag 18)
/// in the new packet format, which Sequoia writes for every encryption.
pub open spec fn seip_octet() -> u8 {
    0xd2
}

/// What decrypting an integrity-protected data packet (the serialized SEIP
/// packet, version 1 or 2) with the cipher and session key gives: the
/// packets it protects, or `None` where it does not open.
pub uninterp spec fn seip_open(packet: Seq<u8>, cipher: u8, session_key: Seq<u8>) -> Option<Seq<u8>>;

/// The session key packet written as given, then
/// `Encryptor::with_session_key` (which refuses a key of the wrong length)
/// over the packets: an integrity-protected data packet, whose header comes
/// right after the session key packet and which the cipher and session key
/// open to the packets. Read as a packet stream, a message that starts with
/// a lone SKESK packet starts with that packet.
#[verifier::external_body]
pub(crate) fn seal_with_session_key(
    skesk: &[u8],
    inner: &[u8],
    cipher: u8,
    session_key: &[u8],
) -> (out: Result<Vec<u8>, SealFault>)
    ensures
        out matches Ok(m) ==> m@.len() > skesk@.len() && m@.take(skesk@.len() as int) == skesk@
            && m@[skesk@.len() as int] == seip_octet() && seip_open(
            m@.skip(skesk@.len() as int),
            cipher,
            session_key@,
        ) == Some(inner@),
        out matches Ok(m) ==> (packet_kinds(skesk@) == Some(seq![(1u8, None::<Seq<char>>)])
            ==> (packet_kinds(m@) matches Some(ks) && ks.len() >= 1 && ks[0] == (
            1u8,
            None::<Seq<char>>,
        ))),
{
    let mut out = Vec::new();
    let mut message = Message::new(&mut out);
    message.write_all(skesk).map_err(|_| SealFault::Setup)?;
    let key = SessionKey::from(session_key);
    let mut w = Encryptor::with_session_key(message, cipher.into(), key)
        .and_then(Encryptor::build).map_err(|_| SealFault::Setup)?;
    w.write_all(inner).map_err(|_| SealFault::Write)?;
    w.finalize().map_err(|_| SealFault::Write)?;
    Ok(out)
}

/// Whether the bytes parse as an OpenPGP certificate (`Some`) and whether
/// it holds secret key material.
pub uninterp spec fn certificate_secrecy(key: Seq<u8>) -> Option<bool>;

/// `Cert::from_bytes`, then `is_tsk`: whether the certificate holds secret
/// key material; `None` where it is no certificate.
#[verifier::external_body]
pub(crate) fn certificate_is_secret(key: &[u8]) -> (out: Option<bool>)
    ensures
        out == certificate_secrecy(key@),
{
    Some(Cert::from_bytes(key).ok()?.is_tsk())
}

/// `Encryptor::for_recipients` with every supported, live, unrevoked
/// transport encryption key of the certificate under the policy (refused
/// where there is none), and the cipher, over the packets: one PKESK
/// packet per key, each carrying a random session key, then an
/// integrity-protected data packet that the cipher and that session key
/// open to the packets.
#[verifier::external_body]
pub(crate) fn seal_for_certificate(
    key: &[u8],
    policy: &NullPolicy,
    cipher: u8,
    inner: &[u8],
) -> (out: Result<Vec<u8>, SealFault>)
    ensures
        out matches Ok(m) ==> pkesk_message(m@, cipher, inner@),
{
    let cert = Cert::from_bytes(key).map_err(|_| SealFault::Setup)?;
    let recipients = cert.keys().with_policy(policy, None).supported().alive().revoked(false)
        .for_transport_encryption();
    let mut out = Vec::new();
    let mut w = Encryptor::for_recipients(Message::new(&mut out), recipients)
        .symmetric_algo(cipher.into()).build().map_err(|_| SealFault::Setup)?;
    w.write_all(inner).map_err(|_| SealFault::Write)?;
    w.finalize().map_err(|_| SealFault::Write)?;
    Ok(out)
}

/// `Cert::from_bytes` (`Err` where the data is no certificate, as for
/// `certificate_is_secret`, which parses it the same way), then the key ID
/// in hexadecimal of its first supported, live, unrevoked transport
/// encryption key under the policy, at the present time.
#[verifier::external_body]
pub(crate) fn certificate_key_id(data: &[u8], policy: &NullPolicy) -> (out: Result<
    Option<String>,
    (),
>)
    ensures
        out is Err <==> certificate_secrecy(data@) is None,
{
    let cert = Cert::from_bytes(data).map_err(|_| ())?;
    let mut keys = cert.keys().with_policy(policy, None).supported().alive().revoked(false)
        .for_transport_encryption();
    Ok(keys.next().map(|key| key.key().keyid().to_hex()))
}

/// The packets of an OpenPGP packet stream, in order and with the packets
/// nested in containers.
pub uninterp spec fn packet_kinds(data: Seq<u8>) -> Option<Seq<(u8, Option<Seq<char>>)>>;

/// `PacketPile::from_bytes`, then `descendants`, each told apart as a
/// PKESK (with its recipient's key ID in hexadecimal), an SKESK, or other.
#[verifier::external_body]
pub(crate) fn packets_of(data: &[u8]) -> (out: Option<Vec<PacketKind>>)
    ensures
        match out {
            Some(ks) => packet_kinds(data@) == Some(kinds_view(ks@)),
            None => packet_kinds(data@) is None,
        },
{
    let pile = PacketPile::from_bytes(data).ok()?;
    Some(pile.descendants().map(|packet| match packet {
        Packet::PKESK(p) => PacketKind::Pkesk(p.recipient().map(|id| id.to_hex())),
        Packet::SKESK(_) => PacketKind::Skesk,
        _ => PacketKind::Other,
    }).collect())
}

/// How many keys with secret key material the certificate in the bytes
/// has; `None` where the bytes are no certificate.
pub uninterp spec fn secret_key_total(data: Seq<u8>) -> Option<nat>;

/// `Cert::from_bytes`, then the number of keys that `keys().secret()`
/// walks: the primary key first, then the subkeys.
#[verifier::external_body]
pub(crate) fn secret_key_count(data: &[u8]) -> (out: Option<usize>)
    ensures
        match out {
            Some(n) => secret_key_total(data@) == Some(n as nat),
            None => secret_key_total(data@) is None,
        },
{
    Some(Cert::from_bytes(data).ok()?.keys().secret().count())
}

/// Whether the secret key material of the `i`th secret key is encrypted.
pub uninterp spec fn secret_key_encrypted(data: Seq<u8>, i: nat) -> bool;

/// `is_encrypted` of the secret of the `i`th key of `keys().secret()`.
#[verifier::external_body]
pub(crate) fn secret_key_is_encrypted(data: &[u8], i: usize) -> (out: bool)
    requires
        secret_key_total(data@) matches Some(n) && i < n,
    ensures
        out == secret_key_encrypted(data@, i as nat),
{
    let cert = Cert::from_bytes(data).unwrap();
    let ka = cert.keys().secret().nth(i).unwrap();
    ka.key().secret().is_encrypted()
}

/// Whether the unencrypted `i`th secret key gives a key pair.
pub uninterp spec fn plain_key_usable(data: Seq<u8>, i: nat) -> bool;

/// `into_keypair` of the `i`th key of `keys().secret()`; `None` where
/// Sequoia cannot use its material.
#[verifier::external_body]
pub(crate) fn plain_key_pair(data: &[u8], i: usize) -> (out: Option<KeyPair>)
    requires
        secret_key_total(data@) matches Some(n) && i < n,
    ensures
        out is Some == plain_key_usable(data@, i as nat),
{
    let cert = Cert::from_bytes(data).unwrap();
    let ka = cert.keys().secret().nth(i).unwrap();
    ka.key().clone().into_keypair().ok()
}

/// What unlocking the encrypted `i`th secret key with the password gives:
/// `None` where the password does not decrypt it, else whether the
/// decrypted key gives a key pair.
pub uninterp spec fn unlock_outcome(data: Seq<u8>, i: nat, password: Seq<char>) -> Option<bool>;

/// `decrypt_secret` of the `i`th key of `keys().secret()` with the
/// password, then `into_keypair`.
#[verifier::external_body]
pub(crate) fn unlocked_key_pair(data: &[u8], i: usize, password: &str) -> (out: Result<
    Option<KeyPair>,
    (),
>)
    requires
        secret_key_total(data@) matches Some(n) && i < n,
    ensures
        match out {
            Err(_) => unlock_outcome(data@, i as nat, password@) is None,
            Ok(p) => unlock_outcome(data@, i as nat, password@) == Some(p is Some),
        },
{
    let cert = Cert::from_bytes(data).unwrap();
    let ka = cert.keys().secret().nth(i).unwrap();
    let key = ka.key().clone().decrypt_secret(&Password::from(password)).map_err(|_| ())?;
    Ok(key.into_keypair().ok())
}

} // verus!
