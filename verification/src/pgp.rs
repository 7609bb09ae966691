//! OpenPGP encryption in the manner of pgcrypto's `pgp_sym_encrypt` and
//! `pgp_pub_encrypt`, the checks that turn decrypted data into text, and
//! `pgp_key_id`.
use crate::pgp_engine::{
    cipher_code, compression_code, compression_id, digest_code, format_code, format_id,
    certificate_is_secret, certificate_key_id, certificate_secrecy, cipher_key_size,
    compressed_packet, compressed_packet_bytes, kinds_view, literal_packet,
    literal_packet_bytes, packet_kinds, packets_of, random_bytes, random_session_key,
    s2k_derive_key, iterated_s2k, random_salt, derived_key, skesk_bytes, skesk_with_key_bytes,
    seip_octet, seip_open, nearest_count, pkesk_message, key_size_of, cipher_id, digest_id, S2kSpec, seal_for_certificate,
    seal_with_session_key, skesk_for_derived_key, skesk_with_session_key, LiteralFormat,
    PacketFault, PacketKind, SealFault, plain_key_pair, plain_key_usable, secret_key_count,
    secret_key_encrypted, secret_key_is_encrypted, secret_key_total, unlock_outcome,
    unlocked_key_pair,
};
use crate::pgp_options::{
    lemma_parsed_options_valid, options_valid, parse_options, parse_options_spec,
    DecryptOptions, PgpCipher, PgpCompression, PgpOptionError, PgpOptions,
};
use crate::text::utf8_text;
use sequoia_openpgp::crypto::KeyPair;
use sequoia_openpgp::policy::NullPolicy;
use vstd::prelude::*;
use vstd::string::StringSliceAdditionalSpecFns;

verus! {

#[derive(Clone, Copy, Debug, PartialEq, Eq, Structural)]
pub enum PgpError {
    /// The option string was refused.
    Option(PgpOptionError),
    /// `s2k-cipher-algo` differs from `cipher-algo` without `sess-key=1`.
    S2kCipherNeedsSessionKey,
    /// The random number generator failed.
    Randomness,
    /// The string-to-key derivation failed.
    S2k,
    /// The symmetric session key packet could not be made.
    SessionKeyPacket(PacketFault),
    /// The encryption container could not be made or written.
    Seal(SealFault),
    /// The key is no OpenPGP certificate.
    InvalidKey,
    /// A secret key was given where a public key is needed.
    SecretKeyGiven,
    /// The decrypted literal data is not marked as text.
    NotText,
    /// The decrypted text holds a NUL byte.
    NulByte,
    /// The decrypted text is not valid UTF-8.
    NotUtf8,
    /// The certificate has no usable encryption key.
    NoUsableKey,
    /// The data is no OpenPGP packet stream.
    InvalidData,
    /// The message holds no encrypted session key packet.
    NoSessionKey,
    /// The password does not unlock an encrypted secret key.
    UnlockFailed,
    /// The secret key holds no key material that can decrypt.
    NoKeyMaterial,
}

pub open spec fn text_result(r: Result<String, PgpError>) -> Result<Seq<char>, PgpError> {
    match r {
        Ok(s) => Ok(s@),
        Err(e) => Err(e),
    }
}

// ------------------------------------------------------------------ line ends

/// What `crlf_encode` makes of one byte: a line feed gets a carriage return
/// before it.
pub open spec fn crlf_piece(b: u8) -> Seq<u8> {
    if b == 10 {
        seq![13u8, 10u8]
    } else {
        seq![b]
    }
}

/// Each LF of `s` written as CR LF.
pub open spec fn crlf_encoded(s: Seq<u8>) -> Seq<u8>
    decreases s.len(),
{
    if s.len() == 0 {
        Seq::empty()
    } else {
        crlf_encoded(s.drop_last()) + crlf_piece(s.last())
    }
}

/// Each CR LF of `s` written as LF, read from the front; a CR that no LF
/// follows stays.
pub open spec fn crlf_decoded(s: Seq<u8>) -> Seq<u8>
    decreases s.len(),
{
    if s.len() == 0 {
        Seq::empty()
    } else if s.len() >= 2 && s[0] == 13 && s[1] == 10 {
        seq![10u8] + crlf_decoded(s.skip(2))
    } else {
        seq![s[0]] + crlf_decoded(s.drop_first())
    }
}

proof fn lemma_crlf_encoded_front(s: Seq<u8>)
    requires
        s.len() > 0,
    ensures
        crlf_encoded(s) == crlf_piece(s[0]) + crlf_encoded(s.drop_first()),
    decreases s.len(),
{
    if s.len() == 1 {
        assert(crlf_encoded(s.drop_last()) =~= Seq::<u8>::empty());
        assert(crlf_encoded(s.drop_first()) =~= Seq::<u8>::empty());
        assert(s.last() == s[0]);
        assert(crlf_encoded(s) =~= crlf_piece(s[0]) + crlf_encoded(s.drop_first()));
    } else {
        lemma_crlf_encoded_front(s.drop_last());
        assert(s.drop_last().drop_first() =~= s.drop_first().drop_last());
        assert(s.drop_first().last() == s.last());
        assert(crlf_encoded(s) =~= crlf_piece(s[0]) + crlf_encoded(s.drop_first()));
    }
}

/// Decoding line ends undoes encoding them: every byte string comes back
/// unchanged from `crlf_decode(crlf_encode(data))`.
pub proof fn lemma_crlf_round_trip(s: Seq<u8>)
    ensures
        crlf_decoded(crlf_encoded(s)) == s,
    decreases s.len(),
{
    if s.len() > 0 {
        lemma_crlf_encoded_front(s);
        let rest = s.drop_first();
        let e = crlf_encoded(rest);
        lemma_crlf_round_trip(rest);
        if rest.len() > 0 {
            lemma_crlf_encoded_front(rest);
            assert(e[0] == crlf_piece(rest[0])[0]);
            assert(e[0] != 10);
        }
        let full = crlf_encoded(s);
        if s[0] == 10 {
            assert(full =~= seq![13u8, 10u8] + e);
            assert(full.skip(2) =~= e);
        } else {
            assert(full =~= seq![s[0]] + e);
            assert(full.drop_first() =~= e);
        }
        assert(s =~= seq![s[0]] + rest);
    }
}

/// Writes each LF as CR LF, as text is converted before encryption with
/// `convert-crlf=1`.
pub fn crlf_encode(data: &[u8]) -> (out: Vec<u8>)
    ensures
        out@ == crlf_encoded(data@),
{
    let mut out: Vec<u8> = Vec::new();
    let mut i: usize = 0;
    while i < data.len()
        invariant
            i <= data.len(),
            out@ == crlf_encoded(data@.take(i as int)),
        decreases data.len() - i,
    {
        let b = data[i];
        let ghost before = out@;
        if b == 10 {
            out.push(13);
        }
        out.push(b);
        proof {
            let t = data@.take(i as int + 1);
            assert(t.drop_last() =~= data@.take(i as int));
            assert(t.last() == b);
            assert(out@ =~= before + crlf_piece(b));
        }
        i = i + 1;
    }
    assert(data@.take(data.len() as int) =~= data@);
    out
}

/// Writes each CR LF as LF, as decrypted text is converted with
/// `convert-crlf=1`.
pub fn crlf_decode(data: &[u8]) -> (out: Vec<u8>)
    ensures
        out@ == crlf_decoded(data@),
{
    let mut out: Vec<u8> = Vec::new();
    let mut i: usize = 0;
    assert(data@.skip(0) =~= data@);
    assert(out@ + crlf_decoded(data@.skip(0)) =~= crlf_decoded(data@));
    while i < data.len()
        invariant
            i <= data.len(),
            out@ + crlf_decoded(data@.skip(i as int)) == crlf_decoded(data@),
        decreases data.len() - i,
    {
        let ghost rest = data@.skip(i as int);
        let ghost before = out@;
        if data[i] == 13 && i + 1 < data.len() && data[i + 1] == 10 {
            out.push(10);
            proof {
                assert(rest[0] == 13 && rest[1] == 10);
                assert(rest.skip(2) =~= data@.skip(i as int + 2));
                assert(crlf_decoded(rest) == seq![10u8] + crlf_decoded(rest.skip(2)));
                assert(out@ + crlf_decoded(rest.skip(2)) =~= before + crlf_decoded(rest));
            }
            i = i + 2;
        } else {
            let b = data[i];
            out.push(b);
            proof {
                assert(rest[0] == b);
                assert(rest.drop_first() =~= data@.skip(i as int + 1));
                assert(crlf_decoded(rest) == seq![b] + crlf_decoded(rest.drop_first()));
                assert(out@ + crlf_decoded(rest.drop_first()) =~= before + crlf_decoded(rest));
            }
            i = i + 1;
        }
    }
    assert(data@.skip(i as int).len() == 0);
    assert(out@ + crlf_decoded(data@.skip(i as int)) =~= out@);
    out
}

// ------------------------------------------------------------------ decrypted text

pub open spec fn is_text_format(f: LiteralFormat) -> bool {
    f == LiteralFormat::Text || f == LiteralFormat::Unicode
}

/// What decrypted literal data gives as text: it must be marked as text,
/// CR LF becomes LF where `convert-crlf=1` was given, and the bytes must be
/// UTF-8 without a NUL.
pub open spec fn decrypted_text_spec(
    data: Seq<u8>,
    format: LiteralFormat,
    options: DecryptOptions,
) -> Result<Seq<char>, PgpError> {
    if !is_text_format(format) {
        Err(PgpError::NotText)
    } else {
        let d = if options.convert_crlf {
            crlf_decoded(data)
        } else {
            data
        };
        if d.contains(0u8) {
            Err(PgpError::NulByte)
        } else if !vstd::utf8::valid_utf8(d) {
            Err(PgpError::NotUtf8)
        } else {
            Ok(vstd::utf8::decode_utf8(d))
        }
    }
}

fn has_zero(v: &Vec<u8>) -> (b: bool)
    ensures
        b == v@.contains(0u8),
{
    let mut i: usize = 0;
    while i < v.len()
        invariant
            i <= v.len(),
            forall|j: int| 0 <= j < i ==> v@[j] != 0,
        decreases v.len() - i,
    {
        if v[i] == 0 {
            assert(v@[i as int] == 0u8);
            return true;
        }
        i = i + 1;
    }
    false
}

/// The text of decrypted literal data, given how its packet marked it.
pub fn decrypted_text(data: Vec<u8>, format: LiteralFormat, options: DecryptOptions) -> (r: Result<
    String,
    PgpError,
>)
    ensures
        text_result(r) == decrypted_text_spec(data@, format, options),
{
    let is_text = match format {
        LiteralFormat::Text => true,
        LiteralFormat::Unicode => true,
        _ => false,
    };
    if !is_text {
        return Err(PgpError::NotText);
    }
    let d = if options.convert_crlf {
        crlf_decode(data.as_slice())
    } else {
        data
    };
    if has_zero(&d) {
        return Err(PgpError::NulByte);
    }
    match utf8_text(d) {
        Some(s) => Ok(s),
        None => Err(PgpError::NotUtf8),
    }
}

// ------------------------------------------------------------------ string to key

/// The bytes read as a little-endian 32-bit number.
pub open spec fn le_u32(b: Seq<u8>) -> int {
    b[0] + 256 * b[1] + 65536 * b[2] + 16777216 * b[3]
}

/// The iteration count drawn where `s2k-count` is not given: 65536 plus the
/// random number modulo 188417, so from 65536 to 253952.
pub open spec fn s2k_count_of(random: Seq<u8>) -> int {
    65536 + le_u32(random) % 188417
}

/// The iteration count that four random bytes give.
pub fn s2k_count_from(random: &[u8]) -> (n: u32)
    requires
        random.len() == 4,
    ensures
        n == s2k_count_of(random@),
        65536 <= n <= 253952,
{
    let v: u64 = random[0] as u64 + 256 * (random[1] as u64) + 65536 * (random[2] as u64)
        + 16777216 * (random[3] as u64);
    let m: u64 = v % 188417;
    (65536 + m) as u32
}

/// A random iteration count from 65536 to 253952.
pub fn default_s2k_count() -> (r: Result<u32, PgpError>)
    ensures
        r matches Ok(n) ==> 65536 <= n <= 253952,
        r is Err ==> r == Err::<u32, PgpError>(PgpError::Randomness),
{
    match random_bytes(4) {
        Some(b) => Ok(s2k_count_from(b.as_slice())),
        None => Err(PgpError::Randomness),
    }
}

/// Whether an S2K specifier is what the options ask for: the mode and
/// digest they name, and in the iterated mode the given count (or a random
/// one from 65536 to 253952) rounded up to the nearest one OpenPGP can
/// encode.
pub open spec fn s2k_fits(o: PgpOptions, s: S2kSpec) -> bool {
    match s {
        S2kSpec::Simple { hash } => o.s2k_mode == 0 && hash == digest_id(o.s2k_digest),
        S2kSpec::Salted { hash, .. } => o.s2k_mode == 1 && hash == digest_id(o.s2k_digest),
        S2kSpec::Iterated { hash, hash_bytes, .. } => {
            &&& o.s2k_mode == 3
            &&& hash == digest_id(o.s2k_digest)
            &&& match o.s2k_count {
                Some(n) => hash_bytes == nearest_count(n as nat),
                None => exists|c: nat|
                    65536 <= c <= 253952 && hash_bytes == #[trigger] nearest_count(c),
            }
        },
    }
}

/// The string-to-key specifier of the options: mode 0 hashes the password
/// alone, mode 1 with a random salt, mode 3 with a random salt iterated
/// over the given count or a random one from 65536 to 253952.
pub fn make_s2k(o: PgpOptions) -> (r: Result<S2kSpec, PgpError>)
    requires
        options_valid(o),
    ensures
        o.s2k_mode == 0 ==> r is Ok,
        r matches Ok(s) ==> s2k_fits(o, s),
        r is Err ==> r == Err::<S2kSpec, PgpError>(PgpError::Randomness),
{
    let hash = digest_code(o.s2k_digest);
    if o.s2k_mode == 0 {
        Ok(S2kSpec::Simple { hash })
    } else if o.s2k_mode == 1 {
        match random_salt() {
            Some(salt) => Ok(S2kSpec::Salted { hash, salt }),
            None => Err(PgpError::Randomness),
        }
    } else {
        let count = match o.s2k_count {
            Some(n) => n,
            None => match default_s2k_count() {
                Ok(n) => n,
                Err(e) => return Err(e),
            },
        };
        match iterated_s2k(hash, count) {
            Some(s2k) => {
                assert(s2k matches S2kSpec::Iterated { hash_bytes, .. } && hash_bytes
                    == nearest_count(count as nat));
                Ok(s2k)
            },
            None => Err(PgpError::Randomness),
        }
    }
}

// ------------------------------------------------------------------ the payload

/// How the literal packet marks the data: binary for bytes, text or
/// UTF-8 text (`unicode-mode=1`) for text.
pub open spec fn literal_format_of(o: PgpOptions) -> LiteralFormat {
    if !o.text_input {
        LiteralFormat::Binary
    } else if !o.unicode_mode {
        LiteralFormat::Text
    } else {
        LiteralFormat::Unicode
    }
}

/// The body of the literal packet: text with `convert-crlf=1` has its line
/// ends written as CR LF.
pub open spec fn literal_body(data: Seq<u8>, o: PgpOptions) -> Seq<u8> {
    if o.text_input && o.convert_crlf {
        crlf_encoded(data)
    } else {
        data
    }
}

/// Whether the literal packet is compressed: an algorithm is chosen and
/// the level is above 0.
pub open spec fn compresses(o: PgpOptions) -> bool {
    o.compression != PgpCompression::Uncompressed && o.compression_level > 0
}

/// The packets that are encrypted: the literal packet, compressed where
/// the options ask for it.
pub open spec fn payload_spec(data: Seq<u8>, o: PgpOptions) -> Seq<u8> {
    let literal = literal_packet_bytes(literal_body(data, o), format_id(literal_format_of(o)));
    if compresses(o) {
        compressed_packet_bytes(literal, compression_id(o.compression), o.compression_level)
    } else {
        literal
    }
}

/// Text encrypted with `convert-crlf=1` and decrypted with `convert-crlf=1`
/// comes back as it was: the literal packet of text is marked as text, and
/// its body, read with line ends converted back, gives what the plain
/// bytes give unconverted.
pub proof fn lemma_crlf_text_round_trip(data: Seq<u8>, o: PgpOptions)
    requires
        o.text_input,
        o.convert_crlf,
    ensures
        is_text_format(literal_format_of(o)),
        decrypted_text_spec(
            literal_body(data, o),
            literal_format_of(o),
            DecryptOptions { convert_crlf: true },
        ) == decrypted_text_spec(data, literal_format_of(o), DecryptOptions { convert_crlf: false }),
{
    lemma_crlf_round_trip(data);
}

/// The packets that an encryption with the options seals.
pub fn payload(data: &[u8], o: PgpOptions) -> (p: Vec<u8>)
    requires
        o.compression_level <= 9,
    ensures
        p@ == payload_spec(data@, o),
{
    let format = if !o.text_input {
        LiteralFormat::Binary
    } else if !o.unicode_mode {
        LiteralFormat::Text
    } else {
        LiteralFormat::Unicode
    };
    let literal = if o.text_input && o.convert_crlf {
        let body = crlf_encode(data);
        literal_packet(body.as_slice(), format_code(format))
    } else {
        literal_packet(data, format_code(format))
    };
    let compress = match o.compression {
        PgpCompression::Uncompressed => false,
        _ => o.compression_level > 0,
    };
    if compress {
        compressed_packet(literal.as_slice(), compression_code(o.compression), o.compression_level)
    } else {
        literal
    }
}

// ------------------------------------------------------------------ encryption

/// The cipher that protects the session key: `s2k-cipher-algo`, or else
/// the data's cipher.
pub open spec fn s2k_cipher_of(o: PgpOptions) -> PgpCipher {
    match o.s2k_cipher {
        Some(c) => c,
        None => o.cipher,
    }
}

/// The error that the options alone give a symmetric encryption, if any.
pub open spec fn sym_options_error(options: Seq<char>, text: bool) -> Option<PgpError> {
    match parse_options_spec(options, text) {
        Err(e) => Some(PgpError::Option(e)),
        Ok(o) => if !o.use_session_key && s2k_cipher_of(o) != o.cipher {
            Some(PgpError::S2kCipherNeedsSessionKey)
        } else {
            None
        },
    }
}

/// The session key packet of a password encryption: with `sess-key=1`
/// the session key encrypted under the S2K cipher, else a packet that
/// names the S2K cipher and the S2K whose key is the session key.
pub open spec fn session_key_packet(
    o: PgpOptions,
    s2k: S2kSpec,
    key: Seq<u8>,
    password: Seq<char>,
) -> Seq<u8> {
    if o.use_session_key {
        skesk_with_key_bytes(cipher_id(o.cipher), cipher_id(s2k_cipher_of(o)), s2k, key, password)
    } else {
        skesk_bytes(cipher_id(s2k_cipher_of(o)), s2k)
    }
}

/// What a password-encrypted message of `data` with the options is: the
/// session key packet for an S2K that fits the options and a session key of
/// the cipher's length (the password's key where no separate session key
/// is asked for), then an integrity-protected data packet that the cipher
/// and session key open to the payload of the data.
pub open spec fn sym_message(m: Seq<u8>, data: Seq<u8>, o: PgpOptions, password: Seq<char>) -> bool {
    exists|s2k: S2kSpec, key: Seq<u8>|
        #![trigger session_key_packet(o, s2k, key, password)]
        {
            let p = session_key_packet(o, s2k, key, password);
            &&& s2k_fits(o, s2k)
            &&& key.len() == key_size_of(cipher_id(o.cipher))
            &&& (!o.use_session_key ==> key == derived_key(s2k, password, key.len()))
            &&& m.len() > p.len()
            &&& m.take(p.len() as int) == p
            &&& m[p.len() as int] == seip_octet()
            &&& seip_open(m.skip(p.len() as int), cipher_id(o.cipher), key) == Some(
                payload_spec(data, o),
            )
            &&& packet_kinds(m) matches Some(ks) && ks.len() >= 1 && ks[0] == (
                1u8,
                None::<Seq<char>>,
            )
        }
}

/// The key ID that `pgp_key_id` reads from the packets of a
/// password-encrypted message is `SYMKEY`.
pub proof fn lemma_sym_message_key_id(
    m: Seq<u8>,
    data: Seq<u8>,
    o: PgpOptions,
    password: Seq<char>,
)
    requires
        sym_message(m, data, o, password),
    ensures
        packet_key_id(m) == Ok::<Seq<char>, PgpError>("SYMKEY"@),
{
}

/// The errors that come from randomness or the OpenPGP engine rather than
/// from the arguments.
pub open spec fn engine_error(e: PgpError) -> bool {
    ||| e == PgpError::Randomness
    ||| e == PgpError::S2k
    ||| e is SessionKeyPacket
    ||| e is Seal
}

/// Encrypts `data` under a password: a symmetric session key packet, then
/// the literal packet (compressed where asked) in an integrity-protected
/// container. With `sess-key=1` the session key is random and encrypted
/// under the password's key with the S2K cipher; otherwise the password's
/// key is the session key.
pub fn sym_encrypt(data: &[u8], password: &str, options: &str, text: bool) -> (r: Result<
    Vec<u8>,
    PgpError,
>)
    ensures
        sym_options_error(options@, text) matches Some(e) ==> r == Err::<Vec<u8>, PgpError>(e),
        r matches Err(e) ==> sym_options_error(options@, text) == Some(e) || engine_error(e),
        r matches Ok(m) ==> (parse_options_spec(options@, text) matches Ok(o) && sym_message(
            m@,
            data@,
            o,
            password@,
        )),
{
    let o = match parse_options(options, text) {
        Ok(o) => o,
        Err(e) => return Err(PgpError::Option(e)),
    };
    proof {
        lemma_parsed_options_valid(options@, text);
    }
    let s2k_cipher = match o.s2k_cipher {
        Some(c) => c,
        None => o.cipher,
    };
    if !o.use_session_key && s2k_cipher != o.cipher {
        return Err(PgpError::S2kCipherNeedsSessionKey);
    }
    let s2k = match make_s2k(o) {
        Ok(s) => s,
        Err(e) => return Err(e),
    };
    let cipher = cipher_code(o.cipher);
    let size = cipher_key_size(cipher);
    let session_key = if o.use_session_key {
        match random_session_key(size) {
            Some(k) => k,
            None => return Err(PgpError::Randomness),
        }
    } else {
        match s2k_derive_key(&s2k, password, size) {
            Some(k) => k,
            None => return Err(PgpError::S2k),
        }
    };
    let skesk = if o.use_session_key {
        skesk_with_session_key(cipher, cipher_code(s2k_cipher), &s2k, session_key.as_slice(), password)
    } else {
        skesk_for_derived_key(cipher_code(s2k_cipher), &s2k)
    };
    let skesk = match skesk {
        Ok(p) => p,
        Err(f) => return Err(PgpError::SessionKeyPacket(f)),
    };
    let inner = payload(data, o);
    match seal_with_session_key(skesk.as_slice(), inner.as_slice(), cipher, session_key.as_slice()) {
        Ok(m) => {
            assert(session_key_packet(o, s2k, session_key@, password@) == skesk@);
            Ok(m)
        },
        Err(f) => Err(PgpError::Seal(f)),
    }
}

/// `pgp_sym_encrypt`: encrypts text under a password.
pub fn pgp_sym_encrypt(data: &str, password: &str, options: &str) -> (r: Result<Vec<u8>, PgpError>)
    ensures
        sym_options_error(options@, true) matches Some(e) ==> r == Err::<Vec<u8>, PgpError>(e),
        r matches Err(e) ==> sym_options_error(options@, true) == Some(e) || engine_error(e),
        r matches Ok(m) ==> (parse_options_spec(options@, true) matches Ok(o) && sym_message(
            m@,
            data.spec_bytes(),
            o,
            password@,
        )),
{
    sym_encrypt(data.as_bytes(), password, options, true)
}

/// `pgp_sym_encrypt_bytea`: encrypts bytes under a password.
pub fn pgp_sym_encrypt_bytea(data: &[u8], password: &str, options: &str) -> (r: Result<
    Vec<u8>,
    PgpError,
>)
    ensures
        sym_options_error(options@, false) matches Some(e) ==> r == Err::<Vec<u8>, PgpError>(e),
        r matches Err(e) ==> sym_options_error(options@, false) == Some(e) || engine_error(e),
        r matches Ok(m) ==> (parse_options_spec(options@, false) matches Ok(o) && sym_message(
            m@,
            data@,
            o,
            password@,
        )),
{
    sym_encrypt(data, password, options, false)
}

/// The error that the options and the key give a public-key encryption,
/// if any: a refused option string, bytes that are no certificate, or a
/// certificate with secret key material.
pub open spec fn pub_arguments_error(options: Seq<char>, text: bool, key: Seq<u8>) -> Option<
    PgpError,
> {
    match parse_options_spec(options, text) {
        Err(e) => Some(PgpError::Option(e)),
        Ok(_) => match certificate_secrecy(key) {
            None => Some(PgpError::InvalidKey),
            Some(true) => Some(PgpError::SecretKeyGiven),
            Some(false) => None,
        },
    }
}

/// What a public-key encryption seals, once the options and the key pass:
/// the settings and the literal packet (compressed where asked).
pub fn pub_encrypt_plan(data: &[u8], public_key: &[u8], options: &str, text: bool) -> (r: Result<
    (PgpOptions, Vec<u8>),
    PgpError,
>)
    ensures
        pub_arguments_error(options@, text, public_key@) matches Some(e) ==> r == Err::<
            (PgpOptions, Vec<u8>),
            PgpError,
        >(e),
        r matches Ok((o, p)) ==> parse_options_spec(options@, text) == Ok::<
            PgpOptions,
            PgpOptionError,
        >(o) && certificate_secrecy(public_key@) == Some(false) && p@ == payload_spec(data@, o),
        r is Err <==> pub_arguments_error(options@, text, public_key@) is Some,
{
    let o = match parse_options(options, text) {
        Ok(o) => o,
        Err(e) => return Err(PgpError::Option(e)),
    };
    proof {
        lemma_parsed_options_valid(options@, text);
    }
    match certificate_is_secret(public_key) {
        None => return Err(PgpError::InvalidKey),
        Some(true) => return Err(PgpError::SecretKeyGiven),
        Some(false) => {},
    }
    Ok((o, payload(data, o)))
}

/// Encrypts `data` to each usable encryption key of the public
/// certificate `public_key`, with the options' cipher; which keys are
/// usable depends on the present time.
pub fn pub_encrypt(data: &[u8], public_key: &[u8], options: &str, text: bool, policy: &NullPolicy)
    -> (r: Result<Vec<u8>, PgpError>)
    ensures
        pub_arguments_error(options@, text, public_key@) matches Some(e) ==> r == Err::<
            Vec<u8>,
            PgpError,
        >(e),
        r matches Err(e) ==> pub_arguments_error(options@, text, public_key@) == Some(e)
            || engine_error(e),
        r matches Ok(m) ==> (parse_options_spec(options@, text) matches Ok(o) && pkesk_message(
            m@,
            cipher_id(o.cipher),
            payload_spec(data@, o),
        )),
{
    let (o, inner) = match pub_encrypt_plan(data, public_key, options, text) {
        Ok(plan) => plan,
        Err(e) => return Err(e),
    };
    match seal_for_certificate(public_key, policy, cipher_code(o.cipher), inner.as_slice()) {
        Ok(m) => Ok(m),
        Err(f) => Err(PgpError::Seal(f)),
    }
}

/// `pgp_pub_encrypt`: encrypts text to a public key.
pub fn pgp_pub_encrypt(data: &str, public_key: &[u8], options: &str, policy: &NullPolicy) -> (r:
    Result<Vec<u8>, PgpError>)
    ensures
        pub_arguments_error(options@, true, public_key@) matches Some(e) ==> r == Err::<
            Vec<u8>,
            PgpError,
        >(e),
        r matches Err(e) ==> pub_arguments_error(options@, true, public_key@) == Some(e)
            || engine_error(e),
        r matches Ok(m) ==> (parse_options_spec(options@, true) matches Ok(o) && pkesk_message(
            m@,
            cipher_id(o.cipher),
            payload_spec(data.spec_bytes(), o),
        )),
{
    pub_encrypt(data.as_bytes(), public_key, options, true, policy)
}

/// `pgp_pub_encrypt_bytea`: encrypts bytes to a public key.
pub fn pgp_pub_encrypt_bytea(data: &[u8], public_key: &[u8], options: &str, policy: &NullPolicy)
    -> (r: Result<Vec<u8>, PgpError>)
    ensures
        pub_arguments_error(options@, false, public_key@) matches Some(e) ==> r == Err::<
            Vec<u8>,
            PgpError,
        >(e),
        r matches Err(e) ==> pub_arguments_error(options@, false, public_key@) == Some(e)
            || engine_error(e),
        r matches Ok(m) ==> (parse_options_spec(options@, false) matches Ok(o) && pkesk_message(
            m@,
            cipher_id(o.cipher),
            payload_spec(data@, o),
        )),
{
    pub_encrypt(data, public_key, options, false, policy)
}

// ------------------------------------------------------------------ key IDs

/// What `pgp_key_id` reports of a packet stream: the first session key
/// packet decides; a PKESK gives its recipient's key ID, or `ANYKEY` where
/// it names none, an SKESK gives `SYMKEY`.
pub open spec fn key_id_in_packets(ks: Seq<(u8, Option<Seq<char>>)>) -> Result<
    Seq<char>,
    PgpError,
>
    decreases ks.len(),
{
    if ks.len() == 0 {
        Err(PgpError::NoSessionKey)
    } else if ks[0].0 == 2 {
        match ks[0].1 {
            Some(id) => Ok(id),
            None => Ok("ANYKEY"@),
        }
    } else if ks[0].0 == 1 {
        Ok("SYMKEY"@)
    } else {
        key_id_in_packets(ks.drop_first())
    }
}

/// What `pgp_key_id` reports of data that is no certificate.
pub open spec fn packet_key_id(data: Seq<u8>) -> Result<Seq<char>, PgpError> {
    match packet_kinds(data) {
        None => Err(PgpError::InvalidData),
        Some(ks) => key_id_in_packets(ks),
    }
}

/// What `pgp_key_id` reports, given what reading the data as a
/// certificate gave: the key ID of its encryption key, or none, or no
/// certificate at all.
pub open spec fn key_id_choice_spec(cert: Result<Option<Seq<char>>, ()>, data: Seq<u8>) -> Result<
    Seq<char>,
    PgpError,
> {
    match cert {
        Ok(Some(id)) => Ok(id),
        Ok(None) => Err(PgpError::NoUsableKey),
        Err(_) => packet_key_id(data),
    }
}

/// The key ID that a sequence of packets names.
pub fn key_id_from_packet_kinds(ks: &Vec<PacketKind>) -> (r: Result<String, PgpError>)
    ensures
        text_result(r) == key_id_in_packets(kinds_view(ks@)),
{
    let ghost all = kinds_view(ks@);
    let mut i: usize = 0;
    assert(all.skip(0) =~= all);
    while i < ks.len()
        invariant
            i <= ks.len(),
            all == kinds_view(ks@),
            key_id_in_packets(all.skip(i as int)) == key_id_in_packets(all),
        decreases ks.len() - i,
    {
        let ghost rest = all.skip(i as int);
        assert(rest[0] == all[i as int]);
        match &ks[i] {
            PacketKind::Pkesk(Some(id)) => {
                return Ok(id.clone());
            },
            PacketKind::Pkesk(None) => {
                proof {
                    reveal_strlit("ANYKEY");
                }
                return Ok("ANYKEY".to_owned());
            },
            PacketKind::Skesk => {
                proof {
                    reveal_strlit("SYMKEY");
                }
                return Ok("SYMKEY".to_owned());
            },
            PacketKind::Other => {},
        }
        assert(rest.drop_first() =~= all.skip(i as int + 1));
        i = i + 1;
    }
    Err(PgpError::NoSessionKey)
}

/// The key ID that the session key packets of an OpenPGP message name.
pub fn key_id_from_packets(data: &[u8]) -> (r: Result<String, PgpError>)
    ensures
        text_result(r) == packet_key_id(data@),
{
    match packets_of(data) {
        Some(ks) => key_id_from_packet_kinds(&ks),
        None => Err(PgpError::InvalidData),
    }
}

/// `pgp_key_id` given what reading the data as a certificate gave.
pub fn key_id_choice(cert: Result<Option<String>, ()>, data: &[u8]) -> (r: Result<
    String,
    PgpError,
>)
    ensures
        text_result(r) == key_id_choice_spec(
            match cert {
                Ok(Some(id)) => Ok(Some(id@)),
                Ok(None) => Ok(None),
                Err(u) => Err(u),
            },
            data@,
        ),
{
    match cert {
        Ok(Some(id)) => Ok(id),
        Ok(None) => Err(PgpError::NoUsableKey),
        Err(_) => key_id_from_packets(data),
    }
}

/// `pgp_key_id`: the key ID of a public or secret key's encryption key, or
/// which key an encrypted message needs (`SYMKEY` for a password). Which
/// key a certificate offers depends on the present time.
pub fn pgp_key_id(data: &[u8], policy: &NullPolicy) -> (r: Result<String, PgpError>)
    ensures
        certificate_secrecy(data@) is None ==> text_result(r) == packet_key_id(data@),
        certificate_secrecy(data@) is Some ==> (r is Ok || r == Err::<String, PgpError>(
            PgpError::NoUsableKey,
        )),
{
    key_id_choice(certificate_key_id(data, policy), data)
}

// ------------------------------------------------------------------ secret keys

/// Whether the `i`th secret key of the certificate gives a key pair: an
/// encrypted one once the password unlocks it.
pub open spec fn key_usable(data: Seq<u8>, i: nat, password: Seq<char>) -> bool {
    if secret_key_encrypted(data, i) {
        unlock_outcome(data, i, password) == Some(true)
    } else {
        plain_key_usable(data, i)
    }
}

/// Whether the `i`th secret key is encrypted and the password does not
/// unlock it.
pub open spec fn key_locked(data: Seq<u8>, i: nat, password: Seq<char>) -> bool {
    secret_key_encrypted(data, i) && unlock_outcome(data, i, password) is None
}

/// How many of the first `i` secret keys give a key pair.
pub open spec fn usable_before(data: Seq<u8>, password: Seq<char>, i: nat) -> nat
    decreases i,
{
    if i == 0 {
        0
    } else {
        usable_before(data, password, (i - 1) as nat) + if key_usable(
            data,
            (i - 1) as nat,
            password,
        ) {
            1nat
        } else {
            0nat
        }
    }
}

/// What unlocking a secret key certificate gives: the number of key pairs,
/// or an error where the bytes are no certificate, a key stays locked, or
/// no key is usable.
pub open spec fn unlock_spec(data: Seq<u8>, password: Seq<char>) -> Result<nat, PgpError> {
    match secret_key_total(data) {
        None => Err(PgpError::InvalidKey),
        Some(n) => if exists|j: nat| j < n && #[trigger] key_locked(data, j, password) {
            Err(PgpError::UnlockFailed)
        } else if usable_before(data, password, n) == 0 {
            Err(PgpError::NoKeyMaterial)
        } else {
            Ok(usable_before(data, password, n))
        },
    }
}

/// The key pairs of a secret key certificate, each encrypted key unlocked
/// with the password, as `pgp_pub_decrypt` needs them; keys whose material
/// Sequoia cannot use are passed over.
pub fn unlock_secret_keys(secret_key: &[u8], password: &str) -> (r: Result<Vec<KeyPair>, PgpError>)
    ensures
        match r {
            Ok(v) => unlock_spec(secret_key@, password@) == Ok::<nat, PgpError>(v.len() as nat),
            Err(e) => unlock_spec(secret_key@, password@) == Err::<nat, PgpError>(e),
        },
{
    let n = match secret_key_count(secret_key) {
        Some(n) => n,
        None => return Err(PgpError::InvalidKey),
    };
    let mut pairs: Vec<KeyPair> = Vec::new();
    let mut i: usize = 0;
    while i < n
        invariant
            i <= n,
            secret_key_total(secret_key@) == Some(n as nat),
            pairs.len() == usable_before(secret_key@, password@, i as nat),
            forall|j: nat| j < i ==> !#[trigger] key_locked(secret_key@, j, password@),
        decreases n - i,
    {
        if secret_key_is_encrypted(secret_key, i) {
            match unlocked_key_pair(secret_key, i, password) {
                Err(_) => {
                    assert(key_locked(secret_key@, i as nat, password@));
                    return Err(PgpError::UnlockFailed);
                },
                Ok(Some(p)) => {
                    pairs.push(p);
                },
                Ok(None) => {},
            }
        } else {
            match plain_key_pair(secret_key, i) {
                Some(p) => {
                    pairs.push(p);
                },
                None => {},
            }
        }
        i = i + 1;
    }
    if pairs.len() == 0 {
        Err(PgpError::NoKeyMaterial)
    } else {
        Ok(pairs)
    }
}

} // verus!
