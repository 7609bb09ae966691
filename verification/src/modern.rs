//! The modern authenticated API: Argon2id, XChaCha20-Poly1305 envelopes,
//! secretbox, sealed boxes, Ed25519, X25519 and HKDF.
use crate::digests as dg;
use crate::sodium as na;
use vstd::prelude::*;
use vstd::string::StringSliceAdditionalSpecFns;

verus! {

/// The inputs whose length a function checks.
#[derive(Clone, Copy, Debug, PartialEq, Eq, Structural)]
pub enum Field {
    /// An XChaCha20-Poly1305 key, 32 bytes.
    AeadKey,
    /// A secretbox key, 32 bytes.
    SecretboxKey,
    /// An X25519 public key, 32 bytes.
    X25519PublicKey,
    /// An X25519 secret key, 32 bytes.
    X25519SecretKey,
    /// An Ed25519 secret key, 64 bytes.
    Ed25519SecretKey,
    /// An Ed25519 public key, 32 bytes.
    Ed25519PublicKey,
    /// An Ed25519 signature, 64 bytes.
    Ed25519Signature,
}

#[derive(Clone, Copy, Debug, PartialEq, Eq, Structural)]
pub enum ModernError {
    /// An input that does not have its exact length.
    WrongLength(Field),
    /// Argon2id hashing or its encoding failed.
    HashingFailed,
    /// The underlying encryption refused the message.
    EncryptionFailed,
    /// An XChaCha20-Poly1305 envelope shorter than a nonce and a tag.
    InvalidEnvelope,
    /// A secretbox envelope shorter than a nonce and a MAC.
    SecretboxTooShort,
    /// A sealed box shorter than an ephemeral key and a MAC.
    SealedBoxTooShort,
    /// Authentication failed: no plaintext is returned.
    AuthenticationFailed,
    /// The X25519 product is all zeros.
    KeyAgreementFailed,
    /// An HKDF output length outside 1 to 16320.
    HkdfLength,
    /// An HKDF output length above 255 hash outputs.
    HkdfTooLarge,
}

pub open spec fn view_result(r: Result<Vec<u8>, ModernError>) -> Result<Seq<u8>, ModernError> {
    match r {
        Ok(v) => Ok(v@),
        Err(e) => Err(e),
    }
}

pub open spec fn wrong(s: Field) -> Result<Seq<u8>, ModernError> {
    Err(ModernError::WrongLength(s))
}

/// What `xchacha20poly1305_decrypt` gives.
pub open spec fn xchacha_decrypt_spec(data: Seq<u8>, key: Seq<u8>, aad: Seq<u8>) -> Result<
    Seq<u8>,
    ModernError,
> {
    if key.len() != 32 {
        wrong(Field::AeadKey)
    } else if data.len() < 40 {
        Err(ModernError::InvalidEnvelope)
    } else {
        match na::xchacha_open(data, aad, key) {
            Some(p) => Ok(p),
            None => Err(ModernError::AuthenticationFailed),
        }
    }
}

/// What `secretbox_open` gives: the first 24 bytes are the nonce, the
/// rest the MAC and ciphertext.
pub open spec fn secretbox_open_spec(data: Seq<u8>, key: Seq<u8>) -> Result<Seq<u8>, ModernError> {
    if data.len() < 40 {
        Err(ModernError::SecretboxTooShort)
    } else if key.len() != 32 {
        wrong(Field::SecretboxKey)
    } else {
        match na::secretbox_open(data.skip(24), data.take(24), key) {
            Some(p) => Ok(p),
            None => Err(ModernError::AuthenticationFailed),
        }
    }
}

/// What `box_seal_open` gives.
pub open spec fn box_seal_open_spec(data: Seq<u8>, public_key: Seq<u8>, secret_key: Seq<u8>) -> Result<
    Seq<u8>,
    ModernError,
> {
    if data.len() < 48 {
        Err(ModernError::SealedBoxTooShort)
    } else if public_key.len() != 32 {
        wrong(Field::X25519PublicKey)
    } else if secret_key.len() != 32 {
        wrong(Field::X25519SecretKey)
    } else {
        match na::box_unseal(data, public_key, secret_key) {
            Some(p) => Ok(p),
            None => Err(ModernError::AuthenticationFailed),
        }
    }
}

/// What `hkdf_sha256` (`wide` false) or `hkdf_sha512` (`wide` true) gives.
pub open spec fn hkdf_spec(ikm: Seq<u8>, salt: Seq<u8>, info: Seq<u8>, length: i32, wide: bool) -> Result<
    Seq<u8>,
    ModernError,
> {
    if !(1 <= length <= 16320) {
        Err(ModernError::HkdfLength)
    } else if !wide && length > 8160 {
        Err(ModernError::HkdfTooLarge)
    } else if wide {
        Ok(dg::hkdf_sha512(ikm, salt, info, length as nat))
    } else {
        Ok(dg::hkdf_sha256(ikm, salt, info, length as nat))
    }
}

/// `argon2id_hash(password)`: an encoded Argon2id hash with a fresh random
/// salt, which `argon2id_verify` accepts for the same password.
pub fn argon2id_hash(password: &str) -> (r: Result<String, ModernError>)
    ensures
        match r {
            Ok(h) => argon2id_verify_spec(password@, h@),
            Err(e) => e == ModernError::HashingFailed,
        },
{
    match na::argon2id_hash_string(password.as_bytes()) {
        Some(h) => Ok(h),
        None => Err(ModernError::HashingFailed),
    }
}

/// Whether `encoded` is an Argon2 hash of the password (by its UTF-8
/// bytes).
pub open spec fn argon2id_verify_spec(password: Seq<char>, encoded: Seq<char>) -> bool {
    na::argon2_matches(vstd::utf8::encode_utf8(password), encoded)
}

/// `argon2id_verify(password, hash)`: false for a malformed hash as for a
/// wrong password.
pub fn argon2id_verify(password: &str, encoded_hash: &str) -> (b: bool)
    ensures
        b == argon2id_verify_spec(password@, encoded_hash@),
{
    na::argon2id_check(password.as_bytes(), encoded_hash)
}

/// `xchacha20poly1305_encrypt(data, key, aad)`: `nonce || ciphertext ||
/// tag` with a fresh random nonce, which decrypts back to the data under
/// the same key and associated data.
pub fn xchacha20poly1305_encrypt(data: &[u8], key: &[u8], associated_data: &[u8]) -> (r: Result<
    Vec<u8>,
    ModernError,
>)
    ensures
        key@.len() != 32 ==> view_result(r) == wrong(Field::AeadKey),
        key@.len() == 32 ==> match r {
            Ok(e) => e@.len() == data@.len() + 40 && e@.skip(24) == na::xchacha_seal_with(
                data@,
                associated_data@,
                key@,
                e@.take(24),
            ) && xchacha_decrypt_spec(e@, key@, associated_data@) == Ok::<Seq<u8>, ModernError>(
                data@,
            ),
            Err(e) => e == ModernError::EncryptionFailed && data@.len() > usize::MAX - 16,
        },
{
    if key.len() != 32 {
        return Err(ModernError::WrongLength(Field::AeadKey));
    }
    match na::xchacha_seal(data, associated_data, key) {
        Some(e) => Ok(e),
        None => Err(ModernError::EncryptionFailed),
    }
}

/// `xchacha20poly1305_decrypt(envelope, key, aad)`.
pub fn xchacha20poly1305_decrypt(data: &[u8], key: &[u8], associated_data: &[u8]) -> (r: Result<
    Vec<u8>,
    ModernError,
>)
    ensures
        view_result(r) == xchacha_decrypt_spec(data@, key@, associated_data@),
{
    if key.len() != 32 {
        return Err(ModernError::WrongLength(Field::AeadKey));
    }
    match na::xchacha_open_vec(data, associated_data, key) {
        Err(_) => Err(ModernError::InvalidEnvelope),
        Ok(None) => Err(ModernError::AuthenticationFailed),
        Ok(Some(p)) => Ok(p),
    }
}

/// The bytes `a` followed by the bytes `b`.
fn concat(a: &Vec<u8>, b: &Vec<u8>) -> (r: Vec<u8>)
    ensures
        r@ == a@ + b@,
{
    let mut out = a.clone();
    let mut i: usize = 0;
    while i < b.len()
        invariant
            i <= b.len(),
            out@ =~= a@ + b@.take(i as int),
        decreases b.len() - i,
    {
        out.push(b[i]);
        i = i + 1;
    }
    assert(b@.take(b.len() as int) =~= b@);
    out
}

/// `secretbox(data, key)`: `nonce || mac || ciphertext` with a fresh random
/// nonce, which `secretbox_open` turns back into the data under the key.
pub fn secretbox(data: &[u8], key: &[u8]) -> (r: Result<Vec<u8>, ModernError>)
    ensures
        key@.len() != 32 ==> view_result(r) == wrong(Field::SecretboxKey),
        key@.len() == 32 ==> match r {
            Ok(e) => e@.len() == data@.len() + 40 && e@.skip(24) == na::secretbox_seal(
                data@,
                e@.take(24),
                key@,
            ) && secretbox_open_spec(e@, key@) == Ok::<Seq<u8>, ModernError>(data@),
            Err(e) => e == ModernError::EncryptionFailed && data@.len() > usize::MAX - 16,
        },
{
    if key.len() != 32 {
        return Err(ModernError::WrongLength(Field::SecretboxKey));
    }
    let nonce = na::secretbox_nonce();
    match na::secretbox_seal_vec(data, nonce.as_slice(), key) {
        Some(sealed) => {
            let out = concat(&nonce, &sealed);
            assert(out@.skip(24) =~= sealed@);
            assert(out@.take(24) =~= nonce@);
            Ok(out)
        },
        None => Err(ModernError::EncryptionFailed),
    }
}

/// The bytes of `v` from `lo` up to `hi`.
fn slice_bytes(v: &[u8], lo: usize, hi: usize) -> (r: Vec<u8>)
    requires
        lo <= hi <= v.len(),
    ensures
        r@ == v@.subrange(lo as int, hi as int),
{
    let mut out: Vec<u8> = Vec::new();
    let mut i: usize = lo;
    while i < hi
        invariant
            lo <= i <= hi <= v.len(),
            out@ =~= v@.subrange(lo as int, i as int),
        decreases hi - i,
    {
        out.push(v[i]);
        i = i + 1;
    }
    out
}

/// `secretbox_open(envelope, key)`.
pub fn secretbox_open(data: &[u8], key: &[u8]) -> (r: Result<Vec<u8>, ModernError>)
    ensures
        view_result(r) == secretbox_open_spec(data@, key@),
{
    if data.len() < 40 {
        return Err(ModernError::SecretboxTooShort);
    }
    if key.len() != 32 {
        return Err(ModernError::WrongLength(Field::SecretboxKey));
    }
    let nonce = slice_bytes(data, 0, 24);
    let sealed = slice_bytes(data, 24, data.len());
    assert(nonce@ =~= data@.take(24));
    assert(sealed@ =~= data@.skip(24));
    match na::secretbox_open_vec(sealed.as_slice(), nonce.as_slice(), key) {
        Some(p) => Ok(p),
        None => Err(ModernError::AuthenticationFailed),
    }
}

/// `box_seal(data, recipient_public_key)`: `ephemeral key || mac ||
/// ciphertext`, which `box_seal_open` turns back into the data for the
/// holder of the secret key whose X25519 public key the recipient key is.
pub fn box_seal(data: &[u8], recipient_public_key: &[u8]) -> (r: Result<Vec<u8>, ModernError>)
    ensures
        recipient_public_key@.len() != 32 ==> view_result(r) == wrong(Field::X25519PublicKey),
        recipient_public_key@.len() == 32 ==> match r {
            Ok(e) => e@.len() == data@.len() + 48 && na::is_x25519_public_key(e@.take(32))
                && forall|sk: Seq<u8>|
                sk.len() == 32 && na::x25519_mult(sk, na::curve25519_base()) == Some(
                    recipient_public_key@,
                ) ==> #[trigger] box_seal_open_spec(e@, recipient_public_key@, sk) == Ok::<
                    Seq<u8>,
                    ModernError,
                >(data@),
            Err(e) => e == ModernError::EncryptionFailed && !(data@.len() <= usize::MAX - 16
                && na::is_x25519_public_key(recipient_public_key@)),
        },
{
    if recipient_public_key.len() != 32 {
        return Err(ModernError::WrongLength(Field::X25519PublicKey));
    }
    match na::box_seal_vec(data, recipient_public_key) {
        Some(e) => {
            assert forall|sk: Seq<u8>|
                sk.len() == 32 && na::x25519_mult(sk, na::curve25519_base()) == Some(
                    recipient_public_key@,
                ) implies #[trigger] box_seal_open_spec(e@, recipient_public_key@, sk) == Ok::<
                Seq<u8>,
                ModernError,
            >(data@) by {
                assert(na::box_unseal(e@, recipient_public_key@, sk) == Some(data@));
            }
            Ok(e)
        },
        None => Err(ModernError::EncryptionFailed),
    }
}

/// `box_seal_open(sealed, recipient_public_key, recipient_secret_key)`.
pub fn box_seal_open(data: &[u8], recipient_public_key: &[u8], recipient_secret_key: &[u8]) -> (r:
    Result<Vec<u8>, ModernError>)
    ensures
        view_result(r) == box_seal_open_spec(data@, recipient_public_key@, recipient_secret_key@),
{
    if data.len() < 48 {
        return Err(ModernError::SealedBoxTooShort);
    }
    if recipient_public_key.len() != 32 {
        return Err(ModernError::WrongLength(Field::X25519PublicKey));
    }
    if recipient_secret_key.len() != 32 {
        return Err(ModernError::WrongLength(Field::X25519SecretKey));
    }
    match na::box_unseal_vec(data, recipient_public_key, recipient_secret_key) {
        Some(p) => Ok(p),
        None => Err(ModernError::AuthenticationFailed),
    }
}

/// `ed25519_sign(data, secret_key)`: the 64-byte detached signature by a
/// 64-byte secret key.
pub fn ed25519_sign(data: &[u8], secret_key: &[u8]) -> (r: Result<Vec<u8>, ModernError>)
    ensures
        secret_key@.len() != 64 ==> view_result(r) == wrong(Field::Ed25519SecretKey),
        secret_key@.len() == 64 ==> view_result(r) == Ok::<Seq<u8>, ModernError>(
            na::ed25519_signature(data@, secret_key@),
        ),
        r matches Ok(s) ==> s@.len() == 64,
{
    if secret_key.len() != 64 {
        return Err(ModernError::WrongLength(Field::Ed25519SecretKey));
    }
    Ok(na::ed25519_sign_vec(data, secret_key))
}

/// `ed25519_verify(data, signature, public_key)`.
pub fn ed25519_verify(data: &[u8], signature: &[u8], public_key: &[u8]) -> (r: Result<
    bool,
    ModernError,
>)
    ensures
        signature@.len() != 64 ==> r == Err::<bool, ModernError>(
            ModernError::WrongLength(Field::Ed25519Signature),
        ),
        signature@.len() == 64 && public_key@.len() != 32 ==> r == Err::<bool, ModernError>(
            ModernError::WrongLength(Field::Ed25519PublicKey),
        ),
        signature@.len() == 64 && public_key@.len() == 32 ==> r == Ok::<bool, ModernError>(
            na::ed25519_valid(data@, signature@, public_key@),
        ),
{
    if signature.len() != 64 {
        return Err(ModernError::WrongLength(Field::Ed25519Signature));
    }
    if public_key.len() != 32 {
        return Err(ModernError::WrongLength(Field::Ed25519PublicKey));
    }
    Ok(na::ed25519_check(data, signature, public_key))
}

/// `x25519(secret_key, public_key)`: the 32-byte shared secret.
pub fn x25519(secret_key: &[u8], public_key: &[u8]) -> (r: Result<Vec<u8>, ModernError>)
    ensures
        secret_key@.len() != 32 ==> view_result(r) == wrong(Field::X25519SecretKey),
        secret_key@.len() == 32 && public_key@.len() != 32 ==> view_result(r) == wrong(
            Field::X25519PublicKey,
        ),
        secret_key@.len() == 32 && public_key@.len() == 32 ==> match r {
            Ok(s) => na::x25519_mult(secret_key@, public_key@) == Some(s@) && s@.len() == 32,
            Err(e) => na::x25519_mult(secret_key@, public_key@) is None && e
                == ModernError::KeyAgreementFailed,
        },
{
    if secret_key.len() != 32 {
        return Err(ModernError::WrongLength(Field::X25519SecretKey));
    }
    if public_key.len() != 32 {
        return Err(ModernError::WrongLength(Field::X25519PublicKey));
    }
    match na::x25519_vec(secret_key, public_key) {
        Some(s) => Ok(s),
        None => Err(ModernError::KeyAgreementFailed),
    }
}

/// An HKDF output length: from 1 to 16320 bytes.
pub fn validate_hkdf_length(length: i32) -> (r: Result<usize, ModernError>)
    ensures
        match r {
            Ok(n) => 1 <= length <= 16320 && n == length,
            Err(e) => !(1 <= length <= 16320) && e == ModernError::HkdfLength,
        },
{
    if !(1 <= length && length <= 16320) {
        return Err(ModernError::HkdfLength);
    }
    Ok(length as usize)
}

/// `hkdf_sha256(key_material, salt, info, length)`; at most 8160 bytes.
pub fn hkdf_sha256(key_material: &[u8], salt: &[u8], info: &[u8], length: i32) -> (r: Result<
    Vec<u8>,
    ModernError,
>)
    ensures
        view_result(r) == hkdf_spec(key_material@, salt@, info@, length, false),
        r matches Ok(o) ==> o@.len() == length,
{
    let n = match validate_hkdf_length(length) {
        Ok(n) => n,
        Err(e) => return Err(e),
    };
    match dg::hkdf_sha256_vec(key_material, salt, info, n) {
        Some(o) => Ok(o),
        None => Err(ModernError::HkdfTooLarge),
    }
}

/// `hkdf_sha512(key_material, salt, info, length)`.
pub fn hkdf_sha512(key_material: &[u8], salt: &[u8], info: &[u8], length: i32) -> (r: Result<
    Vec<u8>,
    ModernError,
>)
    ensures
        view_result(r) == hkdf_spec(key_material@, salt@, info@, length, true),
        r matches Ok(o) ==> o@.len() == length,
{
    let n = match validate_hkdf_length(length) {
        Ok(n) => n,
        Err(e) => return Err(e),
    };
    match dg::hkdf_sha512_vec(key_material, salt, info, n) {
        Some(o) => Ok(o),
        None => Err(ModernError::HkdfTooLarge),
    }
}

} // verus!
