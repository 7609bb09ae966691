//! Calls of `dryoc`, the Sodium-style library behind the modern API. Keys,
//! nonces and envelopes cross as byte slices of the lengths dryoc fixes;
//! what a deterministic call returns is named, and a call that draws random
//! bytes is described by what holds of every outcome.
use dryoc::classic::crypto_core::crypto_scalarmult;
use dryoc::dryocaead::xchacha20poly1305_ietf as aead;
use dryoc::dryocbox::{PublicKey as BoxPublicKey, SecretKey as BoxSecretKey, VecBox};
use dryoc::keypair::KeyPair as BoxKeyPair;
use dryoc::dryocsecretbox::{Key as SecretBoxKey, Nonce as SecretBoxNonce, VecBox as SecretVecBox};
use dryoc::pwhash::{Config, VecPwHash};
use dryoc::sign::{PublicKey as SignPublicKey, SecretKey as SignSecretKey, Signature, SigningKeyPair};
use dryoc::types::{ByteArray, NewByteArray};
use vstd::prelude::*;

verus! {

/// The Curve25519 base point, whose multiple by a secret key is that key's
/// public key.
pub open spec fn curve25519_base() -> Seq<u8> {
    Seq::new(32, |i: int| if i == 0 { 9u8 } else { 0u8 })
}

// ---------------------------------------------------------------- Argon2id

/// Whether `encoded` is an Argon2 hash string that `password` matches.
pub uninterp spec fn argon2_matches(password: Seq<u8>, encoded: Seq<char>) -> bool;

/// `PwHash::hash` with dryoc's default (interactive) configuration and a
/// random salt, then `to_encoded_string`. The encoded hash matches the
/// password.
#[verifier::external_body]
pub(crate) fn argon2id_hash_string(password: &[u8]) -> (out: Option<String>)
    ensures
        out matches Some(h) ==> argon2_matches(password@, h@),
{
    VecPwHash::hash(password, Config::default()).ok()?.to_encoded_string().ok()
}

/// `PwHash::from_string` of the encoded hash, then `verify` of the
/// password; false where either fails.
#[verifier::external_body]
pub(crate) fn argon2id_check(password: &[u8], encoded: &str) -> (out: bool)
    ensures
        out == argon2_matches(password@, encoded@),
{
    VecPwHash::from_string(encoded).and_then(|hash| hash.verify(password)).is_ok()
}

// ---------------------------------------------------------------- XChaCha20-Poly1305

/// What opening a `nonce || ciphertext || tag` envelope gives; `None` where
/// authentication fails.
pub uninterp spec fn xchacha_open(envelope: Seq<u8>, aad: Seq<u8>, key: Seq<u8>) -> Option<Seq<u8>>;

/// `ciphertext || tag` of XChaCha20-Poly1305 under a key and 24-byte nonce.
pub uninterp spec fn xchacha_seal_with(data: Seq<u8>, aad: Seq<u8>, key: Seq<u8>, nonce: Seq<u8>) -> Seq<u8>;

/// `VecEnvelope::seal_to_vecbox` with a random 24-byte nonce, then
/// `into_vec`: `nonce || ciphertext || 16-byte tag`, which opens to the data
/// under the same key and associated data. It refuses only messages longer
/// than `usize::MAX - 16` bytes.
#[verifier::external_body]
pub(crate) fn xchacha_seal(data: &[u8], aad: &[u8], key: &[u8]) -> (out: Option<Vec<u8>>)
    requires
        key.len() == 32,
    ensures
        data@.len() <= usize::MAX - 16 ==> out is Some,
        out matches Some(e) ==> e@.len() == data@.len() + 40 && e@.skip(24) == xchacha_seal_with(
            data@,
            aad@,
            key@,
            e@.take(24),
        ) && xchacha_open(e@, aad@, key@) == Some(data@),
{
    let key = aead::Key::try_from(key).unwrap();
    Some(aead::VecEnvelope::seal_to_vecbox(data, Some(aad), &key).ok()?.into_vec())
}

/// `VecEnvelope::from_bytes`, which refuses exactly the envelopes shorter
/// than a nonce and a tag (`Err`), then `open_to_vec`.
#[verifier::external_body]
pub(crate) fn xchacha_open_vec(envelope: &[u8], aad: &[u8], key: &[u8]) -> (out: Result<
    Option<Vec<u8>>,
    (),
>)
    requires
        key.len() == 32,
    ensures
        out is Err <==> envelope@.len() < 40,
        out matches Ok(Some(p)) ==> xchacha_open(envelope@, aad@, key@) == Some(p@),
        out matches Ok(None) ==> xchacha_open(envelope@, aad@, key@) is None,
{
    let key = aead::Key::try_from(key).unwrap();
    let envelope = aead::VecEnvelope::from_bytes(envelope).map_err(|_| ())?;
    Ok(envelope.open_to_vec(Some(aad), &key).ok())
}

// ---------------------------------------------------------------- secretbox

/// `mac || ciphertext` of XSalsa20-Poly1305 under a nonce and key.
pub uninterp spec fn secretbox_seal(data: Seq<u8>, nonce: Seq<u8>, key: Seq<u8>) -> Seq<u8>;

/// What opening `mac || ciphertext` gives; `None` where authentication
/// fails.
pub uninterp spec fn secretbox_open(sealed: Seq<u8>, nonce: Seq<u8>, key: Seq<u8>) -> Option<Seq<u8>>;

/// `dryocsecretbox::Nonce::generate`: 24 random bytes.
#[verifier::external_body]
pub(crate) fn secretbox_nonce() -> (out: Vec<u8>)
    ensures
        out@.len() == 24,
{
    SecretBoxNonce::generate().to_vec()
}

/// `VecBox::encrypt_to_vecbox`, then `to_vec`: a 16-byte MAC before the
/// ciphertext, which opens to the data under the same nonce and key. It
/// refuses only messages longer than `usize::MAX - 16` bytes.
#[verifier::external_body]
pub(crate) fn secretbox_seal_vec(data: &[u8], nonce: &[u8], key: &[u8]) -> (out: Option<Vec<u8>>)
    requires
        nonce.len() == 24,
        key.len() == 32,
    ensures
        data@.len() <= usize::MAX - 16 ==> out is Some,
        out matches Some(s) ==> s@ == secretbox_seal(data@, nonce@, key@) && s@.len()
            == data@.len() + 16 && secretbox_open(s@, nonce@, key@) == Some(data@),
{
    let nonce = SecretBoxNonce::try_from(nonce).unwrap();
    let key = SecretBoxKey::try_from(key).unwrap();
    Some(SecretVecBox::encrypt_to_vecbox(data, &nonce, &key).ok()?.to_vec())
}

/// `VecBox::from_bytes` of `mac || ciphertext`, then `decrypt_to_vec`.
#[verifier::external_body]
pub(crate) fn secretbox_open_vec(sealed: &[u8], nonce: &[u8], key: &[u8]) -> (out: Option<Vec<u8>>)
    requires
        sealed.len() >= 16,
        nonce.len() == 24,
        key.len() == 32,
    ensures
        match out {
            Some(p) => secretbox_open(sealed@, nonce@, key@) == Some(p@),
            None => secretbox_open(sealed@, nonce@, key@) is None,
        },
{
    let nonce = SecretBoxNonce::try_from(nonce).unwrap();
    let key = SecretBoxKey::try_from(key).unwrap();
    SecretVecBox::from_bytes(sealed).ok()?.decrypt_to_vec(&nonce, &key).ok()
}

// ---------------------------------------------------------------- sealed box

/// What opening a sealed box `epk || mac || ciphertext` with a recipient key
/// pair gives; `None` where authentication fails.
pub uninterp spec fn box_unseal(sealed: Seq<u8>, public_key: Seq<u8>, secret_key: Seq<u8>) -> Option<
    Seq<u8>,
>;

/// Whether a 32-byte key is the X25519 public key of some secret key, and
/// so none of the low-order points that dryoc refuses to seal to.
pub open spec fn is_x25519_public_key(pk: Seq<u8>) -> bool {
    exists|sk: Seq<u8>| sk.len() == 32 && #[trigger] x25519_mult(sk, curve25519_base()) == Some(pk)
}

/// `VecBox::seal_to_vecbox` for the recipient, with a random ephemeral key
/// pair, then `to_bytes`: 32 bytes of ephemeral public key, a 16-byte MAC,
/// the ciphertext. The holder of the secret key whose public key the
/// recipient key is opens it to the data. dryoc refuses only messages
/// longer than `usize::MAX - 16` bytes and low-order recipient keys.
#[verifier::external_body]
pub(crate) fn box_seal_vec(data: &[u8], public_key: &[u8]) -> (out: Option<Vec<u8>>)
    requires
        public_key.len() == 32,
    ensures
        data@.len() <= usize::MAX - 16 && is_x25519_public_key(public_key@) ==> out is Some,
        out matches Some(s) ==> is_x25519_public_key(s@.take(32)),
        out matches Some(s) ==> s@.len() == data@.len() + 48 && forall|sk: Seq<u8>|
            x25519_mult(sk, curve25519_base()) == Some(public_key@) ==> #[trigger] box_unseal(
                s@,
                public_key@,
                sk,
            ) == Some(data@),
{
    let public_key = BoxPublicKey::try_from(public_key).unwrap();
    Some(VecBox::seal_to_vecbox(data, &public_key).ok()?.to_bytes::<Vec<u8>>())
}

/// `VecBox::from_sealed_bytes`, then `open` with the key pair.
#[verifier::external_body]
pub(crate) fn box_unseal_vec(sealed: &[u8], public_key: &[u8], secret_key: &[u8]) -> (out: Option<Vec<u8>>)
    requires
        sealed.len() >= 48,
        public_key.len() == 32,
        secret_key.len() == 32,
    ensures
        match out {
            Some(p) => box_unseal(sealed@, public_key@, secret_key@) == Some(p@),
            None => box_unseal(sealed@, public_key@, secret_key@) is None,
        },
{
    let keypair = BoxKeyPair {
        public_key: BoxPublicKey::try_from(public_key).unwrap(),
        secret_key: BoxSecretKey::try_from(secret_key).unwrap(),
    };
    VecBox::from_sealed_bytes(sealed).ok()?.open::<Vec<u8>, _, _>(&keypair).ok()
}

// ---------------------------------------------------------------- Ed25519 and X25519

/// The 64-byte Ed25519 signature of `data` by a 64-byte secret key.
pub uninterp spec fn ed25519_signature(data: Seq<u8>, secret_key: Seq<u8>) -> Seq<u8>;

/// Whether `signature` is a valid Ed25519 signature of `data` under
/// `public_key`.
pub uninterp spec fn ed25519_valid(data: Seq<u8>, signature: Seq<u8>, public_key: Seq<u8>) -> bool;

/// `SigningKeyPair::from_secret_key`, then `sign_to_vecbox`; the first 64
/// bytes of the signed message are the signature.
#[verifier::external_body]
pub(crate) fn ed25519_sign_vec(data: &[u8], secret_key: &[u8]) -> (out: Vec<u8>)
    requires
        secret_key.len() == 64,
    ensures
        out@ == ed25519_signature(data@, secret_key@),
        out@.len() == 64,
{
    let secret_key = SignSecretKey::try_from(secret_key).unwrap();
    let keypair = SigningKeyPair::<SignPublicKey, SignSecretKey>::from_secret_key(secret_key);
    keypair.sign_to_vecbox(data).to_vec()[..64].to_vec()
}

/// `VecSignedMessage::from_bytes` of `signature || data`, then `verify`
/// with the public key.
#[verifier::external_body]
pub(crate) fn ed25519_check(data: &[u8], signature: &[u8], public_key: &[u8]) -> (out: bool)
    requires
        signature.len() == 64,
        public_key.len() == 32,
    ensures
        out == ed25519_valid(data@, signature@, public_key@),
{
    let public_key = SignPublicKey::try_from(public_key).unwrap();
    let signature = Signature::try_from(signature).unwrap();
    let message = dryoc::sign::VecSignedMessage::from_parts(signature, data.to_vec());
    message.verify(&public_key).is_ok()
}

/// The X25519 product of a secret scalar and a point; `None` where it is
/// all zeros.
pub uninterp spec fn x25519_mult(secret_key: Seq<u8>, public_key: Seq<u8>) -> Option<Seq<u8>>;

/// `classic::crypto_core::crypto_scalarmult`, which fails where the product
/// is all zeros; the product is 32 bytes.
#[verifier::external_body]
pub(crate) fn x25519_vec(secret_key: &[u8], public_key: &[u8]) -> (out: Option<Vec<u8>>)
    requires
        secret_key.len() == 32,
        public_key.len() == 32,
    ensures
        match out {
            Some(s) => x25519_mult(secret_key@, public_key@) == Some(s@) && s@.len() == 32,
            None => x25519_mult(secret_key@, public_key@) is None,
        },
{
    let mut shared = [0u8; 32];
    let secret: [u8; 32] = secret_key.try_into().unwrap();
    let public: [u8; 32] = public_key.try_into().unwrap();
    crypto_scalarmult(&mut shared, &secret, &public).ok()?;
    Some(shared.to_vec())
}

// ---------------------------------------------------------------- randomness

/// `dryoc::rng::copy_randombytes` into a zeroed buffer of `length` bytes.
#[verifier::external_body]
pub(crate) fn random_vec(length: usize) -> (out: Vec<u8>)
    ensures
        out@.len() == length,
{
    let mut output = vec![0; length];
    dryoc::rng::copy_randombytes(&mut output);
    output
}

} // verus!
