//! The block-cipher modes of the raw `encrypt`/`decrypt` family, as the
//! RustCrypto `cbc`, `ecb` and `cfb-mode` crates provide them over `aes` and
//! `blowfish`. Each function here makes one call of those crates; what the
//! call returns is named by a spec function of the same stem.
use cipher::block_padding::{NoPadding, Pkcs7};
use cipher::{BlockModeDecrypt, BlockModeEncrypt, KeyInit, KeyIvInit};
use vstd::prelude::*;

verus! {

/// The view of an optional byte vector.
pub open spec fn view_opt(o: Option<Vec<u8>>) -> Option<Seq<u8>> {
    match o {
        Some(v) => Some(v@),
        None => None,
    }
}

// ---------------------------------------------------------------- AES-128
pub uninterp spec fn aes128_cbc_pkcs7_encrypt(key: Seq<u8>, iv: Seq<u8>, data: Seq<u8>) -> Seq<u8>;
pub uninterp spec fn aes128_cbc_pkcs7_decrypt(key: Seq<u8>, iv: Seq<u8>, data: Seq<u8>) -> Option<Seq<u8>>;
pub uninterp spec fn aes128_cbc_nopad_encrypt(key: Seq<u8>, iv: Seq<u8>, data: Seq<u8>) -> Seq<u8>;
pub uninterp spec fn aes128_cbc_nopad_decrypt(key: Seq<u8>, iv: Seq<u8>, data: Seq<u8>) -> Option<Seq<u8>>;
pub uninterp spec fn aes128_ecb_pkcs7_encrypt(key: Seq<u8>, data: Seq<u8>) -> Seq<u8>;
pub uninterp spec fn aes128_ecb_pkcs7_decrypt(key: Seq<u8>, data: Seq<u8>) -> Option<Seq<u8>>;
pub uninterp spec fn aes128_ecb_nopad_encrypt(key: Seq<u8>, data: Seq<u8>) -> Seq<u8>;
pub uninterp spec fn aes128_ecb_nopad_decrypt(key: Seq<u8>, data: Seq<u8>) -> Option<Seq<u8>>;
pub uninterp spec fn aes128_cfb_encrypt(key: Seq<u8>, iv: Seq<u8>, data: Seq<u8>) -> Seq<u8>;
pub uninterp spec fn aes128_cfb_decrypt(key: Seq<u8>, iv: Seq<u8>, data: Seq<u8>) -> Seq<u8>;

/// `cbc::Encryptor::<aes::Aes128>` with `encrypt_padded_vec::<Pkcs7>`. PKCS#7
/// always adds between one byte and a whole block, and the ciphertext
/// decrypts back to the data.
#[verifier::external_body]
pub(crate) fn aes128_cbc_pkcs7_encrypt_vec(key: &[u8], iv: &[u8], data: &[u8]) -> (out: Vec<u8>)
    requires
        key.len() == 16,
        iv.len() == 16,
    ensures
        out@ == aes128_cbc_pkcs7_encrypt(key@, iv@, data@),
        out@.len() == (data@.len() / 16 + 1) * 16,
        aes128_cbc_pkcs7_decrypt(key@, iv@, out@) == Some(data@),
{
    cbc::Encryptor::<aes::Aes128>::new_from_slices(key, iv).unwrap().encrypt_padded_vec::<Pkcs7>(data)
}

/// `cbc::Encryptor::<aes::Aes128>` with `encrypt_padded_vec::<NoPadding>`, which
/// panics unless the data fills whole blocks. The ciphertext has the length
/// of the data and decrypts back to it.
#[verifier::external_body]
pub(crate) fn aes128_cbc_nopad_encrypt_vec(key: &[u8], iv: &[u8], data: &[u8]) -> (out: Vec<u8>)
    requires
        key.len() == 16,
        iv.len() == 16,
        data.len() % 16 == 0,
    ensures
        out@ == aes128_cbc_nopad_encrypt(key@, iv@, data@),
        out@.len() == data@.len(),
        aes128_cbc_nopad_decrypt(key@, iv@, out@) == Some(data@),
{
    cbc::Encryptor::<aes::Aes128>::new_from_slices(key, iv).unwrap().encrypt_padded_vec::<NoPadding>(data)
}

/// `cbc::Decryptor::<aes::Aes128>` with `decrypt_padded_vec::<Pkcs7>`, which
/// fails on data that is empty or does not fill whole blocks, and otherwise
/// strips between one byte and a whole block of padding.
#[verifier::external_body]
pub(crate) fn aes128_cbc_pkcs7_decrypt_vec(key: &[u8], iv: &[u8], data: &[u8]) -> (out: Option<Vec<u8>>)
    requires
        key.len() == 16,
        iv.len() == 16,
    ensures
        view_opt(out) == aes128_cbc_pkcs7_decrypt(key@, iv@, data@),
        data@.len() % 16 != 0 || data@.len() == 0 ==> out is None,
        out matches Some(p) ==> data@.len() - 16 <= p@.len() < data@.len(),
{
    cbc::Decryptor::<aes::Aes128>::new_from_slices(key, iv).unwrap().decrypt_padded_vec::<Pkcs7>(data).ok()
}

/// `cbc::Decryptor::<aes::Aes128>` with `decrypt_padded_vec::<NoPadding>`, which
/// fails exactly on data that does not fill whole blocks.
#[verifier::external_body]
pub(crate) fn aes128_cbc_nopad_decrypt_vec(key: &[u8], iv: &[u8], data: &[u8]) -> (out: Option<Vec<u8>>)
    requires
        key.len() == 16,
        iv.len() == 16,
    ensures
        view_opt(out) == aes128_cbc_nopad_decrypt(key@, iv@, data@),
        out is Some <==> data@.len() % 16 == 0,
        out matches Some(p) ==> p@.len() == data@.len(),
{
    cbc::Decryptor::<aes::Aes128>::new_from_slices(key, iv).unwrap().decrypt_padded_vec::<NoPadding>(data).ok()
}

/// `ecb::Encryptor::<aes::Aes128>` with `encrypt_padded_vec::<Pkcs7>`. PKCS#7
/// always adds between one byte and a whole block, and the ciphertext
/// decrypts back to the data.
#[verifier::external_body]
pub(crate) fn aes128_ecb_pkcs7_encrypt_vec(key: &[u8], data: &[u8]) -> (out: Vec<u8>)
    requires
        key.len() == 16,
    ensures
        out@ == aes128_ecb_pkcs7_encrypt(key@, data@),
        out@.len() == (data@.len() / 16 + 1) * 16,
        aes128_ecb_pkcs7_decrypt(key@, out@) == Some(data@),
{
    ecb::Encryptor::<aes::Aes128>::new_from_slice(key).unwrap().encrypt_padded_vec::<Pkcs7>(data)
}

/// `ecb::Encryptor::<aes::Aes128>` with `encrypt_padded_vec::<NoPadding>`, which
/// panics unless the data fills whole blocks. The ciphertext has the length
/// of the data and decrypts back to it.
#[verifier::external_body]
pub(crate) fn aes128_ecb_nopad_encrypt_vec(key: &[u8], data: &[u8]) -> (out: Vec<u8>)
    requires
        key.len() == 16,
        data.len() % 16 == 0,
    ensures
        out@ == aes128_ecb_nopad_encrypt(key@, data@),
        out@.len() == data@.len(),
        aes128_ecb_nopad_decrypt(key@, out@) == Some(data@),
{
    ecb::Encryptor::<aes::Aes128>::new_from_slice(key).unwrap().encrypt_padded_vec::<NoPadding>(data)
}

/// `ecb::Decryptor::<aes::Aes128>` with `decrypt_padded_vec::<Pkcs7>`, which
/// fails on data that is empty or does not fill whole blocks, and otherwise
/// strips between one byte and a whole block of padding.
#[verifier::external_body]
pub(crate) fn aes128_ecb_pkcs7_decrypt_vec(key: &[u8], data: &[u8]) -> (out: Option<Vec<u8>>)
    requires
        key.len() == 16,
    ensures
        view_opt(out) == aes128_ecb_pkcs7_decrypt(key@, data@),
        data@.len() % 16 != 0 || data@.len() == 0 ==> out is None,
        out matches Some(p) ==> data@.len() - 16 <= p@.len() < data@.len(),
{
    ecb::Decryptor::<aes::Aes128>::new_from_slice(key).unwrap().decrypt_padded_vec::<Pkcs7>(data).ok()
}

/// `ecb::Decryptor::<aes::Aes128>` with `decrypt_padded_vec::<NoPadding>`, which
/// fails exactly on data that does not fill whole blocks.
#[verifier::external_body]
pub(crate) fn aes128_ecb_nopad_decrypt_vec(key: &[u8], data: &[u8]) -> (out: Option<Vec<u8>>)
    requires
        key.len() == 16,
    ensures
        view_opt(out) == aes128_ecb_nopad_decrypt(key@, data@),
        out is Some <==> data@.len() % 16 == 0,
        out matches Some(p) ==> p@.len() == data@.len(),
{
    ecb::Decryptor::<aes::Aes128>::new_from_slice(key).unwrap().decrypt_padded_vec::<NoPadding>(data).ok()
}

/// `cfb_mode::Encryptor::<aes::Aes128>::encrypt` on a copy of the data: full-block
/// cipher feedback, whose ciphertext has the length of the data and
/// decrypts back to it.
#[verifier::external_body]
pub(crate) fn aes128_cfb_encrypt_vec(key: &[u8], iv: &[u8], data: &[u8]) -> (out: Vec<u8>)
    requires
        key.len() == 16,
        iv.len() == 16,
    ensures
        out@ == aes128_cfb_encrypt(key@, iv@, data@),
        out@.len() == data@.len(),
        aes128_cfb_decrypt(key@, iv@, out@) == data@,
{
    let mut out = data.to_vec();
    cfb_mode::Encryptor::<aes::Aes128>::new_from_slices(key, iv).unwrap().encrypt(&mut out);
    out
}

/// `cfb_mode::Decryptor::<aes::Aes128>::decrypt` on a copy of the data.
#[verifier::external_body]
pub(crate) fn aes128_cfb_decrypt_vec(key: &[u8], iv: &[u8], data: &[u8]) -> (out: Vec<u8>)
    requires
        key.len() == 16,
        iv.len() == 16,
    ensures
        out@ == aes128_cfb_decrypt(key@, iv@, data@),
        out@.len() == data@.len(),
{
    let mut out = data.to_vec();
    cfb_mode::Decryptor::<aes::Aes128>::new_from_slices(key, iv).unwrap().decrypt(&mut out);
    out
}

// ---------------------------------------------------------------- AES-192
pub uninterp spec fn aes192_cbc_pkcs7_encrypt(key: Seq<u8>, iv: Seq<u8>, data: Seq<u8>) -> Seq<u8>;
pub uninterp spec fn aes192_cbc_pkcs7_decrypt(key: Seq<u8>, iv: Seq<u8>, data: Seq<u8>) -> Option<Seq<u8>>;
pub uninterp spec fn aes192_cbc_nopad_encrypt(key: Seq<u8>, iv: Seq<u8>, data: Seq<u8>) -> Seq<u8>;
pub uninterp spec fn aes192_cbc_nopad_decrypt(key: Seq<u8>, iv: Seq<u8>, data: Seq<u8>) -> Option<Seq<u8>>;
pub uninterp spec fn aes192_ecb_pkcs7_encrypt(key: Seq<u8>, data: Seq<u8>) -> Seq<u8>;
pub uninterp spec fn aes192_ecb_pkcs7_decrypt(key: Seq<u8>, data: Seq<u8>) -> Option<Seq<u8>>;
pub uninterp spec fn aes192_ecb_nopad_encrypt(key: Seq<u8>, data: Seq<u8>) -> Seq<u8>;
pub uninterp spec fn aes192_ecb_nopad_decrypt(key: Seq<u8>, data: Seq<u8>) -> Option<Seq<u8>>;
pub uninterp spec fn aes192_cfb_encrypt(key: Seq<u8>, iv: Seq<u8>, data: Seq<u8>) -> Seq<u8>;
pub uninterp spec fn aes192_cfb_decrypt(key: Seq<u8>, iv: Seq<u8>, data: Seq<u8>) -> Seq<u8>;

/// `cbc::Encryptor::<aes::Aes192>` with `encrypt_padded_vec::<Pkcs7>`. PKCS#7
/// always adds between one byte and a whole block, and the ciphertext
/// decrypts back to the data.
#[verifier::external_body]
pub(crate) fn aes192_cbc_pkcs7_encrypt_vec(key: &[u8], iv: &[u8], data: &[u8]) -> (out: Vec<u8>)
    requires
        key.len() == 24,
        iv.len() == 16,
    ensures
        out@ == aes192_cbc_pkcs7_encrypt(key@, iv@, data@),
        out@.len() == (data@.len() / 16 + 1) * 16,
        aes192_cbc_pkcs7_decrypt(key@, iv@, out@) == Some(data@),
{
    cbc::Encryptor::<aes::Aes192>::new_from_slices(key, iv).unwrap().encrypt_padded_vec::<Pkcs7>(data)
}

/// `cbc::Encryptor::<aes::Aes192>` with `encrypt_padded_vec::<NoPadding>`, which
/// panics unless the data fills whole blocks. The ciphertext has the length
/// of the data and decrypts back to it.
#[verifier::external_body]
pub(crate) fn aes192_cbc_nopad_encrypt_vec(key: &[u8], iv: &[u8], data: &[u8]) -> (out: Vec<u8>)
    requires
        key.len() == 24,
        iv.len() == 16,
        data.len() % 16 == 0,
    ensures
        out@ == aes192_cbc_nopad_encrypt(key@, iv@, data@),
        out@.len() == data@.len(),
        aes192_cbc_nopad_decrypt(key@, iv@, out@) == Some(data@),
{
    cbc::Encryptor::<aes::Aes192>::new_from_slices(key, iv).unwrap().encrypt_padded_vec::<NoPadding>(data)
}

/// `cbc::Decryptor::<aes::Aes192>` with `decrypt_padded_vec::<Pkcs7>`, which
/// fails on data that is empty or does not fill whole blocks, and otherwise
/// strips between one byte and a whole block of padding.
#[verifier::external_body]
pub(crate) fn aes192_cbc_pkcs7_decrypt_vec(key: &[u8], iv: &[u8], data: &[u8]) -> (out: Option<Vec<u8>>)
    requires
        key.len() == 24,
        iv.len() == 16,
    ensures
        view_opt(out) == aes192_cbc_pkcs7_decrypt(key@, iv@, data@),
        data@.len() % 16 != 0 || data@.len() == 0 ==> out is None,
        out matches Some(p) ==> data@.len() - 16 <= p@.len() < data@.len(),
{
    cbc::Decryptor::<aes::Aes192>::new_from_slices(key, iv).unwrap().decrypt_padded_vec::<Pkcs7>(data).ok()
}

/// `cbc::Decryptor::<aes::Aes192>` with `decrypt_padded_vec::<NoPadding>`, which
/// fails exactly on data that does not fill whole blocks.
#[verifier::external_body]
pub(crate) fn aes192_cbc_nopad_decrypt_vec(key: &[u8], iv: &[u8], data: &[u8]) -> (out: Option<Vec<u8>>)
    requires
        key.len() == 24,
        iv.len() == 16,
    ensures
        view_opt(out) == aes192_cbc_nopad_decrypt(key@, iv@, data@),
        out is Some <==> data@.len() % 16 == 0,
        out matches Some(p) ==> p@.len() == data@.len(),
{
    cbc::Decryptor::<aes::Aes192>::new_from_slices(key, iv).unwrap().decrypt_padded_vec::<NoPadding>(data).ok()
}

/// `ecb::Encryptor::<aes::Aes192>` with `encrypt_padded_vec::<Pkcs7>`. PKCS#7
/// always adds between one byte and a whole block, and the ciphertext
/// decrypts back to the data.
#[verifier::external_body]
pub(crate) fn aes192_ecb_pkcs7_encrypt_vec(key: &[u8], data: &[u8]) -> (out: Vec<u8>)
    requires
        key.len() == 24,
    ensures
        out@ == aes192_ecb_pkcs7_encrypt(key@, data@),
        out@.len() == (data@.len() / 16 + 1) * 16,
        aes192_ecb_pkcs7_decrypt(key@, out@) == Some(data@),
{
    ecb::Encryptor::<aes::Aes192>::new_from_slice(key).unwrap().encrypt_padded_vec::<Pkcs7>(data)
}

/// `ecb::Encryptor::<aes::Aes192>` with `encrypt_padded_vec::<NoPadding>`, which
/// panics unless the data fills whole blocks. The ciphertext has the length
/// of the data and decrypts back to it.
#[verifier::external_body]
pub(crate) fn aes192_ecb_nopad_encrypt_vec(key: &[u8], data: &[u8]) -> (out: Vec<u8>)
    requires
        key.len() == 24,
        data.len() % 16 == 0,
    ensures
        out@ == aes192_ecb_nopad_encrypt(key@, data@),
        out@.len() == data@.len(),
        aes192_ecb_nopad_decrypt(key@, out@) == Some(data@),
{
    ecb::Encryptor::<aes::Aes192>::new_from_slice(key).unwrap().encrypt_padded_vec::<NoPadding>(data)
}

/// `ecb::Decryptor::<aes::Aes192>` with `decrypt_padded_vec::<Pkcs7>`, which
/// fails on data that is empty or does not fill whole blocks, and otherwise
/// strips between one byte and a whole block of padding.
#[verifier::external_body]
pub(crate) fn aes192_ecb_pkcs7_decrypt_vec(key: &[u8], data: &[u8]) -> (out: Option<Vec<u8>>)
    requires
        key.len() == 24,
    ensures
        view_opt(out) == aes192_ecb_pkcs7_decrypt(key@, data@),
        data@.len() % 16 != 0 || data@.len() == 0 ==> out is None,
        out matches Some(p) ==> data@.len() - 16 <= p@.len() < data@.len(),
{
    ecb::Decryptor::<aes::Aes192>::new_from_slice(key).unwrap().decrypt_padded_vec::<Pkcs7>(data).ok()
}

/// `ecb::Decryptor::<aes::Aes192>` with `decrypt_padded_vec::<NoPadding>`, which
/// fails exactly on data that does not fill whole blocks.
#[verifier::external_body]
pub(crate) fn aes192_ecb_nopad_decrypt_vec(key: &[u8], data: &[u8]) -> (out: Option<Vec<u8>>)
    requires
        key.len() == 24,
    ensures
        view_opt(out) == aes192_ecb_nopad_decrypt(key@, data@),
        out is Some <==> data@.len() % 16 == 0,
        out matches Some(p) ==> p@.len() == data@.len(),
{
    ecb::Decryptor::<aes::Aes192>::new_from_slice(key).unwrap().decrypt_padded_vec::<NoPadding>(data).ok()
}

/// `cfb_mode::Encryptor::<aes::Aes192>::encrypt` on a copy of the data: full-block
/// cipher feedback, whose ciphertext has the length of the data and
/// decrypts back to it.
#[verifier::external_body]
pub(crate) fn aes192_cfb_encrypt_vec(key: &[u8], iv: &[u8], data: &[u8]) -> (out: Vec<u8>)
    requires
        key.len() == 24,
        iv.len() == 16,
    ensures
        out@ == aes192_cfb_encrypt(key@, iv@, data@),
        out@.len() == data@.len(),
        aes192_cfb_decrypt(key@, iv@, out@) == data@,
{
    let mut out = data.to_vec();
    cfb_mode::Encryptor::<aes::Aes192>::new_from_slices(key, iv).unwrap().encrypt(&mut out);
    out
}

/// `cfb_mode::Decryptor::<aes::Aes192>::decrypt` on a copy of the data.
#[verifier::external_body]
pub(crate) fn aes192_cfb_decrypt_vec(key: &[u8], iv: &[u8], data: &[u8]) -> (out: Vec<u8>)
    requires
        key.len() == 24,
        iv.len() == 16,
    ensures
        out@ == aes192_cfb_decrypt(key@, iv@, data@),
        out@.len() == data@.len(),
{
    let mut out = data.to_vec();
    cfb_mode::Decryptor::<aes::Aes192>::new_from_slices(key, iv).unwrap().decrypt(&mut out);
    out
}

// ---------------------------------------------------------------- AES-256
pub uninterp spec fn aes256_cbc_pkcs7_encrypt(key: Seq<u8>, iv: Seq<u8>, data: Seq<u8>) -> Seq<u8>;
pub uninterp spec fn aes256_cbc_pkcs7_decrypt(key: Seq<u8>, iv: Seq<u8>, data: Seq<u8>) -> Option<Seq<u8>>;
pub uninterp spec fn aes256_cbc_nopad_encrypt(key: Seq<u8>, iv: Seq<u8>, data: Seq<u8>) -> Seq<u8>;
pub uninterp spec fn aes256_cbc_nopad_decrypt(key: Seq<u8>, iv: Seq<u8>, data: Seq<u8>) -> Option<Seq<u8>>;
pub uninterp spec fn aes256_ecb_pkcs7_encrypt(key: Seq<u8>, data: Seq<u8>) -> Seq<u8>;
pub uninterp spec fn aes256_ecb_pkcs7_decrypt(key: Seq<u8>, data: Seq<u8>) -> Option<Seq<u8>>;
pub uninterp spec fn aes256_ecb_nopad_encrypt(key: Seq<u8>, data: Seq<u8>) -> Seq<u8>;
pub uninterp spec fn aes256_ecb_nopad_decrypt(key: Seq<u8>, data: Seq<u8>) -> Option<Seq<u8>>;
pub uninterp spec fn aes256_cfb_encrypt(key: Seq<u8>, iv: Seq<u8>, data: Seq<u8>) -> Seq<u8>;
pub uninterp spec fn aes256_cfb_decrypt(key: Seq<u8>, iv: Seq<u8>, data: Seq<u8>) -> Seq<u8>;

/// `cbc::Encryptor::<aes::Aes256>` with `encrypt_padded_vec::<Pkcs7>`. PKCS#7
/// always adds between one byte and a whole block, and the ciphertext
/// decrypts back to the data.
#[verifier::external_body]
pub(crate) fn aes256_cbc_pkcs7_encrypt_vec(key: &[u8], iv: &[u8], data: &[u8]) -> (out: Vec<u8>)
    requires
        key.len() == 32,
        iv.len() == 16,
    ensures
        out@ == aes256_cbc_pkcs7_encrypt(key@, iv@, data@),
        out@.len() == (data@.len() / 16 + 1) * 16,
        aes256_cbc_pkcs7_decrypt(key@, iv@, out@) == Some(data@),
{
    cbc::Encryptor::<aes::Aes256>::new_from_slices(key, iv).unwrap().encrypt_padded_vec::<Pkcs7>(data)
}

/// `cbc::Encryptor::<aes::Aes256>` with `encrypt_padded_vec::<NoPadding>`, which
/// panics unless the data fills whole blocks. The ciphertext has the length
/// of the data and decrypts back to it.
#[verifier::external_body]
pub(crate) fn aes256_cbc_nopad_encrypt_vec(key: &[u8], iv: &[u8], data: &[u8]) -> (out: Vec<u8>)
    requires
        key.len() == 32,
        iv.len() == 16,
        data.len() % 16 == 0,
    ensures
        out@ == aes256_cbc_nopad_encrypt(key@, iv@, data@),
        out@.len() == data@.len(),
        aes256_cbc_nopad_decrypt(key@, iv@, out@) == Some(data@),
{
    cbc::Encryptor::<aes::Aes256>::new_from_slices(key, iv).unwrap().encrypt_padded_vec::<NoPadding>(data)
}

/// `cbc::Decryptor::<aes::Aes256>` with `decrypt_padded_vec::<Pkcs7>`, which
/// fails on data that is empty or does not fill whole blocks, and otherwise
/// strips between one byte and a whole block of padding.
#[verifier::external_body]
pub(crate) fn aes256_cbc_pkcs7_decrypt_vec(key: &[u8], iv: &[u8], data: &[u8]) -> (out: Option<Vec<u8>>)
    requires
        key.len() == 32,
        iv.len() == 16,
    ensures
        view_opt(out) == aes256_cbc_pkcs7_decrypt(key@, iv@, data@),
        data@.len() % 16 != 0 || data@.len() == 0 ==> out is None,
        out matches Some(p) ==> data@.len() - 16 <= p@.len() < data@.len(),
{
    cbc::Decryptor::<aes::Aes256>::new_from_slices(key, iv).unwrap().decrypt_padded_vec::<Pkcs7>(data).ok()
}

/// `cbc::Decryptor::<aes::Aes256>` with `decrypt_padded_vec::<NoPadding>`, which
/// fails exactly on data that does not fill whole blocks.
#[verifier::external_body]
pub(crate) fn aes256_cbc_nopad_decrypt_vec(key: &[u8], iv: &[u8], data: &[u8]) -> (out: Option<Vec<u8>>)
    requires
        key.len() == 32,
        iv.len() == 16,
    ensures
        view_opt(out) == aes256_cbc_nopad_decrypt(key@, iv@, data@),
        out is Some <==> data@.len() % 16 == 0,
        out matches Some(p) ==> p@.len() == data@.len(),
{
    cbc::Decryptor::<aes::Aes256>::new_from_slices(key, iv).unwrap().decrypt_padded_vec::<NoPadding>(data).ok()
}

/// `ecb::Encryptor::<aes::Aes256>` with `encrypt_padded_vec::<Pkcs7>`. PKCS#7
/// always adds between one byte and a whole block, and the ciphertext
/// decrypts back to the data.
#[verifier::external_body]
pub(crate) fn aes256_ecb_pkcs7_encrypt_vec(key: &[u8], data: &[u8]) -> (out: Vec<u8>)
    requires
        key.len() == 32,
    ensures
        out@ == aes256_ecb_pkcs7_encrypt(key@, data@),
        out@.len() == (data@.len() / 16 + 1) * 16,
        aes256_ecb_pkcs7_decrypt(key@, out@) == Some(data@),
{
    ecb::Encryptor::<aes::Aes256>::new_from_slice(key).unwrap().encrypt_padded_vec::<Pkcs7>(data)
}

/// `ecb::Encryptor::<aes::Aes256>` with `encrypt_padded_vec::<NoPadding>`, which
/// panics unless the data fills whole blocks. The ciphertext has the length
/// of the data and decrypts back to it.
#[verifier::external_body]
pub(crate) fn aes256_ecb_nopad_encrypt_vec(key: &[u8], data: &[u8]) -> (out: Vec<u8>)
    requires
        key.len() == 32,
        data.len() % 16 == 0,
    ensures
        out@ == aes256_ecb_nopad_encrypt(key@, data@),
        out@.len() == data@.len(),
        aes256_ecb_nopad_decrypt(key@, out@) == Some(data@),
{
    ecb::Encryptor::<aes::Aes256>::new_from_slice(key).unwrap().encrypt_padded_vec::<NoPadding>(data)
}

/// `ecb::Decryptor::<aes::Aes256>` with `decrypt_padded_vec::<Pkcs7>`, which
/// fails on data that is empty or does not fill whole blocks, and otherwise
/// strips between one byte and a whole block of padding.
#[verifier::external_body]
pub(crate) fn aes256_ecb_pkcs7_decrypt_vec(key: &[u8], data: &[u8]) -> (out: Option<Vec<u8>>)
    requires
        key.len() == 32,
    ensures
        view_opt(out) == aes256_ecb_pkcs7_decrypt(key@, data@),
        data@.len() % 16 != 0 || data@.len() == 0 ==> out is None,
        out matches Some(p) ==> data@.len() - 16 <= p@.len() < data@.len(),
{
    ecb::Decryptor::<aes::Aes256>::new_from_slice(key).unwrap().decrypt_padded_vec::<Pkcs7>(data).ok()
}

/// `ecb::Decryptor::<aes::Aes256>` with `decrypt_padded_vec::<NoPadding>`, which
/// fails exactly on data that does not fill whole blocks.
#[verifier::external_body]
pub(crate) fn aes256_ecb_nopad_decrypt_vec(key: &[u8], data: &[u8]) -> (out: Option<Vec<u8>>)
    requires
        key.len() == 32,
    ensures
        view_opt(out) == aes256_ecb_nopad_decrypt(key@, data@),
        out is Some <==> data@.len() % 16 == 0,
        out matches Some(p) ==> p@.len() == data@.len(),
{
    ecb::Decryptor::<aes::Aes256>::new_from_slice(key).unwrap().decrypt_padded_vec::<NoPadding>(data).ok()
}

/// `cfb_mode::Encryptor::<aes::Aes256>::encrypt` on a copy of the data: full-block
/// cipher feedback, whose ciphertext has the length of the data and
/// decrypts back to it.
#[verifier::external_body]
pub(crate) fn aes256_cfb_encrypt_vec(key: &[u8], iv: &[u8], data: &[u8]) -> (out: Vec<u8>)
    requires
        key.len() == 32,
        iv.len() == 16,
    ensures
        out@ == aes256_cfb_encrypt(key@, iv@, data@),
        out@.len() == data@.len(),
        aes256_cfb_decrypt(key@, iv@, out@) == data@,
{
    let mut out = data.to_vec();
    cfb_mode::Encryptor::<aes::Aes256>::new_from_slices(key, iv).unwrap().encrypt(&mut out);
    out
}

/// `cfb_mode::Decryptor::<aes::Aes256>::decrypt` on a copy of the data.
#[verifier::external_body]
pub(crate) fn aes256_cfb_decrypt_vec(key: &[u8], iv: &[u8], data: &[u8]) -> (out: Vec<u8>)
    requires
        key.len() == 32,
        iv.len() == 16,
    ensures
        out@ == aes256_cfb_decrypt(key@, iv@, data@),
        out@.len() == data@.len(),
{
    let mut out = data.to_vec();
    cfb_mode::Decryptor::<aes::Aes256>::new_from_slices(key, iv).unwrap().decrypt(&mut out);
    out
}

// ---------------------------------------------------------------- Blowfish
pub uninterp spec fn blowfish_cbc_pkcs7_encrypt(key: Seq<u8>, iv: Seq<u8>, data: Seq<u8>) -> Seq<u8>;
pub uninterp spec fn blowfish_cbc_pkcs7_decrypt(key: Seq<u8>, iv: Seq<u8>, data: Seq<u8>) -> Option<Seq<u8>>;
pub uninterp spec fn blowfish_cbc_nopad_encrypt(key: Seq<u8>, iv: Seq<u8>, data: Seq<u8>) -> Seq<u8>;
pub uninterp spec fn blowfish_cbc_nopad_decrypt(key: Seq<u8>, iv: Seq<u8>, data: Seq<u8>) -> Option<Seq<u8>>;
pub uninterp spec fn blowfish_ecb_pkcs7_encrypt(key: Seq<u8>, data: Seq<u8>) -> Seq<u8>;
pub uninterp spec fn blowfish_ecb_pkcs7_decrypt(key: Seq<u8>, data: Seq<u8>) -> Option<Seq<u8>>;
pub uninterp spec fn blowfish_ecb_nopad_encrypt(key: Seq<u8>, data: Seq<u8>) -> Seq<u8>;
pub uninterp spec fn blowfish_ecb_nopad_decrypt(key: Seq<u8>, data: Seq<u8>) -> Option<Seq<u8>>;
pub uninterp spec fn blowfish_cfb_encrypt(key: Seq<u8>, iv: Seq<u8>, data: Seq<u8>) -> Seq<u8>;
pub uninterp spec fn blowfish_cfb_decrypt(key: Seq<u8>, iv: Seq<u8>, data: Seq<u8>) -> Seq<u8>;

/// `cbc::Encryptor::<blowfish::Blowfish>` with `encrypt_padded_vec::<Pkcs7>`. PKCS#7
/// always adds between one byte and a whole block, and the ciphertext
/// decrypts back to the data.
#[verifier::external_body]
pub(crate) fn blowfish_cbc_pkcs7_encrypt_vec(key: &[u8], iv: &[u8], data: &[u8]) -> (out: Vec<u8>)
    requires
        4 <= key.len() <= 56,
        iv.len() == 8,
    ensures
        out@ == blowfish_cbc_pkcs7_encrypt(key@, iv@, data@),
        out@.len() == (data@.len() / 8 + 1) * 8,
        blowfish_cbc_pkcs7_decrypt(key@, iv@, out@) == Some(data@),
{
    cbc::Encryptor::<blowfish::Blowfish>::new_from_slices(key, iv).unwrap().encrypt_padded_vec::<Pkcs7>(data)
}

/// `cbc::Encryptor::<blowfish::Blowfish>` with `encrypt_padded_vec::<NoPadding>`, which
/// panics unless the data fills whole blocks. The ciphertext has the length
/// of the data and decrypts back to it.
#[verifier::external_body]
pub(crate) fn blowfish_cbc_nopad_encrypt_vec(key: &[u8], iv: &[u8], data: &[u8]) -> (out: Vec<u8>)
    requires
        4 <= key.len() <= 56,
        iv.len() == 8,
        data.len() % 8 == 0,
    ensures
        out@ == blowfish_cbc_nopad_encrypt(key@, iv@, data@),
        out@.len() == data@.len(),
        blowfish_cbc_nopad_decrypt(key@, iv@, out@) == Some(data@),
{
    cbc::Encryptor::<blowfish::Blowfish>::new_from_slices(key, iv).unwrap().encrypt_padded_vec::<NoPadding>(data)
}

/// `cbc::Decryptor::<blowfish::Blowfish>` with `decrypt_padded_vec::<Pkcs7>`, which
/// fails on data that is empty or does not fill whole blocks, and otherwise
/// strips between one byte and a whole block of padding.
#[verifier::external_body]
pub(crate) fn blowfish_cbc_pkcs7_decrypt_vec(key: &[u8], iv: &[u8], data: &[u8]) -> (out: Option<Vec<u8>>)
    requires
        4 <= key.len() <= 56,
        iv.len() == 8,
    ensures
        view_opt(out) == blowfish_cbc_pkcs7_decrypt(key@, iv@, data@),
        data@.len() % 8 != 0 || data@.len() == 0 ==> out is None,
        out matches Some(p) ==> data@.len() - 8 <= p@.len() < data@.len(),
{
    cbc::Decryptor::<blowfish::Blowfish>::new_from_slices(key, iv).unwrap().decrypt_padded_vec::<Pkcs7>(data).ok()
}

/// `cbc::Decryptor::<blowfish::Blowfish>` with `decrypt_padded_vec::<NoPadding>`, which
/// fails exactly on data that does not fill whole blocks.
#[verifier::external_body]
pub(crate) fn blowfish_cbc_nopad_decrypt_vec(key: &[u8], iv: &[u8], data: &[u8]) -> (out: Option<Vec<u8>>)
    requires
        4 <= key.len() <= 56,
        iv.len() == 8,
    ensures
        view_opt(out) == blowfish_cbc_nopad_decrypt(key@, iv@, data@),
        out is Some <==> data@.len() % 8 == 0,
        out matches Some(p) ==> p@.len() == data@.len(),
{
    cbc::Decryptor::<blowfish::Blowfish>::new_from_slices(key, iv).unwrap().decrypt_padded_vec::<NoPadding>(data).ok()
}

/// `ecb::Encryptor::<blowfish::Blowfish>` with `encrypt_padded_vec::<Pkcs7>`. PKCS#7
/// always adds between one byte and a whole block, and the ciphertext
/// decrypts back to the data.
#[verifier::external_body]
pub(crate) fn blowfish_ecb_pkcs7_encrypt_vec(key: &[u8], data: &[u8]) -> (out: Vec<u8>)
    requires
        4 <= key.len() <= 56,
    ensures
        out@ == blowfish_ecb_pkcs7_encrypt(key@, data@),
        out@.len() == (data@.len() / 8 + 1) * 8,
        blowfish_ecb_pkcs7_decrypt(key@, out@) == Some(data@),
{
    ecb::Encryptor::<blowfish::Blowfish>::new_from_slice(key).unwrap().encrypt_padded_vec::<Pkcs7>(data)
}

/// `ecb::Encryptor::<blowfish::Blowfish>` with `encrypt_padded_vec::<NoPadding>`, which
/// panics unless the data fills whole blocks. The ciphertext has the length
/// of the data and decrypts back to it.
#[verifier::external_body]
pub(crate) fn blowfish_ecb_nopad_encrypt_vec(key: &[u8], data: &[u8]) -> (out: Vec<u8>)
    requires
        4 <= key.len() <= 56,
        data.len() % 8 == 0,
    ensures
        out@ == blowfish_ecb_nopad_encrypt(key@, data@),
        out@.len() == data@.len(),
        blowfish_ecb_nopad_decrypt(key@, out@) == Some(data@),
{
    ecb::Encryptor::<blowfish::Blowfish>::new_from_slice(key).unwrap().encrypt_padded_vec::<NoPadding>(data)
}

/// `ecb::Decryptor::<blowfish::Blowfish>` with `decrypt_padded_vec::<Pkcs7>`, which
/// fails on data that is empty or does not fill whole blocks, and otherwise
/// strips between one byte and a whole block of padding.
#[verifier::external_body]
pub(crate) fn blowfish_ecb_pkcs7_decrypt_vec(key: &[u8], data: &[u8]) -> (out: Option<Vec<u8>>)
    requires
        4 <= key.len() <= 56,
    ensures
        view_opt(out) == blowfish_ecb_pkcs7_decrypt(key@, data@),
        data@.len() % 8 != 0 || data@.len() == 0 ==> out is None,
        out matches Some(p) ==> data@.len() - 8 <= p@.len() < data@.len(),
{
    ecb::Decryptor::<blowfish::Blowfish>::new_from_slice(key).unwrap().decrypt_padded_vec::<Pkcs7>(data).ok()
}

/// `ecb::Decryptor::<blowfish::Blowfish>` with `decrypt_padded_vec::<NoPadding>`, which
/// fails exactly on data that does not fill whole blocks.
#[verifier::external_body]
pub(crate) fn blowfish_ecb_nopad_decrypt_vec(key: &[u8], data: &[u8]) -> (out: Option<Vec<u8>>)
    requires
        4 <= key.len() <= 56,
    ensures
        view_opt(out) == blowfish_ecb_nopad_decrypt(key@, data@),
        out is Some <==> data@.len() % 8 == 0,
        out matches Some(p) ==> p@.len() == data@.len(),
{
    ecb::Decryptor::<blowfish::Blowfish>::new_from_slice(key).unwrap().decrypt_padded_vec::<NoPadding>(data).ok()
}

/// `cfb_mode::Encryptor::<blowfish::Blowfish>::encrypt` on a copy of the data: full-block
/// cipher feedback, whose ciphertext has the length of the data and
/// decrypts back to it.
#[verifier::external_body]
pub(crate) fn blowfish_cfb_encrypt_vec(key: &[u8], iv: &[u8], data: &[u8]) -> (out: Vec<u8>)
    requires
        4 <= key.len() <= 56,
        iv.len() == 8,
    ensures
        out@ == blowfish_cfb_encrypt(key@, iv@, data@),
        out@.len() == data@.len(),
        blowfish_cfb_decrypt(key@, iv@, out@) == data@,
{
    let mut out = data.to_vec();
    cfb_mode::Encryptor::<blowfish::Blowfish>::new_from_slices(key, iv).unwrap().encrypt(&mut out);
    out
}

/// `cfb_mode::Decryptor::<blowfish::Blowfish>::decrypt` on a copy of the data.
#[verifier::external_body]
pub(crate) fn blowfish_cfb_decrypt_vec(key: &[u8], iv: &[u8], data: &[u8]) -> (out: Vec<u8>)
    requires
        4 <= key.len() <= 56,
        iv.len() == 8,
    ensures
        out@ == blowfish_cfb_decrypt(key@, iv@, data@),
        out@.len() == data@.len(),
{
    let mut out = data.to_vec();
    cfb_mode::Decryptor::<blowfish::Blowfish>::new_from_slices(key, iv).unwrap().decrypt(&mut out);
    out
}

} // verus!
