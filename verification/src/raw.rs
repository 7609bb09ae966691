//! The raw `encrypt`, `decrypt`, `encrypt_iv` and `decrypt_iv` functions:
//! AES or Blowfish in CBC, CFB or ECB mode, with PKCS#7 padding or none.
use crate::block_modes as bm;
use crate::block_modes::view_opt;
use crate::text::{chars_of, eq_lit, find_char, index_of, lemma_index_of, lower_seq, slice_chars, to_lower};
use vstd::prelude::*;

verus! {

#[derive(Clone, Copy, Debug, PartialEq, Eq, Structural)]
pub enum CipherAlgorithm {
    Aes,
    Blowfish,
}

#[derive(Clone, Copy, Debug, PartialEq, Eq, Structural)]
pub enum CipherMode {
    Cbc,
    Cfb,
    Ecb,
}

#[derive(Clone, Copy, Debug, PartialEq, Eq, Structural)]
pub enum Padding {
    Pkcs,
    NoPad,
}

/// A parsed cipher type such as `aes-cbc/pad:pkcs`.
#[derive(Clone, Copy, Debug, PartialEq, Eq, Structural)]
pub struct CipherType {
    pub algorithm: CipherAlgorithm,
    pub mode: CipherMode,
    pub padding: Padding,
}

#[derive(Clone, Copy, Debug, PartialEq, Eq, Structural)]
pub enum RawError {
    /// The part after `/` is neither `pad:pkcs` nor `pad:none`.
    BadPadding,
    /// The cipher is not AES or Blowfish with CBC, CFB or ECB mode.
    UnknownCipher,
    /// An AES key longer than 32 bytes.
    AesKeyTooLong,
    /// An empty Blowfish key.
    InvalidBlowfishKey,
    /// PKCS#7 decryption of data that is not whole blocks or whose padding is malformed.
    BadCiphertext,
    /// Unpadded decryption of data that is not whole blocks.
    NotBlockAligned,
}

/// The AES variant that a key length selects.
#[derive(Clone, Copy, Debug, PartialEq, Eq, Structural)]
pub enum AesVariant {
    Aes128,
    Aes192,
    Aes256,
}

// ------------------------------------------------------------------ specs

/// Cipher and mode named by the part of a lower-cased cipher type before `/`.
pub open spec fn cipher_name(n: Seq<char>) -> Option<(CipherAlgorithm, CipherMode)> {
    if n == "aes"@ || n == "aes-cbc"@ || n == "rijndael"@ || n == "rijndael-cbc"@ {
        Some((CipherAlgorithm::Aes, CipherMode::Cbc))
    } else if n == "aes-cfb"@ || n == "rijndael-cfb"@ {
        Some((CipherAlgorithm::Aes, CipherMode::Cfb))
    } else if n == "aes-ecb"@ || n == "rijndael-ecb"@ {
        Some((CipherAlgorithm::Aes, CipherMode::Ecb))
    } else if n == "bf"@ || n == "bf-cbc"@ || n == "blowfish"@ || n == "blowfish-cbc"@ {
        Some((CipherAlgorithm::Blowfish, CipherMode::Cbc))
    } else if n == "bf-cfb"@ || n == "blowfish-cfb"@ {
        Some((CipherAlgorithm::Blowfish, CipherMode::Cfb))
    } else if n == "bf-ecb"@ || n == "blowfish-ecb"@ {
        Some((CipherAlgorithm::Blowfish, CipherMode::Ecb))
    } else {
        None
    }
}

/// The padding named after the first `/`, PKCS#7 where there is none.
pub open spec fn padding_name(n: Seq<char>) -> Option<Padding> {
    let i = index_of(n, '/');
    if i < n.len() {
        let r = n.skip(i + 1);
        if r == "pad:pkcs"@ {
            Some(Padding::Pkcs)
        } else if r == "pad:none"@ {
            Some(Padding::NoPad)
        } else {
            None
        }
    } else {
        Some(Padding::Pkcs)
    }
}

/// What a cipher type string denotes, case-insensitively.
pub open spec fn parse_type_spec(t: Seq<char>) -> Result<CipherType, RawError> {
    let n = lower_seq(t);
    match padding_name(n) {
        None => Err(RawError::BadPadding),
        Some(padding) => match cipher_name(n.take(index_of(n, '/'))) {
            None => Err(RawError::UnknownCipher),
            Some((algorithm, mode)) => Ok(CipherType { algorithm, mode, padding }),
        },
    }
}

pub open spec fn block_size(a: CipherAlgorithm) -> nat {
    match a {
        CipherAlgorithm::Aes => 16,
        CipherAlgorithm::Blowfish => 8,
    }
}

/// The block size that data must fill when a cipher type pads nothing and
/// its mode works on whole blocks.
pub open spec fn unpadded_block(t: Seq<char>) -> Option<nat> {
    match parse_type_spec(t) {
        Ok(c) => if c.padding == Padding::NoPad && c.mode != CipherMode::Cfb {
            Some(block_size(c.algorithm))
        } else {
            None
        },
        Err(_) => None,
    }
}

/// `input` cut or zero-filled to `n` bytes.
pub open spec fn fixed_spec(input: Seq<u8>, n: nat) -> Seq<u8> {
    Seq::new(n, |i: int| if i < input.len() { input[i] } else { 0u8 })
}

pub open spec fn aes_variant(len: nat) -> Option<AesVariant> {
    if len <= 16 {
        Some(AesVariant::Aes128)
    } else if len <= 24 {
        Some(AesVariant::Aes192)
    } else if len <= 32 {
        Some(AesVariant::Aes256)
    } else {
        None
    }
}

pub open spec fn aes_key_len(v: AesVariant) -> nat {
    match v {
        AesVariant::Aes128 => 16,
        AesVariant::Aes192 => 24,
        AesVariant::Aes256 => 32,
    }
}

/// `out` with whole copies of `orig` appended until it holds four bytes.
pub open spec fn grow_key(out: Seq<u8>, orig: Seq<u8>) -> Seq<u8>
    decreases (if out.len() < 4 { 4 - out.len() } else { 0 }),
    when orig.len() > 0
{
    if out.len() < 4 {
        grow_key(out + orig, orig)
    } else {
        out
    }
}

/// The Blowfish key: the first 56 bytes, and a key of one to three bytes
/// repeated until it holds at least four.
pub open spec fn blowfish_key_spec(key: Seq<u8>) -> Seq<u8> {
    let t = if key.len() <= 56 {
        key
    } else {
        key.take(56)
    };
    if 0 < t.len() < 4 {
        grow_key(t, t)
    } else {
        t
    }
}

pub open spec fn aes_encrypt_with(
    v: AesVariant,
    k: Seq<u8>,
    iv: Seq<u8>,
    mode: CipherMode,
    padding: Padding,
    data: Seq<u8>,
) -> Seq<u8> {
    match (v, mode, padding) {
        (AesVariant::Aes128, CipherMode::Cbc, Padding::Pkcs) => bm::aes128_cbc_pkcs7_encrypt(k, iv, data),
        (AesVariant::Aes128, CipherMode::Cbc, Padding::NoPad) => bm::aes128_cbc_nopad_encrypt(k, iv, data),
        (AesVariant::Aes128, CipherMode::Ecb, Padding::Pkcs) => bm::aes128_ecb_pkcs7_encrypt(k, data),
        (AesVariant::Aes128, CipherMode::Ecb, Padding::NoPad) => bm::aes128_ecb_nopad_encrypt(k, data),
        (AesVariant::Aes128, CipherMode::Cfb, _) => bm::aes128_cfb_encrypt(k, iv, data),
        (AesVariant::Aes192, CipherMode::Cbc, Padding::Pkcs) => bm::aes192_cbc_pkcs7_encrypt(k, iv, data),
        (AesVariant::Aes192, CipherMode::Cbc, Padding::NoPad) => bm::aes192_cbc_nopad_encrypt(k, iv, data),
        (AesVariant::Aes192, CipherMode::Ecb, Padding::Pkcs) => bm::aes192_ecb_pkcs7_encrypt(k, data),
        (AesVariant::Aes192, CipherMode::Ecb, Padding::NoPad) => bm::aes192_ecb_nopad_encrypt(k, data),
        (AesVariant::Aes192, CipherMode::Cfb, _) => bm::aes192_cfb_encrypt(k, iv, data),
        (AesVariant::Aes256, CipherMode::Cbc, Padding::Pkcs) => bm::aes256_cbc_pkcs7_encrypt(k, iv, data),
        (AesVariant::Aes256, CipherMode::Cbc, Padding::NoPad) => bm::aes256_cbc_nopad_encrypt(k, iv, data),
        (AesVariant::Aes256, CipherMode::Ecb, Padding::Pkcs) => bm::aes256_ecb_pkcs7_encrypt(k, data),
        (AesVariant::Aes256, CipherMode::Ecb, Padding::NoPad) => bm::aes256_ecb_nopad_encrypt(k, data),
        (AesVariant::Aes256, CipherMode::Cfb, _) => bm::aes256_cfb_encrypt(k, iv, data),
    }
}

/// Decryption by a mode; `None` where the mode refuses the data.
pub open spec fn aes_decrypt_with(
    v: AesVariant,
    k: Seq<u8>,
    iv: Seq<u8>,
    mode: CipherMode,
    padding: Padding,
    data: Seq<u8>,
) -> Option<Seq<u8>> {
    match (v, mode, padding) {
        (AesVariant::Aes128, CipherMode::Cbc, Padding::Pkcs) => bm::aes128_cbc_pkcs7_decrypt(k, iv, data),
        (AesVariant::Aes128, CipherMode::Cbc, Padding::NoPad) => bm::aes128_cbc_nopad_decrypt(k, iv, data),
        (AesVariant::Aes128, CipherMode::Ecb, Padding::Pkcs) => bm::aes128_ecb_pkcs7_decrypt(k, data),
        (AesVariant::Aes128, CipherMode::Ecb, Padding::NoPad) => bm::aes128_ecb_nopad_decrypt(k, data),
        (AesVariant::Aes128, CipherMode::Cfb, _) => Some(bm::aes128_cfb_decrypt(k, iv, data)),
        (AesVariant::Aes192, CipherMode::Cbc, Padding::Pkcs) => bm::aes192_cbc_pkcs7_decrypt(k, iv, data),
        (AesVariant::Aes192, CipherMode::Cbc, Padding::NoPad) => bm::aes192_cbc_nopad_decrypt(k, iv, data),
        (AesVariant::Aes192, CipherMode::Ecb, Padding::Pkcs) => bm::aes192_ecb_pkcs7_decrypt(k, data),
        (AesVariant::Aes192, CipherMode::Ecb, Padding::NoPad) => bm::aes192_ecb_nopad_decrypt(k, data),
        (AesVariant::Aes192, CipherMode::Cfb, _) => Some(bm::aes192_cfb_decrypt(k, iv, data)),
        (AesVariant::Aes256, CipherMode::Cbc, Padding::Pkcs) => bm::aes256_cbc_pkcs7_decrypt(k, iv, data),
        (AesVariant::Aes256, CipherMode::Cbc, Padding::NoPad) => bm::aes256_cbc_nopad_decrypt(k, iv, data),
        (AesVariant::Aes256, CipherMode::Ecb, Padding::Pkcs) => bm::aes256_ecb_pkcs7_decrypt(k, data),
        (AesVariant::Aes256, CipherMode::Ecb, Padding::NoPad) => bm::aes256_ecb_nopad_decrypt(k, data),
        (AesVariant::Aes256, CipherMode::Cfb, _) => Some(bm::aes256_cfb_decrypt(k, iv, data)),
    }
}

pub open spec fn blowfish_encrypt_with(
    k: Seq<u8>,
    iv: Seq<u8>,
    mode: CipherMode,
    padding: Padding,
    data: Seq<u8>,
) -> Seq<u8> {
    match (mode, padding) {
        (CipherMode::Cbc, Padding::Pkcs) => bm::blowfish_cbc_pkcs7_encrypt(k, iv, data),
        (CipherMode::Cbc, Padding::NoPad) => bm::blowfish_cbc_nopad_encrypt(k, iv, data),
        (CipherMode::Ecb, Padding::Pkcs) => bm::blowfish_ecb_pkcs7_encrypt(k, data),
        (CipherMode::Ecb, Padding::NoPad) => bm::blowfish_ecb_nopad_encrypt(k, data),
        (CipherMode::Cfb, _) => bm::blowfish_cfb_encrypt(k, iv, data),
    }
}

pub open spec fn blowfish_decrypt_with(
    k: Seq<u8>,
    iv: Seq<u8>,
    mode: CipherMode,
    padding: Padding,
    data: Seq<u8>,
) -> Option<Seq<u8>> {
    match (mode, padding) {
        (CipherMode::Cbc, Padding::Pkcs) => bm::blowfish_cbc_pkcs7_decrypt(k, iv, data),
        (CipherMode::Cbc, Padding::NoPad) => bm::blowfish_cbc_nopad_decrypt(k, iv, data),
        (CipherMode::Ecb, Padding::Pkcs) => bm::blowfish_ecb_pkcs7_decrypt(k, data),
        (CipherMode::Ecb, Padding::NoPad) => bm::blowfish_ecb_nopad_decrypt(k, data),
        (CipherMode::Cfb, _) => Some(bm::blowfish_cfb_decrypt(k, iv, data)),
    }
}

/// The error a refused decryption gives: a padding error under PKCS#7, an
/// alignment error without padding.
pub open spec fn refusal(padding: Padding) -> RawError {
    match padding {
        Padding::Pkcs => RawError::BadCiphertext,
        Padding::NoPad => RawError::NotBlockAligned,
    }
}

/// The raw encryption of `data` under `key`, `iv` and a parsed cipher type.
pub open spec fn encrypt_spec(data: Seq<u8>, key: Seq<u8>, iv: Seq<u8>, c: CipherType) -> Result<
    Seq<u8>,
    RawError,
> {
    match c.algorithm {
        CipherAlgorithm::Aes => match aes_variant(key.len()) {
            None => Err(RawError::AesKeyTooLong),
            Some(v) => Ok(
                aes_encrypt_with(
                    v,
                    fixed_spec(key, aes_key_len(v)),
                    fixed_spec(iv, 16),
                    c.mode,
                    c.padding,
                    data,
                ),
            ),
        },
        CipherAlgorithm::Blowfish => if key.len() == 0 {
            Err(RawError::InvalidBlowfishKey)
        } else {
            Ok(
                blowfish_encrypt_with(
                    blowfish_key_spec(key),
                    fixed_spec(iv, 8),
                    c.mode,
                    c.padding,
                    data,
                ),
            )
        },
    }
}

/// The raw decryption of `data` under `key`, `iv` and a parsed cipher type.
pub open spec fn decrypt_spec(data: Seq<u8>, key: Seq<u8>, iv: Seq<u8>, c: CipherType) -> Result<
    Seq<u8>,
    RawError,
> {
    let d = match c.algorithm {
        CipherAlgorithm::Aes => match aes_variant(key.len()) {
            None => Err(RawError::AesKeyTooLong),
            Some(v) => Ok(
                aes_decrypt_with(
                    v,
                    fixed_spec(key, aes_key_len(v)),
                    fixed_spec(iv, 16),
                    c.mode,
                    c.padding,
                    data,
                ),
            ),
        },
        CipherAlgorithm::Blowfish => if key.len() == 0 {
            Err(RawError::InvalidBlowfishKey)
        } else {
            Ok(
                blowfish_decrypt_with(
                    blowfish_key_spec(key),
                    fixed_spec(iv, 8),
                    c.mode,
                    c.padding,
                    data,
                ),
            )
        },
    };
    match d {
        Err(e) => Err(e),
        Ok(None) => Err(refusal(c.padding)),
        Ok(Some(p)) => Ok(p),
    }
}

/// What `encrypt_iv` (`decrypting` false) or `decrypt_iv` (`decrypting`
/// true) gives for a cipher type string.
pub open spec fn transform_spec(
    data: Seq<u8>,
    key: Seq<u8>,
    iv: Seq<u8>,
    t: Seq<char>,
    decrypting: bool,
) -> Result<Seq<u8>, RawError> {
    match parse_type_spec(t) {
        Err(e) => Err(e),
        Ok(c) => if decrypting {
            decrypt_spec(data, key, iv, c)
        } else {
            encrypt_spec(data, key, iv, c)
        },
    }
}

pub open spec fn view_result<E>(r: Result<Vec<u8>, E>) -> Result<Seq<u8>, E> {
    match r {
        Ok(v) => Ok(v@),
        Err(e) => Err(e),
    }
}

/// Data that the cipher type can encrypt: whole blocks where nothing pads
/// them. Unpadded CBC and ECB encryption of other data panics in the
/// `cipher` crate.
pub open spec fn encryptable(data: Seq<u8>, t: Seq<char>) -> bool {
    match unpadded_block(t) {
        Some(b) => data.len() % b == 0,
        None => true,
    }
}

/// The length of a ciphertext of `n` bytes: CFB and unpadded modes keep
/// the length; PKCS#7 pads to the next whole block, adding one to a whole
/// block.
pub open spec fn ciphertext_len(n: nat, block: nat, mode: CipherMode, padding: Padding) -> nat {
    if mode == CipherMode::Cfb || padding == Padding::NoPad {
        n
    } else {
        (n / block + 1) * block
    }
}

/// The length of a plaintext decrypted from `c` bytes: CFB and unpadded
/// modes keep the length; PKCS#7 strips from one byte to a whole block.
pub open spec fn plaintext_len_ok(p: nat, c: nat, block: nat, mode: CipherMode, padding: Padding) -> bool {
    if mode == CipherMode::Cfb || padding == Padding::NoPad {
        p == c
    } else {
        c - block <= p < c
    }
}

// ------------------------------------------------------------------ exec

/// Parses a cipher type: `aes` or `bf` (with the historical `rijndael` and
/// `blowfish` spellings), optionally `-cbc`, `-cfb` or `-ecb`, optionally
/// `/pad:pkcs` or `/pad:none`, in any letter case.
pub fn parse_type(cipher_type: &str) -> (r: Result<CipherType, RawError>)
    ensures
        r == parse_type_spec(cipher_type@),
{
    let normalized = to_lower(&chars_of(cipher_type));
    let slash = find_char(&normalized, '/');
    proof {
        lemma_index_of(normalized@, '/');
    }
    let padding = if slash < normalized.len() {
        let right = slice_chars(&normalized, slash + 1, normalized.len());
        assert(right@ == normalized@.skip(slash + 1));
        if eq_lit(&right, "pad:pkcs") {
            Padding::Pkcs
        } else if eq_lit(&right, "pad:none") {
            Padding::NoPad
        } else {
            return Err(RawError::BadPadding);
        }
    } else {
        Padding::Pkcs
    };
    let left = slice_chars(&normalized, 0, slash);
    assert(left@ == normalized@.take(slash as int));
    let named = if eq_lit(&left, "aes") || eq_lit(&left, "aes-cbc") || eq_lit(&left, "rijndael")
        || eq_lit(&left, "rijndael-cbc") {
        (CipherAlgorithm::Aes, CipherMode::Cbc)
    } else if eq_lit(&left, "aes-cfb") || eq_lit(&left, "rijndael-cfb") {
        (CipherAlgorithm::Aes, CipherMode::Cfb)
    } else if eq_lit(&left, "aes-ecb") || eq_lit(&left, "rijndael-ecb") {
        (CipherAlgorithm::Aes, CipherMode::Ecb)
    } else if eq_lit(&left, "bf") || eq_lit(&left, "bf-cbc") || eq_lit(&left, "blowfish")
        || eq_lit(&left, "blowfish-cbc") {
        (CipherAlgorithm::Blowfish, CipherMode::Cbc)
    } else if eq_lit(&left, "bf-cfb") || eq_lit(&left, "blowfish-cfb") {
        (CipherAlgorithm::Blowfish, CipherMode::Cfb)
    } else if eq_lit(&left, "bf-ecb") || eq_lit(&left, "blowfish-ecb") {
        (CipherAlgorithm::Blowfish, CipherMode::Ecb)
    } else {
        return Err(RawError::UnknownCipher);
    };
    Ok(CipherType { algorithm: named.0, mode: named.1, padding })
}

/// The block size that data must fill for `encrypt` under this cipher
/// type, where it must fill whole blocks.
pub fn unpadded_block_size(cipher_type: &str) -> (r: Option<usize>)
    ensures
        match r {
            Some(b) => unpadded_block(cipher_type@) == Some(b as nat),
            None => unpadded_block(cipher_type@) is None,
        },
{
    match parse_type(cipher_type) {
        Ok(c) => {
            if c.padding == Padding::NoPad && c.mode != CipherMode::Cfb {
                match c.algorithm {
                    CipherAlgorithm::Aes => Some(16),
                    CipherAlgorithm::Blowfish => Some(8),
                }
            } else {
                None
            }
        },
        Err(_) => None,
    }
}

/// `input` cut or zero-filled to `n` bytes.
pub fn fixed(input: &[u8], n: usize) -> (out: Vec<u8>)
    ensures
        out@ == fixed_spec(input@, n as nat),
{
    let mut out: Vec<u8> = Vec::new();
    let mut i: usize = 0;
    while i < n
        invariant
            i <= n,
            out@.len() == i,
            forall|j: int| 0 <= j < i ==> out@[j] == fixed_spec(input@, n as nat)[j],
        decreases n - i,
    {
        if i < input.len() {
            out.push(input[i]);
        } else {
            out.push(0u8);
        }
        i = i + 1;
    }
    assert(out@ =~= fixed_spec(input@, n as nat));
    out
}

/// The AES variant a key selects, with the key zero-filled to its length.
pub fn aes_key(input: &[u8]) -> (r: Result<(AesVariant, Vec<u8>), RawError>)
    ensures
        match r {
            Ok((v, k)) => aes_variant(input@.len()) == Some(v) && k@ == fixed_spec(
                input@,
                aes_key_len(v),
            ),
            Err(e) => aes_variant(input@.len()) is None && e == RawError::AesKeyTooLong,
        },
{
    let n = input.len();
    if n <= 16 {
        Ok((AesVariant::Aes128, fixed(input, 16)))
    } else if n <= 24 {
        Ok((AesVariant::Aes192, fixed(input, 24)))
    } else if n <= 32 {
        Ok((AesVariant::Aes256, fixed(input, 32)))
    } else {
        Err(RawError::AesKeyTooLong)
    }
}

proof fn lemma_grow_key(out: Seq<u8>, orig: Seq<u8>)
    requires
        0 < orig.len(),
    ensures
        grow_key(out, orig).len() >= out.len(),
        out.len() < 4 ==> grow_key(out, orig).len() >= 4,
        out.len() < 4 ==> grow_key(out, orig).len() < 4 + orig.len(),
        out.len() >= 4 ==> grow_key(out, orig) == out,
    decreases (if out.len() < 4 { 4 - out.len() } else { 0 }),
{
    if out.len() < 4 {
        lemma_grow_key(out + orig, orig);
    }
}

/// The Blowfish key: at most its first 56 bytes, a short key repeated until
/// it holds four bytes.
pub fn blowfish_key(key: &[u8]) -> (out: Vec<u8>)
    ensures
        out@ == blowfish_key_spec(key@),
        key@.len() > 0 ==> 4 <= out@.len() <= 56,
        key@.len() == 0 ==> out@.len() == 0,
{
    let n = if key.len() < 56 {
        key.len()
    } else {
        56
    };
    let mut out: Vec<u8> = Vec::new();
    let mut i: usize = 0;
    while i < n
        invariant
            i <= n <= key.len(),
            n <= 56,
            out@ =~= key@.take(i as int),
        decreases n - i,
    {
        out.push(key[i]);
        i = i + 1;
    }
    let ghost t = out@;
    assert(t =~= (if key@.len() <= 56 {
        key@
    } else {
        key@.take(56)
    }));
    if 0 < n && n < 4 {
        let original = out.clone();
        proof {
            lemma_grow_key(t, t);
        }
        while out.len() < 4
            invariant
                original@ == t,
                0 < t.len() < 4,
                grow_key(out@, t) == grow_key(t, t),
                out@.len() < 4 + t.len(),
            decreases (if out.len() < 4 { 4 - out.len() } else { 0 }),
        {
            let mut j: usize = 0;
            let ghost before = out@;
            while j < original.len()
                invariant
                    original@ == t,
                    j <= t.len(),
                    out@ =~= before + t.take(j as int),
                    before.len() < 4,
                decreases t.len() - j,
            {
                out.push(original[j]);
                j = j + 1;
            }
            assert(t.take(t.len() as int) =~= t);
            proof {
                lemma_grow_key(out@, t);
            }
        }
        proof {
            lemma_grow_key(out@, t);
        }
    }
    out
}

/// The Blowfish key is the given key when it holds 4 to 56 bytes and its
/// first 56 bytes when it is longer; a key of one, two or three bytes is
/// repeated whole until it holds at least four: four times, twice, twice.
pub proof fn lemma_blowfish_key_bytes(key: Seq<u8>)
    ensures
        4 <= key.len() <= 56 ==> blowfish_key_spec(key) == key,
        key.len() > 56 ==> blowfish_key_spec(key) == key.take(56),
        key.len() == 1 ==> blowfish_key_spec(key) == key + key + key + key,
        key.len() == 2 || key.len() == 3 ==> blowfish_key_spec(key) == key + key,
        key.len() == 0 ==> blowfish_key_spec(key) == key,
{
    if 0 < key.len() < 4 {
        reveal_with_fuel(grow_key, 5);
        assert(blowfish_key_spec(key) == grow_key(key, key));
        if key.len() == 1 {
            assert(grow_key(key, key) == grow_key(key + key, key));
            assert(grow_key(key + key, key) == grow_key(key + key + key, key));
            assert(grow_key(key + key + key, key) == grow_key(key + key + key + key, key));
        } else {
            assert(grow_key(key, key) == grow_key(key + key, key));
        }
    }
}

/// Keys of at least four bytes that differ somewhere in their first 56
/// bytes give different Blowfish keys.
pub proof fn lemma_blowfish_keys_differ(k1: Seq<u8>, k2: Seq<u8>, i: int)
    requires
        4 <= k1.len(),
        4 <= k2.len(),
        0 <= i < 56,
        i < k1.len(),
        i < k2.len(),
        k1[i] != k2[i],
    ensures
        blowfish_key_spec(k1) != blowfish_key_spec(k2),
{
    lemma_blowfish_key_bytes(k1);
    lemma_blowfish_key_bytes(k2);
    assert(blowfish_key_spec(k1)[i] == k1[i]);
    assert(blowfish_key_spec(k2)[i] == k2[i]);
}

/// A raw Blowfish encryption with a key of 4 to 56 bytes runs under that
/// very key.
pub proof fn lemma_blowfish_encrypt_key(data: Seq<u8>, key: Seq<u8>, iv: Seq<u8>, c: CipherType)
    requires
        c.algorithm == CipherAlgorithm::Blowfish,
        4 <= key.len() <= 56,
    ensures
        encrypt_spec(data, key, iv, c) == Ok::<Seq<u8>, RawError>(
            blowfish_encrypt_with(key, fixed_spec(iv, 8), c.mode, c.padding, data),
        ),
{
    lemma_blowfish_key_bytes(key);
}

fn aes_encrypt_mode(
    v: AesVariant,
    k: &[u8],
    iv: &[u8],
    mode: CipherMode,
    padding: Padding,
    data: &[u8],
) -> (out: Vec<u8>)
    requires
        k@.len() == aes_key_len(v),
        iv@.len() == 16,
        padding == Padding::NoPad && mode != CipherMode::Cfb ==> data@.len() % 16 == 0,
    ensures
        out@ == aes_encrypt_with(v, k@, iv@, mode, padding, data@),
        aes_decrypt_with(v, k@, iv@, mode, padding, out@) == Some(data@),
        out@.len() == ciphertext_len(data@.len(), 16, mode, padding),
{
    match v {
        AesVariant::Aes128 => match mode {
            CipherMode::Cbc => match padding {
                Padding::Pkcs => bm::aes128_cbc_pkcs7_encrypt_vec(k, iv, data),
                Padding::NoPad => bm::aes128_cbc_nopad_encrypt_vec(k, iv, data),
            },
            CipherMode::Ecb => match padding {
                Padding::Pkcs => bm::aes128_ecb_pkcs7_encrypt_vec(k, data),
                Padding::NoPad => bm::aes128_ecb_nopad_encrypt_vec(k, data),
            },
            CipherMode::Cfb => bm::aes128_cfb_encrypt_vec(k, iv, data),
        },
        AesVariant::Aes192 => match mode {
            CipherMode::Cbc => match padding {
                Padding::Pkcs => bm::aes192_cbc_pkcs7_encrypt_vec(k, iv, data),
                Padding::NoPad => bm::aes192_cbc_nopad_encrypt_vec(k, iv, data),
            },
            CipherMode::Ecb => match padding {
                Padding::Pkcs => bm::aes192_ecb_pkcs7_encrypt_vec(k, data),
                Padding::NoPad => bm::aes192_ecb_nopad_encrypt_vec(k, data),
            },
            CipherMode::Cfb => bm::aes192_cfb_encrypt_vec(k, iv, data),
        },
        AesVariant::Aes256 => match mode {
            CipherMode::Cbc => match padding {
                Padding::Pkcs => bm::aes256_cbc_pkcs7_encrypt_vec(k, iv, data),
                Padding::NoPad => bm::aes256_cbc_nopad_encrypt_vec(k, iv, data),
            },
            CipherMode::Ecb => match padding {
                Padding::Pkcs => bm::aes256_ecb_pkcs7_encrypt_vec(k, data),
                Padding::NoPad => bm::aes256_ecb_nopad_encrypt_vec(k, data),
            },
            CipherMode::Cfb => bm::aes256_cfb_encrypt_vec(k, iv, data),
        },
    }
}

fn aes_decrypt_mode(
    v: AesVariant,
    k: &[u8],
    iv: &[u8],
    mode: CipherMode,
    padding: Padding,
    data: &[u8],
) -> (out: Option<Vec<u8>>)
    requires
        k@.len() == aes_key_len(v),
        iv@.len() == 16,
    ensures
        view_opt(out) == aes_decrypt_with(v, k@, iv@, mode, padding, data@),
        out matches Some(p) ==> plaintext_len_ok(p@.len(), data@.len(), 16, mode, padding),
{
    match v {
        AesVariant::Aes128 => match mode {
            CipherMode::Cbc => match padding {
                Padding::Pkcs => bm::aes128_cbc_pkcs7_decrypt_vec(k, iv, data),
                Padding::NoPad => bm::aes128_cbc_nopad_decrypt_vec(k, iv, data),
            },
            CipherMode::Ecb => match padding {
                Padding::Pkcs => bm::aes128_ecb_pkcs7_decrypt_vec(k, data),
                Padding::NoPad => bm::aes128_ecb_nopad_decrypt_vec(k, data),
            },
            CipherMode::Cfb => Some(bm::aes128_cfb_decrypt_vec(k, iv, data)),
        },
        AesVariant::Aes192 => match mode {
            CipherMode::Cbc => match padding {
                Padding::Pkcs => bm::aes192_cbc_pkcs7_decrypt_vec(k, iv, data),
                Padding::NoPad => bm::aes192_cbc_nopad_decrypt_vec(k, iv, data),
            },
            CipherMode::Ecb => match padding {
                Padding::Pkcs => bm::aes192_ecb_pkcs7_decrypt_vec(k, data),
                Padding::NoPad => bm::aes192_ecb_nopad_decrypt_vec(k, data),
            },
            CipherMode::Cfb => Some(bm::aes192_cfb_decrypt_vec(k, iv, data)),
        },
        AesVariant::Aes256 => match mode {
            CipherMode::Cbc => match padding {
                Padding::Pkcs => bm::aes256_cbc_pkcs7_decrypt_vec(k, iv, data),
                Padding::NoPad => bm::aes256_cbc_nopad_decrypt_vec(k, iv, data),
            },
            CipherMode::Ecb => match padding {
                Padding::Pkcs => bm::aes256_ecb_pkcs7_decrypt_vec(k, data),
                Padding::NoPad => bm::aes256_ecb_nopad_decrypt_vec(k, data),
            },
            CipherMode::Cfb => Some(bm::aes256_cfb_decrypt_vec(k, iv, data)),
        },
    }
}

/// AES encryption: the key selects AES-128, -192 or -256 by its length and
/// is zero-filled to it; the IV is zero-filled or cut to 16 bytes.
pub fn encrypt_aes(data: &[u8], key: &[u8], iv: &[u8], mode: CipherMode, padding: Padding) -> (r:
    Result<Vec<u8>, RawError>)
    requires
        padding == Padding::NoPad && mode != CipherMode::Cfb ==> data@.len() % 16 == 0,
    ensures
        view_result(r) == encrypt_spec(
            data@,
            key@,
            iv@,
            CipherType { algorithm: CipherAlgorithm::Aes, mode, padding },
        ),
        r matches Ok(c) ==> decrypt_spec(
            c@,
            key@,
            iv@,
            CipherType { algorithm: CipherAlgorithm::Aes, mode, padding },
        ) == Ok::<Seq<u8>, RawError>(data@),
        r matches Ok(c) ==> c@.len() == ciphertext_len(data@.len(), 16, mode, padding),
{
    let iv = fixed(iv, 16);
    match aes_key(key) {
        Ok((v, k)) => Ok(aes_encrypt_mode(v, k.as_slice(), iv.as_slice(), mode, padding, data)),
        Err(e) => Err(e),
    }
}

/// AES decryption, with the key and IV taken as `encrypt_aes` takes them.
pub fn decrypt_aes(data: &[u8], key: &[u8], iv: &[u8], mode: CipherMode, padding: Padding) -> (r:
    Result<Vec<u8>, RawError>)
    ensures
        view_result(r) == decrypt_spec(
            data@,
            key@,
            iv@,
            CipherType { algorithm: CipherAlgorithm::Aes, mode, padding },
        ),
        r matches Ok(p) ==> plaintext_len_ok(p@.len(), data@.len(), 16, mode, padding),
{
    let iv = fixed(iv, 16);
    match aes_key(key) {
        Ok((v, k)) => match aes_decrypt_mode(v, k.as_slice(), iv.as_slice(), mode, padding, data) {
            Some(p) => Ok(p),
            None => match padding {
                Padding::Pkcs => Err(RawError::BadCiphertext),
                Padding::NoPad => Err(RawError::NotBlockAligned),
            },
        },
        Err(e) => Err(e),
    }
}

/// Blowfish encryption: the key as `blowfish_key` gives it, the IV
/// zero-filled or cut to 8 bytes.
pub fn encrypt_blowfish(
    data: &[u8],
    key: &[u8],
    iv: &[u8],
    mode: CipherMode,
    padding: Padding,
) -> (r: Result<Vec<u8>, RawError>)
    requires
        padding == Padding::NoPad && mode != CipherMode::Cfb ==> data@.len() % 8 == 0,
    ensures
        view_result(r) == encrypt_spec(
            data@,
            key@,
            iv@,
            CipherType { algorithm: CipherAlgorithm::Blowfish, mode, padding },
        ),
        r matches Ok(c) ==> decrypt_spec(
            c@,
            key@,
            iv@,
            CipherType { algorithm: CipherAlgorithm::Blowfish, mode, padding },
        ) == Ok::<Seq<u8>, RawError>(data@),
        r matches Ok(c) ==> c@.len() == ciphertext_len(data@.len(), 8, mode, padding),
{
    let k = blowfish_key(key);
    let iv = fixed(iv, 8);
    if k.len() == 0 {
        return Err(RawError::InvalidBlowfishKey);
    }
    let k = k.as_slice();
    let iv = iv.as_slice();
    let out = match mode {
        CipherMode::Cbc => match padding {
            Padding::Pkcs => bm::blowfish_cbc_pkcs7_encrypt_vec(k, iv, data),
            Padding::NoPad => bm::blowfish_cbc_nopad_encrypt_vec(k, iv, data),
        },
        CipherMode::Ecb => match padding {
            Padding::Pkcs => bm::blowfish_ecb_pkcs7_encrypt_vec(k, data),
            Padding::NoPad => bm::blowfish_ecb_nopad_encrypt_vec(k, data),
        },
        CipherMode::Cfb => bm::blowfish_cfb_encrypt_vec(k, iv, data),
    };
    Ok(out)
}

/// Blowfish decryption, with the key and IV taken as `encrypt_blowfish`
/// takes them.
pub fn decrypt_blowfish(
    data: &[u8],
    key: &[u8],
    iv: &[u8],
    mode: CipherMode,
    padding: Padding,
) -> (r: Result<Vec<u8>, RawError>)
    ensures
        view_result(r) == decrypt_spec(
            data@,
            key@,
            iv@,
            CipherType { algorithm: CipherAlgorithm::Blowfish, mode, padding },
        ),
        r matches Ok(p) ==> plaintext_len_ok(p@.len(), data@.len(), 8, mode, padding),
{
    let k = blowfish_key(key);
    let iv = fixed(iv, 8);
    if k.len() == 0 {
        return Err(RawError::InvalidBlowfishKey);
    }
    let k = k.as_slice();
    let iv = iv.as_slice();
    let out = match mode {
        CipherMode::Cbc => match padding {
            Padding::Pkcs => bm::blowfish_cbc_pkcs7_decrypt_vec(k, iv, data),
            Padding::NoPad => bm::blowfish_cbc_nopad_decrypt_vec(k, iv, data),
        },
        CipherMode::Ecb => match padding {
            Padding::Pkcs => bm::blowfish_ecb_pkcs7_decrypt_vec(k, data),
            Padding::NoPad => bm::blowfish_ecb_nopad_decrypt_vec(k, data),
        },
        CipherMode::Cfb => Some(bm::blowfish_cfb_decrypt_vec(k, iv, data)),
    };
    match out {
        Some(p) => Ok(p),
        None => match padding {
            Padding::Pkcs => Err(RawError::BadCiphertext),
            Padding::NoPad => Err(RawError::NotBlockAligned),
        },
    }
}

/// Encrypts (`decrypting` false) or decrypts (`decrypting` true) under a
/// cipher type string. Encryption gives data that decryption under the
/// same key, IV and cipher type turns back into the input.
pub fn transform(data: &[u8], key: &[u8], iv: &[u8], cipher_type: &str, decrypting: bool) -> (r:
    Result<Vec<u8>, RawError>)
    requires
        !decrypting ==> encryptable(data@, cipher_type@),
    ensures
        view_result(r) == transform_spec(data@, key@, iv@, cipher_type@, decrypting),
        !decrypting ==> (r matches Ok(c) ==> transform_spec(
            c@,
            key@,
            iv@,
            cipher_type@,
            true,
        ) == Ok::<Seq<u8>, RawError>(data@)),
{
    let c = match parse_type(cipher_type) {
        Ok(c) => c,
        Err(e) => return Err(e),
    };
    match (c.algorithm, decrypting) {
        (CipherAlgorithm::Aes, false) => encrypt_aes(data, key, iv, c.mode, c.padding),
        (CipherAlgorithm::Aes, true) => decrypt_aes(data, key, iv, c.mode, c.padding),
        (CipherAlgorithm::Blowfish, false) => encrypt_blowfish(data, key, iv, c.mode, c.padding),
        (CipherAlgorithm::Blowfish, true) => decrypt_blowfish(data, key, iv, c.mode, c.padding),
    }
}

/// `encrypt(data, key, type)`: encryption with an all-zero IV.
pub fn encrypt(data: &[u8], key: &[u8], cipher_type: &str) -> (r: Result<Vec<u8>, RawError>)
    requires
        encryptable(data@, cipher_type@),
    ensures
        view_result(r) == transform_spec(data@, key@, Seq::empty(), cipher_type@, false),
        r matches Ok(c) ==> transform_spec(c@, key@, Seq::empty(), cipher_type@, true) == Ok::<Seq<u8>, RawError>(data@),
{
    let iv: Vec<u8> = Vec::new();
    transform(data, key, iv.as_slice(), cipher_type, false)
}

/// `decrypt(data, key, type)`: decryption with an all-zero IV.
pub fn decrypt(data: &[u8], key: &[u8], cipher_type: &str) -> (r: Result<Vec<u8>, RawError>)
    ensures
        view_result(r) == transform_spec(data@, key@, Seq::empty(), cipher_type@, true),
{
    let iv: Vec<u8> = Vec::new();
    transform(data, key, iv.as_slice(), cipher_type, true)
}

/// `encrypt_iv(data, key, iv, type)`.
pub fn encrypt_iv(data: &[u8], key: &[u8], iv: &[u8], cipher_type: &str) -> (r: Result<
    Vec<u8>,
    RawError,
>)
    requires
        encryptable(data@, cipher_type@),
    ensures
        view_result(r) == transform_spec(data@, key@, iv@, cipher_type@, false),
        r matches Ok(c) ==> transform_spec(c@, key@, iv@, cipher_type@, true) == Ok::<Seq<u8>, RawError>(data@),
{
    transform(data, key, iv, cipher_type, false)
}

/// `decrypt_iv(data, key, iv, type)`.
pub fn decrypt_iv(data: &[u8], key: &[u8], iv: &[u8], cipher_type: &str) -> (r: Result<
    Vec<u8>,
    RawError,
>)
    ensures
        view_result(r) == transform_spec(data@, key@, iv@, cipher_type@, true),
{
    transform(data, key, iv, cipher_type, true)
}

} // verus!
