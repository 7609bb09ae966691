//! The option strings of `pgp_sym_encrypt` and its relatives, such as
//! `cipher-algo=aes256, compress-algo=1, s2k-mode=3`.
use crate::text::{
    chars_of, eq_lit, index_of, lemma_index_of, lower_seq, slice_chars, split_on, to_lower, trim,
    trimmed,
};
use vstd::prelude::*;

verus! {

/// Symmetric ciphers of OpenPGP that the options can name.
#[derive(Clone, Copy, Debug, PartialEq, Eq, Structural)]
pub enum PgpCipher {
    Blowfish,
    Aes128,
    Aes192,
    Aes256,
    TripleDes,
    Cast5,
}

#[derive(Clone, Copy, Debug, PartialEq, Eq, Structural)]
pub enum PgpCompression {
    Uncompressed,
    Zip,
    Zlib,
}

#[derive(Clone, Copy, Debug, PartialEq, Eq, Structural)]
pub enum S2kDigest {
    Md5,
    Sha1,
}

/// The settings of an encryption.
#[derive(Clone, Copy, Debug, PartialEq, Eq, Structural)]
pub struct PgpOptions {
    pub cipher: PgpCipher,
    pub compression: PgpCompression,
    pub compression_level: u8,
    pub text_input: bool,
    pub unicode_mode: bool,
    pub convert_crlf: bool,
    pub s2k_mode: u8,
    pub s2k_count: Option<u32>,
    pub s2k_digest: S2kDigest,
    pub s2k_cipher: Option<PgpCipher>,
    pub use_session_key: bool,
}

/// The settings of a decryption.
#[derive(Clone, Copy, Debug, PartialEq, Eq, Structural)]
pub struct DecryptOptions {
    pub convert_crlf: bool,
}

#[derive(Clone, Copy, Debug, PartialEq, Eq, Structural)]
pub enum PgpOptionError {
    /// An option without `=`.
    InvalidOption,
    /// A flag whose value is not `0` or `1`.
    NotBoolean,
    UnsupportedCipher,
    /// `compress-algo` other than 0, 1 or 2.
    BadCompressAlgo,
    /// `compress-level` other than an integer from 0 to 9.
    BadCompressLevel,
    /// `s2k-mode` other than 0, 1 or 3.
    BadS2kMode,
    UnsupportedS2kDigest,
    UnsupportedS2kCipher,
    /// `s2k-count` that is not an integer.
    S2kCountNotInteger,
    /// `s2k-count` outside 1024 to 65011712.
    S2kCountRange,
    /// `disable-mdc=1`: messages without integrity protection are not made.
    MdcDisabled,
    UnknownOption,
    /// `s2k-count` given with an S2K mode other than 3.
    S2kCountNeedsMode3,
}

// ------------------------------------------------------------------ numbers

pub open spec fn is_digit(c: char) -> bool {
    '0' <= c && c <= '9'
}

pub open spec fn digit_value(c: char) -> nat {
    ((c as u32) - ('0' as u32)) as nat
}

/// The value of a string of decimal digits.
pub open spec fn decimal_value(s: Seq<char>) -> nat
    decreases s.len(),
{
    if s.len() == 0 {
        0
    } else {
        decimal_value(s.drop_last()) * 10 + digit_value(s.last())
    }
}

/// The digits of an unsigned number: what follows an optional `+`.
pub open spec fn unsigned_digits(s: Seq<char>) -> Seq<char> {
    if s.len() > 0 && s[0] == '+' {
        s.drop_first()
    } else {
        s
    }
}

pub open spec fn all_digits(d: Seq<char>) -> bool {
    forall|i: int| 0 <= i < d.len() ==> is_digit(#[trigger] d[i])
}

/// What `str::parse` gives for an unsigned integer type whose largest value
/// is `max`: an optional `+`, then one or more decimal digits, whose value
/// must not exceed `max`.
pub open spec fn parse_uint_spec(s: Seq<char>, max: nat) -> Option<nat> {
    let d = unsigned_digits(s);
    if d.len() > 0 && all_digits(d) && decimal_value(d) <= max {
        Some(decimal_value(d))
    } else {
        None
    }
}

/// Parses an unsigned integer no larger than `max`, as `str::parse` does
/// for `u8` (`max` 255) or `u32`.
pub fn parse_uint(s: &Vec<char>, max: u32) -> (r: Option<u32>)
    ensures
        r is Some <==> parse_uint_spec(s@, max as nat) is Some,
        r matches Some(v) ==> parse_uint_spec(s@, max as nat) == Some(v as nat),
{
    let start: usize = if s.len() > 0 && s[0] == '+' {
        1
    } else {
        0
    };
    let ghost d = unsigned_digits(s@);
    assert(d =~= s@.skip(start as int));
    if start == s.len() {
        assert(d.len() == 0);
        return None;
    }
    let mut value: u64 = 0;
    let mut over = false;
    let mut i: usize = start;
    while i < s.len()
        invariant
            start <= i <= s.len(),
            d == unsigned_digits(s@),
            d =~= s@.skip(start as int),
            forall|j: int| start <= j < i ==> is_digit(#[trigger] s@[j]),
            !over ==> value as nat == decimal_value(s@.subrange(start as int, i as int)),
            !over ==> value <= max,
            over ==> decimal_value(s@.subrange(start as int, i as int)) > max,
        decreases s.len() - i,
    {
        let c = s[i];
        if !('0' <= c && c <= '9') {
            assert(!is_digit(d[i - start]));

            return None;
        }
        let ghost prev = s@.subrange(start as int, i as int);
        assert(s@.subrange(start as int, i + 1).drop_last() =~= prev);
        let dv: u64 = ((c as u32) - ('0' as u32)) as u64;
        if !over {
            let next = value * 10 + dv;
            if next > max as u64 {
                over = true;
            } else {
                value = next;
            }
        }
        i = i + 1;
    }
    assert(s@.subrange(start as int, s.len() as int) =~= d);
    assert(all_digits(d)) by {
        assert forall|k: int| 0 <= k < d.len() implies is_digit(#[trigger] d[k]) by {
            assert(d[k] == s@[k + start]);
        }
    }
    if over {
        None
    } else {
        Some(value as u32)
    }
}

// ------------------------------------------------------------------ option specs

pub open spec fn default_options(text_input: bool) -> PgpOptions {
    PgpOptions {
        cipher: PgpCipher::Aes128,
        compression: PgpCompression::Uncompressed,
        compression_level: 6,
        text_input,
        unicode_mode: false,
        convert_crlf: false,
        s2k_mode: 3,
        s2k_count: None,
        s2k_digest: S2kDigest::Sha1,
        s2k_cipher: None,
        use_session_key: false,
    }
}

/// A `0` or `1` flag, white space around it ignored.
pub open spec fn boolean_spec(value: Seq<char>) -> Result<bool, PgpOptionError> {
    let v = trim(value);
    if v == "0"@ {
        Ok(false)
    } else if v == "1"@ {
        Ok(true)
    } else {
        Err(PgpOptionError::NotBoolean)
    }
}

/// The cipher of `cipher-algo`, case-insensitively.
pub open spec fn cipher_spec(value: Seq<char>) -> Result<PgpCipher, PgpOptionError> {
    let v = lower_seq(trim(value));
    if v == "bf"@ || v == "blowfish"@ {
        Ok(PgpCipher::Blowfish)
    } else if v == "aes"@ || v == "aes128"@ {
        Ok(PgpCipher::Aes128)
    } else if v == "aes192"@ {
        Ok(PgpCipher::Aes192)
    } else if v == "aes256"@ {
        Ok(PgpCipher::Aes256)
    } else if v == "3des"@ {
        Ok(PgpCipher::TripleDes)
    } else if v == "cast5"@ {
        Ok(PgpCipher::Cast5)
    } else {
        Err(PgpOptionError::UnsupportedCipher)
    }
}

/// The cipher of `s2k-cipher-algo`: Blowfish or AES only.
pub open spec fn s2k_cipher_spec(value: Seq<char>) -> Result<PgpCipher, PgpOptionError> {
    let v = lower_seq(trim(value));
    if v == "bf"@ {
        Ok(PgpCipher::Blowfish)
    } else if v == "aes"@ || v == "aes128"@ {
        Ok(PgpCipher::Aes128)
    } else if v == "aes192"@ {
        Ok(PgpCipher::Aes192)
    } else if v == "aes256"@ {
        Ok(PgpCipher::Aes256)
    } else {
        Err(PgpOptionError::UnsupportedS2kCipher)
    }
}

/// One `name=value` option applied to the settings; `name` is lower-cased
/// and trimmed.
pub open spec fn apply_option(o: PgpOptions, name: Seq<char>, value: Seq<char>) -> Result<
    PgpOptions,
    PgpOptionError,
> {
    let v = trim(value);
    if name == "cipher-algo"@ {
        match cipher_spec(value) {
            Ok(c) => Ok(PgpOptions { cipher: c, ..o }),
            Err(e) => Err(e),
        }
    } else if name == "compress-algo"@ {
        if v == "0"@ {
            Ok(PgpOptions { compression: PgpCompression::Uncompressed, ..o })
        } else if v == "1"@ {
            Ok(PgpOptions { compression: PgpCompression::Zip, ..o })
        } else if v == "2"@ {
            Ok(PgpOptions { compression: PgpCompression::Zlib, ..o })
        } else {
            Err(PgpOptionError::BadCompressAlgo)
        }
    } else if name == "compress-level"@ {
        match parse_uint_spec(v, 255) {
            Some(n) => if n <= 9 {
                Ok(PgpOptions { compression_level: n as u8, ..o })
            } else {
                Err(PgpOptionError::BadCompressLevel)
            },
            None => Err(PgpOptionError::BadCompressLevel),
        }
    } else if name == "unicode-mode"@ {
        match boolean_spec(value) {
            Ok(b) => Ok(PgpOptions { unicode_mode: b, ..o }),
            Err(e) => Err(e),
        }
    } else if name == "convert-crlf"@ {
        match boolean_spec(value) {
            Ok(b) => Ok(PgpOptions { convert_crlf: b, ..o }),
            Err(e) => Err(e),
        }
    } else if name == "s2k-mode"@ {
        match parse_uint_spec(v, 255) {
            Some(n) => if n == 0 || n == 1 || n == 3 {
                Ok(PgpOptions { s2k_mode: n as u8, ..o })
            } else {
                Err(PgpOptionError::BadS2kMode)
            },
            None => Err(PgpOptionError::BadS2kMode),
        }
    } else if name == "s2k-digest-algo"@ {
        let d = lower_seq(v);
        if d == "md5"@ {
            Ok(PgpOptions { s2k_digest: S2kDigest::Md5, ..o })
        } else if d == "sha1"@ {
            Ok(PgpOptions { s2k_digest: S2kDigest::Sha1, ..o })
        } else {
            Err(PgpOptionError::UnsupportedS2kDigest)
        }
    } else if name == "s2k-cipher-algo"@ {
        match s2k_cipher_spec(value) {
            Ok(c) => Ok(PgpOptions { s2k_cipher: Some(c), ..o }),
            Err(e) => Err(e),
        }
    } else if name == "s2k-count"@ {
        match parse_uint_spec(v, 0xffff_ffff) {
            Some(n) => if 1024 <= n <= 65_011_712 {
                Ok(PgpOptions { s2k_count: Some(n as u32), ..o })
            } else {
                Err(PgpOptionError::S2kCountRange)
            },
            None => Err(PgpOptionError::S2kCountNotInteger),
        }
    } else if name == "sess-key"@ {
        match boolean_spec(value) {
            Ok(b) => Ok(PgpOptions { use_session_key: b, ..o }),
            Err(e) => Err(e),
        }
    } else if name == "disable-mdc"@ {
        match boolean_spec(value) {
            Ok(b) => if b {
                Err(PgpOptionError::MdcDisabled)
            } else {
                Ok(o)
            },
            Err(e) => Err(e),
        }
    } else if name == "ignore-cipher-failure"@ {
        match boolean_spec(value) {
            Ok(_) => Ok(o),
            Err(e) => Err(e),
        }
    } else {
        Err(PgpOptionError::UnknownOption)
    }
}

/// The name and value of an option item, split at its first `=`; `None`
/// where it has none.
pub open spec fn name_value(t: Seq<char>) -> Option<(Seq<char>, Seq<char>)> {
    let i = index_of(t, '=');
    if i < t.len() {
        Some((lower_seq(trim(t.take(i))), t.skip(i + 1)))
    } else {
        None
    }
}

/// One comma-separated item applied to the settings; blank items are
/// skipped.
pub open spec fn apply_item(o: PgpOptions, item: Seq<char>) -> Result<PgpOptions, PgpOptionError> {
    let t = trim(item);
    if t.len() == 0 {
        Ok(o)
    } else {
        match name_value(t) {
            None => Err(PgpOptionError::InvalidOption),
            Some((n, v)) => apply_option(o, n, v),
        }
    }
}

/// The items applied in order; the first error stops.
pub open spec fn apply_items(o: PgpOptions, items: Seq<Seq<char>>) -> Result<
    PgpOptions,
    PgpOptionError,
>
    decreases items.len(),
{
    if items.len() == 0 {
        Ok(o)
    } else {
        match apply_item(o, items[0]) {
            Ok(o2) => apply_items(o2, items.drop_first()),
            Err(e) => Err(e),
        }
    }
}

/// The settings an option string gives an encryption of text
/// (`text_input`) or of bytes.
pub open spec fn parse_options_spec(options: Seq<char>, text_input: bool) -> Result<
    PgpOptions,
    PgpOptionError,
> {
    parse_items_spec(split_on(options, ','), text_input)
}

/// The settings that a list of option items gives: the items applied in
/// order, then the count checked against the S2K mode.
pub open spec fn parse_items_spec(items: Seq<Seq<char>>, text_input: bool) -> Result<
    PgpOptions,
    PgpOptionError,
> {
    match apply_items(default_options(text_input), items) {
        Ok(p) => if p.s2k_count is Some && p.s2k_mode != 3 {
            Err(PgpOptionError::S2kCountNeedsMode3)
        } else {
            Ok(p)
        },
        Err(e) => Err(e),
    }
}

/// What every option string that parses gives: an S2K mode of 0, 1 or 3, a
/// compression level up to 9, an S2K cipher of Blowfish or AES, and an
/// iteration count only with mode 3 and within 1024 to 65011712.
pub open spec fn options_valid(o: PgpOptions) -> bool {
    &&& options_fields_valid(o)
    &&& (o.s2k_count is Some ==> o.s2k_mode == 3)
}

/// `options_valid` without the tie between the count and the mode, which
/// is checked once all items are read.
pub open spec fn options_fields_valid(o: PgpOptions) -> bool {
    &&& (o.s2k_mode == 0 || o.s2k_mode == 1 || o.s2k_mode == 3)
    &&& o.compression_level <= 9
    &&& (o.s2k_count matches Some(n) ==> 1024 <= n <= 65_011_712)
    &&& (o.s2k_cipher matches Some(c) ==> c != PgpCipher::TripleDes && c != PgpCipher::Cast5)
}

proof fn lemma_apply_items_valid(o: PgpOptions, items: Seq<Seq<char>>)
    requires
        options_fields_valid(o),
    ensures
        apply_items(o, items) matches Ok(p) ==> options_fields_valid(p),
    decreases items.len(),
{
    if items.len() > 0 {
        if let Ok(o2) = apply_item(o, items[0]) {
            lemma_apply_items_valid(o2, items.drop_first());
        }
    }
}

/// Every option string that parses gives settings that `options_valid`
/// accepts.
pub proof fn lemma_parsed_options_valid(options: Seq<char>, text_input: bool)
    ensures
        parse_options_spec(options, text_input) matches Ok(o) ==> options_valid(o),
{
    lemma_apply_items_valid(default_options(text_input), split_on(options, ','));
}

/// Names of options that only encryption reads; decryption accepts them
/// with any value.
pub open spec fn encryption_only(name: Seq<char>) -> bool {
    ||| name == "cipher-algo"@
    ||| name == "compress-algo"@
    ||| name == "compress-level"@
    ||| name == "disable-mdc"@
    ||| name == "sess-key"@
    ||| name == "s2k-mode"@
    ||| name == "s2k-count"@
    ||| name == "s2k-digest-algo"@
    ||| name == "s2k-cipher-algo"@
    ||| name == "unicode-mode"@
}

pub open spec fn apply_decrypt_option(o: DecryptOptions, name: Seq<char>, value: Seq<char>) -> Result<
    DecryptOptions,
    PgpOptionError,
> {
    if name == "convert-crlf"@ {
        match boolean_spec(value) {
            Ok(b) => Ok(DecryptOptions { convert_crlf: b }),
            Err(e) => Err(e),
        }
    } else if name == "ignore-cipher-failure"@ {
        match boolean_spec(value) {
            Ok(_) => Ok(o),
            Err(e) => Err(e),
        }
    } else if encryption_only(name) {
        Ok(o)
    } else {
        Err(PgpOptionError::UnknownOption)
    }
}

pub open spec fn apply_decrypt_item(o: DecryptOptions, item: Seq<char>) -> Result<
    DecryptOptions,
    PgpOptionError,
> {
    let t = trim(item);
    if t.len() == 0 {
        Ok(o)
    } else {
        match name_value(t) {
            None => Err(PgpOptionError::InvalidOption),
            Some((n, v)) => apply_decrypt_option(o, n, v),
        }
    }
}

pub open spec fn apply_decrypt_items(o: DecryptOptions, items: Seq<Seq<char>>) -> Result<
    DecryptOptions,
    PgpOptionError,
>
    decreases items.len(),
{
    if items.len() == 0 {
        Ok(o)
    } else {
        match apply_decrypt_item(o, items[0]) {
            Ok(o2) => apply_decrypt_items(o2, items.drop_first()),
            Err(e) => Err(e),
        }
    }
}

/// The settings an option string gives a decryption.
pub open spec fn parse_decrypt_options_spec(options: Seq<char>) -> Result<
    DecryptOptions,
    PgpOptionError,
> {
    apply_decrypt_items(DecryptOptions { convert_crlf: false }, split_on(options, ','))
}

proof fn lemma_option_decrypts(o: PgpOptions, d: DecryptOptions, n: Seq<char>, v: Seq<char>)
    ensures
        apply_option(o, n, v) is Ok ==> apply_decrypt_option(d, n, v) is Ok,
{
    reveal_strlit("cipher-algo");
    reveal_strlit("compress-algo");
    reveal_strlit("compress-level");
    reveal_strlit("unicode-mode");
    reveal_strlit("convert-crlf");
    reveal_strlit("s2k-mode");
    reveal_strlit("s2k-digest-algo");
    reveal_strlit("s2k-cipher-algo");
    reveal_strlit("s2k-count");
    reveal_strlit("sess-key");
    reveal_strlit("disable-mdc");
    reveal_strlit("ignore-cipher-failure");
    if n.len() >= 3 {
        // Option names that agree in length differ among their first
        // three characters.
        assert(n[0] == n[0] && n[1] == n[1] && n[2] == n[2]);
    }
    if apply_option(o, n, v) is Ok && n != "convert-crlf"@ && n != "ignore-cipher-failure"@ {
        assert(encryption_only(n));
    }
}

proof fn lemma_item_decrypts(o: PgpOptions, d: DecryptOptions, item: Seq<char>)
    ensures
        apply_item(o, item) is Ok ==> apply_decrypt_item(d, item) is Ok,
{
    let t = trim(item);
    if t.len() > 0 {
        if let Some((n, v)) = name_value(t) {
            lemma_option_decrypts(o, d, n, v);
        }
    }
}

proof fn lemma_items_decrypt(o: PgpOptions, d: DecryptOptions, items: Seq<Seq<char>>)
    ensures
        apply_items(o, items) is Ok ==> apply_decrypt_items(d, items) is Ok,
    decreases items.len(),
{
    if items.len() > 0 {
        lemma_item_decrypts(o, d, items[0]);
        if let Ok(o2) = apply_item(o, items[0]) {
            if let Ok(d2) = apply_decrypt_item(d, items[0]) {
                lemma_items_decrypt(o2, d2, items.drop_first());
            }
        }
    }
}

/// Every option string that an encryption accepts, a decryption accepts
/// too: the options that only encryption reads are read and ignored.
pub proof fn lemma_encryption_options_decrypt(options: Seq<char>, text_input: bool)
    ensures
        parse_options_spec(options, text_input) is Ok ==> parse_decrypt_options_spec(options) is Ok,
{
    lemma_items_decrypt(
        default_options(text_input),
        DecryptOptions { convert_crlf: false },
        split_on(options, ','),
    );
}

/// An item that parsing reads and then ignores: `disable-mdc=0`, or
/// `ignore-cipher-failure` with a flag value.
pub open spec fn neutral_item(item: Seq<char>) -> bool {
    let t = trim(item);
    &&& t.len() > 0
    &&& name_value(t) matches Some((n, v)) && ((n == "disable-mdc"@ && boolean_spec(v) == Ok::<
        bool,
        PgpOptionError,
    >(false)) || (n == "ignore-cipher-failure"@ && boolean_spec(v) is Ok))
}

/// The item `disable-mdc=1`, which asks for a message without integrity
/// protection.
pub open spec fn mdc_off_item(item: Seq<char>) -> bool {
    let t = trim(item);
    &&& t.len() > 0
    &&& name_value(t) matches Some((n, v)) && n == "disable-mdc"@ && boolean_spec(v) == Ok::<
        bool,
        PgpOptionError,
    >(true)
}

proof fn lemma_option_names_differ(n: Seq<char>)
    ensures
        n == "disable-mdc"@ || n == "ignore-cipher-failure"@ ==> {
            &&& n != "cipher-algo"@
            &&& n != "compress-algo"@
            &&& n != "compress-level"@
            &&& n != "unicode-mode"@
            &&& n != "convert-crlf"@
            &&& n != "s2k-mode"@
            &&& n != "s2k-digest-algo"@
            &&& n != "s2k-cipher-algo"@
            &&& n != "s2k-count"@
            &&& n != "sess-key"@
        },
        n == "ignore-cipher-failure"@ ==> n != "disable-mdc"@,
{
    reveal_strlit("cipher-algo");
    reveal_strlit("compress-algo");
    reveal_strlit("compress-level");
    reveal_strlit("unicode-mode");
    reveal_strlit("convert-crlf");
    reveal_strlit("s2k-mode");
    reveal_strlit("s2k-digest-algo");
    reveal_strlit("s2k-cipher-algo");
    reveal_strlit("s2k-count");
    reveal_strlit("sess-key");
    reveal_strlit("disable-mdc");
    reveal_strlit("ignore-cipher-failure");
    if n == "disable-mdc"@ || n == "ignore-cipher-failure"@ {
        assert(n[0] == 'd' || n[0] == 'i');
        assert(n[1] == 'i' || n[1] == 'g');
        assert(n[2] == 's' || n[2] == 'n');
    }
}

proof fn lemma_neutral_item(o: PgpOptions, item: Seq<char>)
    requires
        neutral_item(item),
    ensures
        apply_item(o, item) == Ok::<PgpOptions, PgpOptionError>(o),
{
    let n = name_value(trim(item))->Some_0.0;
    lemma_option_names_differ(n);
}

proof fn lemma_mdc_off_item(o: PgpOptions, item: Seq<char>)
    requires
        mdc_off_item(item),
    ensures
        apply_item(o, item) == Err::<PgpOptions, PgpOptionError>(PgpOptionError::MdcDisabled),
{
    let n = name_value(trim(item))->Some_0.0;
    lemma_option_names_differ(n);
}

proof fn lemma_items_drop_neutral(o: PgpOptions, items: Seq<Seq<char>>, i: int)
    requires
        0 <= i < items.len(),
        neutral_item(items[i]),
    ensures
        apply_items(o, items) == apply_items(o, items.remove(i)),
    decreases i,
{
    if i == 0 {
        lemma_neutral_item(o, items[0]);
        assert(items.remove(0) =~= items.drop_first());
    } else {
        let rest = items.remove(i);
        assert(rest[0] == items[0]);
        assert(rest.drop_first() =~= items.drop_first().remove(i - 1));
        if let Ok(o2) = apply_item(o, items[0]) {
            lemma_items_drop_neutral(o2, items.drop_first(), i - 1);
        }
    }
}

proof fn lemma_items_mdc_off(o: PgpOptions, items: Seq<Seq<char>>, i: int)
    requires
        0 <= i < items.len(),
        mdc_off_item(items[i]),
    ensures
        apply_items(o, items) is Err,
    decreases i,
{
    if i == 0 {
        lemma_mdc_off_item(o, items[0]);
    } else if let Ok(o2) = apply_item(o, items[0]) {
        lemma_items_mdc_off(o2, items.drop_first(), i - 1);
    }
}

/// Dropping an item that parsing ignores (`disable-mdc=0`,
/// `ignore-cipher-failure=0` or `=1`) leaves the parse of the items as it
/// was.
pub proof fn lemma_neutral_option_ignored(items: Seq<Seq<char>>, i: int, text_input: bool)
    requires
        0 <= i < items.len(),
        neutral_item(items[i]),
    ensures
        parse_items_spec(items, text_input) == parse_items_spec(items.remove(i), text_input),
{
    lemma_items_drop_neutral(default_options(text_input), items, i);
}

/// Encryption never runs without integrity protection: options holding the
/// item `disable-mdc=1` never parse.
pub proof fn lemma_mdc_off_refused(items: Seq<Seq<char>>, i: int, text_input: bool)
    requires
        0 <= i < items.len(),
        mdc_off_item(items[i]),
    ensures
        parse_items_spec(items, text_input) is Err,
{
    lemma_items_mdc_off(default_options(text_input), items, i);
}

// ------------------------------------------------------------------ exec

/// The settings before any option: AES-128, no compression (level 6 where
/// compression is chosen), S2K mode 3 with SHA-1, no separate session key.
pub fn default_options_for(text_input: bool) -> (o: PgpOptions)
    ensures
        o == default_options(text_input),
{
    PgpOptions {
        cipher: PgpCipher::Aes128,
        compression: PgpCompression::Uncompressed,
        compression_level: 6,
        text_input,
        unicode_mode: false,
        convert_crlf: false,
        s2k_mode: 3,
        s2k_count: None,
        s2k_digest: S2kDigest::Sha1,
        s2k_cipher: None,
        use_session_key: false,
    }
}

/// A `0` or `1` flag.
pub fn parse_boolean_option(value: &Vec<char>) -> (r: Result<bool, PgpOptionError>)
    ensures
        r == boolean_spec(value@),
{
    let v = trimmed(value);
    if eq_lit(&v, "0") {
        Ok(false)
    } else if eq_lit(&v, "1") {
        Ok(true)
    } else {
        Err(PgpOptionError::NotBoolean)
    }
}

/// The cipher of `cipher-algo`.
pub fn parse_cipher(value: &Vec<char>) -> (r: Result<PgpCipher, PgpOptionError>)
    ensures
        r == cipher_spec(value@),
{
    let v = to_lower(&trimmed(value));
    if eq_lit(&v, "bf") || eq_lit(&v, "blowfish") {
        Ok(PgpCipher::Blowfish)
    } else if eq_lit(&v, "aes") || eq_lit(&v, "aes128") {
        Ok(PgpCipher::Aes128)
    } else if eq_lit(&v, "aes192") {
        Ok(PgpCipher::Aes192)
    } else if eq_lit(&v, "aes256") {
        Ok(PgpCipher::Aes256)
    } else if eq_lit(&v, "3des") {
        Ok(PgpCipher::TripleDes)
    } else if eq_lit(&v, "cast5") {
        Ok(PgpCipher::Cast5)
    } else {
        Err(PgpOptionError::UnsupportedCipher)
    }
}

fn parse_s2k_cipher(value: &Vec<char>) -> (r: Result<PgpCipher, PgpOptionError>)
    ensures
        r == s2k_cipher_spec(value@),
{
    let v = to_lower(&trimmed(value));
    if eq_lit(&v, "bf") {
        Ok(PgpCipher::Blowfish)
    } else if eq_lit(&v, "aes") || eq_lit(&v, "aes128") {
        Ok(PgpCipher::Aes128)
    } else if eq_lit(&v, "aes192") {
        Ok(PgpCipher::Aes192)
    } else if eq_lit(&v, "aes256") {
        Ok(PgpCipher::Aes256)
    } else {
        Err(PgpOptionError::UnsupportedS2kCipher)
    }
}

fn set_option(o: PgpOptions, name: &Vec<char>, value: &Vec<char>) -> (r: Result<
    PgpOptions,
    PgpOptionError,
>)
    ensures
        r == apply_option(o, name@, value@),
{
    let v = trimmed(value);
    if eq_lit(name, "cipher-algo") {
        match parse_cipher(value) {
            Ok(c) => Ok(PgpOptions { cipher: c, ..o }),
            Err(e) => Err(e),
        }
    } else if eq_lit(name, "compress-algo") {
        if eq_lit(&v, "0") {
            Ok(PgpOptions { compression: PgpCompression::Uncompressed, ..o })
        } else if eq_lit(&v, "1") {
            Ok(PgpOptions { compression: PgpCompression::Zip, ..o })
        } else if eq_lit(&v, "2") {
            Ok(PgpOptions { compression: PgpCompression::Zlib, ..o })
        } else {
            Err(PgpOptionError::BadCompressAlgo)
        }
    } else if eq_lit(name, "compress-level") {
        match parse_uint(&v, 255) {
            Some(n) => if n <= 9 {
                Ok(PgpOptions { compression_level: n as u8, ..o })
            } else {
                Err(PgpOptionError::BadCompressLevel)
            },
            None => Err(PgpOptionError::BadCompressLevel),
        }
    } else if eq_lit(name, "unicode-mode") {
        match parse_boolean_option(value) {
            Ok(b) => Ok(PgpOptions { unicode_mode: b, ..o }),
            Err(e) => Err(e),
        }
    } else if eq_lit(name, "convert-crlf") {
        match parse_boolean_option(value) {
            Ok(b) => Ok(PgpOptions { convert_crlf: b, ..o }),
            Err(e) => Err(e),
        }
    } else if eq_lit(name, "s2k-mode") {
        match parse_uint(&v, 255) {
            Some(n) => if n == 0 || n == 1 || n == 3 {
                Ok(PgpOptions { s2k_mode: n as u8, ..o })
            } else {
                Err(PgpOptionError::BadS2kMode)
            },
            None => Err(PgpOptionError::BadS2kMode),
        }
    } else if eq_lit(name, "s2k-digest-algo") {
        let d = to_lower(&v);
        if eq_lit(&d, "md5") {
            Ok(PgpOptions { s2k_digest: S2kDigest::Md5, ..o })
        } else if eq_lit(&d, "sha1") {
            Ok(PgpOptions { s2k_digest: S2kDigest::Sha1, ..o })
        } else {
            Err(PgpOptionError::UnsupportedS2kDigest)
        }
    } else if eq_lit(name, "s2k-cipher-algo") {
        match parse_s2k_cipher(value) {
            Ok(c) => Ok(PgpOptions { s2k_cipher: Some(c), ..o }),
            Err(e) => Err(e),
        }
    } else if eq_lit(name, "s2k-count") {
        match parse_uint(&v, 0xffff_ffff) {
            Some(n) => if 1024 <= n && n <= 65_011_712 {
                Ok(PgpOptions { s2k_count: Some(n), ..o })
            } else {
                Err(PgpOptionError::S2kCountRange)
            },
            None => Err(PgpOptionError::S2kCountNotInteger),
        }
    } else if eq_lit(name, "sess-key") {
        match parse_boolean_option(value) {
            Ok(b) => Ok(PgpOptions { use_session_key: b, ..o }),
            Err(e) => Err(e),
        }
    } else if eq_lit(name, "disable-mdc") {
        match parse_boolean_option(value) {
            Ok(b) => if b {
                Err(PgpOptionError::MdcDisabled)
            } else {
                Ok(o)
            },
            Err(e) => Err(e),
        }
    } else if eq_lit(name, "ignore-cipher-failure") {
        match parse_boolean_option(value) {
            Ok(_) => Ok(o),
            Err(e) => Err(e),
        }
    } else {
        Err(PgpOptionError::UnknownOption)
    }
}

/// Splits a trimmed, non-blank item at its first `=`.
fn split_item(t: &Vec<char>) -> (r: Option<(Vec<char>, Vec<char>)>)
    ensures
        match r {
            Some((n, v)) => name_value(t@) == Some((n@, v@)),
            None => name_value(t@) is None,
        },
{
    let i = crate::text::find_char(t, '=');
    proof {
        lemma_index_of(t@, '=');
    }
    if i < t.len() {
        let name = to_lower(&trimmed(&slice_chars(t, 0, i)));
        let value = slice_chars(t, i + 1, t.len());
        assert(t@.take(i as int) =~= t@.subrange(0, i as int));
        assert(t@.skip(i + 1) =~= t@.subrange(i + 1, t@.len() as int));
        Some((name, value))
    } else {
        None
    }
}

/// One step of `split_on`: the first piece and the rest after the separator.
proof fn lemma_split_step(s: Seq<char>, c: char)
    ensures
        index_of(s, c) < s.len() ==> split_on(s, c) == seq![s.take(index_of(s, c))] + split_on(
            s.skip(index_of(s, c) + 1),
            c,
        ),
        index_of(s, c) >= s.len() ==> split_on(s, c) == seq![s],
{
    lemma_index_of(s, c);
}

/// The first index of `c` at or after `from`, or the length of `s`.
fn find_from(s: &Vec<char>, c: char, from: usize) -> (i: usize)
    requires
        from <= s.len(),
    ensures
        i == from + index_of(s@.skip(from as int), c),
        from <= i <= s.len(),
{
    proof {
        lemma_index_of(s@.skip(from as int), c);
    }
    let mut i: usize = from;
    while i < s.len()
        invariant
            from <= i <= s.len(),
            index_of(s@.skip(from as int), c) == (i - from) + index_of(s@.skip(i as int), c),
        decreases s.len() - i,
    {
        if s[i] == c {
            return i;
        }
        assert(s@.skip(i as int).drop_first() =~= s@.skip(i + 1));
        i = i + 1;
    }
    i
}

/// Parses an encryption option string: comma-separated `name=value` items,
/// names in any letter case, white space around items, names and values
/// ignored, blank items skipped. `text_input` marks an encryption of text.
pub fn parse_options(options: &str, text_input: bool) -> (r: Result<PgpOptions, PgpOptionError>)
    ensures
        r == parse_options_spec(options@, text_input),
{
    let s = chars_of(options);
    let ghost total = apply_items(default_options(text_input), split_on(s@, ','));
    let mut parsed = default_options_for(text_input);
    let mut pos: usize = 0;
    let mut more = true;
    assert(s@.skip(0) =~= s@);
    while more
        invariant
            pos <= s.len(),
            s@ == options@,
            total == apply_items(default_options(text_input), split_on(s@, ',')),
            more ==> total == apply_items(parsed, split_on(s@.skip(pos as int), ',')),
            !more ==> total == Ok::<PgpOptions, PgpOptionError>(parsed),
        decreases s.len() - pos, (if more { 1int } else { 0int }),
    {
        let end = find_from(&s, ',', pos);
        let ghost rest = s@.skip(pos as int);
        proof {
            lemma_split_step(rest, ',');
        }
        let item = slice_chars(&s, pos, end);
        assert(item@ =~= rest.take(index_of(rest, ',')));
        let ghost items = split_on(rest, ',');
        assert(items[0] == item@);
        assert(end < s.len() ==> items.drop_first() =~= split_on(rest.skip(index_of(rest, ',') + 1), ','));
        assert(end >= s.len() ==> items.drop_first().len() == 0);
        let t = trimmed(&item);
        if t.len() > 0 {
            match split_item(&t) {
                None => return Err(PgpOptionError::InvalidOption),
                Some((name, value)) => match set_option(parsed, &name, &value) {
                    Ok(o) => {
                        parsed = o;
                    },
                    Err(e) => return Err(e),
                },
            }
        }
        if end < s.len() {
            assert(rest.skip(index_of(rest, ',') + 1) =~= s@.skip(end + 1));
            pos = end + 1;
        } else {
            assert(apply_items(parsed, items.drop_first()) == Ok::<PgpOptions, PgpOptionError>(parsed));
            more = false;
        }
    }
    if parsed.s2k_count.is_some() && parsed.s2k_mode != 3 {
        return Err(PgpOptionError::S2kCountNeedsMode3);
    }
    Ok(parsed)
}

fn set_decrypt_option(o: DecryptOptions, name: &Vec<char>, value: &Vec<char>) -> (r: Result<
    DecryptOptions,
    PgpOptionError,
>)
    ensures
        r == apply_decrypt_option(o, name@, value@),
{
    if eq_lit(name, "convert-crlf") {
        match parse_boolean_option(value) {
            Ok(b) => Ok(DecryptOptions { convert_crlf: b }),
            Err(e) => Err(e),
        }
    } else if eq_lit(name, "ignore-cipher-failure") {
        match parse_boolean_option(value) {
            Ok(_) => Ok(o),
            Err(e) => Err(e),
        }
    } else if eq_lit(name, "cipher-algo") || eq_lit(name, "compress-algo") || eq_lit(
        name,
        "compress-level",
    ) || eq_lit(name, "disable-mdc") || eq_lit(name, "sess-key") || eq_lit(name, "s2k-mode")
        || eq_lit(name, "s2k-count") || eq_lit(name, "s2k-digest-algo") || eq_lit(
        name,
        "s2k-cipher-algo",
    ) || eq_lit(name, "unicode-mode") {
        Ok(o)
    } else {
        Err(PgpOptionError::UnknownOption)
    }
}

/// Parses a decryption option string. `convert-crlf` and
/// `ignore-cipher-failure` take flags; the options that only encryption
/// reads are accepted whatever their value.
pub fn parse_decrypt_options(options: &str) -> (r: Result<DecryptOptions, PgpOptionError>)
    ensures
        r == parse_decrypt_options_spec(options@),
{
    let s = chars_of(options);
    let ghost total = apply_decrypt_items(DecryptOptions { convert_crlf: false }, split_on(s@, ','));
    let mut parsed = DecryptOptions { convert_crlf: false };
    let mut pos: usize = 0;
    let mut more = true;
    assert(s@.skip(0) =~= s@);
    while more
        invariant
            pos <= s.len(),
            s@ == options@,
            total == apply_decrypt_items(DecryptOptions { convert_crlf: false }, split_on(s@, ',')),
            more ==> total == apply_decrypt_items(parsed, split_on(s@.skip(pos as int), ',')),
            !more ==> total == Ok::<DecryptOptions, PgpOptionError>(parsed),
        decreases s.len() - pos, (if more { 1int } else { 0int }),
    {
        let end = find_from(&s, ',', pos);
        let ghost rest = s@.skip(pos as int);
        proof {
            lemma_split_step(rest, ',');
        }
        let item = slice_chars(&s, pos, end);
        assert(item@ =~= rest.take(index_of(rest, ',')));
        let ghost items = split_on(rest, ',');
        assert(items[0] == item@);
        assert(end < s.len() ==> items.drop_first() =~= split_on(rest.skip(index_of(rest, ',') + 1), ','));
        assert(end >= s.len() ==> items.drop_first().len() == 0);
        let t = trimmed(&item);
        if t.len() > 0 {
            match split_item(&t) {
                None => return Err(PgpOptionError::InvalidOption),
                Some((name, value)) => match set_decrypt_option(parsed, &name, &value) {
                    Ok(o) => {
                        parsed = o;
                    },
                    Err(e) => return Err(e),
                },
            }
        }
        if end < s.len() {
            assert(rest.skip(index_of(rest, ',') + 1) =~= s@.skip(end + 1));
            pos = end + 1;
        } else {
            assert(apply_decrypt_items(parsed, items.drop_first()) == Ok::<DecryptOptions, PgpOptionError>(parsed));
            more = false;
        }
    }
    Ok(parsed)
}

} // verus!
