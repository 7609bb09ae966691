//! OpenPGP ASCII armor: `armor`, `dearmor` and `pgp_armor_headers`. The
//! armor itself is Sequoia's; this module checks the headers it is given.
use crate::text::{
    all_ascii, chars_of, has_char, has_char_pair, has_pair, is_ascii_seq, is_white_space,
};
use std::io::{Cursor, Read, Write};
use sequoia_openpgp::armor::{Kind, Reader, ReaderMode, Writer};
use vstd::prelude::*;

verus! {

#[derive(Clone, Copy, Debug, PartialEq, Eq, Structural)]
pub enum ArmorError {
    /// A NULL among the header keys.
    NullKey,
    /// A NULL among the header values.
    NullValue,
    /// Key or value arrays of more than one dimension, or of different
    /// dimensions.
    WrongSubscripts,
    /// Key and value arrays of different lengths.
    MismatchedLengths,
    KeyNotAscii,
    /// A key holding `": "`.
    KeyHasColonSpace,
    KeyHasNewline,
    ValueNotAscii,
    ValueHasNewline,
    /// The text is not an armored OpenPGP message.
    InvalidArmor,
}

/// Pairs of strings by their characters.
pub open spec fn pairs_view(h: Seq<(String, String)>) -> Seq<(Seq<char>, Seq<char>)> {
    h.map_values(|p: (String, String)| (p.0@, p.1@))
}

/// The armor of `data` with the given headers, as Sequoia writes it for an
/// OpenPGP message; `None` where it fails.
pub uninterp spec fn armor_encode(data: Seq<u8>, headers: Seq<(Seq<char>, Seq<char>)>) -> Seq<char>;

/// The data of an armored OpenPGP message, as Sequoia's tolerant reader
/// takes it; `None` where it is not one.
pub uninterp spec fn armor_decode(text: Seq<char>) -> Option<Seq<u8>>;

/// The header lines of an armored OpenPGP message.
pub uninterp spec fn armor_header_lines(text: Seq<char>) -> Option<Seq<(Seq<char>, Seq<char>)>>;

/// Header lines that the armor reader reads back as written: each passes
/// the checks of `header_fault`, so none holds a line break that would end
/// the header block early.
pub open spec fn headers_clean(h: Seq<(Seq<char>, Seq<char>)>) -> bool {
    forall|i: int| 0 <= i < h.len() ==> (#[trigger] header_fault(h[i].0, h[i].1)) is None
}

/// A header line that the reader gives back as written: the reader trims
/// white space before the key, and a value ending in CR loses it to the
/// line end.
pub open spec fn header_readable(key: Seq<char>, value: Seq<char>) -> bool {
    &&& (key.len() == 0 || !is_white_space(key[0]))
    &&& (value.len() == 0 || value.last() != '\r')
}

/// Header lines that the reader gives back as written.
pub open spec fn headers_readable(h: Seq<(Seq<char>, Seq<char>)>) -> bool {
    &&& headers_clean(h)
    &&& forall|i: int| 0 <= i < h.len() ==> #[trigger] header_readable(h[i].0, h[i].1)
}

/// `armor::Writer::with_headers` for `Kind::Message`, `write_all` of the
/// data, `finalize`, and `String::from_utf8` of what it wrote. Writing into
/// memory does not fail, and the armor is UTF-8 (the headers are strings,
/// the rest ASCII). The writer emits nothing for empty data; armor of data
/// that is not empty, with header lines free of line breaks, reads back as
/// that data, since the reader ends the header block at the first empty
/// line, and the reader splits each header line at its first `": "`.
#[verifier::external_body]
fn encode_armor(data: &[u8], headers: &Vec<(String, String)>) -> (out: String)
    ensures
        out@ == armor_encode(data@, pairs_view(headers@)),
        data@.len() > 0 && headers_clean(pairs_view(headers@)) ==> armor_decode(out@) == Some(
            data@,
        ),
        data@.len() > 0 && headers_readable(pairs_view(headers@)) ==> armor_header_lines(out@)
            == Some(pairs_view(headers@)),
{
    let pairs = headers.iter().map(|(key, value)| (key, value));
    let mut writer = Writer::with_headers(Vec::new(), Kind::Message, pairs).unwrap();
    writer.write_all(data).unwrap();
    String::from_utf8(writer.finalize().unwrap()).unwrap()
}

/// `armor::Reader::from_reader` in `ReaderMode::Tolerant(Some(Kind::Message))`,
/// then `read_to_end`.
#[verifier::external_body]
fn decode_armor(text: &str) -> (out: Option<Vec<u8>>)
    ensures
        match out {
            Some(d) => armor_decode(text@) == Some(d@),
            None => armor_decode(text@) is None,
        },
{
    let mode = ReaderMode::Tolerant(Some(Kind::Message));
    let mut reader = Reader::from_reader(Cursor::new(text.as_bytes()), mode);
    let mut output = Vec::new();
    reader.read_to_end(&mut output).ok()?;
    Some(output)
}

/// `armor::Reader::from_reader` in the same mode, then `headers`.
#[verifier::external_body]
fn read_armor_headers(text: &str) -> (out: Option<Vec<(String, String)>>)
    ensures
        match out {
            Some(h) => armor_header_lines(text@) == Some(pairs_view(h@)),
            None => armor_header_lines(text@) is None,
        },
{
    let mode = ReaderMode::Tolerant(Some(Kind::Message));
    let mut reader = Reader::from_reader(Cursor::new(text.as_bytes()), mode);
    Some(reader.headers().ok()?.to_vec())
}

/// The first fault of one header line, if any.
pub open spec fn header_fault(key: Seq<char>, value: Seq<char>) -> Option<ArmorError> {
    if !is_ascii_seq(key) {
        Some(ArmorError::KeyNotAscii)
    } else if has_pair(key, ':', ' ') {
        Some(ArmorError::KeyHasColonSpace)
    } else if key.contains('\n') {
        Some(ArmorError::KeyHasNewline)
    } else if !is_ascii_seq(value) {
        Some(ArmorError::ValueNotAscii)
    } else if value.contains('\n') {
        Some(ArmorError::ValueHasNewline)
    } else {
        None
    }
}

/// The fault of the first faulty header from index `i` on.
pub open spec fn first_fault(keys: Seq<Seq<char>>, values: Seq<Seq<char>>, i: int) -> Option<
    ArmorError,
>
    decreases keys.len() - i,
{
    if i < 0 || i >= keys.len() {
        None
    } else {
        match header_fault(keys[i], values[i]) {
            Some(e) => Some(e),
            None => first_fault(keys, values, i + 1),
        }
    }
}

pub open spec fn opt_view(s: Seq<Option<String>>) -> Seq<Option<Seq<char>>> {
    s.map_values(|o: Option<String>|
        match o {
            Some(t) => Some(t@),
            None => None,
        })
}

pub open spec fn unwrap_all(s: Seq<Option<Seq<char>>>) -> Seq<Seq<char>> {
    s.map_values(|o: Option<Seq<char>>| o->Some_0)
}

pub open spec fn zip(keys: Seq<Seq<char>>, values: Seq<Seq<char>>) -> Seq<(Seq<char>, Seq<char>)> {
    Seq::new(keys.len(), |i: int| (keys[i], values[i]))
}

/// What `armor(data, keys, values)` gives: arrays of `dims` dimensions
/// whose elements may be NULL (`None`).
pub open spec fn armor_with_headers_spec(
    data: Seq<u8>,
    keys: Seq<Option<Seq<char>>>,
    key_dims: i32,
    values: Seq<Option<Seq<char>>>,
    value_dims: i32,
) -> Result<Seq<char>, ArmorError> {
    if exists|i: int| 0 <= i < keys.len() && keys[i] is None {
        Err(ArmorError::NullKey)
    } else if exists|i: int| 0 <= i < values.len() && values[i] is None {
        Err(ArmorError::NullValue)
    } else if key_dims > 1 || key_dims != value_dims {
        Err(ArmorError::WrongSubscripts)
    } else if keys.len() != values.len() {
        Err(ArmorError::MismatchedLengths)
    } else {
        let ks = unwrap_all(keys);
        let vs = unwrap_all(values);
        match first_fault(ks, vs, 0) {
            Some(e) => Err(e),
            None => Ok(armor_encode(data, zip(ks, vs))),
        }
    }
}

/// `armor(data)`: the data as an armored OpenPGP message without headers.
/// Armor of data that is not empty reads back as that data.
pub fn armor(data: &[u8]) -> (r: Result<String, ArmorError>)
    ensures
        r matches Ok(a) && a@ == armor_encode(data@, Seq::empty()),
        r matches Ok(a) && (data@.len() > 0 ==> armor_decode(a@) == Some(data@)),
        r matches Ok(a) && (data@.len() > 0 ==> armor_header_lines(a@) == Some(
            Seq::<(Seq<char>, Seq<char>)>::empty(),
        )),
{
    let headers: Vec<(String, String)> = Vec::new();
    assert(pairs_view(headers@) =~= Seq::empty());
    Ok(encode_armor(data, &headers))
}

/// The strings of a list without NULLs; `None` where one is NULL.
fn all_present(items: &Vec<Option<String>>) -> (r: Option<Vec<String>>)
    ensures
        match r {
            Some(v) => (forall|i: int| 0 <= i < items@.len() ==> items@[i] is Some) && v@.len()
                == items@.len() && forall|i: int|
                0 <= i < v@.len() ==> #[trigger] v@[i]@ == items@[i]->Some_0@,
            None => exists|i: int| 0 <= i < items@.len() && items@[i] is None,
        },
{
    let mut out: Vec<String> = Vec::new();
    let mut i: usize = 0;
    while i < items.len()
        invariant
            i <= items.len(),
            out@.len() == i,
            forall|j: int| 0 <= j < i ==> items@[j] is Some,
            forall|j: int| 0 <= j < i ==> #[trigger] out@[j]@ == items@[j]->Some_0@,
        decreases items.len() - i,
    {
        match &items[i] {
            Some(s) => {
                out.push(s.clone());
            },
            None => {
                return None;
            },
        }
        i = i + 1;
    }
    Some(out)
}

fn check_header(key: &String, value: &String) -> (r: Option<ArmorError>)
    ensures
        r == header_fault(key@, value@),
{
    let k = chars_of(key.as_str());
    let v = chars_of(value.as_str());
    if !all_ascii(&k) {
        Some(ArmorError::KeyNotAscii)
    } else if has_char_pair(&k, ':', ' ') {
        Some(ArmorError::KeyHasColonSpace)
    } else if has_char(&k, '\n') {
        Some(ArmorError::KeyHasNewline)
    } else if !all_ascii(&v) {
        Some(ArmorError::ValueNotAscii)
    } else if has_char(&v, '\n') {
        Some(ArmorError::ValueHasNewline)
    } else {
        None
    }
}

proof fn lemma_no_fault(keys: Seq<Seq<char>>, values: Seq<Seq<char>>, i: int)
    requires
        0 <= i,
        first_fault(keys, values, i) is None,
    ensures
        forall|j: int| i <= j < keys.len() ==> (#[trigger] header_fault(keys[j], values[j])) is None,
    decreases keys.len() - i,
{
    if i < keys.len() {
        lemma_no_fault(keys, values, i + 1);
    }
}

/// `armor(data, keys, values)`: armor with header lines `key: value`.
/// Armor of data that is not empty reads back as that data.
/// `key_dims` and `value_dims` are the numbers of dimensions of the two
/// arrays; a NULL element is `None`.
pub fn armor_with_headers(
    data: &[u8],
    keys: &Vec<Option<String>>,
    key_dims: i32,
    values: &Vec<Option<String>>,
    value_dims: i32,
) -> (r: Result<String, ArmorError>)
    ensures
        match r {
            Ok(a) => armor_with_headers_spec(
                data@,
                opt_view(keys@),
                key_dims,
                opt_view(values@),
                value_dims,
            ) == Ok::<Seq<char>, ArmorError>(a@),
            Err(e) => armor_with_headers_spec(
                data@,
                opt_view(keys@),
                key_dims,
                opt_view(values@),
                value_dims,
            ) == Err::<Seq<char>, ArmorError>(e),
        },
        r matches Ok(a) ==> (data@.len() > 0 ==> armor_decode(a@) == Some(data@)),
        r matches Ok(a) ==> (data@.len() > 0 && (forall|i: int|
            0 <= i < keys@.len() ==> #[trigger] header_readable(
                unwrap_all(opt_view(keys@))[i],
                unwrap_all(opt_view(values@))[i],
            )) ==> armor_header_lines(a@) == Some(
            zip(unwrap_all(opt_view(keys@)), unwrap_all(opt_view(values@))),
        )),
{
    let ghost kv = opt_view(keys@);
    let ghost vv = opt_view(values@);
    let key_list = match all_present(keys) {
        Some(k) => k,
        None => {
            proof {
                let w = choose|i: int| 0 <= i < keys@.len() && keys@[i] is None;
                assert(kv[w] is None);
            }
            return Err(ArmorError::NullKey);
        },
    };
    assert(!exists|i: int| 0 <= i < kv.len() && kv[i] is None);
    let value_list = match all_present(values) {
        Some(v) => v,
        None => {
            proof {
                let w = choose|i: int| 0 <= i < values@.len() && values@[i] is None;
                assert(vv[w] is None);
            }
            return Err(ArmorError::NullValue);
        },
    };
    assert(!exists|i: int| 0 <= i < vv.len() && vv[i] is None);
    if key_dims > 1 || key_dims != value_dims {
        return Err(ArmorError::WrongSubscripts);
    }
    if key_list.len() != value_list.len() {
        return Err(ArmorError::MismatchedLengths);
    }
    let ghost ks = unwrap_all(kv);
    let ghost vs = unwrap_all(vv);
    assert forall|j: int| 0 <= j < key_list@.len() implies #[trigger] key_list@[j]@ == ks[j] by {}
    assert forall|j: int| 0 <= j < value_list@.len() implies #[trigger] value_list@[j]@ == vs[j] by {}
    let ghost result = armor_with_headers_spec(data@, kv, key_dims, vv, value_dims);
    assert(result == match first_fault(ks, vs, 0) {
        Some(e) => Err(e),
        None => Ok(armor_encode(data@, zip(ks, vs))),
    });
    let mut headers: Vec<(String, String)> = Vec::new();
    let mut i: usize = 0;
    while i < key_list.len()
        invariant
            result == armor_with_headers_spec(data@, opt_view(keys@), key_dims, opt_view(values@), value_dims),
            result == match first_fault(ks, vs, 0) {
                Some(e) => Err(e),
                None => Ok(armor_encode(data@, zip(ks, vs))),
            },
            i <= key_list.len() == value_list.len(),
            key_list@.len() == ks.len(),
            value_list@.len() == vs.len(),
            forall|j: int| 0 <= j < key_list@.len() ==> #[trigger] key_list@[j]@ == ks[j],
            forall|j: int| 0 <= j < value_list@.len() ==> #[trigger] value_list@[j]@ == vs[j],
            first_fault(ks, vs, 0) == first_fault(ks, vs, i as int),
            headers@.len() == i,
            pairs_view(headers@) =~= zip(ks, vs).take(i as int),
        decreases key_list.len() - i,
    {
        match check_header(&key_list[i], &value_list[i]) {
            Some(e) => {
                return Err(e);
            },
            None => {},
        }
        let ghost old_headers = headers@;
        let k = key_list[i].clone();
        let v = value_list[i].clone();
        assert(key_list@[i as int]@ == ks[i as int]);
        assert(value_list@[i as int]@ == vs[i as int]);
        assert(k@ == ks[i as int] && v@ == vs[i as int]);
        headers.push((k, v));
        assert(headers@ == old_headers.push((k, v)));
        assert(pairs_view(headers@).len() == i + 1);
        assert(pairs_view(headers@)[i as int] == zip(ks, vs)[i as int]);
        i = i + 1;
        assert(pairs_view(headers@) =~= zip(ks, vs).take(i as int));
    }
    assert(zip(ks, vs).take(i as int) =~= zip(ks, vs));
    assert(first_fault(ks, vs, i as int) is None);
    proof {
        lemma_no_fault(ks, vs, 0);
        assert forall|j: int| 0 <= j < pairs_view(headers@).len() implies (#[trigger] header_fault(
            pairs_view(headers@)[j].0,
            pairs_view(headers@)[j].1,
        )) is None by {
            assert(pairs_view(headers@)[j] == zip(ks, vs)[j]);
            assert(header_fault(ks[j], vs[j]) is None);
        }
        assert(pairs_view(headers@) == zip(ks, vs));
    }
    Ok(encode_armor(data, &headers))
}

/// `dearmor(text)`: the data of an armored OpenPGP message.
pub fn dearmor(data: &str) -> (r: Result<Vec<u8>, ArmorError>)
    ensures
        match r {
            Ok(d) => armor_decode(data@) == Some(d@),
            Err(e) => armor_decode(data@) is None && e == ArmorError::InvalidArmor,
        },
{
    match decode_armor(data) {
        Some(d) => Ok(d),
        None => Err(ArmorError::InvalidArmor),
    }
}

/// `pgp_armor_headers(text)`: the header lines of an armored OpenPGP
/// message, as key and value.
pub fn pgp_armor_headers(data: &str) -> (r: Result<Vec<(String, String)>, ArmorError>)
    ensures
        match r {
            Ok(h) => armor_header_lines(data@) == Some(pairs_view(h@)),
            Err(e) => armor_header_lines(data@) is None && e == ArmorError::InvalidArmor,
        },
{
    match read_armor_headers(data) {
        Some(h) => Ok(h),
        None => Err(ArmorError::InvalidArmor),
    }
}

} // verus!
