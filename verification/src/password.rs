//! `crypt` and `gen_salt`: crypt(3) password hashes in the DES, extended
//! DES, md5crypt, bcrypt, SHA-256 crypt and SHA-512 crypt formats.
use crate::password_hashes as ph;
use crate::text::{
    chars_of, eq_lit, index_of, is_ascii_seq, lemma_index_of, lower_seq, slice_chars, string_of,
    to_lower,
};
use vstd::prelude::*;
use vstd::string::StringSliceAdditionalSpecFns;

verus! {

/// The salt formats of `gen_salt`.
#[derive(Clone, Copy, Debug, PartialEq, Eq, Structural)]
pub enum SaltAlgorithm {
    Bf,
    Des,
    Xdes,
    Md5,
    Sha256Crypt,
    Sha512Crypt,
}

#[derive(Clone, Copy, Debug, PartialEq, Eq, Structural)]
pub enum PasswordError {
    /// `crypt` was given a salt that no format accepts.
    InvalidSalt,
    /// A negative iteration count.
    NegativeRounds,
    /// A bcrypt cost outside 4 to 31.
    BcryptCost,
    /// A DES iteration count other than 25.
    DesRounds,
    /// An extended DES iteration count that is even or above 16777215.
    XdesRounds,
    /// An md5crypt iteration count other than 1000.
    Md5Rounds,
    /// A SHA-crypt iteration count outside 1000 to 999999999.
    ShaRounds,
    UnknownAlgorithm,
}

// ------------------------------------------------------------------ specs

/// `s` with each `$2b$`, found left to right, replaced by `$2a$`.
pub open spec fn replace_2b(s: Seq<char>) -> Seq<char>
    decreases s.len(),
{
    if s.len() >= 4 && s.take(4) == "$2b$"@ {
        "$2a$"@ + replace_2b(s.skip(4))
    } else if s.len() == 0 {
        s
    } else {
        seq![s[0]] + replace_2b(s.drop_first())
    }
}

/// The index of the `k`-th (from 0) `c` in `s` at or after `i`.
pub open spec fn nth_from(s: Seq<char>, c: char, i: int, k: nat) -> Option<int>
    decreases s.len() - i,
{
    if i < 0 || i >= s.len() {
        None
    } else if s[i] == c {
        if k == 0 {
            Some(i)
        } else {
            nth_from(s, c, i + 1, (k - 1) as nat)
        }
    } else {
        nth_from(s, c, i + 1, k)
    }
}

/// The end of the salt in a SHA-crypt hash: its third `$`, or the fourth
/// where `rounds=` follows the magic.
pub open spec fn sha_salt_end(h: Seq<char>) -> int {
    let third = match nth_from(h, '$', 0, 2) {
        Some(j) => j,
        None => h.len() - 1,
    };
    if h.len() >= 10 && h.subrange(3, 10) == "rounds="@ {
        match nth_from(h, '$', 0, 3) {
            Some(j) => j,
            None => third,
        }
    } else {
        third
    }
}

/// The salt part of a hash: what `crypt` needs to make a new hash in the
/// same format.
pub open spec fn salt_prefix_spec(h: Seq<char>, a: SaltAlgorithm) -> Seq<char> {
    match a {
        SaltAlgorithm::Bf => replace_2b(h.take(29)),
        SaltAlgorithm::Des => h.take(2),
        SaltAlgorithm::Xdes => h.take(9),
        SaltAlgorithm::Md5 => {
            let j = index_of(h.skip(3), '$');
            if j < h.len() - 3 {
                h.take(j + 4)
            } else {
                h
            }
        },
        SaltAlgorithm::Sha256Crypt | SaltAlgorithm::Sha512Crypt => h.take(sha_salt_end(h) + 1),
    }
}

/// The hashes that `salt_prefix` can cut: ASCII, and long enough for the
/// byte ranges it takes.
pub open spec fn salt_prefix_ok(h: Seq<char>, a: SaltAlgorithm) -> bool {
    &&& is_ascii_seq(h)
    &&& match a {
        SaltAlgorithm::Bf => h.len() >= 29,
        SaltAlgorithm::Des => h.len() >= 2,
        SaltAlgorithm::Xdes => h.len() >= 9,
        SaltAlgorithm::Md5 => h.len() >= 3,
        _ => h.len() >= 1,
    }
}

/// The salt algorithm a lower-cased name selects.
pub open spec fn salt_algorithm(n: Seq<char>) -> Option<SaltAlgorithm> {
    if n == "bf"@ {
        Some(SaltAlgorithm::Bf)
    } else if n == "des"@ {
        Some(SaltAlgorithm::Des)
    } else if n == "xdes"@ {
        Some(SaltAlgorithm::Xdes)
    } else if n == "md5"@ {
        Some(SaltAlgorithm::Md5)
    } else if n == "sha256crypt"@ {
        Some(SaltAlgorithm::Sha256Crypt)
    } else if n == "sha512crypt"@ {
        Some(SaltAlgorithm::Sha512Crypt)
    } else {
        None
    }
}

/// The iteration count: the default where `rounds` is 0.
pub open spec fn rounds_spec(rounds: i32, default: u32) -> Result<u32, PasswordError> {
    if rounds == 0 {
        Ok(default)
    } else if rounds > 0 {
        Ok(rounds as u32)
    } else {
        Err(PasswordError::NegativeRounds)
    }
}

/// What `gen_salt` checks of the iteration count before it makes a hash;
/// `Ok` holds the count the hash is made with.
pub open spec fn salt_rounds(a: SaltAlgorithm, rounds: i32) -> Result<u32, PasswordError> {
    match a {
        SaltAlgorithm::Bf => {
            let cost = if rounds == 0 {
                6
            } else {
                rounds as int
            };
            if 4 <= cost <= 31 {
                Ok(cost as u32)
            } else {
                Err(PasswordError::BcryptCost)
            }
        },
        SaltAlgorithm::Des => if rounds == 0 || rounds == 25 {
            Ok(25)
        } else {
            Err(PasswordError::DesRounds)
        },
        SaltAlgorithm::Xdes => match rounds_spec(rounds, 725) {
            Ok(n) => if n > 16_777_215 || n % 2 == 0 {
                Err(PasswordError::XdesRounds)
            } else {
                Ok(n)
            },
            Err(e) => Err(e),
        },
        SaltAlgorithm::Md5 => if rounds == 0 || rounds == 1000 {
            Ok(1000)
        } else {
            Err(PasswordError::Md5Rounds)
        },
        SaltAlgorithm::Sha256Crypt | SaltAlgorithm::Sha512Crypt => match rounds_spec(
            rounds,
            5000,
        ) {
            Ok(n) => if 1000 <= n <= 999_999_999 {
                Ok(n)
            } else {
                Err(PasswordError::ShaRounds)
            },
            Err(e) => Err(e),
        },
    }
}

/// The shape of the hash a salt is cut from, for an algorithm and count.
pub open spec fn hash_format(h: Seq<char>, a: SaltAlgorithm, n: u32) -> bool {
    match a {
        SaltAlgorithm::Bf => ph::bcrypt_format(h, n as nat),
        SaltAlgorithm::Des => ph::des_format(h),
        SaltAlgorithm::Xdes => ph::xdes_format(h, n as nat),
        SaltAlgorithm::Md5 => ph::md5_format(h),
        SaltAlgorithm::Sha256Crypt => ph::sha_format(h, "$5$"@, n as nat, 43),
        SaltAlgorithm::Sha512Crypt => ph::sha_format(h, "$6$"@, n as nat, 86),
    }
}

// ------------------------------------------------------------------ exec

/// Whether some character of `s` lies below U+0020.
fn has_control_char(s: &Vec<char>) -> (b: bool)
    ensures
        b == !ph::no_control_chars(s@),
{
    let mut i: usize = 0;
    while i < s.len()
        invariant
            i <= s.len(),
            forall|j: int| 0 <= j < i ==> (s@[j] as u32) >= 0x20,
        decreases s.len() - i,
    {
        if (s[i] as u32) < 0x20 {
            return true;
        }
        i = i + 1;
    }
    false
}

/// `crypt(password, salt)`: the hash of the password in the format, salt
/// and rounds that the salt (or an earlier hash) gives. A setting with a
/// character below U+0020 is no valid salt.
pub fn crypt(password: &str, salt: &str) -> (r: Result<String, PasswordError>)
    ensures
        !ph::no_control_chars(salt@) ==> r == Err::<String, PasswordError>(
            PasswordError::InvalidSalt,
        ),
        ph::no_control_chars(salt@) ==> match r {
            Ok(h) => ph::crypt_hash(password.spec_bytes(), salt@) == Some(h@),
            Err(e) => ph::crypt_hash(password.spec_bytes(), salt@) is None && e
                == PasswordError::InvalidSalt,
        },
{
    if has_control_char(&chars_of(salt)) {
        return Err(PasswordError::InvalidSalt);
    }
    match ph::unix_crypt_of(password.as_bytes(), salt) {
        Some(h) => Ok(h),
        None => Err(PasswordError::InvalidSalt),
    }
}

/// `s` with each `$2b$` replaced by `$2a$`.
pub fn replace_2b_with_2a(s: &Vec<char>) -> (r: Vec<char>)
    ensures
        r@ == replace_2b(s@),
{
    proof {
        reveal_strlit("$2b$");
        reveal_strlit("$2a$");
    }
    let mut out: Vec<char> = Vec::new();
    let mut i: usize = 0;
    assert(s@.skip(0) =~= s@);
    while i < s.len()
        invariant
            i <= s.len(),
            replace_2b(s@) == out@ + replace_2b(s@.skip(i as int)),
        decreases s.len() - i,
    {
        let ghost rest = s@.skip(i as int);
        let ghost old_out = out@;
        proof {
            reveal_strlit("$2b$");
            reveal_strlit("$2a$");
        }
        if s.len() - i >= 4 && s[i] == '$' && s[i + 1] == '2' && s[i + 2] == 'b' && s[i + 3]
            == '$' {
            assert(rest.take(4) =~= "$2b$"@);
            assert(rest.skip(4) =~= s@.skip(i + 4));
            out.push('$');
            out.push('2');
            out.push('a');
            out.push('$');
            assert(out@ =~= old_out + "$2a$"@);
            i = i + 4;
        } else {
            assert(!(rest.len() >= 4 && rest.take(4) == "$2b$"@)) by {
                if rest.len() >= 4 && rest.take(4) == "$2b$"@ {
                    assert(rest.take(4)[0] == '$');
                    assert(rest.take(4)[1] == '2');
                    assert(rest.take(4)[2] == 'b');
                    assert(rest.take(4)[3] == '$');
                }
            }
            assert(rest.drop_first() =~= s@.skip(i + 1));
            out.push(s[i]);
            i = i + 1;
        }
        assert(replace_2b(s@) =~= out@ + replace_2b(s@.skip(i as int)));
    }
    assert(s@.skip(i as int) =~= Seq::<char>::empty());
    assert(out@ + Seq::<char>::empty() =~= out@);
    out
}

/// The index of the `k`-th (from 0) `c` in `s`.
fn nth_index(s: &Vec<char>, c: char, k: usize) -> (r: Option<usize>)
    ensures
        match r {
            Some(j) => nth_from(s@, c, 0, k as nat) == Some(j as int) && j < s.len(),
            None => nth_from(s@, c, 0, k as nat) is None,
        },
{
    let mut i: usize = 0;
    let mut left: usize = k;
    while i < s.len()
        invariant
            i <= s.len(),
            left <= k,
            nth_from(s@, c, 0, k as nat) == nth_from(s@, c, i as int, left as nat),
        decreases s.len() - i,
    {
        if s[i] == c {
            if left == 0 {
                return Some(i);
            }
            left = left - 1;
        }
        i = i + 1;
    }
    None
}

/// The salt part of a hash that a generator made.
pub fn salt_prefix(hash: &Vec<char>, algorithm: SaltAlgorithm) -> (r: Vec<char>)
    requires
        salt_prefix_ok(hash@, algorithm),
    ensures
        r@ == salt_prefix_spec(hash@, algorithm),
{
    match algorithm {
        SaltAlgorithm::Bf => replace_2b_with_2a(&slice_chars(hash, 0, 29)),
        SaltAlgorithm::Des => slice_chars(hash, 0, 2),
        SaltAlgorithm::Xdes => slice_chars(hash, 0, 9),
        SaltAlgorithm::Md5 => {
            let rest = slice_chars(hash, 3, hash.len());
            assert(rest@ =~= hash@.skip(3));
            let j = crate::text::find_char(&rest, '$');
            proof {
                lemma_index_of(rest@, '$');
            }
            if j < rest.len() {
                slice_chars(hash, 0, j + 4)
            } else {
                slice_chars(hash, 0, hash.len())
            }
        },
        _ => {
            let third = match nth_index(hash, '$', 2) {
                Some(j) => j,
                None => hash.len() - 1,
            };
            let rounds_tag = hash.len() >= 10 && eq_lit(&slice_chars(hash, 3, 10), "rounds=");
            let end = if rounds_tag {
                match nth_index(hash, '$', 3) {
                    Some(j) => j,
                    None => third,
                }
            } else {
                third
            };
            slice_chars(hash, 0, end + 1)
        },
    }
}

/// The iteration count: `default` where `rounds` is 0, an error where it
/// is negative.
pub fn rounds_or_default(rounds: i32, default: u32) -> (r: Result<u32, PasswordError>)
    ensures
        r == rounds_spec(rounds, default),
{
    if rounds == 0 {
        Ok(default)
    } else if rounds > 0 {
        Ok(rounds as u32)
    } else {
        Err(PasswordError::NegativeRounds)
    }
}

/// The salt algorithm a lower-cased name selects.
pub fn parse_salt_algorithm(name: &Vec<char>) -> (r: Option<SaltAlgorithm>)
    ensures
        r == salt_algorithm(name@),
{
    if eq_lit(name, "bf") {
        Some(SaltAlgorithm::Bf)
    } else if eq_lit(name, "des") {
        Some(SaltAlgorithm::Des)
    } else if eq_lit(name, "xdes") {
        Some(SaltAlgorithm::Xdes)
    } else if eq_lit(name, "md5") {
        Some(SaltAlgorithm::Md5)
    } else if eq_lit(name, "sha256crypt") {
        Some(SaltAlgorithm::Sha256Crypt)
    } else if eq_lit(name, "sha512crypt") {
        Some(SaltAlgorithm::Sha512Crypt)
    } else {
        None
    }
}

proof fn lemma_hash64_ascii(h: Seq<char>, lo: int, hi: int)
    requires
        ph::hash64_between(h, lo, hi),
    ensures
        forall|i: int| lo <= i < hi ==> (#[trigger] h[i] as u32) < 128,
{
    assert forall|i: int| lo <= i < hi implies (#[trigger] h[i] as u32) < 128 by {
        assert(ph::is_hash64(h[i]));
    }
}

proof fn lemma_decimal_ascii(n: nat)
    ensures
        is_ascii_seq(ph::decimal_string(n)),
        ph::decimal_string(n).len() >= 1,
    decreases n,
{
    if n >= 10 {
        lemma_decimal_ascii(n / 10);
    }
}

/// Each generated format is ASCII and long enough for `salt_prefix`.
proof fn lemma_format_ok(h: Seq<char>, a: SaltAlgorithm, n: u32)
    requires
        hash_format(h, a, n),
    ensures
        salt_prefix_ok(h, a),
{
    reveal_strlit("$2a$");
    reveal_strlit("$1$");
    reveal_strlit("$5$");
    reveal_strlit("$6$");
    reveal_strlit("rounds=");
    reveal_strlit("$");
    match a {
        SaltAlgorithm::Bf => {
            lemma_hash64_ascii(h, 7, 60);
            assert forall|i: int| 0 <= i < 4 implies (#[trigger] h[i] as u32) < 128 by {
                assert(h[i] == h.take(4)[i]);
            }
        },
        SaltAlgorithm::Des => {
            lemma_hash64_ascii(h, 0, 13);
        },
        SaltAlgorithm::Xdes => {
            lemma_hash64_ascii(h, 1, 20);
        },
        SaltAlgorithm::Md5 => {
            lemma_hash64_ascii(h, 3, 11);
            lemma_hash64_ascii(h, 12, 34);
            assert forall|i: int| 0 <= i < 3 implies (#[trigger] h[i] as u32) < 128 by {
                assert(h[i] == h.take(3)[i]);
            }
        },
        _ => {
            let magic = if a == SaltAlgorithm::Sha256Crypt {
                "$5$"@
            } else {
                "$6$"@
            };
            let p = ph::sha_head(magic, n as nat);
            lemma_decimal_ascii(n as nat);
            lemma_hash64_ascii(h, p.len() as int, p.len() + 16int);
            lemma_hash64_ascii(h, p.len() + 17int, h.len() as int);
            assert(is_ascii_seq(p)) by {
                let d = ph::decimal_string(n as nat);
                assert forall|i: int| 0 <= i < p.len() implies (#[trigger] p[i] as u32) < 128 by {
                    if i < 3 {
                        assert(p[i] == magic[i]);
                    } else if i < 10 {
                        assert(p[i] == "rounds="@[i - 3]);
                    } else if i < 10 + d.len() {
                        assert(p[i] == d[i - 10]);
                    } else {
                        assert(p[i] == '$');
                    }
                }
            }
            assert forall|i: int| 0 <= i < p.len() implies (#[trigger] h[i] as u32) < 128 by {
                assert(h[i] == h.take(p.len() as int)[i]);
            }
        },
    }
}

/// Past `i`, up to `j`, no `c`: the search for the `k`-th `c` may start at `j`.
proof fn lemma_nth_from_skip(s: Seq<char>, c: char, i: int, j: int, k: nat)
    requires
        0 <= i <= j <= s.len(),
        forall|t: int| i <= t < j ==> s[t] != c,
    ensures
        nth_from(s, c, i, k) == nth_from(s, c, j, k),
    decreases j - i,
{
    if i < j {
        lemma_nth_from_skip(s, c, i + 1, j, k);
    }
}

proof fn lemma_decimal_no_dollar(n: nat)
    ensures
        forall|i: int| 0 <= i < ph::decimal_string(n).len() ==> ph::decimal_string(n)[i] != '$',
    decreases n,
{
    if n >= 10 {
        lemma_decimal_no_dollar(n / 10);
        let d = ph::decimal_string(n);
        assert forall|i: int| 0 <= i < d.len() implies d[i] != '$' by {
            if i < d.len() - 1 {
                assert(d[i] == ph::decimal_string(n / 10)[i]);
            }
        }
    }
}

/// In a SHA-crypt hash the salt ends at the `$` after its sixteen
/// characters.
proof fn lemma_sha_salt_end(h: Seq<char>, magic: Seq<char>, n: nat, checksum_len: nat)
    requires
        ph::sha_format(h, magic, n, checksum_len),
        magic.len() == 3,
        magic[0] == '$',
        magic[1] != '$',
        magic[2] == '$',
    ensures
        sha_salt_end(h) == ph::sha_head(magic, n).len() + 16,
{
    reveal_strlit("rounds=");
    reveal_strlit("$");
    let p = ph::sha_head(magic, n);
    let d = ph::decimal_string(n);
    let pl = p.len() as int;
    lemma_decimal_no_dollar(n);
    lemma_decimal_ascii(n);
    assert(pl == 11 + d.len());
    assert forall|t: int| 0 <= t < pl implies h[t] == p[t] by {
        assert(h[t] == h.take(pl)[t]);
    }
    assert(h.subrange(3, 10) =~= "rounds="@) by {
        assert forall|t: int| 0 <= t < 7 implies h.subrange(3, 10)[t] == "rounds="@[t] by {
            assert(h[t + 3] == p[t + 3]);
        }
    }
    assert forall|t: int| 3 <= t < pl - 1 implies h[t] != '$' by {
        assert(h[t] == p[t]);
        if t < 10 {
            assert(p[t] == "rounds="@[t - 3]);
        } else {
            assert(p[t] == d[t - 10]);
        }
    }
    assert forall|t: int| pl <= t < pl + 16 implies h[t] != '$' by {
        assert(ph::is_hash64(h[t]));
    }
    assert(h[0] == '$' && h[1] != '$' && h[2] == '$' && h[pl - 1] == '$') by {
        assert(h[0] == p[0] && h[1] == p[1] && h[2] == p[2] && h[pl - 1] == p[pl - 1]);
    }
    lemma_nth_from_skip(h, '$', 3, pl - 1, 1);
    lemma_nth_from_skip(h, '$', 3, pl - 1, 0);
    lemma_nth_from_skip(h, '$', pl, pl + 16, 0);
    assert(nth_from(h, '$', 0, 3) == Some(pl + 16)) by {
        assert(nth_from(h, '$', 0, 3) == nth_from(h, '$', 1, 2));
        assert(nth_from(h, '$', 1, 2) == nth_from(h, '$', 2, 2));
        assert(nth_from(h, '$', 2, 2) == nth_from(h, '$', 3, 1));
        assert(nth_from(h, '$', pl - 1, 1) == nth_from(h, '$', pl, 0));
    }
}

/// The salt cut from a SHA-256 or SHA-512 crypt hash is the whole head
/// `$5$rounds=R$` or `$6$rounds=R$`, the sixteen salt characters and the
/// `$` after them: nothing of the checksum, nothing of the salt left out.
pub proof fn lemma_sha_salt_prefix(h: Seq<char>, a: SaltAlgorithm, n: u32)
    requires
        a == SaltAlgorithm::Sha256Crypt || a == SaltAlgorithm::Sha512Crypt,
        hash_format(h, a, n),
    ensures
        salt_prefix_spec(h, a) == h.take(ph::sha_head(sha_magic(a), n as nat).len() + 17int),
        salt_prefix_spec(h, a).len() == ph::sha_head(sha_magic(a), n as nat).len() + 17,
        salt_prefix_spec(h, a).take(ph::sha_head(sha_magic(a), n as nat).len() as int)
            == ph::sha_head(sha_magic(a), n as nat),
        ph::hash64_between(
            salt_prefix_spec(h, a),
            ph::sha_head(sha_magic(a), n as nat).len() as int,
            ph::sha_head(sha_magic(a), n as nat).len() + 16int,
        ),
        salt_prefix_spec(h, a).last() == '$',
{
    reveal_strlit("$5$");
    reveal_strlit("$6$");
    let magic = sha_magic(a);
    let p = ph::sha_head(magic, n as nat);
    if a == SaltAlgorithm::Sha256Crypt {
        lemma_sha_salt_end(h, magic, n as nat, 43);
    } else {
        lemma_sha_salt_end(h, magic, n as nat, 86);
    }
    let s = salt_prefix_spec(h, a);
    assert(s == h.take(p.len() + 17int));
    assert(s.take(p.len() as int) =~= h.take(p.len() as int));
    assert forall|t: int| p.len() <= t < p.len() + 16 implies ph::is_hash64(#[trigger] s[t]) by {
        assert(s[t] == h[t]);
    }
}

/// What a SHA-crypt salt holds: the head `$N$rounds=R$`, sixteen hash64
/// salt characters and a closing `$`. Other formats ask nothing here.
pub open spec fn sha_salt_shape(s: Seq<char>, a: SaltAlgorithm, n: u32) -> bool {
    let p = ph::sha_head(sha_magic(a), n as nat);
    (a == SaltAlgorithm::Sha256Crypt || a == SaltAlgorithm::Sha512Crypt) ==> {
        &&& s.len() == p.len() + 17
        &&& s.take(p.len() as int) == p
        &&& ph::hash64_between(s, p.len() as int, p.len() + 16int)
        &&& s.last() == '$'
    }
}

/// The magic that starts the hashes of a SHA-crypt format.
pub open spec fn sha_magic(a: SaltAlgorithm) -> Seq<char> {
    if a == SaltAlgorithm::Sha256Crypt {
        "$5$"@
    } else {
        "$6$"@
    }
}

/// Makes a salt for `crypt`: a fresh random hash of the empty password in
/// the chosen format, cut to its salt part. `algorithm` is lower-cased.
pub fn generate_salt(algorithm: &Vec<char>, rounds: i32) -> (r: Result<String, PasswordError>)
    ensures
        salt_algorithm(algorithm@) is None ==> r == Err::<String, PasswordError>(
            PasswordError::UnknownAlgorithm,
        ),
        salt_algorithm(algorithm@) matches Some(a) ==> match salt_rounds(a, rounds) {
            Err(e) => r == Err::<String, PasswordError>(e),
            Ok(n) => match r {
                Ok(s) => exists|h: Seq<char>|
                    hash_format(h, a, n) && s@ == #[trigger] salt_prefix_spec(h, a) && sha_salt_shape(
                        s@,
                        a,
                        n,
                    ),
                Err(_) => false,
            },
        },
{
    let a = match parse_salt_algorithm(algorithm) {
        Some(a) => a,
        None => return Err(PasswordError::UnknownAlgorithm),
    };
    let made: (String, u32) = match a {
        SaltAlgorithm::Bf => {
            let cost: i32 = if rounds == 0 {
                6
            } else {
                rounds
            };
            if !(4 <= cost && cost <= 31) {
                return Err(PasswordError::BcryptCost);
            }
            (ph::bcrypt_random_hash(cost as u32), cost as u32)
        },
        SaltAlgorithm::Des => {
            if !(rounds == 0 || rounds == 25) {
                return Err(PasswordError::DesRounds);
            }
            (ph::des_random_hash(), 25)
        },
        SaltAlgorithm::Xdes => {
            let actual = match rounds_or_default(rounds, 725) {
                Ok(n) => n,
                Err(e) => return Err(e),
            };
            if actual > 16_777_215 || actual % 2 == 0 {
                return Err(PasswordError::XdesRounds);
            }
            (ph::xdes_random_hash(actual), actual)
        },
        SaltAlgorithm::Md5 => {
            if !(rounds == 0 || rounds == 1000) {
                return Err(PasswordError::Md5Rounds);
            }
            (ph::md5_random_hash(), 1000)
        },
        SaltAlgorithm::Sha256Crypt => {
            let actual = match rounds_or_default(rounds, ph::sha256_default_rounds()) {
                Ok(n) => n,
                Err(e) => return Err(e),
            };
            if !(1000 <= actual && actual <= 999_999_999) {
                return Err(PasswordError::ShaRounds);
            }
            (ph::sha256_random_hash(actual), actual)
        },
        SaltAlgorithm::Sha512Crypt => {
            let actual = match rounds_or_default(rounds, ph::sha512_default_rounds()) {
                Ok(n) => n,
                Err(e) => return Err(e),
            };
            if !(1000 <= actual && actual <= 999_999_999) {
                return Err(PasswordError::ShaRounds);
            }
            (ph::sha512_random_hash(actual), actual)
        },
    };
    let (hash, n) = made;
    let chars = chars_of(hash.as_str());
    assert(salt_rounds(a, rounds) == Ok::<u32, PasswordError>(n));
    proof {
        lemma_format_ok(chars@, a, n);
    }
    let salt = salt_prefix(&chars, a);
    proof {
        if a == SaltAlgorithm::Sha256Crypt || a == SaltAlgorithm::Sha512Crypt {
            lemma_sha_salt_prefix(chars@, a, n);
        }
    }
    Ok(string_of(salt.as_slice()))
}

/// `gen_salt(type [, rounds])`: `type` in any letter case, `rounds` 0 for
/// the format's default.
pub fn gen_salt(algorithm: &str, rounds: i32) -> (r: Result<String, PasswordError>)
    ensures
        salt_algorithm(lower_seq(algorithm@)) is None ==> r == Err::<String, PasswordError>(
            PasswordError::UnknownAlgorithm,
        ),
        salt_algorithm(lower_seq(algorithm@)) matches Some(a) ==> match salt_rounds(a, rounds) {
            Err(e) => r == Err::<String, PasswordError>(e),
            Ok(n) => match r {
                Ok(s) => exists|h: Seq<char>|
                    hash_format(h, a, n) && s@ == #[trigger] salt_prefix_spec(h, a) && sha_salt_shape(
                        s@,
                        a,
                        n,
                    ),
                Err(_) => false,
            },
        },
{
    generate_salt(&to_lower(&chars_of(algorithm)), rounds)
}

} // verus!
