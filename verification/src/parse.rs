//! Text handling for recognized strings: character extraction, whitespace
//! trimming, and decimal parsing, all specified exactly over `Seq<char>`.

use vstd::prelude::*;

use crate::error::{ScanError, ScanField};

verus! {

/// Saturation cap for parsed digit strings: anything at or above it is out
/// of range for every caller.
pub const DIGITS_CAP: u64 = 0x1_0000_0000;

/// The characters of a string, as a vector.
pub fn chars_of(s: &str) -> (r: Vec<char>)
    ensures
        r@ == s@,
{
    let mut r: Vec<char> = Vec::new();
    for c in it: s.chars()
        invariant
            r@ == it.seq().take(it.index() as int),
    {
        r.push(c);
    }
    proof {
        assert(r@ =~= s@);
    }
    r
}

/// A character with the Unicode White_Space property, the set that
/// trimming removes.
pub open spec fn is_space(c: char) -> bool {
    ||| c as u32 == 0x09
    ||| c as u32 == 0x0A
    ||| c as u32 == 0x0B
    ||| c as u32 == 0x0C
    ||| c as u32 == 0x0D
    ||| c as u32 == 0x20
    ||| c as u32 == 0x85
    ||| c as u32 == 0xA0
    ||| c as u32 == 0x1680
    ||| (0x2000 <= c as u32 <= 0x200A)
    ||| c as u32 == 0x2028
    ||| c as u32 == 0x2029
    ||| c as u32 == 0x202F
    ||| c as u32 == 0x205F
    ||| c as u32 == 0x3000
}

/// Whether `c` has the White_Space property.
pub fn is_space_char(c: char) -> (b: bool)
    ensures
        b == is_space(c),
{
    let u = c as u32;
    u == 0x09 || u == 0x0A || u == 0x0B || u == 0x0C || u == 0x0D || u == 0x20 || u == 0x85 || u
        == 0xA0 || u == 0x1680 || (0x2000 <= u && u <= 0x200A) || u == 0x2028 || u == 0x2029 || u
        == 0x202F || u == 0x205F || u == 0x3000
}

/// The first index at or after `i` holding a non-space character
/// (the length when all of the rest is space).
pub open spec fn skip_spaces_from(s: Seq<char>, i: int) -> int
    decreases s.len() - i,
{
    if i < 0 || i >= s.len() {
        s.len() as int
    } else if is_space(s[i]) {
        skip_spaces_from(s, i + 1)
    } else {
        i
    }
}

/// One past the last non-space index in `[lo, j)` (`lo` when all space).
pub open spec fn trim_end_from(s: Seq<char>, lo: int, j: int) -> int
    decreases j,
{
    if j <= lo || j <= 0 {
        lo
    } else if j > s.len() {
        lo
    } else if is_space(s[j - 1]) {
        trim_end_from(s, lo, j - 1)
    } else {
        j
    }
}

/// The string with leading and trailing White_Space removed.
pub open spec fn spec_trim(s: Seq<char>) -> Seq<char> {
    let lo = skip_spaces_from(s, 0);
    let hi = trim_end_from(s, lo, s.len() as int);
    s.subrange(lo, hi)
}

proof fn lemma_skip_spaces_prefix(s: Seq<char>, i: int)
    requires
        0 <= i <= s.len(),
        forall|k: int| 0 <= k < i ==> is_space(s[k]),
    ensures
        skip_spaces_from(s, 0) == skip_spaces_from(s, i),
    decreases i,
{
    if i > 0 {
        lemma_skip_spaces_prefix(s, i - 1);
    }
}

pub proof fn lemma_trim_end_suffix(s: Seq<char>, lo: int, i: int, j: int)
    requires
        0 <= lo <= j <= i <= s.len(),
        forall|k: int| j <= k < i ==> is_space(s[k]),
    ensures
        trim_end_from(s, lo, i) == trim_end_from(s, lo, j),
    decreases i - j,
{
    if i > j {
        lemma_trim_end_suffix(s, lo, i - 1, j);
    }
}

/// The characters with leading and trailing White_Space removed.
pub fn trimmed_chars(v: &Vec<char>) -> (r: Vec<char>)
    ensures
        r@ == spec_trim(v@),
{
    let n = v.len();
    let mut lo: usize = 0;
    let mut lo_done = false;
    while !lo_done && lo < n
        invariant
            n == v@.len(),
            lo <= n,
            forall|k: int| 0 <= k < lo ==> is_space(v@[k]),
            lo_done ==> lo < n && !is_space(v@[lo as int]),
        decreases n - lo + (if lo_done {
            0int
        } else {
            1int
        }),
    {
        if is_space_char(v[lo]) {
            lo = lo + 1;
        } else {
            lo_done = true;
        }
    }
    proof {
        lemma_skip_spaces_prefix(v@, lo as int);
        assert(skip_spaces_from(v@, 0) == lo);
    }
    let mut hi: usize = n;
    let mut hi_done = false;
    while !hi_done && hi > lo
        invariant
            n == v@.len(),
            lo <= hi <= n,
            forall|k: int| hi <= k < n ==> is_space(v@[k]),
            hi_done ==> hi > lo && !is_space(v@[hi - 1]),
            !lo_done ==> lo == hi,
            lo_done ==> lo < n && !is_space(v@[lo as int]),
        decreases hi - lo + (if hi_done {
            0int
        } else {
            1int
        }),
    {
        if is_space_char(v[hi - 1]) {
            hi = hi - 1;
        } else {
            hi_done = true;
        }
    }
    proof {
        lemma_trim_end_suffix(v@, lo as int, v@.len() as int, hi as int);
        assert(trim_end_from(v@, lo as int, v@.len() as int) == hi);
    }
    let mut r: Vec<char> = Vec::new();
    let mut i: usize = lo;
    while i < hi
        invariant
            n == v@.len(),
            lo <= i <= hi <= n,
            r@ =~= v@.subrange(lo as int, i as int),
        decreases hi - i,
    {
        r.push(v[i]);
        proof {
            assert(r@ =~= v@.subrange(lo as int, i + 1));
        }
        i = i + 1;
    }
    proof {
        assert(r@ =~= spec_trim(v@));
    }
    r
}

/// Whether two character vectors hold the same characters.
pub fn chars_eq(a: &Vec<char>, b: &Vec<char>) -> (r: bool)
    ensures
        r == (a@ == b@),
{
    if a.len() != b.len() {
        return false;
    }
    let mut i: usize = 0;
    while i < a.len()
        invariant
            a@.len() == b@.len(),
            i <= a@.len(),
            forall|k: int| 0 <= k < i ==> a@[k] == b@[k],
        decreases a@.len() - i,
    {
        if a[i] != b[i] {
            return false;
        }
        i = i + 1;
    }
    proof {
        assert(a@ =~= b@);
    }
    true
}

/// Whether the two strings are equal once both are trimmed.
pub fn trim_eq(a: &str, b: &str) -> (r: bool)
    ensures
        r == (spec_trim(a@) == spec_trim(b@)),
{
    let ta = trimmed_chars(&chars_of(a));
    let tb = trimmed_chars(&chars_of(b));
    chars_eq(&ta, &tb)
}

/// A decimal digit.
pub open spec fn is_digit(c: char) -> bool {
    0x30 <= c as u32 <= 0x39
}

/// A non-empty, all-digit string.
pub open spec fn digits_ok(s: Seq<char>) -> bool {
    s.len() > 0 && forall|k: int| 0 <= k < s.len() ==> is_digit(#[trigger] s[k])
}

/// The value of a digit string.
pub open spec fn digits_val(s: Seq<char>) -> int
    decreases s.len(),
{
    if s.len() == 0 {
        0
    } else {
        digits_val(s.drop_last()) * 10 + (s.last() as u32 - 0x30)
    }
}

pub proof fn lemma_digits_val_nonneg(s: Seq<char>)
    requires
        forall|k: int| 0 <= k < s.len() ==> is_digit(#[trigger] s[k]),
    ensures
        digits_val(s) >= 0,
    decreases s.len(),
{
    if s.len() > 0 {
        assert(forall|k: int|
            0 <= k < s.drop_last().len() ==> is_digit(#[trigger] s.drop_last()[k]));
        lemma_digits_val_nonneg(s.drop_last());
        assert(s[s.len() - 1] == s.last());
        assert(digits_val(s.drop_last()) * 10 >= 0) by (nonlinear_arith)
            requires
                digits_val(s.drop_last()) >= 0,
        ;
    }
}

/// `x` capped at `DIGITS_CAP`.
pub open spec fn capped(x: int) -> int {
    if x < DIGITS_CAP {
        x
    } else {
        DIGITS_CAP as int
    }
}

/// Parse the digit string `v[from..]`, capping the value at `DIGITS_CAP`;
/// `None` exactly when that range is empty or holds a non-digit.
pub fn parse_digits_capped(v: &Vec<char>, from: usize) -> (r: Option<u64>)
    requires
        from <= v@.len(),
    ensures
        match r {
            Some(n) => digits_ok(v@.skip(from as int)) && n == capped(
                digits_val(v@.skip(from as int)),
            ),
            None => !digits_ok(v@.skip(from as int)),
        },
{
    let ghost s = v@.skip(from as int);
    let n = v.len();
    if from == n {
        proof {
            assert(s.len() == 0);
        }
        return None;
    }
    let mut acc: u64 = 0;
    let mut i: usize = from;
    proof {
        assert(s.take(0) =~= Seq::<char>::empty());
    }
    while i < n
        invariant
            from <= i <= n,
            n == v@.len(),
            s == v@.skip(from as int),
            forall|k: int| 0 <= k < i - from ==> is_digit(#[trigger] s[k]),
            acc as int == capped(digits_val(s.take(i - from))),
            digits_val(s.take(i - from)) >= acc as int,
        decreases n - i,
    {
        let c = v[i];
        let u = c as u32;
        if !(0x30 <= u && u <= 0x39) {
            proof {
                assert(s[i - from] == v@[i as int]);
                assert(!is_digit(s[i - from]));
            }
            return None;
        }
        let d: u64 = (u - 0x30) as u64;
        let ghost pre = s.take(i - from);
        let ghost cur = s.take(i - from + 1);
        proof {
            assert(cur.drop_last() =~= pre);
            assert(cur.last() == s[i - from] == v@[i as int]);
            lemma_digits_val_nonneg(pre);
            assert(digits_val(pre) * 10 + d >= digits_val(pre)) by (nonlinear_arith)
                requires
                    digits_val(pre) >= 0,
                    d >= 0,
            ;
            assert(acc as int * 10 + d <= digits_val(pre) * 10 + d) by (nonlinear_arith)
                requires
                    acc as int <= digits_val(pre),
                    d >= 0,
            ;
        }
        let na: u64 = acc * 10 + d;
        acc = if na > DIGITS_CAP {
            DIGITS_CAP
        } else {
            na
        };
        i = i + 1;
    }
    proof {
        assert(s.take(n - from) =~= s);
    }
    Some(acc)
}

/// How many leading sign characters a signed decimal string has (0 or 1).
pub open spec fn sign_len(s: Seq<char>) -> int {
    if s.len() > 0 && (s[0] == '+' || s[0] == '-') {
        1
    } else {
        0
    }
}

/// Whether `s` parses as an `i32`: an optional sign, then only digits,
/// with the signed value in range.
pub open spec fn i32_parsable(s: Seq<char>) -> bool {
    &&& digits_ok(s.skip(sign_len(s)))
    &&& i32::MIN <= i32_value(s) <= i32::MAX
}

/// The signed value of a decimal string (meaningful when the digits are
/// well-formed).
pub open spec fn i32_value(s: Seq<char>) -> int {
    let mag = digits_val(s.skip(sign_len(s)));
    if s.len() > 0 && s[0] == '-' {
        -mag
    } else {
        mag
    }
}

/// Parse `v[from..]` as an `i32`, as a decimal parse of the suffix would:
/// `None` exactly when the suffix is malformed or out of range.
pub fn parse_i32_from(v: &Vec<char>, from: usize) -> (r: Option<i32>)
    requires
        from <= v@.len(),
    ensures
        match r {
            Some(x) => i32_parsable(v@.skip(from as int)) && x == i32_value(
                v@.skip(from as int),
            ),
            None => !i32_parsable(v@.skip(from as int)),
        },
{
    let ghost s = v@.skip(from as int);
    let n = v.len();
    if from == n {
        proof {
            assert(s.len() == 0);
            assert(s.skip(sign_len(s)).len() == 0);
        }
        return None;
    }
    let c0 = v[from];
    let negative = c0 == '-';
    let dfrom: usize = if c0 == '+' || c0 == '-' {
        from + 1
    } else {
        from
    };
    proof {
        assert(s[0] == v@[from as int]);
        assert(v@.skip(dfrom as int) =~= s.skip(sign_len(s)));
    }
    let mag = match parse_digits_capped(v, dfrom) {
        Some(m) => m,
        None => {
            return None;
        },
    };
    proof {
        if mag < DIGITS_CAP {
            assert(mag as int == digits_val(s.skip(sign_len(s))));
        } else {
            assert(digits_val(s.skip(sign_len(s))) >= DIGITS_CAP) by {
                assert(capped(digits_val(s.skip(sign_len(s)))) == DIGITS_CAP);
            }
        }
    }
    if negative {
        if mag <= 0x8000_0000u64 {
            Some((-(mag as i64)) as i32)
        } else {
            None
        }
    } else {
        if mag <= 0x7FFF_FFFFu64 {
            Some(mag as i32)
        } else {
            None
        }
    }
}

/// The index of the first `'+'` at or after `i` (the length when none).
pub open spec fn first_plus_from(s: Seq<char>, i: int) -> int
    decreases s.len() - i,
{
    if i < 0 || i >= s.len() {
        s.len() as int
    } else if s[i] == '+' {
        i
    } else {
        first_plus_from(s, i + 1)
    }
}

pub proof fn lemma_first_plus_prefix(s: Seq<char>, i: int)
    requires
        0 <= i <= s.len(),
        forall|k: int| 0 <= k < i ==> s[k] != '+',
    ensures
        first_plus_from(s, 0) == first_plus_from(s, i),
    decreases i,
{
    if i > 0 {
        lemma_first_plus_prefix(s, i - 1);
    }
}

/// The level a recognized level text denotes: the whole text parsed as a
/// decimal number when it has no `'+'`, otherwise the suffix from the
/// first `'+'` on; `None` when that fails.
pub open spec fn spec_parse_level(s: Seq<char>) -> Option<int> {
    let p = first_plus_from(s, 0);
    let body = s.skip(p);
    let whole = if p == s.len() {
        s
    } else {
        body
    };
    if i32_parsable(whole) {
        Some(i32_value(whole))
    } else {
        None
    }
}

/// Parse the level out of a recognized level text (such as a level shown
/// behind a `'+'`).  Failure is a per-item parse error.
pub fn parse_level(s: &str) -> (r: Result<i32, ScanError>)
    ensures
        match r {
            Ok(x) => spec_parse_level(s@) == Some(x as int),
            Err(e) => {
                &&& spec_parse_level(s@) is None
                &&& e == ScanError::Parse(ScanField::Level)
            },
        },
{
    let v = chars_of(s);
    let n = v.len();
    let mut p: usize = 0;
    let mut found = false;
    while !found && p < n
        invariant
            n == v@.len(),
            p <= n,
            forall|k: int| 0 <= k < p ==> v@[k] != '+',
            found ==> p < n && v@[p as int] == '+',
        decreases n - p + (if found {
            0int
        } else {
            1int
        }),
    {
        if v[p] == '+' {
            found = true;
        } else {
            p = p + 1;
        }
    }
    proof {
        lemma_first_plus_prefix(v@, p as int);
        assert(first_plus_from(v@, 0) == p);
        if p == n {
            assert(v@.skip(0) =~= v@);
        }
    }
    let from: usize = if found {
        p
    } else {
        0
    };
    proof {
        if !found {
            assert(v@.skip(0) =~= v@);
        }
    }
    match parse_i32_from(&v, from) {
        Some(x) => Ok(x),
        None => Err(ScanError::Parse(ScanField::Level)),
    }
}

} // verus!

verus! {

/// The characters `v[from..to]`, copied out.
pub fn sub_chars(v: &Vec<char>, from: usize, to: usize) -> (r: Vec<char>)
    requires
        from <= to <= v@.len(),
    ensures
        r@ == v@.subrange(from as int, to as int),
{
    let mut r: Vec<char> = Vec::new();
    let mut i: usize = from;
    while i < to
        invariant
            from <= i <= to <= v@.len(),
            r@ =~= v@.subrange(from as int, i as int),
        decreases to - i,
    {
        r.push(v[i]);
        proof {
            assert(r@ =~= v@.subrange(from as int, i + 1));
        }
        i = i + 1;
    }
    proof {
        assert(r@ =~= v@.subrange(from as int, to as int));
    }
    r
}

} // verus!
