//! The structured form of a recognized stat line, and the artifact record
//! assembled from scanned results for export.
//!
//! A stat line has the shape `name+number`, where the number may carry
//! comma group separators, up to three fraction digits, a percent mark,
//! and a trailing pending marker for a not-yet-active sub-stat.  Values
//! are kept in thousandths, exactly.

use vstd::prelude::*;

use crate::parse::{
    chars_of, digits_val, first_plus_from, is_digit, is_space, lemma_digits_val_nonneg,
    lemma_first_plus_prefix, lemma_trim_end_suffix, spec_trim, sub_chars, trim_end_from,
    trimmed_chars,
};

verus! {

/// Parsed stat values stay strictly below this many thousandths.
pub const STAT_VALUE_CAP: i64 = 1_000_000_000_000;

/// Which slot an artifact occupies.
#[derive(Clone, Copy, PartialEq, Eq, Structural, Debug)]
pub enum ArtifactSlot {
    Flower,
    Feather,
    Sand,
    Goblet,
    Head,
}

/// One parsed stat: its name characters, its value in thousandths, whether
/// it was written as a percentage, and whether it is still pending.
pub struct ArtifactStat {
    /// The stat name, the characters before the `+`.
    pub name: Vec<char>,
    /// The numeric value, in thousandths.
    pub value_milli: i64,
    /// Whether the value carried a percent mark.
    pub percent: bool,
    /// Whether the line carried the pending marker.
    pub pending: bool,
}

/// One artifact assembled from a scanned record.
pub struct GenshinArtifact {
    /// Set name.
    pub set_name: String,
    /// Slot.
    pub slot: ArtifactSlot,
    /// Main stat.
    pub main_stat: ArtifactStat,
    /// Sub-stats, present when recognized.
    pub sub_stat_1: Option<ArtifactStat>,
    /// Second sub-stat.
    pub sub_stat_2: Option<ArtifactStat>,
    /// Third sub-stat.
    pub sub_stat_3: Option<ArtifactStat>,
    /// Fourth sub-stat.
    pub sub_stat_4: Option<ArtifactStat>,
    /// Level.
    pub level: i32,
    /// Rarity tier.
    pub star: i32,
    /// Who has it equipped, when anyone does.
    pub equip: Option<String>,
}

/// The pending marker: a parenthesized "awaiting activation" tag.
pub open spec fn pending_marker() -> Seq<char> {
    seq!['(', '\u{5f85}', '\u{6fc0}', '\u{6d3b}', ')']
}

/// The digits of a sequence, in order, group separators and all else
/// dropped.
pub open spec fn digits_only(s: Seq<char>) -> Seq<char>
    decreases s.len(),
{
    if s.len() == 0 {
        Seq::empty()
    } else {
        let r = digits_only(s.drop_last());
        if is_digit(s.last()) {
            r.push(s.last())
        } else {
            r
        }
    }
}

/// A well-formed integer part: at least one digit, nothing but digits and
/// comma separators.
pub open spec fn int_part_ok(s: Seq<char>) -> bool {
    &&& digits_only(s).len() > 0
    &&& forall|k: int| 0 <= k < s.len() ==> is_digit(#[trigger] s[k]) || s[k] == ','
}

/// The index of the first `'.'` at or after `i` (the length when none).
pub open spec fn first_dot_from(s: Seq<char>, i: int) -> int
    decreases s.len() - i,
{
    if i < 0 || i >= s.len() {
        s.len() as int
    } else if s[i] == '.' {
        i
    } else {
        first_dot_from(s, i + 1)
    }
}

/// The value in thousandths of a number `int_part [ '.' frac ]`, where the
/// fraction has 1 to 3 digits.
pub open spec fn number_value_milli(int_part: Seq<char>, frac: Seq<char>) -> int {
    let scale: int = if frac.len() == 1 {
        100
    } else if frac.len() == 2 {
        10
    } else {
        1
    };
    digits_val(digits_only(int_part)) * 1000 + digits_val(frac) * scale
}

/// Whether a number region (after the percent mark and pending marker are
/// stripped) is well formed.
pub open spec fn number_ok(num: Seq<char>) -> bool {
    let d = first_dot_from(num, 0);
    if d == num.len() {
        int_part_ok(num)
    } else {
        let int_part = num.take(d);
        let frac = num.skip(d + 1);
        &&& int_part_ok(int_part)
        &&& 1 <= frac.len() <= 3
        &&& forall|k: int| 0 <= k < frac.len() ==> is_digit(#[trigger] frac[k])
    }
}

/// The value in thousandths of a well-formed number region.
pub open spec fn number_milli(num: Seq<char>) -> int {
    let d = first_dot_from(num, 0);
    if d == num.len() {
        number_value_milli(num, Seq::empty())
    } else {
        number_value_milli(num.take(d), num.skip(d + 1))
    }
}

/// The parse of one trimmed stat line, step by step: the name before the
/// first `+`, an optional pending marker (with trailing spaces before it
/// dropped), an optional percent mark, then the number.
pub open spec fn spec_stat_line(t: Seq<char>) -> Option<(Seq<char>, int, bool, bool)> {
    let p = first_plus_from(t, 0);
    if p < 1 || p >= t.len() {
        None
    } else {
        let u = t.skip(p + 1);
        let pending = u.len() >= 5 && u.skip(u.len() - 5) == pending_marker();
        let w = if pending {
            u.take(u.len() - 5)
        } else {
            u
        };
        let core = if pending {
            w.take(trim_end_from(w, 0, w.len() as int))
        } else {
            w
        };
        let percent = core.len() > 0 && core.last() == '%';
        let num = if percent {
            core.drop_last()
        } else {
            core
        };
        if number_ok(num) && number_milli(num) < STAT_VALUE_CAP {
            Some((t.take(p), number_milli(num), percent, pending))
        } else {
            None
        }
    }
}

/// The parse of a raw recognized stat line: its trimmed form, structured.
pub open spec fn spec_from_raw(s: Seq<char>) -> Option<(Seq<char>, int, bool, bool)> {
    spec_stat_line(spec_trim(s))
}

} // verus!

verus! {

proof fn lemma_digits_only_digits(s: Seq<char>)
    ensures
        forall|k: int| 0 <= k < digits_only(s).len() ==> is_digit(#[trigger] digits_only(s)[k]),
    decreases s.len(),
{
    if s.len() > 0 {
        lemma_digits_only_digits(s.drop_last());
        let r = digits_only(s.drop_last());
        if is_digit(s.last()) {
            assert forall|k: int| 0 <= k < digits_only(s).len() implies is_digit(
                #[trigger] digits_only(s)[k],
            ) by {
                if k < r.len() {
                    assert(digits_only(s)[k] == r[k]);
                } else {
                    assert(digits_only(s)[k] == s.last());
                }
            }
        }
    }
}

proof fn lemma_first_dot_prefix(s: Seq<char>, i: int)
    requires
        0 <= i <= s.len(),
        forall|k: int| 0 <= k < i ==> s[k] != '.',
    ensures
        first_dot_from(s, 0) == first_dot_from(s, i),
    decreases i,
{
    if i > 0 {
        lemma_first_dot_prefix(s, i - 1);
    }
}

/// Parse the digits of `v` into thousandths-capable magnitude, skipping
/// comma separators; `None` when a character is neither, or no digit
/// occurs.  The value is capped at `STAT_VALUE_CAP`, and the true value is
/// at least the returned one.
fn parse_int_part(v: &Vec<char>) -> (r: Option<i64>)
    ensures
        match r {
            Some(n) => {
                &&& int_part_ok(v@)
                &&& 0 <= n <= STAT_VALUE_CAP
                &&& digits_val(digits_only(v@)) >= n
                &&& n < STAT_VALUE_CAP ==> n == digits_val(digits_only(v@))
                &&& n == STAT_VALUE_CAP ==> digits_val(digits_only(v@)) >= STAT_VALUE_CAP
            },
            None => !int_part_ok(v@),
        },
{
    let n = v.len();
    let mut acc: i64 = 0;
    let mut has_digit = false;
    let mut i: usize = 0;
    proof {
        assert(v@.take(0) =~= Seq::<char>::empty());
    }
    while i < n
        invariant
            n == v@.len(),
            i <= n,
            forall|k: int| 0 <= k < i ==> is_digit(#[trigger] v@[k]) || v@[k] == ',',
            has_digit == (digits_only(v@.take(i as int)).len() > 0),
            0 <= acc <= STAT_VALUE_CAP,
            digits_val(digits_only(v@.take(i as int))) >= acc,
            acc < STAT_VALUE_CAP ==> acc == digits_val(digits_only(v@.take(i as int))),
        decreases n - i,
    {
        let c = v[i];
        let u = c as u32;
        let ghost pre = v@.take(i as int);
        let ghost cur = v@.take(i as int + 1);
        proof {
            assert(cur.drop_last() =~= pre);
            assert(cur.last() == v@[i as int]);
            lemma_digits_only_digits(pre);
            lemma_digits_val_nonneg(digits_only(pre));
        }
        if 0x30 <= u && u <= 0x39 {
            let d = (u - 0x30) as i64;
            proof {
                assert(digits_only(cur) == digits_only(pre).push(v@[i as int]));
                assert(digits_only(cur).drop_last() =~= digits_only(pre));
                assert(digits_val(digits_only(cur)) == digits_val(digits_only(pre)) * 10 + (
                v@[i as int] as u32 - 0x30));
                assert(acc * 10 + d <= digits_val(digits_only(pre)) * 10 + d)
                    by (nonlinear_arith)
                    requires
                        acc <= digits_val(digits_only(pre)),
                        d >= 0,
                ;
                assert(digits_val(digits_only(pre)) * 10 >= digits_val(digits_only(pre)))
                    by (nonlinear_arith)
                    requires
                        digits_val(digits_only(pre)) >= 0,
                ;
            }
            let na: i64 = acc * 10 + d;
            acc = if na > STAT_VALUE_CAP {
                STAT_VALUE_CAP
            } else {
                na
            };
            has_digit = true;
        } else if c == ',' {
            proof {
                assert(digits_only(cur) == digits_only(pre));
            }
        } else {
            proof {
                assert(!(is_digit(v@[i as int]) || v@[i as int] == ','));
            }
            return None;
        }
        i = i + 1;
    }
    proof {
        assert(v@.take(n as int) =~= v@);
    }
    if has_digit {
        Some(acc)
    } else {
        None
    }
}

/// Parse a 1-to-3-digit fraction; `None` when empty, longer, or
/// non-digit.
fn parse_frac(v: &Vec<char>) -> (r: Option<i64>)
    ensures
        match r {
            Some(n) => {
                &&& 1 <= v@.len() <= 3
                &&& forall|k: int| 0 <= k < v@.len() ==> is_digit(#[trigger] v@[k])
                &&& n == digits_val(v@)
                &&& 0 <= n <= 999
            },
            None => !(1 <= v@.len() <= 3 && forall|k: int|
                0 <= k < v@.len() ==> is_digit(#[trigger] v@[k])),
        },
{
    let n = v.len();
    if n < 1 || n > 3 {
        return None;
    }
    let mut acc: i64 = 0;
    let mut i: usize = 0;
    proof {
        assert(v@.take(0) =~= Seq::<char>::empty());
    }
    while i < n
        invariant
            n == v@.len(),
            n <= 3,
            i <= n,
            forall|k: int| 0 <= k < i ==> is_digit(#[trigger] v@[k]),
            acc == digits_val(v@.take(i as int)),
            i == 0 ==> acc == 0,
            i == 1 ==> acc <= 9,
            i == 2 ==> acc <= 99,
            0 <= acc <= 999,
        decreases n - i,
    {
        let c = v[i];
        let u = c as u32;
        if !(0x30 <= u && u <= 0x39) {
            return None;
        }
        let ghost pre = v@.take(i as int);
        let ghost cur = v@.take(i as int + 1);
        proof {
            assert(cur.drop_last() =~= pre);
            assert(cur.last() == v@[i as int]);
        }
        acc = acc * 10 + ((u - 0x30) as i64);
        i = i + 1;
    }
    proof {
        assert(v@.take(n as int) =~= v@);
    }
    Some(acc)
}

impl ArtifactStat {
    /// Parse one recognized stat line into its structured form; `None`
    /// exactly when the trimmed line does not have the shape
    /// `name+number[%][pending marker]`.
    #[verifier::rlimit(60)]
    pub fn from_zh_cn_raw(s: &str) -> (r: Option<ArtifactStat>)
        ensures
            match r {
                Some(st) => spec_from_raw(s@) == Some(
                    (st.name@, st.value_milli as int, st.percent, st.pending),
                ),
                None => spec_from_raw(s@) is None,
            },
    {
        let t = trimmed_chars(&chars_of(s));
        let ghost tv = t@;
        let n = t.len();
        // The first `+` splits the name from the number.
        let mut p: usize = 0;
        let mut found = false;
        while !found && p < n
            invariant
                n == t@.len(),
                p <= n,
                forall|k: int| 0 <= k < p ==> t@[k] != '+',
                found ==> p < n && t@[p as int] == '+',
            decreases n - p + (if found {
                0int
            } else {
                1int
            }),
        {
            if t[p] == '+' {
                found = true;
            } else {
                p = p + 1;
            }
        }
        proof {
            lemma_first_plus_prefix(tv, p as int);
        }
        if !found || p == 0 {
            return None;
        }
        let u = sub_chars(&t, p + 1, n);
        proof {
            assert(u@ =~= tv.skip(p + 1));
        }
        let ul = u.len();
        let pending = ul >= 5 && {
            let m0 = u[ul - 5] == '(';
            let m1 = u[ul - 4] == '\u{5f85}';
            let m2 = u[ul - 3] == '\u{6fc0}';
            let m3 = u[ul - 2] == '\u{6d3b}';
            let m4 = u[ul - 1] == ')';
            m0 && m1 && m2 && m3 && m4
        };
        proof {
            if ul >= 5 {
                if pending {
                    assert(u@.skip(ul - 5) =~= pending_marker());
                } else {
                    if u@.skip(ul - 5) == pending_marker() {
                        assert(u@[ul - 5] == pending_marker()[0]);
                        assert(u@[ul - 4] == pending_marker()[1]);
                        assert(u@[ul - 3] == pending_marker()[2]);
                        assert(u@[ul - 2] == pending_marker()[3]);
                        assert(u@[ul - 1] == pending_marker()[4]);
                    }
                    assert(u@.skip(ul - 5) != pending_marker());
                }
            }
        }
        let w = if pending {
            sub_chars(&u, 0, ul - 5)
        } else {
            u
        };
        proof {
            if pending {
                assert(w@ =~= tv.skip(p + 1).take(tv.skip(p + 1).len() - 5));
            }
        }
        let core = if pending {
            // Spaces before the marker do not belong to the number.
            let wl = w.len();
            let mut hi: usize = wl;
            let mut hi_done = false;
            while !hi_done && hi > 0
                invariant
                    wl == w@.len(),
                    hi <= wl,
                    forall|k: int| hi <= k < wl ==> is_space(w@[k]),
                    hi_done ==> hi > 0 && !is_space(w@[hi - 1]),
                decreases hi + (if hi_done {
                    0int
                } else {
                    1int
                }),
            {
                if crate::parse::is_space_char(w[hi - 1]) {
                    hi = hi - 1;
                } else {
                    hi_done = true;
                }
            }
            proof {
                lemma_trim_end_suffix(w@, 0, w@.len() as int, hi as int);
                assert(trim_end_from(w@, 0, w@.len() as int) == hi);
            }
            sub_chars(&w, 0, hi)
        } else {
            w
        };
        proof {
            if pending {
                let wv = tv.skip(p + 1).take(tv.skip(p + 1).len() - 5);
                assert(core@ =~= wv.take(trim_end_from(wv, 0, wv.len() as int)));
            }
        }
        let cl = core.len();
        let percent = cl > 0 && core[cl - 1] == '%';
        let num = if percent {
            sub_chars(&core, 0, cl - 1)
        } else {
            core
        };
        proof {
            if percent {
                assert(num@ =~= core@.drop_last());
            }
        }
        // Split at the first dot.
        let nl = num.len();
        let mut d: usize = 0;
        let mut dot_found = false;
        while !dot_found && d < nl
            invariant
                nl == num@.len(),
                d <= nl,
                forall|k: int| 0 <= k < d ==> num@[k] != '.',
                dot_found ==> d < nl && num@[d as int] == '.',
            decreases nl - d + (if dot_found {
                0int
            } else {
                1int
            }),
        {
            if num[d] == '.' {
                dot_found = true;
            } else {
                d = d + 1;
            }
        }
        proof {
            lemma_first_dot_prefix(num@, d as int);
            assert(first_dot_from(num@, 0) == d);
        }
        let int_part = if dot_found {
            sub_chars(&num, 0, d)
        } else {
            sub_chars(&num, 0, nl)
        };
        proof {
            assert(int_part@ =~= if d < nl {
                num@.take(d as int)
            } else {
                num@
            });
            if !dot_found {
                assert(int_part@ =~= num@.take(d as int));
            }
        }
        let int_val = match parse_int_part(&int_part) {
            Some(x) => x,
            None => {
                return None;
            },
        };
        let (frac_val, scale): (i64, i64) = if dot_found {
            let frac = sub_chars(&num, d + 1, nl);
            proof {
                assert(frac@ =~= num@.skip(d + 1));
            }
            match parse_frac(&frac) {
                Some(x) => {
                    let sc: i64 = if frac.len() == 1 {
                        100
                    } else if frac.len() == 2 {
                        10
                    } else {
                        1
                    };
                    (x, sc)
                },
                None => {
                    return None;
                },
            }
        } else {
            (0, 1)
        };
        if int_val >= STAT_VALUE_CAP / 1000 {
            proof {
                lemma_digits_only_digits(int_part@);
                lemma_digits_val_nonneg(digits_only(int_part@));
                assert(digits_val(digits_only(int_part@)) * 1000 >= (STAT_VALUE_CAP / 1000)
                    * 1000) by (nonlinear_arith)
                    requires
                        digits_val(digits_only(int_part@)) >= STAT_VALUE_CAP / 1000,
                ;
                if dot_found {
                    lemma_digits_val_nonneg(num@.skip(d + 1));
                    assert(digits_val(num@.skip(d + 1)) * (if num@.skip(d + 1).len() == 1 {
                        100int
                    } else if num@.skip(d + 1).len() == 2 {
                        10int
                    } else {
                        1int
                    }) >= 0) by (nonlinear_arith)
                        requires
                            digits_val(num@.skip(d + 1)) >= 0,
                    ;
                }
            }
            return None;
        }
        let milli: i64 = int_val * 1000 + frac_val * scale;
        if milli >= STAT_VALUE_CAP {
            return None;
        }
        let name = sub_chars(&t, 0, p);
        proof {
            assert(name@ =~= tv.take(p as int));
        }
        Some(ArtifactStat { name, value_milli: milli, percent, pending })
    }
}

} // verus!
