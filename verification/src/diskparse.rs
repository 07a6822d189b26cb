//! Parsing of the disk utility's textual report: finds the first line that
//! carries a given label and reads the byte count that follows the opening
//! parenthesis on that line.
use vstd::prelude::*;
use vstd::string::StrSliceExecFns;

use crate::timefmt::{spec_find_char, spec_find_char_from};

verus! {

/// Whether the characters of `label` occur in `s` starting at `i`.
pub open spec fn has_label_at(s: Seq<char>, label: Seq<char>, i: int) -> bool {
    0 <= i && i + label.len() <= s.len() && s.subrange(i, i + label.len()) == label
}

/// Whether `label` occurs anywhere in `s`.
pub open spec fn spec_contains(s: Seq<char>, label: Seq<char>) -> bool {
    exists|i: int| has_label_at(s, label, i)
}

/// Whether the label's characters all match at offset `i`.
fn match_at(line: &str, label: &str, i: usize, m: usize) -> (b: bool)
    requires
        m == label@.len(),
        i + m <= line@.len(),
        line@.len() <= usize::MAX,
    ensures
        b == has_label_at(line@, label@, i as int),
{
    let mut j: usize = 0;
    while j < m
        invariant
            m == label@.len(),
            i + m <= line@.len(),
            line@.len() <= usize::MAX,
            j <= m,
            forall|jj: int| 0 <= jj < j ==> line@[i + jj] == label@[jj],
        decreases m - j,
    {
        if line.get_char(i + j) != label.get_char(j) {
            proof {
                assert(line@.subrange(i as int, i + label@.len())[j as int] == line@[i + j]);
            }
            return false;
        }
        j = j + 1;
    }
    proof {
        assert(line@.subrange(i as int, i + label@.len()) =~= label@);
    }
    true
}

/// Naive substring search: whether `label` occurs in `line`.
pub fn contains_label(line: &str, label: &str) -> (b: bool)
    ensures
        b == spec_contains(line@, label@),
{
    let n: usize = line.unicode_len();
    let m: usize = label.unicode_len();
    if m == 0 {
        proof {
            assert(line@.subrange(0, 0) =~= label@);
            assert(has_label_at(line@, label@, 0));
        }
        return true;
    }
    if m > n {
        proof {
            assert forall|i: int| !has_label_at(line@, label@, i) by {}
        }
        return false;
    }
    let mut i: usize = 0;
    while i <= n - m
        invariant
            n == line@.len(),
            m == label@.len(),
            0 < m <= n,
            i <= n - m + 1,
            forall|ii: int| 0 <= ii < i ==> !has_label_at(line@, label@, ii),
        decreases n - m + 1 - i,
    {
        if match_at(line, label, i, m) {
            proof {
                assert(has_label_at(line@, label@, i as int));
            }
            return true;
        }
        i = i + 1;
    }
    proof {
        assert forall|ii: int| !has_label_at(line@, label@, ii) by {
            if 0 <= ii && ii + label@.len() <= line@.len() {
                assert(ii < i);
            }
        }
    }
    false
}

/// Whether a character is a decimal digit.
pub open spec fn spec_is_digit(c: char) -> bool {
    '0' <= c <= '9'
}

/// The length of the run of digits in `s` starting at `i`.
pub open spec fn digit_run_len(s: Seq<char>, i: int) -> int
    decreases s.len() - i,
{
    if 0 <= i < s.len() && spec_is_digit(s[i]) {
        1 + digit_run_len(s, i + 1)
    } else {
        0
    }
}

/// The decimal value of the digits of `s` from `i` up to `j`.
pub open spec fn digits_value(s: Seq<char>, i: int, j: int) -> int
    decreases j - i,
{
    if j <= i {
        0
    } else {
        digits_value(s, i, j - 1) * 10 + (s[j - 1] as u32 - '0' as u32)
    }
}

proof fn lemma_digits_value_nonneg(s: Seq<char>, i: int, j: int)
    requires
        forall|k: int| i <= k < j ==> spec_is_digit(#[trigger] s[k]),
    ensures
        digits_value(s, i, j) >= 0,
    decreases j - i,
{
    if i < j {
        lemma_digits_value_nonneg(s, i, j - 1);
        let prev = digits_value(s, i, j - 1);
        assert(prev * 10 >= 0) by (nonlinear_arith)
            requires
                prev >= 0,
        ;
    }
}

proof fn lemma_digits_value_grows(s: Seq<char>, i: int, j1: int, j2: int)
    requires
        i <= j1 <= j2,
        forall|k: int| i <= k < j2 ==> spec_is_digit(#[trigger] s[k]),
    ensures
        digits_value(s, i, j1) <= digits_value(s, i, j2),
    decreases j2 - j1,
{
    if j1 < j2 {
        lemma_digits_value_grows(s, i, j1, j2 - 1);
        let prev = digits_value(s, i, j2 - 1);
        lemma_digits_value_nonneg(s, i, j2 - 1);
        assert(prev * 10 >= prev) by (nonlinear_arith)
            requires
                prev >= 0,
        ;
    }
}

/// When every character from `i` up to `j` is a digit and the run stops at
/// `j`, the digit run starting at `i` ends exactly at `j`.
proof fn lemma_run_len_split(s: Seq<char>, i: int, j: int)
    requires
        0 <= i <= j <= s.len(),
        forall|k: int| i <= k < j ==> spec_is_digit(#[trigger] s[k]),
    ensures
        digit_run_len(s, i) == (j - i) + digit_run_len(s, j),
    decreases j - i,
{
    if i < j {
        lemma_run_len_split(s, i + 1, j);
    }
}

/// What a scan for a parenthesized number on one line yields: no number at
/// all, a number too large for 64 bits, or its value.
pub enum ParenNumber {
    Missing,
    Overflow,
    Value(u64),
}

fn digit_at(line: &str, idx: usize) -> (b: bool)
    requires
        idx < line@.len(),
    ensures
        b == spec_is_digit(line@[idx as int]),
{
    let c = line.get_char(idx);
    '0' <= c && c <= '9'
}

/// Reads the run of digits after the first opening parenthesis of `line`:
/// `Missing` without a parenthesis or without digits, `Overflow` when the
/// number does not fit in 64 bits, its value otherwise.
pub fn paren_number(line: &str) -> (r: ParenNumber)
    ensures
        ({
            let p = spec_find_char(line@, '(');
            let n = digit_run_len(line@, p + 1);
            let v = digits_value(line@, p + 1, p + 1 + n);
            &&& (p == -1 ==> r is Missing)
            &&& (p >= 0 && n == 0 ==> r is Missing)
            &&& (p >= 0 && n > 0 && v <= u64::MAX ==> r == ParenNumber::Value(v as u64))
            &&& (p >= 0 && n > 0 && v > u64::MAX ==> r is Overflow)
        }),
{
    let nlen: usize = line.unicode_len();
    let mut k: usize = 0;
    while k < nlen
        invariant
            nlen == line@.len(),
            k <= nlen,
            spec_find_char(line@, '(') == spec_find_char_from(line@, '(', k as int),
        decreases nlen - k,
    {
        if line.get_char(k) == '(' {
            let ghost p = k as int;
            proof {
                assert(spec_find_char(line@, '(') == p);
            }
            let start: usize = k + 1;
            let mut idx: usize = start;
            let mut acc: u64 = 0;
            while idx < nlen && digit_at(line, idx)
                invariant
                    nlen == line@.len(),
                    start <= idx <= nlen,
                    start == p + 1,
                    0 <= p < nlen,
                    spec_find_char(line@, '(') == p,
                    forall|kk: int| p + 1 <= kk < idx ==> spec_is_digit(#[trigger] line@[kk]),
                    acc == digits_value(line@, p + 1, idx as int),
                decreases nlen - idx,
            {
                let c = line.get_char(idx);
                let d: u64 = (c as u32 - '0' as u32) as u64;
                if acc > (u64::MAX - d) / 10 {
                    proof {
                        assert(digits_value(line@, p + 1, idx as int + 1) == acc * 10 + d);
                        assert(acc * 10 + d > 0xFFFF_FFFF_FFFF_FFFFu64) by (nonlinear_arith)
                            requires
                                acc > (0xFFFF_FFFF_FFFF_FFFFu64 - d) / 10,
                                d <= 9,
                        ;
                        let n = digit_run_len(line@, p + 1);
                        lemma_run_len_split_upper(line@, p + 1, idx as int + 1);
                        lemma_run_len_all_digits(line@, p + 1);
                        assert(p + 1 + n <= line@.len());
                        assert forall|kk: int| p + 1 <= kk < p + 1 + n implies spec_is_digit(
                            #[trigger] line@[kk],
                        ) by {}
                        lemma_digits_value_grows(line@, p + 1, idx as int + 1, p + 1 + n);
                    }
                    return ParenNumber::Overflow;
                }
                acc = acc * 10 + d;
                idx = idx + 1;
            }
            proof {
                assert(digit_run_len(line@, idx as int) == 0);
                lemma_run_len_split(line@, p + 1, idx as int);
            }
            if idx == start {
                return ParenNumber::Missing;
            }
            return ParenNumber::Value(acc);
        }
        k = k + 1;
    }
    ParenNumber::Missing
}

/// A digit run starting inside a stretch of digits runs at least to its end.
proof fn lemma_run_len_split_upper(s: Seq<char>, i: int, j: int)
    requires
        0 <= i <= j <= s.len(),
        forall|k: int| i <= k < j ==> spec_is_digit(#[trigger] s[k]),
    ensures
        i + digit_run_len(s, i) >= j,
        forall|k: int|
            i <= k < i + digit_run_len(s, i) && k < s.len() ==> spec_is_digit(#[trigger] s[k]),
    decreases j - i + s.len(),
{
    if i < j {
        lemma_run_len_split(s, i, j);
        lemma_run_len_all_digits(s, i);
        lemma_run_len_all_digits(s, j);
    } else {
        lemma_run_len_all_digits(s, i);
    }
}

/// Every character inside a digit run is a digit, and the run stays within
/// the sequence.
proof fn lemma_run_len_all_digits(s: Seq<char>, i: int)
    ensures
        digit_run_len(s, i) >= 0,
        0 <= i <= s.len() ==> i + digit_run_len(s, i) <= s.len(),
        forall|k: int|
            i <= k < i + digit_run_len(s, i) && k < s.len() ==> spec_is_digit(#[trigger] s[k]),
    decreases s.len() - i,
{
    if 0 <= i && i < s.len() && spec_is_digit(s[i]) {
        lemma_run_len_all_digits(s, i + 1);
    }
}


/// The byte count reported on the first line that carries `label`: the
/// parenthesized number of that line, `None` when it is missing there or
/// does not fit in 64 bits; later lines are tried only while no labeled
/// line has offered a number.
pub open spec fn spec_extract_bytes(s: Seq<char>, label: Seq<char>) -> Option<u64>
    decreases s.len(),
{
    if s.len() == 0 {
        None
    } else {
        let e0 = spec_find_char(s, '\n');
        let e = if 0 <= e0 < s.len() {
            e0
        } else {
            -1
        };
        let line = if e == -1 {
            s
        } else {
            s.subrange(0, e)
        };
        let rest = if e == -1 {
            Seq::<char>::empty()
        } else {
            s.subrange(e + 1, s.len() as int)
        };
        if spec_contains(line, label) {
            let p = spec_find_char(line, '(');
            let n = digit_run_len(line, p + 1);
            if p >= 0 && n > 0 {
                let v = digits_value(line, p + 1, p + 1 + n);
                if v <= u64::MAX {
                    Some(v as u64)
                } else {
                    None
                }
            } else {
                spec_extract_bytes(rest, label)
            }
        } else {
            spec_extract_bytes(rest, label)
        }
    }
}

fn newline_at(text: &str, j: usize) -> (b: bool)
    requires
        j < text@.len(),
    ensures
        b == (text@[j as int] == '\n'),
{
    text.get_char(j) == '\n'
}

/// Scans the report line by line and extracts the byte count beside the
/// first occurrence of `label`.
pub fn extract_bytes(text: &str, label: &str) -> (r: Option<u64>)
    ensures
        r == spec_extract_bytes(text@, label@),
{
    let n: usize = text.unicode_len();
    proof {
        assert(text@.subrange(0, n as int) =~= text@);
    }
    let mut pos: usize = 0;
    while pos < n
        invariant
            n == text@.len(),
            pos <= n,
            spec_extract_bytes(text@, label@) == spec_extract_bytes(
                text@.subrange(pos as int, n as int),
                label@,
            ),
        decreases n - pos,
    {
        let ghost sub = text@.subrange(pos as int, n as int);
        let mut j: usize = pos;
        while j < n && !newline_at(text, j)
            invariant
                n == text@.len(),
                pos <= j <= n,
                sub == text@.subrange(pos as int, n as int),
                spec_find_char(sub, '\n') == spec_find_char_from(sub, '\n', j - pos),
            decreases n - j,
        {
            proof {
                assert(sub[j - pos] == text@[j as int]);
            }
            j = j + 1;
        }
        let ghost e: int = if j < n {
            j - pos
        } else {
            -1
        };
        proof {
            if j < n {
                assert(sub[j - pos] == text@[j as int]);
            }
            assert(spec_find_char(sub, '\n') == e);
        }
        let line = text.substring_char(pos, j);
        proof {
            if e == -1 {
                assert(line@ =~= sub);
            } else {
                assert(line@ =~= sub.subrange(0, e));
            }
        }
        if contains_label(line, label) {
            let pr = paren_number(line);
            match pr {
                ParenNumber::Value(v) => {
                    proof {
                        crate::timefmt::lemma_find_char_from_range(line@, '(', 0);
                        lemma_run_len_all_digits(line@, spec_find_char(line@, '(') + 1);
                        assert(spec_extract_bytes(sub, label@) == Some(v));
                    }
                    return Some(v);
                },
                ParenNumber::Overflow => {
                    proof {
                        crate::timefmt::lemma_find_char_from_range(line@, '(', 0);
                        lemma_run_len_all_digits(line@, spec_find_char(line@, '(') + 1);
                        assert(spec_extract_bytes(sub, label@) is None);
                    }
                    return None;
                },
                ParenNumber::Missing => {},
            }
        }
        let ghost rest: Seq<char> = if e == -1 {
            Seq::<char>::empty()
        } else {
            sub.subrange(e + 1, sub.len() as int)
        };
        if j < n {
            pos = j + 1;
        } else {
            pos = n;
        }
        proof {
            assert(text@.subrange(pos as int, n as int) =~= rest);
        }
    }
    proof {
        assert(text@.subrange(pos as int, n as int).len() == 0);
    }
    None
}

/// Reads the disk byte totals from the utility's report: the total from the
/// container line, or failing that the disk-size line, and the free count
/// from the container free line.
pub fn parse_disk_info(text: &str) -> (r: Option<crate::pie::DiskInfo>)
    ensures
        ({
            let total = if spec_extract_bytes(text@, "Container Total Space:"@) is Some {
                spec_extract_bytes(text@, "Container Total Space:"@)
            } else {
                spec_extract_bytes(text@, "Disk Size:"@)
            };
            let free = spec_extract_bytes(text@, "Container Free Space:"@);
            &&& (r is Some <==> (total is Some && free is Some))
            &&& (r is Some ==> {
                let d = r->0;
                &&& d.wf()
                &&& d.total_bytes == total->0
                &&& d.free_bytes == free->0
            })
        }),
{
    let total = match extract_bytes(text, "Container Total Space:") {
        Some(t) => Some(t),
        None => extract_bytes(text, "Disk Size:"),
    };
    let free = extract_bytes(text, "Container Free Space:");
    match (total, free) {
        (Some(t), Some(f)) => Some(crate::pie::DiskInfo::new(t, f)),
        _ => None,
    }
}
} // verus!
