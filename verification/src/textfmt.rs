//! Decimal text formatting: whole numbers, durations, byte sizes and
//! percentage labels, all with exact integer semantics.
//!
//! Byte sizes use tiered precision: at least 1000 GB is shown as TB with one
//! decimal, at least 100 GB with no decimals, at least 10 GB with one
//! decimal, and anything smaller with two decimals. Fractions round half up.
use vstd::prelude::*;
use vstd::string::*;

verus! {

/// The decimal digit character for a value in 0..=9.
pub open spec fn digit_char(d: int) -> char {
    if d == 0 {
        '0'
    } else if d == 1 {
        '1'
    } else if d == 2 {
        '2'
    } else if d == 3 {
        '3'
    } else if d == 4 {
        '4'
    } else if d == 5 {
        '5'
    } else if d == 6 {
        '6'
    } else if d == 7 {
        '7'
    } else if d == 8 {
        '8'
    } else {
        '9'
    }
}

/// The decimal rendering of a natural number, most significant digit first,
/// with no leading zeroes (zero itself is a single digit).
pub open spec fn spec_decimal(n: nat) -> Seq<char>
    decreases n,
{
    if n < 10 {
        seq![digit_char(n as int)]
    } else {
        spec_decimal(n / 10) + seq![digit_char((n % 10) as int)]
    }
}

/// Two zero-padded decimal digits for a value in 0..=99.
pub open spec fn spec_two_digits(n: int) -> Seq<char> {
    seq![digit_char(n / 10), digit_char(n % 10)]
}

fn digit_str(d: u64) -> (s: &'static str)
    requires
        d < 10,
    ensures
        s@ =~= seq![digit_char(d as int)],
        s@ == seq![digit_char(d as int)],
{
    let s: &'static str = match d {
        0 => {
            proof {
                reveal_strlit("0");
            }
            "0"
        },
        1 => {
            proof {
                reveal_strlit("1");
            }
            "1"
        },
        2 => {
            proof {
                reveal_strlit("2");
            }
            "2"
        },
        3 => {
            proof {
                reveal_strlit("3");
            }
            "3"
        },
        4 => {
            proof {
                reveal_strlit("4");
            }
            "4"
        },
        5 => {
            proof {
                reveal_strlit("5");
            }
            "5"
        },
        6 => {
            proof {
                reveal_strlit("6");
            }
            "6"
        },
        7 => {
            proof {
                reveal_strlit("7");
            }
            "7"
        },
        8 => {
            proof {
                reveal_strlit("8");
            }
            "8"
        },
        _ => {
            proof {
                reveal_strlit("9");
            }
            "9"
        },
    };
    proof {
        assert(s@ =~= seq![digit_char(d as int)]);
    }
    s
}

/// Renders a number in decimal, most significant digit first.
pub fn u64_to_string(n: u64) -> (s: String)
    ensures
        s@ == spec_decimal(n as nat),
    decreases n,
{
    if n < 10 {
        let s = String::from_str(digit_str(n));
        s
    } else {
        let mut s = u64_to_string(n / 10);
        s.append(digit_str(n % 10));
        s
    }
}

/// The rendering of a duration given in whole minutes: days and hours, or
/// hours and minutes, or minutes alone, most significant unit first,
/// dropping a zero-valued secondary unit.
pub open spec fn spec_format_duration(minutes: nat) -> Seq<char> {
    let days = minutes / 1440;
    let hours = (minutes % 1440) / 60;
    let mins = minutes % 60;
    if days > 0 {
        if hours == 0 {
            spec_decimal(days) + "d"@
        } else {
            spec_decimal(days) + "d "@ + spec_decimal(hours) + "h"@
        }
    } else if hours == 0 {
        spec_decimal(mins) + "m"@
    } else if mins == 0 {
        spec_decimal(hours) + "h"@
    } else {
        spec_decimal(hours) + "h "@ + spec_decimal(mins) + "m"@
    }
}

/// Formats a duration of whole minutes, e.g. "1d 1h", "1h 30m" or "45m".
pub fn format_duration(minutes: u64) -> (s: String)
    ensures
        s@ == spec_format_duration(minutes as nat),
{
    let days = minutes / 1440;
    let hours = (minutes % 1440) / 60;
    let mins = minutes % 60;
    if days > 0 {
        if hours == 0 {
            let mut s = u64_to_string(days);
            s.append("d");
            s
        } else {
            let mut s = u64_to_string(days);
            s.append("d ");
            let h = u64_to_string(hours);
            s.append(h.as_str());
            s.append("h");
            s
        }
    } else if hours == 0 {
        let mut s = u64_to_string(mins);
        s.append("m");
        s
    } else if mins == 0 {
        let mut s = u64_to_string(hours);
        s.append("h");
        s
    } else {
        let mut s = u64_to_string(hours);
        s.append("h ");
        let m = u64_to_string(mins);
        s.append(m.as_str());
        s.append("m");
        s
    }
}

/// The rendering of a byte count with tiered precision.
pub open spec fn spec_format_size(bytes: nat) -> Seq<char> {
    if bytes >= 1_000_000_000_000 {
        let v = (bytes + 50_000_000_000) / 100_000_000_000;
        spec_decimal(v / 10) + "."@ + seq![digit_char((v % 10) as int)] + " TB"@
    } else if bytes >= 100_000_000_000 {
        let v = (bytes + 500_000_000) / 1_000_000_000;
        spec_decimal(v) + " GB"@
    } else if bytes >= 10_000_000_000 {
        let v = (bytes + 50_000_000) / 100_000_000;
        spec_decimal(v / 10) + "."@ + seq![digit_char((v % 10) as int)] + " GB"@
    } else {
        let v = (bytes + 5_000_000) / 10_000_000;
        spec_decimal(v / 100) + "."@ + spec_two_digits((v % 100) as int) + " GB"@
    }
}

/// Formats a byte count as gigabytes or terabytes with tiered precision,
/// e.g. "1.5 TB", "250 GB", "42.0 GB" or "9.50 GB".
pub fn format_size(bytes: u64) -> (s: String)
    ensures
        s@ == spec_format_size(bytes as nat),
{
    if bytes >= 1_000_000_000_000 {
        let v = (((bytes as u128) + 50_000_000_000) / 100_000_000_000) as u64;
        let mut s = u64_to_string(v / 10);
        s.append(".");
        s.append(digit_str(v % 10));
        s.append(" TB");
        s
    } else if bytes >= 100_000_000_000 {
        let v = (((bytes as u128) + 500_000_000) / 1_000_000_000) as u64;
        let mut s = u64_to_string(v);
        s.append(" GB");
        s
    } else if bytes >= 10_000_000_000 {
        let v = (((bytes as u128) + 50_000_000) / 100_000_000) as u64;
        let mut s = u64_to_string(v / 10);
        s.append(".");
        s.append(digit_str(v % 10));
        s.append(" GB");
        s
    } else {
        let v = (((bytes as u128) + 5_000_000) / 10_000_000) as u64;
        let mut s = u64_to_string(v / 100);
        s.append(".");
        s.append(digit_str((v % 100) / 10));
        s.append(digit_str((v % 100) % 10));
        s.append(" GB");
        s
    }
}

/// Law: byte-size formatting is stable: any two renderings of the same byte
/// count are the same string, character for character.
pub proof fn lemma_format_size_stable(s1: Seq<char>, s2: Seq<char>, bytes: nat)
    requires
        s1 == spec_format_size(bytes),
        s2 == spec_format_size(bytes),
    ensures
        s1 == s2,
{
}

/// Rounds a value in hundredths of a percent to whole percent, half up.
pub open spec fn spec_round_percent(cpct: int) -> int {
    (cpct + 50) / 100
}

/// The label "N%" for a utilization in hundredths of a percent, rounded to
/// the nearest whole percent.
pub open spec fn spec_percent_label(cpct: nat) -> Seq<char> {
    spec_decimal((spec_round_percent(cpct as int)) as nat) + "%"@
}

/// Formats a utilization in hundredths of a percent as "N%".
pub fn percent_label(cpct: u32) -> (s: String)
    ensures
        s@ == spec_percent_label(cpct as nat),
{
    let mut s = u64_to_string(((cpct as u64) + 50) / 100);
    s.append("%");
    s
}


/// Powers of ten, for bounding decimal lengths.
pub open spec fn spec_pow10(k: nat) -> nat
    decreases k,
{
    if k == 0 {
        1
    } else {
        10 * spec_pow10((k - 1) as nat)
    }
}

/// A number below the `k`-th power of ten renders in at most `k` digits.
pub proof fn lemma_decimal_len_le(n: nat, k: nat)
    requires
        1 <= k,
        n < spec_pow10(k),
    ensures
        1 <= spec_decimal(n).len() <= k,
    decreases n,
{
    if n < 10 {
    } else {
        assert(spec_pow10(k) == 10 * spec_pow10((k - 1) as nat));
        if k == 1 {
            assert(spec_pow10(0nat) == 1);
            assert(false);
        }
        lemma_decimal_len_le(n / 10, (k - 1) as nat);
    }
}

/// Any 64-bit value renders in at most 20 digits.
pub proof fn lemma_decimal_len_u64(n: nat)
    requires
        n < 0x1_0000_0000_0000_0000,
    ensures
        1 <= spec_decimal(n).len() <= 20,
{
    assert(spec_pow10(0nat) == 1);
    assert(spec_pow10(1nat) == 10);
    assert(spec_pow10(2nat) == 100);
    assert(spec_pow10(3nat) == 1000);
    assert(spec_pow10(4nat) == 10000);
    assert(spec_pow10(5nat) == 100000);
    assert(spec_pow10(6nat) == 1000000);
    assert(spec_pow10(7nat) == 10000000);
    assert(spec_pow10(8nat) == 100000000);
    assert(spec_pow10(9nat) == 1000000000);
    assert(spec_pow10(10nat) == 10000000000);
    assert(spec_pow10(11nat) == 100000000000);
    assert(spec_pow10(12nat) == 1000000000000);
    assert(spec_pow10(13nat) == 10000000000000);
    assert(spec_pow10(14nat) == 100000000000000);
    assert(spec_pow10(15nat) == 1000000000000000);
    assert(spec_pow10(16nat) == 10000000000000000);
    assert(spec_pow10(17nat) == 100000000000000000);
    assert(spec_pow10(18nat) == 1000000000000000000);
    assert(spec_pow10(19nat) == 10000000000000000000);
    assert(spec_pow10(20nat) == 100000000000000000000);
    lemma_decimal_len_le(n, 20);
}

/// A formatted byte size is short: between 4 and 30 characters.
pub proof fn lemma_format_size_len(bytes: nat)
    requires
        bytes < 0x1_0000_0000_0000_0000,
    ensures
        1 <= spec_format_size(bytes).len() <= 30,
{
    reveal_strlit(".");
    reveal_strlit(" TB");
    reveal_strlit(" GB");
    if bytes >= 1_000_000_000_000 {
        lemma_decimal_len_u64((bytes + 50_000_000_000) / 100_000_000_000 / 10);
    } else if bytes >= 100_000_000_000 {
        lemma_decimal_len_u64((bytes + 500_000_000) / 1_000_000_000);
    } else if bytes >= 10_000_000_000 {
        lemma_decimal_len_u64((bytes + 50_000_000) / 100_000_000 / 10);
    } else {
        lemma_decimal_len_u64((bytes + 5_000_000) / 10_000_000 / 100);
    }
}

/// A formatted duration is short: at most 45 characters.
pub proof fn lemma_format_duration_len(minutes: nat)
    requires
        minutes < 0x1_0000_0000_0000_0000,
    ensures
        1 <= spec_format_duration(minutes).len() <= 45,
{
    reveal_strlit("d");
    reveal_strlit("d ");
    reveal_strlit("h");
    reveal_strlit("h ");
    reveal_strlit("m");
    lemma_decimal_len_u64(minutes / 1440);
    lemma_decimal_len_u64((minutes % 1440) / 60);
    lemma_decimal_len_u64(minutes % 60);
}

/// A percent label is short: at most 21 characters.
pub proof fn lemma_percent_label_len(cpct: nat)
    requires
        cpct < 0x1_0000_0000_0000_0000,
    ensures
        1 <= spec_percent_label(cpct).len() <= 21,
{
    reveal_strlit("%");
    lemma_decimal_len_u64(((cpct + 50) / 100) as nat);
}
} // verus!
