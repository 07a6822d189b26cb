//! Header timestamp formatting: a last-updated time in "HH:MM" local time,
//! degrading gracefully on malformed input.
//!
//! A valid RFC 3339 timestamp is rendered as the local wall-clock time of
//! that instant. On parse failure the text after the first 'T' supplies an
//! "HH:MM"-shaped slice, and when that too is impossible a placeholder is
//! shown; rendering never aborts on a malformed timestamp.
use vstd::prelude::*;
use vstd::string::StringExecFns;
use vstd::string::StrSliceExecFns;

verus! {

/// The index of the first occurrence of `c` at or after position `k`, or -1.
pub open spec fn spec_find_char_from(s: Seq<char>, c: char, k: int) -> int
    decreases s.len() - k,
{
    if k < 0 || k >= s.len() {
        -1
    } else if s[k] == c {
        k
    } else {
        spec_find_char_from(s, c, k + 1)
    }
}

/// The index of the first occurrence of `c` in `s`, or -1.
pub open spec fn spec_find_char(s: Seq<char>, c: char) -> int {
    spec_find_char_from(s, c, 0)
}

/// A found index lies at or after the start and inside the sequence.
pub proof fn lemma_find_char_from_range(s: Seq<char>, c: char, k: int)
    ensures
        spec_find_char_from(s, c, k) == -1 || (k <= spec_find_char_from(s, c, k) < s.len()),
    decreases s.len() - k,
{
    if 0 <= k < s.len() && s[k] != c {
        lemma_find_char_from_range(s, c, k + 1);
    }
}

/// The fallback rendering of a timestamp: the five characters after the
/// first 'T' when they exist, otherwise the placeholder "??:??".
pub open spec fn spec_fallback_time(s: Seq<char>) -> Seq<char> {
    let i = spec_find_char(s, 'T');
    if i >= 0 && s.len() >= i + 6 {
        s.subrange(i + 1, i + 6)
    } else {
        "??:??"@
    }
}

/// Extracts an "HH:MM"-shaped slice after the first 'T', or the placeholder.
pub fn fallback_time(iso: &str) -> (r: String)
    ensures
        r@ == spec_fallback_time(iso@),
{
    let n: usize = iso.unicode_len();
    let mut k: usize = 0;
    while k < n
        invariant
            n == iso@.len(),
            k <= n,
            spec_find_char(iso@, 'T') == spec_find_char_from(iso@, 'T', k as int),
        decreases n - k,
    {
        let c = iso.get_char(k);
        if c == 'T' {
            if n - k - 1 >= 5 {
                let part = iso.substring_char(k + 1, k + 6);
                return String::from_str(part);
            } else {
                return String::from_str("??:??");
            }
        }
        k = k + 1;
    }
    String::from_str("??:??")
}

/// Whether a string is a valid RFC 3339 date-and-time; a function of the
/// characters alone.
pub uninterp spec fn rfc3339_valid(s: Seq<char>) -> bool;

/// Relies on chrono: `DateTime::parse_from_rfc3339` succeeds or fails on the
/// characters alone; `with_timezone` toward `chrono::Local` converts to the
/// machine's local time, so the rendered text is not a function of the
/// input; `format` with "%H:%M" always renders five characters, two hour
/// digits, a colon, two minute digits.
#[verifier::external_body]
fn local_hhmm_of_rfc3339(iso: &str) -> (r: Option<String>)
    ensures
        r is Some <==> rfc3339_valid(iso@),
        r is Some ==> r->Some_0@.len() == 5,
{
    match chrono::DateTime::parse_from_rfc3339(iso) {
        Ok(dt) => Some(dt.with_timezone(&chrono::Local).format("%H:%M").to_string()),
        Err(_) => None,
    }
}

/// Formats a last-updated timestamp for the header: local "HH:MM" for a
/// valid RFC 3339 string, else the fallback slice or placeholder.
pub fn format_updated_time(iso: &str) -> (r: String)
    ensures
        rfc3339_valid(iso@) ==> r@.len() == 5,
        !rfc3339_valid(iso@) ==> r@ == spec_fallback_time(iso@),
{
    match local_hhmm_of_rfc3339(iso) {
        Some(s) => s,
        None => fallback_time(iso),
    }
}

/// Law: the fallback rendering is always five characters long.
pub proof fn lemma_fallback_time_len(s: Seq<char>)
    ensures
        spec_fallback_time(s).len() == 5,
{
    reveal_strlit("??:??");
}

} // verus!
