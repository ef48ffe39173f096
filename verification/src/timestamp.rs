use vstd::prelude::*;
use vstd::string::StrSliceExecFns;

use chrono::Datelike;
use chrono::Timelike;

verus! {

/// A civil (zone-free) date and time with whole-second precision.
///
/// The service's stamps are hour-precision and zone-implicit; this type holds
/// what downstream code reads of a parsed stamp, as plain integers.
#[derive(Clone, Copy, PartialEq, Eq, Structural, Debug)]
pub struct CivilDateTime {
    pub year: i32,
    pub month: u8,
    pub day: u8,
    pub hour: u8,
    pub minute: u8,
    pub second: u8,
}

/// `a` stands strictly after `b` in civil time: the fields compared in
/// order of significance, year first.
pub open spec fn civil_gt(a: CivilDateTime, b: CivilDateTime) -> bool {
    if a.year != b.year {
        a.year > b.year
    } else if a.month != b.month {
        a.month > b.month
    } else if a.day != b.day {
        a.day > b.day
    } else if a.hour != b.hour {
        a.hour > b.hour
    } else if a.minute != b.minute {
        a.minute > b.minute
    } else {
        a.second > b.second
    }
}

/// `a` stands strictly after `b` in civil time, as executable code.
pub fn civil_after(a: &CivilDateTime, b: &CivilDateTime) -> (r: bool)
    ensures
        r == civil_gt(*a, *b),
{
    if a.year != b.year {
        a.year > b.year
    } else if a.month != b.month {
        a.month > b.month
    } else if a.day != b.day {
        a.day > b.day
    } else if a.hour != b.hour {
        a.hour > b.hour
    } else if a.minute != b.minute {
        a.minute > b.minute
    } else {
        a.second > b.second
    }
}

/// The civil datetime, if any, that chrono reads from `s` under the fixed
/// pattern `%Y%m%dT%H:%M:%S`. The outcome depends on the characters of `s`
/// alone.
pub uninterp spec fn chrono_hour_parse(s: Seq<char>) -> Option<CivilDateTime>;

/// Relies on chrono's `NaiveDateTime::parse_from_str` with the fixed pattern
/// `%Y%m%dT%H:%M:%S`, a pure function of the input characters, and on the
/// `Datelike`/`Timelike` accessors of the parsed value.
#[verifier::external_body]
fn parse_normalized(s: &str) -> (r: Option<CivilDateTime>)
    ensures
        r == chrono_hour_parse(s@),
{
    match chrono::NaiveDateTime::parse_from_str(s, "%Y%m%dT%H:%M:%S") {
        Ok(dt) => Some(CivilDateTime {
            year: dt.year(),
            month: dt.month() as u8,
            day: dt.day() as u8,
            hour: dt.hour() as u8,
            minute: dt.minute() as u8,
            second: dt.second() as u8,
        }),
        Err(_) => None,
    }
}

/// Relies on std's `String::push`: it appends exactly one character.
#[verifier::external_body]
fn push_char(s: &mut String, c: char)
    ensures
        final(s)@ == old(s)@.push(c),
{
    s.push(c);
}

/// `s` with every `'Z'` removed, in order.
pub open spec fn strip_z(s: Seq<char>) -> Seq<char>
    decreases s.len(),
{
    if s.len() == 0 {
        Seq::empty()
    } else if s.last() != 'Z' {
        strip_z(s.drop_last()).push(s.last())
    } else {
        strip_z(s.drop_last())
    }
}

/// The normalized form of a service stamp: every `'Z'` removed, then the
/// literal `:00:00` appended, so that `20240607T14Z` becomes
/// `20240607T14:00:00`.
pub open spec fn normalized_stamp(s: Seq<char>) -> Seq<char> {
    strip_z(s) + seq![':', '0', '0', ':', '0', '0']
}

/// Rewrites a compact service stamp into the shape the parse pattern expects.
pub fn normalize_stamp(s: &str) -> (r: String)
    ensures
        r@ == normalized_stamp(s@),
{
    let n = s.unicode_len();
    let mut out = String::new();
    let mut i: usize = 0;
    while i < n
        invariant
            n == s@.len(),
            i <= n,
            out@ == strip_z(s@.subrange(0, i as int)),
        decreases n - i,
    {
        let c = s.get_char(i);
        proof {
            let pre = s@.subrange(0, i as int);
            let pre1 = s@.subrange(0, i + 1 as int);
            assert(pre1.drop_last() =~= pre);
            assert(pre1.last() == c);
        }
        if c != 'Z' {
            push_char(&mut out, c);
        }
        i += 1;
    }
    proof {
        assert(s@.subrange(0, n as int) =~= s@);
    }
    push_char(&mut out, ':');
    push_char(&mut out, '0');
    push_char(&mut out, '0');
    push_char(&mut out, ':');
    push_char(&mut out, '0');
    push_char(&mut out, '0');
    proof {
        assert(out@ =~= normalized_stamp(s@));
    }
    out
}

/// Normalizes a compact service stamp and parses it. A failure to parse
/// yields `None` and never aborts.
pub fn parse_stamp(s: &str) -> (r: Option<CivilDateTime>)
    ensures
        r == chrono_hour_parse(normalized_stamp(s@)),
{
    let t = normalize_stamp(s);
    parse_normalized(t.as_str())
}

} // verus!
