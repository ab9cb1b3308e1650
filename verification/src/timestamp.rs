//! UTC timestamps as plain calendar fields, with their fixed-width RFC 3339
//! rendering and the parse that inverts it.

use vstd::prelude::*;
use chrono::{Datelike, Timelike};

verus! {

/// A UTC instant held as plain calendar fields, at second precision.
#[derive(Debug, Clone, Copy, PartialEq, Eq, Structural)]
pub struct UtcTime {
    /// Four-digit year.
    pub year: u32,
    /// Month, 1 to 12.
    pub month: u8,
    /// Day of month, 1 to 31.
    pub day: u8,
    /// Hour, 0 to 23.
    pub hour: u8,
    /// Minute, 0 to 59.
    pub minute: u8,
    /// Second, 0 to 59.
    pub second: u8,
}

impl UtcTime {
    /// Every field lies in the range the fixed-width rendering needs.
    pub open spec fn wf(self) -> bool {
        &&& 1000 <= self.year <= 9999
        &&& 1 <= self.month <= 12
        &&& 1 <= self.day <= 31
        &&& self.hour <= 23
        &&& self.minute <= 59
        &&& self.second <= 59
    }

    /// Builds a timestamp, accepting exactly the field ranges of `wf`.
    pub fn new(year: u32, month: u8, day: u8, hour: u8, minute: u8, second: u8) -> (r: Option<
        UtcTime,
    >)
        ensures
            r matches Some(t) ==> t.wf() && t == (UtcTime { year, month, day, hour, minute, second }),
            r is None ==> !(UtcTime { year, month, day, hour, minute, second }).wf(),
    {
        if 1000 <= year && year <= 9999 && 1 <= month && month <= 12 && 1 <= day && day <= 31
            && hour <= 23 && minute <= 59 && second <= 59 {
            Some(UtcTime { year, month, day, hour, minute, second })
        } else {
            None
        }
    }
}

/// Relies on chrono::Utc::now and its Datelike/Timelike accessors: the
/// current instant. Month, day, hour, minute and second lie in their
/// documented calendar ranges; the year is whatever the host clock says.
#[verifier::external_body]
fn now_fields() -> (t: UtcTime)
    ensures
        1 <= t.month <= 12,
        1 <= t.day <= 31,
        t.hour <= 23,
        t.minute <= 59,
        t.second <= 59,
{
    let n = chrono::Utc::now();
    UtcTime {
        year: n.year() as u32,
        month: n.month() as u8,
        day: n.day() as u8,
        hour: n.hour() as u8,
        minute: n.minute() as u8,
        second: n.second() as u8,
    }
}

/// The current instant, when the host clock lies within the four-digit
/// year range the stored envelope can hold; nothing otherwise.
pub(crate) fn now_utc() -> (r: Option<UtcTime>)
    ensures
        r matches Some(t) ==> t.wf(),
{
    let t = now_fields();
    if 1000 <= t.year && t.year <= 9999 {
        Some(t)
    } else {
        None
    }
}

/// The character for one decimal digit.
pub open spec fn digit_char(d: nat) -> char {
    if d == 0 {
        '0'
    } else if d == 1 {
        '1'
    } else if d == 2 {
        '2'
    } else if d == 3 {
        '3'
    } else if d == 4 {
        '4'
    } else if d == 5 {
        '5'
    } else if d == 6 {
        '6'
    } else if d == 7 {
        '7'
    } else if d == 8 {
        '8'
    } else {
        '9'
    }
}

/// The digit a character stands for, if any.
pub open spec fn char_digit(c: char) -> Option<nat> {
    if c == '0' {
        Some(0 as nat)
    } else if c == '1' {
        Some(1 as nat)
    } else if c == '2' {
        Some(2 as nat)
    } else if c == '3' {
        Some(3 as nat)
    } else if c == '4' {
        Some(4 as nat)
    } else if c == '5' {
        Some(5 as nat)
    } else if c == '6' {
        Some(6 as nat)
    } else if c == '7' {
        Some(7 as nat)
    } else if c == '8' {
        Some(8 as nat)
    } else if c == '9' {
        Some(9 as nat)
    } else {
        None
    }
}

/// Reading a digit back gives the digit: `char_digit` inverts `digit_char`.
pub proof fn lemma_digit_roundtrip(d: nat)
    requires
        d <= 9,
    ensures
        char_digit(digit_char(d)) == Some(d),
{
}

/// A number under 100 as two zero-padded digits.
pub open spec fn two_digits(n: nat) -> Seq<char> {
    seq![digit_char(n / 10 % 10), digit_char(n % 10)]
}

/// A number under 10000 as four zero-padded digits.
pub open spec fn four_digits(n: nat) -> Seq<char> {
    seq![
        digit_char(n / 1000 % 10),
        digit_char(n / 100 % 10),
        digit_char(n / 10 % 10),
        digit_char(n % 10),
    ]
}

/// The fixed-width RFC 3339 rendering `YYYY-MM-DDThh:mm:ssZ`.
pub open spec fn rfc3339_of(t: UtcTime) -> Seq<char> {
    seq![
        digit_char(t.year as nat / 1000 % 10),
        digit_char(t.year as nat / 100 % 10),
        digit_char(t.year as nat / 10 % 10),
        digit_char(t.year as nat % 10),
        '-',
        digit_char(t.month as nat / 10 % 10),
        digit_char(t.month as nat % 10),
        '-',
        digit_char(t.day as nat / 10 % 10),
        digit_char(t.day as nat % 10),
        'T',
        digit_char(t.hour as nat / 10 % 10),
        digit_char(t.hour as nat % 10),
        ':',
        digit_char(t.minute as nat / 10 % 10),
        digit_char(t.minute as nat % 10),
        ':',
        digit_char(t.second as nat / 10 % 10),
        digit_char(t.second as nat % 10),
        'Z',
    ]
}

/// The digit character for a value at most nine.
pub(crate) fn digit_char_exec(d: u8) -> (c: char)
    requires
        d <= 9,
    ensures
        c == digit_char(d as nat),
{
    match d {
        0 => '0',
        1 => '1',
        2 => '2',
        3 => '3',
        4 => '4',
        5 => '5',
        6 => '6',
        7 => '7',
        8 => '8',
        _ => '9',
    }
}

/// The digit a character stands for, if any.
pub(crate) fn char_digit_exec(c: char) -> (r: Option<u8>)
    ensures
        match r {
            Some(d) => d <= 9 && char_digit(c) == Some(d as nat),
            None => char_digit(c) is None,
        },
{
    match c {
        '0' => Some(0),
        '1' => Some(1),
        '2' => Some(2),
        '3' => Some(3),
        '4' => Some(4),
        '5' => Some(5),
        '6' => Some(6),
        '7' => Some(7),
        '8' => Some(8),
        '9' => Some(9),
        _ => None,
    }
}

/// Appends the two-digit rendering of `n`.
pub(crate) fn push_two_digits(out: &mut Vec<char>, n: u8)
    requires
        n <= 99,
    ensures
        final(out)@ == old(out)@ + two_digits(n as nat),
{
    out.push(digit_char_exec(n / 10 % 10));
    out.push(digit_char_exec(n % 10));
    proof {
        assert(final(out)@ =~= old(out)@ + two_digits(n as nat));
    }
}

/// Appends the four-digit rendering of `n`.
pub(crate) fn push_four_digits(out: &mut Vec<char>, n: u32)
    requires
        n <= 9999,
    ensures
        final(out)@ == old(out)@ + four_digits(n as nat),
{
    out.push(digit_char_exec((n / 1000 % 10) as u8));
    out.push(digit_char_exec((n / 100 % 10) as u8));
    out.push(digit_char_exec((n / 10 % 10) as u8));
    out.push(digit_char_exec((n % 10) as u8));
    proof {
        assert(final(out)@ =~= old(out)@ + four_digits(n as nat));
    }
}

/// Appends the RFC 3339 rendering of `t`.
pub(crate) fn push_rfc3339(out: &mut Vec<char>, t: &UtcTime)
    requires
        t.wf(),
    ensures
        final(out)@ == old(out)@ + rfc3339_of(*t),
{
    push_four_digits(out, t.year);
    out.push('-');
    push_two_digits(out, t.month);
    out.push('-');
    push_two_digits(out, t.day);
    out.push('T');
    push_two_digits(out, t.hour);
    out.push(':');
    push_two_digits(out, t.minute);
    out.push(':');
    push_two_digits(out, t.second);
    out.push('Z');
    proof {
        assert(final(out)@ =~= old(out)@ + rfc3339_of(*t));
    }
}

/// Reads the two-digit number at `start`; exact for two-digit renderings.
pub(crate) fn parse_two_digits(v: &[char], start: usize) -> (r: Option<u8>)
    requires
        start + 2 <= v@.len(),
    ensures
        forall|n: nat|
            n <= 99 && v@.subrange(start as int, start + 2) == #[trigger] two_digits(n) ==> r
                == Some(n as u8),
{
    let d1 = match char_digit_exec(v[start]) {
        Some(d) => d,
        None => {
            return None;
        },
    };
    let d2 = match char_digit_exec(v[start + 1]) {
        Some(d) => d,
        None => {
            return None;
        },
    };
    let n = d1 * 10 + d2;
    proof {
        assert forall|m: nat|
            m <= 99 && v@.subrange(start as int, start + 2) == #[trigger] two_digits(m) implies n
            == m as u8 by {
            assert(v@.subrange(start as int, start + 2)[0] == v@[start as int]);
            assert(v@.subrange(start as int, start + 2)[1] == v@[start as int + 1]);
            assert(v@[start as int] == digit_char(m / 10 % 10));
            assert(v@[start as int + 1] == digit_char(m % 10));
            lemma_digit_roundtrip(m / 10 % 10);
            lemma_digit_roundtrip(m % 10);
            assert(d1 == m / 10 % 10);
            assert(d2 == m % 10);
            assert(m / 10 % 10 == m / 10) by {
                assert(m / 10 <= 9);
            }
            assert((m / 10) * 10 + m % 10 == m) by {
                vstd::arithmetic::div_mod::lemma_fundamental_div_mod(m as int, 10);
            }
        }
    }
    Some(n)
}

/// Reads the four-digit number at `start`; exact for four-digit renderings.
pub(crate) fn parse_four_digits(v: &[char], start: usize) -> (r: Option<u32>)
    requires
        start + 4 <= v@.len(),
    ensures
        forall|n: nat|
            n <= 9999 && v@.subrange(start as int, start + 4) == #[trigger] four_digits(n) ==> r
                == Some(n as u32),
{
    let d1 = match char_digit_exec(v[start]) {
        Some(d) => d,
        None => {
            return None;
        },
    };
    let d2 = match char_digit_exec(v[start + 1]) {
        Some(d) => d,
        None => {
            return None;
        },
    };
    let d3 = match char_digit_exec(v[start + 2]) {
        Some(d) => d,
        None => {
            return None;
        },
    };
    let d4 = match char_digit_exec(v[start + 3]) {
        Some(d) => d,
        None => {
            return None;
        },
    };
    let n: u32 = (d1 as u32) * 1000 + (d2 as u32) * 100 + (d3 as u32) * 10 + (d4 as u32);
    proof {
        assert forall|m: nat|
            m <= 9999 && v@.subrange(start as int, start + 4) == #[trigger] four_digits(m) implies n
            == m as u32 by {
            assert(v@.subrange(start as int, start + 4)[0] == v@[start as int]);
            assert(v@.subrange(start as int, start + 4)[1] == v@[start as int + 1]);
            assert(v@.subrange(start as int, start + 4)[2] == v@[start as int + 2]);
            assert(v@.subrange(start as int, start + 4)[3] == v@[start as int + 3]);
            lemma_digit_roundtrip(m / 1000 % 10);
            lemma_digit_roundtrip(m / 100 % 10);
            lemma_digit_roundtrip(m / 10 % 10);
            lemma_digit_roundtrip(m % 10);
            assert(d1 == m / 1000 % 10 && d2 == m / 100 % 10 && d3 == m / 10 % 10 && d4 == m % 10);
            assert(m / 1000 % 10 == m / 1000) by {
                assert(m / 1000 <= 9);
            }
            assert((m / 1000) * 1000 + (m / 100 % 10) * 100 + (m / 10 % 10) * 10 + m % 10 == m)
                by (nonlinear_arith)
                requires
                    m <= 9999,
            ;
        }
    }
    Some(n)
}

/// Reads the twenty-character RFC 3339 rendering at `start` and checks the
/// field ranges; exact for renderings of well-formed timestamps.
pub(crate) fn parse_rfc3339(v: &[char], start: usize) -> (r: Option<UtcTime>)
    requires
        start + 20 <= v@.len(),
    ensures
        forall|t: UtcTime|
            t.wf() && v@.subrange(start as int, start + 20) == #[trigger] rfc3339_of(t) ==> r
                == Some(t),
{
    let total: usize = v.len();
    let year_o = parse_four_digits(v, start);
    let month_o = parse_two_digits(v, start + 5);
    let day_o = parse_two_digits(v, start + 8);
    let hour_o = parse_two_digits(v, start + 11);
    let minute_o = parse_two_digits(v, start + 14);
    let second_o = parse_two_digits(v, start + 17);
    let seps_ok = v[start + 4] == '-' && v[start + 7] == '-' && v[start + 10] == 'T' && v[start
        + 13] == ':' && v[start + 16] == ':' && v[start + 19] == 'Z';
    let r = if seps_ok {
        match (year_o, month_o, day_o, hour_o, minute_o, second_o) {
            (Some(year), Some(month), Some(day), Some(hour), Some(minute), Some(second)) => {
                UtcTime::new(year, month, day, hour, minute, second)
            },
            _ => None,
        }
    } else {
        None
    };
    proof {
        assert forall|t: UtcTime|
            t.wf() && v@.subrange(start as int, start + 20) == #[trigger] rfc3339_of(t) implies r
            == Some(t) by {
            lemma_rfc3339_pieces(v@, start as int, t);
            assert(year_o == Some(t.year));
            assert(month_o == Some(t.month) && day_o == Some(t.day) && hour_o == Some(t.hour)
                && minute_o == Some(t.minute) && second_o == Some(t.second));
        }
    }
    r
}

/// Where each field of the rendering sits inside the twenty characters.
proof fn lemma_rfc3339_pieces(v: Seq<char>, start: int, t: UtcTime)
    requires
        0 <= start,
        start + 20 <= v.len(),
        v.subrange(start, start + 20) == rfc3339_of(t),
    ensures
        v.subrange(start, start + 4) == four_digits(t.year as nat),
        v.subrange(start + 5, start + 7) == two_digits(t.month as nat),
        v.subrange(start + 8, start + 10) == two_digits(t.day as nat),
        v.subrange(start + 11, start + 13) == two_digits(t.hour as nat),
        v.subrange(start + 14, start + 16) == two_digits(t.minute as nat),
        v.subrange(start + 17, start + 19) == two_digits(t.second as nat),
        v[start + 4] == '-',
        v[start + 7] == '-',
        v[start + 10] == 'T',
        v[start + 13] == ':',
        v[start + 16] == ':',
        v[start + 19] == 'Z',
{
    let s = v.subrange(start, start + 20);
    assert(s == rfc3339_of(t));
    assert forall|k: int| 0 <= k < 20 implies v[start + k] == rfc3339_of(t)[k] by {
        assert(s[k] == v[start + k]);
    }
    assert(v.subrange(start, start + 4) =~= rfc3339_of(t).subrange(0, 4));
    assert(rfc3339_of(t).subrange(0, 4) =~= four_digits(t.year as nat));
    assert(v.subrange(start + 5, start + 7) =~= rfc3339_of(t).subrange(5, 7));
    assert(rfc3339_of(t).subrange(5, 7) =~= two_digits(t.month as nat));
    assert(v.subrange(start + 8, start + 10) =~= rfc3339_of(t).subrange(8, 10));
    assert(rfc3339_of(t).subrange(8, 10) =~= two_digits(t.day as nat));
    assert(v.subrange(start + 11, start + 13) =~= rfc3339_of(t).subrange(11, 13));
    assert(rfc3339_of(t).subrange(11, 13) =~= two_digits(t.hour as nat));
    assert(v.subrange(start + 14, start + 16) =~= rfc3339_of(t).subrange(14, 16));
    assert(rfc3339_of(t).subrange(14, 16) =~= two_digits(t.minute as nat));
    assert(v.subrange(start + 17, start + 19) =~= rfc3339_of(t).subrange(17, 19));
    assert(rfc3339_of(t).subrange(17, 19) =~= two_digits(t.second as nat));
}

} // verus!
