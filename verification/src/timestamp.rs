//! Naive local timestamps: parsed from the fixed `YYYY:MM:DD HH:MM:SS`
//! form that the metadata extractor emits (any timezone suffix beyond the
//! first nineteen characters is ignored), and formatted as the canonical
//! file stem `YYYY-MM-DD_HH.MM.SS`.

use vstd::prelude::*;

verus! {

/// A timezone-free local timestamp with calendar-checked fields.
#[derive(Debug, Clone, Copy, PartialEq, Eq, Structural)]
pub struct Timestamp {
    pub year: u32,
    pub month: u32,
    pub day: u32,
    pub hour: u32,
    pub minute: u32,
    pub second: u32,
}

pub open spec fn is_leap_year(y: int) -> bool {
    y % 4 == 0 && (y % 100 != 0 || y % 400 == 0)
}

pub open spec fn days_in_month(y: int, m: int) -> int {
    if m == 2 {
        if is_leap_year(y) {
            29
        } else {
            28
        }
    } else if m == 4 || m == 6 || m == 9 || m == 11 {
        30
    } else {
        31
    }
}

impl Timestamp {
    /// The fields name a real calendar date and a time of day.
    pub open spec fn wf(self) -> bool {
        &&& self.year <= 9999
        &&& 1 <= self.month <= 12
        &&& 1 <= self.day <= days_in_month(self.year as int, self.month as int)
        &&& self.hour <= 23
        &&& self.minute <= 59
        &&& self.second <= 59
    }
}

/// An ASCII decimal digit.
pub open spec fn is_digit(c: char) -> bool {
    '0' <= c && c <= '9'
}

/// Numeric value of a digit character.
pub open spec fn digit_val(c: char) -> int {
    c as int - 48
}

/// The two-digit number written at positions `i` and `i + 1`.
pub open spec fn two_digits(s: Seq<char>, i: int) -> int {
    10 * digit_val(s[i]) + digit_val(s[i + 1])
}

/// The four-digit number written at positions 0 through 3.
pub open spec fn four_digits(s: Seq<char>) -> int {
    1000 * digit_val(s[0]) + 100 * digit_val(s[1]) + 10 * digit_val(s[2]) + digit_val(s[3])
}

/// Exactly nineteen characters in the shape `YYYY:MM:DD HH:MM:SS`.
pub open spec fn exif_shape(s: Seq<char>) -> bool {
    &&& s.len() == 19
    &&& s[4] == ':' && s[7] == ':' && s[10] == ' ' && s[13] == ':' && s[16] == ':'
    &&& is_digit(s[0]) && is_digit(s[1]) && is_digit(s[2]) && is_digit(s[3])
    &&& is_digit(s[5]) && is_digit(s[6])
    &&& is_digit(s[8]) && is_digit(s[9])
    &&& is_digit(s[11]) && is_digit(s[12])
    &&& is_digit(s[14]) && is_digit(s[15])
    &&& is_digit(s[17]) && is_digit(s[18])
}

/// The timestamp written in a sequence of the right shape.
pub open spec fn ts_of(s: Seq<char>) -> Timestamp {
    Timestamp {
        year: four_digits(s) as u32,
        month: two_digits(s, 5) as u32,
        day: two_digits(s, 8) as u32,
        hour: two_digits(s, 11) as u32,
        minute: two_digits(s, 14) as u32,
        second: two_digits(s, 17) as u32,
    }
}

/// What parsing a metadata timestamp field yields: the first nineteen
/// characters must spell a well-formed `YYYY:MM:DD HH:MM:SS`; whatever
/// follows them (a timezone offset, say) is ignored.
pub open spec fn parse_spec(s: Seq<char>) -> Option<Timestamp> {
    if s.len() < 19 {
        None
    } else {
        let t = s.take(19);
        if exif_shape(t) && ts_of(t).wf() {
            Some(ts_of(t))
        } else {
            None
        }
    }
}

/// Numeric value of a digit character.
fn digit_of(c: char) -> (r: u32)
    requires
        is_digit(c),
    ensures
        r as int == digit_val(c),
        r <= 9,
{
    (c as u32) - 48
}

/// Is `c` an ASCII decimal digit?
fn check_digit(c: char) -> (r: bool)
    ensures
        r == is_digit(c),
{
    '0' <= c && c <= '9'
}

fn days_in_month_exec(y: u32, m: u32) -> (r: u32)
    ensures
        r as int == days_in_month(y as int, m as int),
{
    if m == 2 {
        if y % 4 == 0 && (y % 100 != 0 || y % 400 == 0) {
            29
        } else {
            28
        }
    } else if m == 4 || m == 6 || m == 9 || m == 11 {
        30
    } else {
        31
    }
}

/// Parse a metadata timestamp field.
pub fn parse_timestamp(s: &str) -> (r: Option<Timestamp>)
    ensures
        r == parse_spec(s@),
        r matches Some(ts) ==> ts.wf(),
{
    let n = s.unicode_len();
    if n < 19 {
        return None;
    }
    let ghost t = s@.take(19);
    if !(s.get_char(4) == ':' && s.get_char(7) == ':' && s.get_char(10) == ' '
        && s.get_char(13) == ':' && s.get_char(16) == ':') {
        return None;
    }
    let mut i: usize = 0;
    while i < 19
        invariant
            n >= 19,
            n == s@.len(),
            i <= 19,
            t == s@.take(19),
            forall|j: int| 0 <= j < i && j != 4 && j != 7 && j != 10 && j != 13 && j != 16
                ==> is_digit(t[j]),
        decreases 19 - i,
    {
        if !(i == 4 || i == 7 || i == 10 || i == 13 || i == 16) {
            if !check_digit(s.get_char(i)) {
                return None;
            }
        }
        i += 1;
    }
    let year = 1000 * digit_of(s.get_char(0)) + 100 * digit_of(s.get_char(1)) + 10 * digit_of(
        s.get_char(2),
    ) + digit_of(s.get_char(3));
    let month = 10 * digit_of(s.get_char(5)) + digit_of(s.get_char(6));
    let day = 10 * digit_of(s.get_char(8)) + digit_of(s.get_char(9));
    let hour = 10 * digit_of(s.get_char(11)) + digit_of(s.get_char(12));
    let minute = 10 * digit_of(s.get_char(14)) + digit_of(s.get_char(15));
    let second = 10 * digit_of(s.get_char(17)) + digit_of(s.get_char(18));
    if !(1 <= month && month <= 12) {
        return None;
    }
    if !(1 <= day && day <= days_in_month_exec(year, month)) {
        return None;
    }
    if !(hour <= 23 && minute <= 59 && second <= 59) {
        return None;
    }
    Some(Timestamp { year, month, day, hour, minute, second })
}

/// The decimal digit of `n`'s lowest place, as a character.
pub open spec fn dig(n: int) -> char {
    ((n % 10) + 48) as char
}

/// The canonical stem spelled by a timestamp: `YYYY-MM-DD_HH.MM.SS`.
pub open spec fn stem_chars(ts: Timestamp) -> Seq<char> {
    seq![
        dig(ts.year as int / 1000),
        dig(ts.year as int / 100),
        dig(ts.year as int / 10),
        dig(ts.year as int),
        '-',
        dig(ts.month as int / 10),
        dig(ts.month as int),
        '-',
        dig(ts.day as int / 10),
        dig(ts.day as int),
        '_',
        dig(ts.hour as int / 10),
        dig(ts.hour as int),
        '.',
        dig(ts.minute as int / 10),
        dig(ts.minute as int),
        '.',
        dig(ts.second as int / 10),
        dig(ts.second as int),
    ]
}

/// The lowest decimal digit of `n`, as a one-character string.
fn digit_str(n: u32) -> (r: &'static str)
    ensures
        r@ == seq![dig(n as int)],
{
    proof {
        reveal_strlit("0");
        reveal_strlit("1");
        reveal_strlit("2");
        reveal_strlit("3");
        reveal_strlit("4");
        reveal_strlit("5");
        reveal_strlit("6");
        reveal_strlit("7");
        reveal_strlit("8");
        reveal_strlit("9");
    }
    let d = n % 10;
    match d {
        0 => "0",
        1 => "1",
        2 => "2",
        3 => "3",
        4 => "4",
        5 => "5",
        6 => "6",
        7 => "7",
        8 => "8",
        _ => "9",
    }
}

/// Write the canonical stem `YYYY-MM-DD_HH.MM.SS` for a timestamp.
pub fn format_stem(ts: &Timestamp) -> (r: String)
    ensures
        r@ == stem_chars(*ts),
{
    let mut out = String::new();
    out.append(digit_str(ts.year / 1000));
    out.append(digit_str(ts.year / 100));
    out.append(digit_str(ts.year / 10));
    out.append(digit_str(ts.year));
    out.append("-");
    out.append(digit_str(ts.month / 10));
    out.append(digit_str(ts.month));
    out.append("-");
    out.append(digit_str(ts.day / 10));
    out.append(digit_str(ts.day));
    out.append("_");
    out.append(digit_str(ts.hour / 10));
    out.append(digit_str(ts.hour));
    out.append(".");
    out.append(digit_str(ts.minute / 10));
    out.append(digit_str(ts.minute));
    out.append(".");
    out.append(digit_str(ts.second / 10));
    out.append(digit_str(ts.second));
    proof {
        reveal_strlit("-");
        reveal_strlit("_");
        reveal_strlit(".");
        assert(out@ =~= stem_chars(*ts));
    }
    out
}

} // verus!
