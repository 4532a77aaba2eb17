//! Calendar timestamps as they appear, textually, in snapshot names.
//!
//! A snapshot's name embeds its creation time in a sortable textual form
//! (`YYYY-MM-DDTHH:MM:SSZ`). This module gives that time a plain data type, a
//! total numeric key, and verified conversions to and from the textual form,
//! so that catalog entries can be ordered by creation time in-process instead
//! of trusting an external tool's sort order.

use vstd::prelude::*;
use vstd::string::StrSliceExecFns;
use vstd::string::StringExecFns;

verus! {

/// A calendar time, field by field, exactly as a snapshot name spells it.
///
/// Fields are kept in their textual ranges (four digits for the year, two
/// for everything else); no calendar validity beyond that is assumed, since
/// ordering and round-tripping to text need none.
#[derive(Clone, Copy, Debug, PartialEq, Eq, Structural)]
pub struct Timestamp {
    pub year: u32,
    pub month: u32,
    pub day: u32,
    pub hour: u32,
    pub minute: u32,
    pub second: u32,
}

impl Timestamp {
    /// Every field fits the digit width its textual form allots it.
    pub open spec fn wf(self) -> bool {
        self.year <= 9999 && self.month <= 99 && self.day <= 99 && self.hour <= 99
            && self.minute <= 99 && self.second <= 99
    }

    /// A total order key: the fields packed most-significant first, so that
    /// two timestamps compare exactly as their textual forms do.
    pub open spec fn key(self) -> int {
        self.year * 10000000000 + self.month * 100000000 + self.day * 1000000 + self.hour * 10000
            + self.minute * 100 + self.second
    }

    /// The packed key, computed; a `u128` holds it whatever the fields are,
    /// so any two timestamps can be compared.
    pub fn key_u128(&self) -> (k: u128)
        ensures
            k == self.key(),
    {
        self.year as u128 * 10000000000u128 + self.month as u128 * 100000000u128
            + self.day as u128 * 1000000u128 + self.hour as u128 * 10000u128
            + self.minute as u128 * 100u128 + self.second as u128
    }
}

/// The key reads each field back off unchanged: timestamps with equal keys
/// are equal, so distinct creation times always order strictly.
pub proof fn lemma_key_injective(a: Timestamp, b: Timestamp)
    requires
        a.wf(),
        b.wf(),
        a.key() == b.key(),
    ensures
        a == b,
{
    assert(a.year == b.year && a.month == b.month && a.day == b.day && a.hour == b.hour
        && a.minute == b.minute && a.second == b.second) by (nonlinear_arith)
        requires
            a.wf(),
            b.wf(),
            a.key() == b.key(),
    ;
}

/// The scalar value of a decimal digit character.
pub open spec fn digit_val(c: char) -> int {
    c as int - 48
}

/// Whether a character is a decimal digit.
pub open spec fn is_digit(c: char) -> bool {
    48 <= c as int <= 57
}

/// The character that spells a single decimal digit.
pub open spec fn digit_char(d: int) -> char {
    if d == 0 {
        '0'
    } else if d == 1 {
        '1'
    } else if d == 2 {
        '2'
    } else if d == 3 {
        '3'
    } else if d == 4 {
        '4'
    } else if d == 5 {
        '5'
    } else if d == 6 {
        '6'
    } else if d == 7 {
        '7'
    } else if d == 8 {
        '8'
    } else {
        '9'
    }
}

pub proof fn lemma_val_digit_char(c: char)
    requires
        is_digit(c),
    ensures
        digit_char(digit_val(c)) == c,
{
}

/// The tens digit of a two-digit rendering of `n`.
pub open spec fn tens(n: int) -> char {
    digit_char((n / 10) % 10)
}

/// The ones digit of `n`.
pub open spec fn ones(n: int) -> char {
    digit_char(n % 10)
}

/// The thousands digit of a four-digit rendering of `n`.
pub open spec fn thous(n: int) -> char {
    digit_char((n / 1000) % 10)
}

/// The hundreds digit of `n`.
pub open spec fn hunds(n: int) -> char {
    digit_char((n / 100) % 10)
}

/// The textual form of a timestamp: `YYYY-MM-DDTHH:MM:SSZ`, twenty
/// characters, zero-padded, so that the lexicographic order of the text
/// agrees with the order of the packed key.
pub open spec fn spec_rfc3339(t: Timestamp) -> Seq<char> {
    seq![
        thous(t.year as int),
        hunds(t.year as int),
        tens(t.year as int),
        ones(t.year as int),
        '-',
        tens(t.month as int),
        ones(t.month as int),
        '-',
        tens(t.day as int),
        ones(t.day as int),
        'T',
        tens(t.hour as int),
        ones(t.hour as int),
        ':',
        tens(t.minute as int),
        ones(t.minute as int),
        ':',
        tens(t.second as int),
        ones(t.second as int),
        'Z',
    ]
}

/// What a twenty-character timestamp text means, if it is one: digits in the
/// digit positions, the fixed separators in theirs.
pub open spec fn spec_parse_rfc3339(s: Seq<char>) -> Option<Timestamp> {
    if s.len() == 20 && is_digit(s[0]) && is_digit(s[1]) && is_digit(s[2]) && is_digit(s[3]) && s[4]
        == '-' && is_digit(s[5]) && is_digit(s[6]) && s[7] == '-' && is_digit(s[8]) && is_digit(
        s[9],
    ) && s[10] == 'T' && is_digit(s[11]) && is_digit(s[12]) && s[13] == ':' && is_digit(s[14])
        && is_digit(s[15]) && s[16] == ':' && is_digit(s[17]) && is_digit(s[18]) && s[19] == 'Z' {
        Some(
            Timestamp {
                year: (digit_val(s[0]) * 1000 + digit_val(s[1]) * 100 + digit_val(s[2]) * 10
                    + digit_val(s[3])) as u32,
                month: (digit_val(s[5]) * 10 + digit_val(s[6])) as u32,
                day: (digit_val(s[8]) * 10 + digit_val(s[9])) as u32,
                hour: (digit_val(s[11]) * 10 + digit_val(s[12])) as u32,
                minute: (digit_val(s[14]) * 10 + digit_val(s[15])) as u32,
                second: (digit_val(s[17]) * 10 + digit_val(s[18])) as u32,
            },
        )
    } else {
        None
    }
}

/// Formatting a well-formed timestamp and reading the text back yields the
/// same timestamp: the textual form loses nothing.
pub proof fn lemma_format_parse_roundtrip(t: Timestamp)
    requires
        t.wf(),
    ensures
        spec_parse_rfc3339(spec_rfc3339(t)) == Some(t),
{
    let s = spec_rfc3339(t);
    let y = t.year as int;
    let mo = t.month as int;
    let d = t.day as int;
    let h = t.hour as int;
    let mi = t.minute as int;
    let sec = t.second as int;
    assert(((y / 1000) % 10) * 1000 + ((y / 100) % 10) * 100 + ((y / 10) % 10) * 10 + y % 10
        == y) by (nonlinear_arith)
        requires
            0 <= y <= 9999,
    ;
    assert(((mo / 10) % 10) * 10 + mo % 10 == mo) by (nonlinear_arith)
        requires
            0 <= mo <= 99,
    ;
    assert(((d / 10) % 10) * 10 + d % 10 == d) by (nonlinear_arith)
        requires
            0 <= d <= 99,
    ;
    assert(((h / 10) % 10) * 10 + h % 10 == h) by (nonlinear_arith)
        requires
            0 <= h <= 99,
    ;
    assert(((mi / 10) % 10) * 10 + mi % 10 == mi) by (nonlinear_arith)
        requires
            0 <= mi <= 99,
    ;
    assert(((sec / 10) % 10) * 10 + sec % 10 == sec) by (nonlinear_arith)
        requires
            0 <= sec <= 99,
    ;
    assert(spec_parse_rfc3339(s) == Some(t));
}

/// A text that parses as a timestamp is exactly that timestamp's formatted
/// form, and the timestamp is well-formed: timestamp texts and timestamps
/// correspond one to one.
pub proof fn lemma_parse_determines_text(s: Seq<char>, t: Timestamp)
    requires
        spec_parse_rfc3339(s) == Some(t),
    ensures
        t.wf(),
        s =~= spec_rfc3339(t),
{
    let y = t.year as int;
    let mo = t.month as int;
    let d = t.day as int;
    let h = t.hour as int;
    let mi = t.minute as int;
    let sec = t.second as int;
    assert(y == digit_val(s[0]) * 1000 + digit_val(s[1]) * 100 + digit_val(s[2]) * 10 + digit_val(
        s[3],
    ));
    assert((y / 1000) % 10 == digit_val(s[0]) && (y / 100) % 10 == digit_val(s[1]) && (y / 10) % 10
        == digit_val(s[2]) && y % 10 == digit_val(s[3])) by (nonlinear_arith)
        requires
            y == digit_val(s[0]) * 1000 + digit_val(s[1]) * 100 + digit_val(s[2]) * 10 + digit_val(
                s[3],
            ),
            0 <= digit_val(s[0]) <= 9,
            0 <= digit_val(s[1]) <= 9,
            0 <= digit_val(s[2]) <= 9,
            0 <= digit_val(s[3]) <= 9,
    ;
    assert((mo / 10) % 10 == digit_val(s[5]) && mo % 10 == digit_val(s[6])) by (nonlinear_arith)
        requires
            mo == digit_val(s[5]) * 10 + digit_val(s[6]),
            0 <= digit_val(s[5]) <= 9,
            0 <= digit_val(s[6]) <= 9,
    ;
    assert((d / 10) % 10 == digit_val(s[8]) && d % 10 == digit_val(s[9])) by (nonlinear_arith)
        requires
            d == digit_val(s[8]) * 10 + digit_val(s[9]),
            0 <= digit_val(s[8]) <= 9,
            0 <= digit_val(s[9]) <= 9,
    ;
    assert((h / 10) % 10 == digit_val(s[11]) && h % 10 == digit_val(s[12])) by (nonlinear_arith)
        requires
            h == digit_val(s[11]) * 10 + digit_val(s[12]),
            0 <= digit_val(s[11]) <= 9,
            0 <= digit_val(s[12]) <= 9,
    ;
    assert((mi / 10) % 10 == digit_val(s[14]) && mi % 10 == digit_val(s[15])) by (nonlinear_arith)
        requires
            mi == digit_val(s[14]) * 10 + digit_val(s[15]),
            0 <= digit_val(s[14]) <= 9,
            0 <= digit_val(s[15]) <= 9,
    ;
    assert((sec / 10) % 10 == digit_val(s[17]) && sec % 10 == digit_val(s[18])) by (nonlinear_arith)
        requires
            sec == digit_val(s[17]) * 10 + digit_val(s[18]),
            0 <= digit_val(s[17]) <= 9,
            0 <= digit_val(s[18]) <= 9,
    ;
    lemma_val_digit_char(s[0]);
    lemma_val_digit_char(s[1]);
    lemma_val_digit_char(s[2]);
    lemma_val_digit_char(s[3]);
    lemma_val_digit_char(s[5]);
    lemma_val_digit_char(s[6]);
    lemma_val_digit_char(s[8]);
    lemma_val_digit_char(s[9]);
    lemma_val_digit_char(s[11]);
    lemma_val_digit_char(s[12]);
    lemma_val_digit_char(s[14]);
    lemma_val_digit_char(s[15]);
    lemma_val_digit_char(s[17]);
    lemma_val_digit_char(s[18]);
}

/// Appends the character that spells the single decimal digit `d`.
fn push_digit(s: &mut String, d: u32)
    requires
        d <= 9,
    ensures
        final(s)@ == old(s)@ + seq![digit_char(d as int)],
{
    let part: &str = if d == 0 {
        "0"
    } else if d == 1 {
        "1"
    } else if d == 2 {
        "2"
    } else if d == 3 {
        "3"
    } else if d == 4 {
        "4"
    } else if d == 5 {
        "5"
    } else if d == 6 {
        "6"
    } else if d == 7 {
        "7"
    } else if d == 8 {
        "8"
    } else {
        "9"
    };
    proof {
        reveal_strlit("0");
        reveal_strlit("1");
        reveal_strlit("2");
        reveal_strlit("3");
        reveal_strlit("4");
        reveal_strlit("5");
        reveal_strlit("6");
        reveal_strlit("7");
        reveal_strlit("8");
        reveal_strlit("9");
    }
    s.append(part);
}

/// Appends `n` as two zero-padded decimal digits.
fn push_two_digits(s: &mut String, n: u32)
    requires
        n <= 99,
    ensures
        final(s)@ == old(s)@ + seq![tens(n as int), ones(n as int)],
{
    push_digit(s, (n / 10) % 10);
    push_digit(s, n % 10);
}

/// Renders a well-formed timestamp in its textual form.
pub fn rfc3339_string(t: &Timestamp) -> (r: String)
    requires
        t.wf(),
    ensures
        r@ =~= spec_rfc3339(*t),
{
    let mut r = String::new();
    push_digit(&mut r, (t.year / 1000) % 10);
    push_digit(&mut r, (t.year / 100) % 10);
    push_digit(&mut r, (t.year / 10) % 10);
    push_digit(&mut r, t.year % 10);
    r.append("-");
    push_two_digits(&mut r, t.month);
    r.append("-");
    push_two_digits(&mut r, t.day);
    r.append("T");
    push_two_digits(&mut r, t.hour);
    r.append(":");
    push_two_digits(&mut r, t.minute);
    r.append(":");
    push_two_digits(&mut r, t.second);
    r.append("Z");
    proof {
        reveal_strlit("-");
        reveal_strlit("T");
        reveal_strlit(":");
        reveal_strlit("Z");
    }
    r
}

/// Reads the two-digit decimal number at positions `i` and `i + 1`, if both
/// positions hold digits.
fn read_two_digits(s: &str, i: usize) -> (r: Option<u32>)
    requires
        i + 2 <= s@.len(),
        i + 2 <= usize::MAX,
    ensures
        r == if is_digit(s@[i as int]) && is_digit(s@[i + 1]) {
            Some((digit_val(s@[i as int]) * 10 + digit_val(s@[i + 1])) as u32)
        } else {
            None::<u32>
        },
{
    let c0 = s.get_char(i) as u32;
    let c1 = s.get_char(i + 1) as u32;
    if 48 <= c0 && c0 <= 57 && 48 <= c1 && c1 <= 57 {
        Some((c0 - 48) * 10 + (c1 - 48))
    } else {
        None
    }
}

/// Parses a timestamp out of its textual form; returns nothing unless the
/// text is exactly a twenty-character `YYYY-MM-DDTHH:MM:SSZ`.
pub fn parse_rfc3339(s: &str) -> (r: Option<Timestamp>)
    ensures
        r == spec_parse_rfc3339(s@),
{
    if s.unicode_len() != 20 {
        return None;
    }
    let hi = match read_two_digits(s, 0) {
        Some(v) => v,
        None => { return None; },
    };
    let lo = match read_two_digits(s, 2) {
        Some(v) => v,
        None => { return None; },
    };
    let year: u32 = hi * 100 + lo;
    let month = match read_two_digits(s, 5) {
        Some(v) => v,
        None => { return None; },
    };
    let day = match read_two_digits(s, 8) {
        Some(v) => v,
        None => { return None; },
    };
    let hour = match read_two_digits(s, 11) {
        Some(v) => v,
        None => { return None; },
    };
    let minute = match read_two_digits(s, 14) {
        Some(v) => v,
        None => { return None; },
    };
    let second = match read_two_digits(s, 17) {
        Some(v) => v,
        None => { return None; },
    };
    if s.get_char(4) == '-' && s.get_char(7) == '-' && s.get_char(10) == 'T' && s.get_char(13)
        == ':' && s.get_char(16) == ':' && s.get_char(19) == 'Z' {
        Some(Timestamp { year, month, day, hour, minute, second })
    } else {
        None
    }
}

} // verus!
