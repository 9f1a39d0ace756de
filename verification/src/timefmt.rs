//! Textual forms of [`UtcTime`]: the iCalendar `DATE-TIME` form in UTC
//! (`YYYYMMDDTHHMMSSZ`) used by the feed, and the upstream's timestamp form
//! (`YYYY-MM-DDTHH:MM:SS`, with optional fractional seconds, ending in `Z`
//! or an explicit zero offset).

use vstd::prelude::*;
use crate::UtcTime;

verus! {

/// The decimal digit character for `d` (0 through 9).
pub open spec fn digit_char(d: int) -> char {
    if d == 0 {
        '0'
    } else if d == 1 {
        '1'
    } else if d == 2 {
        '2'
    } else if d == 3 {
        '3'
    } else if d == 4 {
        '4'
    } else if d == 5 {
        '5'
    } else if d == 6 {
        '6'
    } else if d == 7 {
        '7'
    } else if d == 8 {
        '8'
    } else {
        '9'
    }
}

/// Whether `c` is a decimal digit character.
pub open spec fn is_digit(c: char) -> bool {
    '0' <= c && c <= '9'
}

/// The value of a decimal digit character; meaningful only when `is_digit`.
pub open spec fn digit_val(c: char) -> int {
    if c == '0' {
        0
    } else if c == '1' {
        1
    } else if c == '2' {
        2
    } else if c == '3' {
        3
    } else if c == '4' {
        4
    } else if c == '5' {
        5
    } else if c == '6' {
        6
    } else if c == '7' {
        7
    } else if c == '8' {
        8
    } else {
        9
    }
}

/// `n` written as exactly two digits, modulo 100.
pub open spec fn two_digits(n: int) -> Seq<char> {
    seq![digit_char((n / 10) % 10), digit_char(n % 10)]
}

/// `n` written as exactly four digits, modulo 10000.
pub open spec fn four_digits(n: int) -> Seq<char> {
    seq![
        digit_char((n / 1000) % 10),
        digit_char((n / 100) % 10),
        digit_char((n / 10) % 10),
        digit_char(n % 10),
    ]
}

/// The iCalendar UTC date-time form of `t`: `YYYYMMDDTHHMMSSZ`.
pub open spec fn fmt_ical_dt(t: UtcTime) -> Seq<char> {
    four_digits(t.year as int) + two_digits(t.month as int) + two_digits(t.day as int)
        + seq!['T'] + two_digits(t.hour as int) + two_digits(t.minute as int)
        + two_digits(t.second as int) + seq!['Z']
}

/// Whether `s` has the shape `YYYYMMDDTHHMMSSZ` with digits in all numeric
/// positions.
pub open spec fn ical_dt_shaped(s: Seq<char>) -> bool {
    s.len() == 16 && s[8] == 'T' && s[15] == 'Z' && forall|i: int|
        (0 <= i < 8 || 9 <= i < 15) ==> is_digit(#[trigger] s[i])
}

/// The time read out of a shaped `YYYYMMDDTHHMMSSZ` string; the components
/// must also lie in the well-formed ranges.
pub open spec fn parse_ical_dt_spec(s: Seq<char>) -> Option<UtcTime> {
    if ical_dt_shaped(s) {
        let t = UtcTime {
            year: (digit_val(s[0]) * 1000 + digit_val(s[1]) * 100 + digit_val(s[2]) * 10
                + digit_val(s[3])) as u16,
            month: (digit_val(s[4]) * 10 + digit_val(s[5])) as u8,
            day: (digit_val(s[6]) * 10 + digit_val(s[7])) as u8,
            hour: (digit_val(s[9]) * 10 + digit_val(s[10])) as u8,
            minute: (digit_val(s[11]) * 10 + digit_val(s[12])) as u8,
            second: (digit_val(s[13]) * 10 + digit_val(s[14])) as u8,
        };
        if t.wf() {
            Option::Some(t)
        } else {
            Option::None
        }
    } else {
        Option::None
    }
}

/// Reading a digit character back gives the digit.
proof fn lemma_digit_roundtrip(d: int)
    requires
        0 <= d < 10,
    ensures
        is_digit(digit_char(d)),
        digit_val(digit_char(d)) == d,
{
}

/// The digit characters of `n < 100` determine `n`.
proof fn lemma_two_digits_value(n: int)
    requires
        0 <= n < 100,
    ensures
        digit_val(two_digits(n)[0]) * 10 + digit_val(two_digits(n)[1]) == n,
        is_digit(two_digits(n)[0]),
        is_digit(two_digits(n)[1]),
{
    lemma_digit_roundtrip((n / 10) % 10);
    lemma_digit_roundtrip(n % 10);
    assert((n / 10) % 10 * 10 + n % 10 == n) by (nonlinear_arith)
        requires
            0 <= n < 100,
    ;
}

/// The digit characters of `n < 10000` determine `n`.
proof fn lemma_four_digits_value(n: int)
    requires
        0 <= n < 10000,
    ensures
        digit_val(four_digits(n)[0]) * 1000 + digit_val(four_digits(n)[1]) * 100 + digit_val(
            four_digits(n)[2],
        ) * 10 + digit_val(four_digits(n)[3]) == n,
        forall|i: int| 0 <= i < 4 ==> is_digit(#[trigger] four_digits(n)[i]),
{
    lemma_digit_roundtrip((n / 1000) % 10);
    lemma_digit_roundtrip((n / 100) % 10);
    lemma_digit_roundtrip((n / 10) % 10);
    lemma_digit_roundtrip(n % 10);
    assert((n / 1000) % 10 * 1000 + (n / 100) % 10 * 100 + (n / 10) % 10 * 10 + n % 10 == n)
        by (nonlinear_arith)
        requires
            0 <= n < 10000,
    ;
}

/// The rendering round-trips: a well-formed time is read back unchanged.
pub proof fn lemma_ical_dt_roundtrip(t: UtcTime)
    requires
        t.wf(),
    ensures
        parse_ical_dt_spec(fmt_ical_dt(t)) == Option::Some(t),
{
    let s = fmt_ical_dt(t);
    lemma_four_digits_value(t.year as int);
    lemma_two_digits_value(t.month as int);
    lemma_two_digits_value(t.day as int);
    lemma_two_digits_value(t.hour as int);
    lemma_two_digits_value(t.minute as int);
    lemma_two_digits_value(t.second as int);
    assert(s =~= seq![
        four_digits(t.year as int)[0],
        four_digits(t.year as int)[1],
        four_digits(t.year as int)[2],
        four_digits(t.year as int)[3],
        two_digits(t.month as int)[0],
        two_digits(t.month as int)[1],
        two_digits(t.day as int)[0],
        two_digits(t.day as int)[1],
        'T',
        two_digits(t.hour as int)[0],
        two_digits(t.hour as int)[1],
        two_digits(t.minute as int)[0],
        two_digits(t.minute as int)[1],
        two_digits(t.second as int)[0],
        two_digits(t.second as int)[1],
        'Z',
    ]);
    assert(ical_dt_shaped(s));
}

/// The digit character for `d`.
pub fn digit_to_char(d: u8) -> (c: char)
    requires
        d < 10,
    ensures
        c == digit_char(d as int),
{
    match d {
        0 => '0',
        1 => '1',
        2 => '2',
        3 => '3',
        4 => '4',
        5 => '5',
        6 => '6',
        7 => '7',
        8 => '8',
        _ => '9',
    }
}

/// The decimal digit characters of `n`, most significant first, without
/// leading zeroes.
pub open spec fn dec_chars(n: nat) -> Seq<char>
    decreases n,
{
    if n < 10 {
        seq![digit_char(n as int)]
    } else {
        dec_chars(n / 10).push(digit_char((n % 10) as int))
    }
}

/// Append `n` in decimal.
pub fn push_dec(acc: &mut String, n: u64)
    ensures
        final(acc)@ == old(acc)@ + dec_chars(n as nat),
    decreases n,
{
    if n < 10 {
        crate::strutil::push_char(acc, digit_to_char(n as u8));
        proof {
            assert(acc@ =~= old(acc)@ + dec_chars(n as nat));
        }
    } else {
        push_dec(acc, n / 10);
        crate::strutil::push_char(acc, digit_to_char((n % 10) as u8));
        proof {
            assert(acc@ =~= old(acc)@ + dec_chars(n as nat));
        }
    }
}

/// Append `n` as two digits.
fn push_two(acc: &mut String, n: u8)
    ensures
        final(acc)@ == old(acc)@ + two_digits(n as int),
{
    crate::strutil::push_char(acc, digit_to_char((n / 10) % 10));
    crate::strutil::push_char(acc, digit_to_char(n % 10));
    proof {
        assert(acc@ =~= old(acc)@ + two_digits(n as int));
    }
}

/// Append `n` as four digits.
fn push_four(acc: &mut String, n: u16)
    ensures
        final(acc)@ == old(acc)@ + four_digits(n as int),
{
    crate::strutil::push_char(acc, digit_to_char(((n / 1000) % 10) as u8));
    crate::strutil::push_char(acc, digit_to_char(((n / 100) % 10) as u8));
    crate::strutil::push_char(acc, digit_to_char(((n / 10) % 10) as u8));
    crate::strutil::push_char(acc, digit_to_char((n % 10) as u8));
    proof {
        assert(acc@ =~= old(acc)@ + four_digits(n as int));
    }
}

/// Render `t` in the iCalendar UTC date-time form.
pub fn format_ical_dt(t: &UtcTime) -> (r: String)
    ensures
        r@ == fmt_ical_dt(*t),
{
    let mut acc = String::new();
    push_four(&mut acc, t.year);
    push_two(&mut acc, t.month);
    push_two(&mut acc, t.day);
    crate::strutil::push_char(&mut acc, 'T');
    push_two(&mut acc, t.hour);
    push_two(&mut acc, t.minute);
    push_two(&mut acc, t.second);
    crate::strutil::push_char(&mut acc, 'Z');
    proof {
        assert(acc@ =~= fmt_ical_dt(*t));
    }
    acc
}

/// The digit value of `c`, when it is a digit.
fn char_digit(c: char) -> (r: Option<u8>)
    ensures
        r is Some <==> is_digit(c),
        r matches Some(d) ==> d < 10 && d as int == digit_val(c),
{
    match c {
        '0' => Option::Some(0),
        '1' => Option::Some(1),
        '2' => Option::Some(2),
        '3' => Option::Some(3),
        '4' => Option::Some(4),
        '5' => Option::Some(5),
        '6' => Option::Some(6),
        '7' => Option::Some(7),
        '8' => Option::Some(8),
        '9' => Option::Some(9),
        _ => Option::None,
    }
}

/// Two digits starting at `i`, read as a number.
fn read_two(s: &str, i: usize) -> (r: Option<u8>)
    requires
        i + 2 <= s@.len() <= usize::MAX,
    ensures
        r is Some <==> is_digit(s@[i as int]) && is_digit(s@[i + 1]),
        r matches Some(v) ==> v < 100 && v as int == digit_val(s@[i as int]) * 10 + digit_val(
            s@[i + 1],
        ),
{
    let a = char_digit(s.get_char(i));
    let b = char_digit(s.get_char(i + 1));
    match (a, b) {
        (Option::Some(x), Option::Some(y)) => Option::Some(x * 10 + y),
        _ => Option::None,
    }
}

/// Four digits starting at `i`, read as a number.
fn read_four(s: &str, i: usize) -> (r: Option<u16>)
    requires
        i + 4 <= s@.len() <= usize::MAX,
    ensures
        r is Some <==> is_digit(s@[i as int]) && is_digit(s@[i + 1]) && is_digit(s@[i + 2])
            && is_digit(s@[i + 3]),
        r matches Some(v) ==> v < 10000 && v as int == digit_val(s@[i as int]) * 1000 + digit_val(
            s@[i + 1],
        ) * 100 + digit_val(s@[i + 2]) * 10 + digit_val(s@[i + 3]),
{
    let a = char_digit(s.get_char(i));
    let b = char_digit(s.get_char(i + 1));
    let c = char_digit(s.get_char(i + 2));
    let d = char_digit(s.get_char(i + 3));
    match (a, b, c, d) {
        (Option::Some(w), Option::Some(x), Option::Some(y), Option::Some(z)) => Option::Some(
            (w as u16) * 1000 + (x as u16) * 100 + (y as u16) * 10 + (z as u16),
        ),
        _ => Option::None,
    }
}

/// The range checks shared by both readers.
fn in_ranges(month: u8, day: u8, hour: u8, minute: u8, second: u8) -> (r: bool)
    ensures
        r == (1 <= month <= 12 && 1 <= day <= 31 && hour <= 23 && minute <= 59 && second <= 59),
{
    1 <= month && month <= 12 && 1 <= day && day <= 31 && hour <= 23 && minute <= 59 && second
        <= 59
}

/// Read an iCalendar UTC date-time back into its components.
pub fn parse_ical_dt(s: &str) -> (r: Option<UtcTime>)
    ensures
        r == parse_ical_dt_spec(s@),
{
    if s.unicode_len() != 16 {
        return Option::None;
    }
    if s.get_char(8) != 'T' || s.get_char(15) != 'Z' {
        return Option::None;
    }
    let year = read_four(s, 0);
    let month = read_two(s, 4);
    let day = read_two(s, 6);
    let hour = read_two(s, 9);
    let minute = read_two(s, 11);
    let second = read_two(s, 13);
    match (year, month, day, hour, minute, second) {
        (
            Option::Some(year),
            Option::Some(month),
            Option::Some(day),
            Option::Some(hour),
            Option::Some(minute),
            Option::Some(second),
        ) => {
            proof {
                assert(ical_dt_shaped(s@));
            }
            let t = UtcTime { year, month, day, hour, minute, second };
            if in_ranges(month, day, hour, minute, second) {
                Option::Some(t)
            } else {
                Option::None
            }
        },
        _ => {
            proof {
                assert(!ical_dt_shaped(s@));
            }
            Option::None
        },
    }
}

/// The UTC designators a timestamp may end with: `Z`, or an explicit zero
/// offset. A non-zero offset is rejected: reading one would need calendar
/// arithmetic to shift the components, and the upstream publishes UTC.
pub open spec fn utc_zone_text(t: Seq<char>) -> bool {
    t == seq!['Z'] || t == seq!['+', '0', '0', ':', '0', '0'] || t == seq![
        '-',
        '0',
        '0',
        ':',
        '0',
        '0',
    ]
}

/// Zero or more digits, then a UTC designator.
pub open spec fn digits_then_zone(t: Seq<char>) -> bool
    decreases t.len(),
{
    if utc_zone_text(t) {
        true
    } else if t.len() > 0 && is_digit(t[0]) {
        digits_then_zone(t.skip(1))
    } else {
        false
    }
}

/// What may follow the seconds: a UTC designator, possibly preceded by a
/// fractional-second part (a dot and at least one digit), which the reading
/// truncates away.
pub open spec fn utc_suffix(t: Seq<char>) -> bool {
    utc_zone_text(t) || (t.len() >= 2 && t[0] == '.' && is_digit(t[1]) && digits_then_zone(
        t.skip(2),
    ))
}

/// Whether `s` has the upstream timestamp shape
/// `YYYY-MM-DDTHH:MM:SS[.digits](Z|+00:00|-00:00)`.
pub open spec fn rfc_dt_shaped(s: Seq<char>) -> bool {
    s.len() >= 20 && s[4] == '-' && s[7] == '-' && s[10] == 'T' && s[13] == ':' && s[16] == ':'
        && utc_suffix(s.skip(19)) && forall|i: int|
        (0 <= i < 4 || i == 5 || i == 6 || i == 8 || i == 9 || i == 11 || i == 12 || i == 14 || i
            == 15 || i == 17 || i == 18) ==> is_digit(#[trigger] s[i])
}

/// The time read out of an upstream `YYYY-MM-DDTHH:MM:SSZ` timestamp; the
/// components must also lie in the well-formed ranges.
pub open spec fn parse_rfc_dt_spec(s: Seq<char>) -> Option<UtcTime> {
    if rfc_dt_shaped(s) {
        let t = UtcTime {
            year: (digit_val(s[0]) * 1000 + digit_val(s[1]) * 100 + digit_val(s[2]) * 10
                + digit_val(s[3])) as u16,
            month: (digit_val(s[5]) * 10 + digit_val(s[6])) as u8,
            day: (digit_val(s[8]) * 10 + digit_val(s[9])) as u8,
            hour: (digit_val(s[11]) * 10 + digit_val(s[12])) as u8,
            minute: (digit_val(s[14]) * 10 + digit_val(s[15])) as u8,
            second: (digit_val(s[17]) * 10 + digit_val(s[18])) as u8,
        };
        if t.wf() {
            Option::Some(t)
        } else {
            Option::None
        }
    } else {
        Option::None
    }
}

/// Whether a UTC designator stands at `k` and ends the text.
fn zone_check(s: &str, k: usize) -> (r: bool)
    requires
        k <= s@.len() <= usize::MAX,
    ensures
        r == utc_zone_text(s@.skip(k as int)),
{
    let n = s.unicode_len();
    let ghost t = s@.skip(k as int);
    if k < n && n - k == 1 && s.get_char(k) == 'Z' {
        proof {
            assert(t =~= seq!['Z']);
        }
        true
    } else if k < n && n - k == 6 && (s.get_char(k) == '+' || s.get_char(k) == '-') && s.get_char(k + 1)
        == '0' && s.get_char(k + 2) == '0' && s.get_char(k + 3) == ':' && s.get_char(k + 4) == '0'
        && s.get_char(k + 5) == '0' {
        proof {
            if s@[k as int] == '+' {
                assert(t =~= seq!['+', '0', '0', ':', '0', '0']);
            } else {
                assert(t =~= seq!['-', '0', '0', ':', '0', '0']);
            }
        }
        true
    } else {
        proof {
            if utc_zone_text(t) {
                if t == seq!['Z'] {
                    assert(t.len() == 1 && t[0] == 'Z');
                    assert(n - k == 1 && s@[k as int] == 'Z');
                } else if t == seq!['+', '0', '0', ':', '0', '0'] {
                    assert(t.len() == 6);
                    assert(t[0] == '+' && t[1] == '0' && t[2] == '0' && t[3] == ':' && t[4] == '0'
                        && t[5] == '0');
                } else {
                    assert(t.len() == 6);
                    assert(t[0] == '-' && t[1] == '0' && t[2] == '0' && t[3] == ':' && t[4] == '0'
                        && t[5] == '0');
                }
            }
        }
        false
    }
}

/// Whether a fractional part and UTC designator stand at `k` and end the
/// text.
fn suffix_check(s: &str, k0: usize) -> (r: bool)
    requires
        k0 <= s@.len() <= usize::MAX,
    ensures
        r == utc_suffix(s@.skip(k0 as int)),
{
    let n = s.unicode_len();
    let ghost t0 = s@.skip(k0 as int);
    if zone_check(s, k0) {
        return true;
    }
    if k0 < n && n - k0 >= 2 && s.get_char(k0) == '.' && char_digit(s.get_char(k0 + 1)).is_some() {
        proof {
            assert(t0[0] == s@[k0 as int]);
            assert(t0[1] == s@[k0 + 1]);
        }
        let mut k: usize = k0 + 2;
        proof {
            assert(s@.skip(k0 + 2) =~= s@.skip(k as int));
        }
        while k < n && char_digit(s.get_char(k)).is_some()
            invariant
                k0 + 2 <= k <= n,
                n == s@.len(),
                digits_then_zone(s@.skip(k0 + 2)) == digits_then_zone(s@.skip(k as int)),
            decreases n - k,
        {
            proof {
                let t = s@.skip(k as int);
                assert(t[0] == s@[k as int]);
                assert(is_digit(t[0]));
                if utc_zone_text(t) {
                    if t == seq!['Z'] {
                        assert(t[0] == 'Z');
                    } else if t == seq!['+', '0', '0', ':', '0', '0'] {
                        assert(t[0] == '+');
                    } else {
                        assert(t[0] == '-');
                    }
                }
                assert(t.skip(1) =~= s@.skip(k + 1));
            }
            k = k + 1;
        }
        let r = zone_check(s, k);
        proof {
            let t = s@.skip(k as int);
            if k == n {
                assert(t =~= Seq::<char>::empty());
                assert(!utc_zone_text(t));
                assert(!digits_then_zone(t));
            } else {
                assert(t[0] == s@[k as int]);
                assert(!is_digit(t[0]));
                assert(digits_then_zone(t) == utc_zone_text(t));
            }
            assert(t0.skip(2) =~= s@.skip(k0 + 2));
            assert(utc_suffix(t0) == digits_then_zone(s@.skip(k0 + 2)));
        }
        r
    } else {
        proof {
            if utc_suffix(t0) {
                assert(t0.len() >= 2 && t0[0] == '.' && is_digit(t0[1]));
                assert(t0[0] == s@[k0 as int]);
                assert(t0[1] == s@[k0 + 1]);
            }
        }
        false
    }
}

/// Read an upstream UTC timestamp into its components. Fractional seconds
/// are truncated; only UTC designators are accepted.
pub fn parse_rfc_dt(s: &str) -> (r: Option<UtcTime>)
    ensures
        r == parse_rfc_dt_spec(s@),
{
    if s.unicode_len() < 20 {
        return Option::None;
    }
    if s.get_char(4) != '-' || s.get_char(7) != '-' || s.get_char(10) != 'T' || s.get_char(13)
        != ':' || s.get_char(16) != ':' {
        return Option::None;
    }
    if !suffix_check(s, 19) {
        return Option::None;
    }
    let year = read_four(s, 0);
    let month = read_two(s, 5);
    let day = read_two(s, 8);
    let hour = read_two(s, 11);
    let minute = read_two(s, 14);
    let second = read_two(s, 17);
    match (year, month, day, hour, minute, second) {
        (
            Option::Some(year),
            Option::Some(month),
            Option::Some(day),
            Option::Some(hour),
            Option::Some(minute),
            Option::Some(second),
        ) => {
            proof {
                assert(rfc_dt_shaped(s@));
            }
            let t = UtcTime { year, month, day, hour, minute, second };
            if in_ranges(month, day, hour, minute, second) {
                Option::Some(t)
            } else {
                Option::None
            }
        },
        _ => {
            proof {
                assert(!rfc_dt_shaped(s@));
            }
            Option::None
        },
    }
}

} // verus!
