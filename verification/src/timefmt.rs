//! Timestamps as Unix seconds, formatted to and parsed from the two text
//! forms the store meets on disk: the canonical RFC 3339 UTC form
//! `YYYY-MM-DDTHH:MM:SSZ` that the store writes, and the engine default
//! `YYYY-MM-DD HH:MM:SS`.

use vstd::prelude::*;

use crate::text::{chars_to_string, str_to_chars};

verus! {

/// The largest Unix second the formatter accepts:
/// 9999-12-31T23:59:59Z.
pub const MAX_UNIX_SECONDS: i64 = 253_402_300_799;

/// Is `y` a leap year of the proleptic Gregorian calendar?
pub open spec fn is_leap(y: int) -> bool {
    y % 4 == 0 && (y % 100 != 0 || y % 400 == 0)
}

/// Days in year `y`.
pub open spec fn year_len(y: int) -> int {
    if is_leap(y) {
        366
    } else {
        365
    }
}

/// Days in month `m` (1-based) of year `y`.
pub open spec fn month_len(y: int, m: int) -> int {
    if m == 2 {
        if is_leap(y) {
            29
        } else {
            28
        }
    } else if m == 4 || m == 6 || m == 9 || m == 11 {
        30
    } else {
        31
    }
}

/// Days from 1970-01-01 to January 1st of year `y` (for `y >= 1970`).
pub open spec fn days_to_year(y: int) -> int
    decreases y - 1970,
{
    if y <= 1970 {
        0
    } else {
        days_to_year(y - 1) + year_len(y - 1)
    }
}

/// Days from January 1st to the first of month `m` (1-based) in year `y`.
pub open spec fn days_to_month(y: int, m: int) -> int
    decreases m,
{
    if m <= 1 {
        0
    } else {
        days_to_month(y, m - 1) + month_len(y, m - 1)
    }
}

/// Days from 1970-01-01 to the civil date `y-m-d` (for `y >= 1970`).
pub open spec fn days_from_civil(y: int, m: int, d: int) -> int {
    days_to_year(y) + days_to_month(y, m) + d - 1
}

/// The year holding day `z` counted from January 1st of year `y`, and
/// the remaining day-of-year; `z` must be non-negative.
pub open spec fn year_of_day(z: int, y: int) -> (int, int)
    decreases z,
{
    if z < year_len(y) {
        (y, z)
    } else {
        year_of_day(z - year_len(y), y + 1)
    }
}

/// The month (1-based) holding day-of-year `doy` in year `y`, counted
/// from month `m`, and the remaining day-of-month.
pub open spec fn month_of_day(y: int, doy: int, m: int) -> (int, int)
    decreases 12 - m,
{
    if m >= 12 || doy < month_len(y, m) {
        (m, doy)
    } else {
        month_of_day(y, doy - month_len(y, m), m + 1)
    }
}

/// Civil date `(year, month, day)` for a non-negative count of days
/// since 1970-01-01.
pub open spec fn civil_from_days(z: int) -> (int, int, int) {
    let y = year_of_day(z, 1970).0;
    let doy = year_of_day(z, 1970).1;
    let m = month_of_day(y, doy, 1).0;
    let dm = month_of_day(y, doy, 1).1;
    (y, m, dm + 1)
}

/// Lexicographic order on character sequences; for the fixed-width
/// ASCII timestamp texts the store writes it matches the engine's
/// BINARY collation.
pub open spec fn lex_le(a: Seq<char>, b: Seq<char>) -> bool
    decreases a.len(),
{
    if a.len() == 0 {
        true
    } else if b.len() == 0 {
        false
    } else if a[0] != b[0] {
        (a[0] as int) < (b[0] as int)
    } else {
        lex_le(a.drop_first(), b.drop_first())
    }
}

/// The decimal digit character for `d % 10`.
pub open spec fn digit_char(d: int) -> char {
    ((48 + (d % 10)) as u8) as char
}

/// Two decimal digit characters of `n`, zero padded, low two digits.
pub open spec fn pad2(n: int) -> Seq<char> {
    seq![digit_char(n / 10), digit_char(n)]
}

/// Four decimal digit characters of `n`, zero padded, low four digits.
pub open spec fn pad4(n: int) -> Seq<char> {
    seq![digit_char(n / 1000), digit_char(n / 100), digit_char(n / 10), digit_char(n)]
}

/// The canonical RFC 3339 UTC text for a non-negative Unix second:
/// `YYYY-MM-DDTHH:MM:SSZ`.
pub open spec fn rfc3339_of(t: int) -> Seq<char> {
    let z = t / 86400;
    let sod = t % 86400;
    let y = civil_from_days(z).0;
    let m = civil_from_days(z).1;
    let d = civil_from_days(z).2;
    pad4(y) + seq!['-'] + pad2(m) + seq!['-'] + pad2(d) + seq!['T'] + pad2(sod / 3600) + seq![':']
        + pad2((sod / 60) % 60) + seq![':'] + pad2(sod % 60) + seq!['Z']
}

/// Append the decimal digit character of `n % 10`.
fn push_digit(out: &mut Vec<char>, n: i64)
    requires
        n >= 0,
    ensures
        final(out)@ == old(out)@.push(digit_char(n as int)),
{
    let digit: u8 = (n % 10) as u8;
    out.push((48 + digit) as char);
}

/// Days in year `y`.
fn year_len_exec(y: i64) -> (r: i64)
    requires
        y >= 0,
    ensures
        r == year_len(y as int),
        365 <= r <= 366,
{
    let leap = y % 4 == 0 && (y % 100 != 0 || y % 400 == 0);
    if leap {
        366
    } else {
        365
    }
}

/// Days in month `m` (1-based) of year `y`.
fn month_len_exec(y: i64, m: i64) -> (r: i64)
    requires
        y >= 0,
    ensures
        r == month_len(y as int, m as int),
        28 <= r <= 31,
{
    if m == 2 {
        let leap = y % 4 == 0 && (y % 100 != 0 || y % 400 == 0);
        if leap {
            29
        } else {
            28
        }
    } else if m == 4 || m == 6 || m == 9 || m == 11 {
        30
    } else {
        31
    }
}

/// Format a Unix second as canonical RFC 3339 UTC text.
#[verifier::rlimit(100)]
pub fn format_rfc3339(t: i64) -> (r: String)
    requires
        0 <= t <= MAX_UNIX_SECONDS,
    ensures
        r@ == rfc3339_of(t as int),
{
    let z: i64 = t / 86400;
    let sod: i64 = t % 86400;

    let mut doy: i64 = z;
    let mut y: i64 = 1970;
    while doy >= year_len_exec(y)
        invariant
            0 <= doy <= z <= 2932896,
            1970 <= y,
            y - 1970 + doy <= z,
            year_of_day(z as int, 1970) == year_of_day(doy as int, y as int),
        decreases doy,
    {
        doy = doy - year_len_exec(y);
        y = y + 1;
    }
    proof {
        assert(year_of_day(doy as int, y as int) == (y as int, doy as int));
        assert(civil_from_days(z as int).0 == y as int);
    }

    let mut dm: i64 = doy;
    let mut m: i64 = 1;
    while m < 12 && dm >= month_len_exec(y, m)
        invariant
            0 <= dm <= doy <= 2932896,
            1 <= m <= 12,
            1970 <= y,
            month_of_day(y as int, doy as int, 1) == month_of_day(y as int, dm as int, m as int),
        decreases 12 - m,
    {
        dm = dm - month_len_exec(y, m);
        m = m + 1;
    }
    proof {
        assert(month_of_day(y as int, dm as int, m as int) == (m as int, dm as int));
    }
    let d: i64 = dm + 1;

    let hh: i64 = sod / 3600;
    let mi: i64 = (sod / 60) % 60;
    let ss: i64 = sod % 60;

    let mut out: Vec<char> = Vec::new();
    push_digit(&mut out, y / 1000);
    push_digit(&mut out, y / 100);
    push_digit(&mut out, y / 10);
    push_digit(&mut out, y);
    out.push('-');
    push_digit(&mut out, m / 10);
    push_digit(&mut out, m);
    out.push('-');
    push_digit(&mut out, d / 10);
    push_digit(&mut out, d);
    out.push('T');
    push_digit(&mut out, hh / 10);
    push_digit(&mut out, hh);
    out.push(':');
    push_digit(&mut out, mi / 10);
    push_digit(&mut out, mi);
    out.push(':');
    push_digit(&mut out, ss / 10);
    push_digit(&mut out, ss);
    out.push('Z');
    proof {
        assert(out@ =~= rfc3339_of(t as int));
    }
    chars_to_string(&out)
}

/// The value of a decimal digit character, or none.
pub open spec fn is_digit(s: Seq<char>, i: int) -> bool {
    '0' <= s[i] && s[i] <= '9'
}

/// The number read from two digit characters at `i` and `i + 1`.
pub open spec fn num2(s: Seq<char>, i: int) -> int {
    (s[i] as int - 48) * 10 + (s[i + 1] as int - 48)
}

/// The number read from four digit characters starting at `i`.
pub open spec fn num4(s: Seq<char>, i: int) -> int {
    (s[i] as int - 48) * 1000 + (s[i + 1] as int - 48) * 100 + (s[i + 2] as int - 48) * 10 + (
    s[i + 3] as int - 48)
}

/// Does `s` carry a date-time in the shape `YYYY-MM-DD HH:MM:SS`, with
/// `sep` between date and time, and (when `zulu` is set) a trailing `Z`?
pub open spec fn timestamp_shape(s: Seq<char>, sep: char, zulu: bool) -> bool {
    &&& s.len() == (if zulu { 20int } else { 19int })
    &&& is_digit(s, 0) && is_digit(s, 1) && is_digit(s, 2) && is_digit(s, 3)
    &&& s[4] == '-'
    &&& is_digit(s, 5) && is_digit(s, 6)
    &&& s[7] == '-'
    &&& is_digit(s, 8) && is_digit(s, 9)
    &&& s[10] == sep
    &&& is_digit(s, 11) && is_digit(s, 12)
    &&& s[13] == ':'
    &&& is_digit(s, 14) && is_digit(s, 15)
    &&& s[16] == ':'
    &&& is_digit(s, 17) && is_digit(s, 18)
    &&& (zulu ==> s[19] == 'Z')
}

/// Are parsed timestamp fields within the civil ranges the parser
/// accepts?
pub open spec fn fields_in_range(y: int, mo: int, d: int, h: int, mi: int, ss: int) -> bool {
    1970 <= y && 1 <= mo <= 12 && 1 <= d <= 31 && h <= 23 && mi <= 59 && ss <= 59
}

/// The Unix second carried by a text in one of the two accepted shapes,
/// or none.
pub open spec fn spec_parse_timestamp(s: Seq<char>) -> Option<int> {
    let sep_ok = timestamp_shape(s, 'T', true) || timestamp_shape(s, ' ', false);
    if sep_ok {
        let y = num4(s, 0);
        let mo = num2(s, 5);
        let d = num2(s, 8);
        let h = num2(s, 11);
        let mi = num2(s, 14);
        let ss = num2(s, 17);
        if fields_in_range(y, mo, d, h, mi, ss) {
            Some(days_from_civil(y, mo, d) * 86400 + h * 3600 + mi * 60 + ss)
        } else {
            None
        }
    } else {
        None
    }
}

/// The year split balances: the found year is at or past the start,
/// the day-of-year fits its year, and the day count is preserved.
proof fn lemma_year_of_day_props(z: int, y: int)
    requires
        0 <= z,
        1970 <= y,
    ensures
        y <= year_of_day(z, y).0,
        0 <= year_of_day(z, y).1 < year_len(year_of_day(z, y).0),
        days_to_year(year_of_day(z, y).0) == days_to_year(y) + z - year_of_day(z, y).1,
    decreases z,
{
    if z < year_len(y) {
    } else {
        lemma_year_of_day_props(z - year_len(y), y + 1);
        assert(days_to_year(y + 1) == days_to_year(y) + year_len(y));
    }
}

/// The twelve months sum to the year's length.
proof fn lemma_months_sum(y: int)
    ensures
        days_to_month(y, 13) == year_len(y),
{
    assert(days_to_month(y, 1) == 0);
    assert(days_to_month(y, 2) == 31);
    assert(days_to_month(y, 3) == days_to_month(y, 2) + month_len(y, 2));
    assert(days_to_month(y, 4) == days_to_month(y, 3) + 31);
    assert(days_to_month(y, 5) == days_to_month(y, 4) + 30);
    assert(days_to_month(y, 6) == days_to_month(y, 5) + 31);
    assert(days_to_month(y, 7) == days_to_month(y, 6) + 30);
    assert(days_to_month(y, 8) == days_to_month(y, 7) + 31);
    assert(days_to_month(y, 9) == days_to_month(y, 8) + 31);
    assert(days_to_month(y, 10) == days_to_month(y, 9) + 30);
    assert(days_to_month(y, 11) == days_to_month(y, 10) + 31);
    assert(days_to_month(y, 12) == days_to_month(y, 11) + 30);
    assert(days_to_month(y, 13) == days_to_month(y, 12) + 31);
}

/// The month split balances: the found month is in range, the
/// day-of-month fits its month, and the day count is preserved.
proof fn lemma_month_of_day_props(y: int, doy: int, m: int)
    requires
        1 <= m <= 12,
        0 <= doy,
        days_to_month(y, m) + doy < days_to_month(y, 13),
    ensures
        m <= month_of_day(y, doy, m).0 <= 12,
        0 <= month_of_day(y, doy, m).1 < month_len(y, month_of_day(y, doy, m).0),
        days_to_month(y, month_of_day(y, doy, m).0) == days_to_month(y, m) + doy - month_of_day(
            y,
            doy,
            m,
        ).1,
    decreases 12 - m,
{
    if m >= 12 || doy < month_len(y, m) {
        if m >= 12 {
            assert(days_to_month(y, 13) == days_to_month(y, 12) + month_len(y, 12));
        }
    } else {
        assert(days_to_month(y, m + 1) == days_to_month(y, m) + month_len(y, m));
        lemma_month_of_day_props(y, doy - month_len(y, m), m + 1);
    }
}

/// Later years lie at or past earlier ones.
proof fn lemma_days_to_year_mono(a: int, b: int)
    requires
        1970 <= a <= b,
    ensures
        days_to_year(a) + 365 * (b - a) <= days_to_year(b),
    decreases b - a,
{
    if a < b {
        lemma_days_to_year_mono(a, b - 1);
        assert(days_to_year(b) == days_to_year(b - 1) + year_len(b - 1));
    }
}

/// Crossing a multiple of `k` bumps the quotient by one.
proof fn lemma_div_step(n: int, k: int)
    requires
        k > 0,
    ensures
        n / k - (n - 1) / k == (if n % k == 0 {
            1int
        } else {
            0int
        }),
{
    assert(n / k - (n - 1) / k == (if n % k == 0 {
        1int
    } else {
        0int
    })) by (nonlinear_arith)
        requires
            k > 0,
    ;
}

/// Divisibility by a century implies divisibility by four, and by four
/// centuries implies by one.
proof fn lemma_mod_chain(n: int)
    ensures
        n % 100 == 0 ==> n % 4 == 0,
        n % 400 == 0 ==> n % 100 == 0,
{
    assert(n % 100 == 0 ==> n % 4 == 0) by (nonlinear_arith);
    assert(n % 400 == 0 ==> n % 100 == 0) by (nonlinear_arith);
}

/// The closed count of days to a year: 365 a year plus the leap days.
proof fn lemma_days_to_year_exact(y: int)
    requires
        1970 <= y,
    ensures
        days_to_year(y) == 365 * (y - 1970) + ((y - 1) / 4 - 492) - ((y - 1) / 100 - 19) + ((y
            - 1) / 400 - 4),
    decreases y - 1970,
{
    if y == 1970 {
        assert(1969int / 4 == 492 && 1969int / 100 == 19 && 1969int / 400 == 4);
    } else {
        lemma_days_to_year_exact(y - 1);
        let n = y - 1;
        lemma_div_step(n, 4);
        lemma_div_step(n, 100);
        lemma_div_step(n, 400);
        lemma_mod_chain(n);
        assert(days_to_year(y) == days_to_year(n) + year_len(n));
    }
}

/// Splitting a day count into a civil date and recombining it gives the
/// day count back, with every field in its range.
pub proof fn lemma_civil_inverse(z: int)
    requires
        0 <= z <= 2932896,
    ensures
        1970 <= civil_from_days(z).0 <= 9999,
        1 <= civil_from_days(z).1 <= 12,
        1 <= civil_from_days(z).2 <= 31,
        days_from_civil(civil_from_days(z).0, civil_from_days(z).1, civil_from_days(z).2) == z,
{
    lemma_year_of_day_props(z, 1970);
    let y = year_of_day(z, 1970).0;
    let doy = year_of_day(z, 1970).1;
    lemma_months_sum(y);
    assert(days_to_month(y, 1) == 0);
    lemma_month_of_day_props(y, doy, 1);
    if y >= 10000 {
        lemma_days_to_year_mono(10000, y);
        lemma_days_to_year_exact(10000);
        assert(9999int / 4 == 2499 && 9999int / 100 == 99 && 9999int / 400 == 24);
        assert(days_to_year(10000) == 2932897);
        assert(days_to_year(y) <= z);
        assert(false);
    }
}

/// Formatting a Unix second and parsing the text back gives the second
/// again: the store's written timestamps carry exactly the instants
/// they were written with.
pub proof fn lemma_rfc3339_roundtrip(t: int)
    requires
        0 <= t <= MAX_UNIX_SECONDS,
    ensures
        spec_parse_timestamp(rfc3339_of(t)) == Some(t),
{
    let s = rfc3339_of(t);
    let z = t / 86400;
    let sod = t % 86400;
    assert(0 <= sod < 86400);
    assert(z <= 2932896) by {
        assert(2932897 * 86400 > MAX_UNIX_SECONDS);
    }
    lemma_civil_inverse(z);
    let y = civil_from_days(z).0;
    let m = civil_from_days(z).1;
    let d = civil_from_days(z).2;
    let hh = sod / 3600;
    let mi = (sod / 60) % 60;
    let ss = sod % 60;
    assert(0 <= hh <= 23);
    assert(0 <= mi <= 59) by {
        assert((sod / 60) % 60 < 60);
    }
    assert(0 <= ss <= 59);

    assert(s.len() == 20);
    assert(s[0] == digit_char(y / 1000));
    assert(s[1] == digit_char(y / 100));
    assert(s[2] == digit_char(y / 10));
    assert(s[3] == digit_char(y));
    assert(s[4] == '-');
    assert(s[5] == digit_char(m / 10));
    assert(s[6] == digit_char(m));
    assert(s[7] == '-');
    assert(s[8] == digit_char(d / 10));
    assert(s[9] == digit_char(d));
    assert(s[10] == 'T');
    assert(s[11] == digit_char(hh / 10));
    assert(s[12] == digit_char(hh));
    assert(s[13] == ':');
    assert(s[14] == digit_char(mi / 10));
    assert(s[15] == digit_char(mi));
    assert(s[16] == ':');
    assert(s[17] == digit_char(ss / 10));
    assert(s[18] == digit_char(ss));
    assert(s[19] == 'Z');

    lemma_digit_char_reads(y / 1000);
    lemma_digit_char_reads(y / 100);
    lemma_digit_char_reads(y / 10);
    lemma_digit_char_reads(y);
    lemma_digit_char_reads(m / 10);
    lemma_digit_char_reads(m);
    lemma_digit_char_reads(d / 10);
    lemma_digit_char_reads(d);
    lemma_digit_char_reads(hh / 10);
    lemma_digit_char_reads(hh);
    lemma_digit_char_reads(mi / 10);
    lemma_digit_char_reads(mi);
    lemma_digit_char_reads(ss / 10);
    lemma_digit_char_reads(ss);

    assert(timestamp_shape(s, 'T', true));
    assert(!timestamp_shape(s, ' ', false));

    assert(num4(s, 0) == y) by {
        lemma_four_digits(y);
    }
    assert(num2(s, 5) == m) by {
        lemma_two_digits(m);
    }
    assert(num2(s, 8) == d) by {
        lemma_two_digits(d);
    }
    assert(num2(s, 11) == hh) by {
        lemma_two_digits(hh);
    }
    assert(num2(s, 14) == mi) by {
        lemma_two_digits(mi);
    }
    assert(num2(s, 17) == ss) by {
        lemma_two_digits(ss);
    }
    assert(fields_in_range(y, m, d, hh, mi, ss));

    assert(hh * 3600 + mi * 60 + ss == sod) by {
        lemma_seconds_split(sod);
    }
    assert(z * 86400 + sod == t);
    assert(spec_parse_timestamp(s) == Some(days_from_civil(y, m, d) * 86400 + hh * 3600 + mi * 60
        + ss));
}

/// A digit character reads back as its digit.
proof fn lemma_digit_char_reads(n: int)
    requires
        n >= 0,
    ensures
        '0' <= digit_char(n) && digit_char(n) <= '9',
        digit_char(n) as int == 48 + n % 10,
{
}

/// A number of at most four digits is its digit expansion.
proof fn lemma_four_digits(n: int)
    requires
        0 <= n <= 9999,
    ensures
        (n / 1000) % 10 * 1000 + (n / 100) % 10 * 100 + (n / 10) % 10 * 10 + n % 10 == n,
{
    assert((n / 1000) % 10 * 1000 + (n / 100) % 10 * 100 + (n / 10) % 10 * 10 + n % 10 == n)
        by (nonlinear_arith)
        requires
            0 <= n <= 9999,
    ;
}

/// A number of at most two digits is its digit expansion.
proof fn lemma_two_digits(n: int)
    requires
        0 <= n <= 99,
    ensures
        (n / 10) % 10 * 10 + n % 10 == n,
{
    assert((n / 10) % 10 * 10 + n % 10 == n) by (nonlinear_arith)
        requires
            0 <= n <= 99,
    ;
}

/// A day's seconds split into hours, minutes and seconds and recombine.
proof fn lemma_seconds_split(sod: int)
    requires
        0 <= sod < 86400,
    ensures
        (sod / 3600) * 3600 + ((sod / 60) % 60) * 60 + sod % 60 == sod,
{
    assert((sod / 3600) * 3600 + ((sod / 60) % 60) * 60 + sod % 60 == sod) by (nonlinear_arith)
        requires
            0 <= sod < 86400,
    ;
}

/// A shared first character drops out of a lexicographic comparison.
proof fn lemma_lex_cons(c: char, x: Seq<char>, y: Seq<char>)
    ensures
        lex_le(seq![c] + x, seq![c] + y) == lex_le(x, y),
{
    assert((seq![c] + x).len() > 0);
    assert((seq![c] + x)[0] == c);
    assert((seq![c] + y)[0] == c);
    assert((seq![c] + x).drop_first() =~= x);
    assert((seq![c] + y).drop_first() =~= y);
}

/// Sequences that open with different characters compare by those
/// characters.
proof fn lemma_lex_diff(x: Seq<char>, y: Seq<char>)
    requires
        x.len() > 0,
        y.len() > 0,
        x[0] != y[0],
    ensures
        lex_le(x, y) == ((x[0] as int) < (y[0] as int)),
{
}

/// Two zero-padded digits and a tail compare by the value modulo 100
/// first and the tails after.
proof fn lemma_pad2_lex(a: int, b: int, ra: Seq<char>, rb: Seq<char>)
    requires
        a >= 0,
        b >= 0,
    ensures
        lex_le(pad2(a) + ra, pad2(b) + rb) == (if a % 100 != b % 100 {
            a % 100 < b % 100
        } else {
            lex_le(ra, rb)
        }),
{
    let a1 = (a / 10) % 10;
    let a0 = a % 10;
    let b1 = (b / 10) % 10;
    let b0 = b % 10;
    assert(digit_char(a / 10) == digit_char(a1) && digit_char(a) == digit_char(a0)
        && digit_char(b / 10) == digit_char(b1) && digit_char(b) == digit_char(b0));
    assert(a % 100 == a1 * 10 + a0) by (nonlinear_arith)
        requires
            a >= 0,
            a1 == (a / 10) % 10,
            a0 == a % 10,
    ;
    assert(b % 100 == b1 * 10 + b0) by (nonlinear_arith)
        requires
            b >= 0,
            b1 == (b / 10) % 10,
            b0 == b % 10,
    ;
    assert(pad2(a) + ra =~= seq![digit_char(a1)] + (seq![digit_char(a0)] + ra));
    assert(pad2(b) + rb =~= seq![digit_char(b1)] + (seq![digit_char(b0)] + rb));
    if a1 != b1 {
        assert(digit_char(a1) != digit_char(b1));
        lemma_lex_diff(pad2(a) + ra, pad2(b) + rb);
    } else {
        lemma_lex_cons(digit_char(a1), seq![digit_char(a0)] + ra, seq![digit_char(b0)] + rb);
        if a0 != b0 {
            assert(digit_char(a0) != digit_char(b0));
            lemma_lex_diff(seq![digit_char(a0)] + ra, seq![digit_char(b0)] + rb);
        } else {
            lemma_lex_cons(digit_char(a0), ra, rb);
        }
    }
}

/// Four zero-padded digits split into two zero-padded pairs.
proof fn lemma_pad4_split(n: int)
    requires
        n >= 0,
    ensures
        pad4(n) =~= pad2(n / 100) + pad2(n),
{
    assert((n / 100) / 10 == n / 1000) by (nonlinear_arith)
        requires
            n >= 0,
    ;
}

/// Four zero-padded digits and a tail compare by the value first (for
/// values within four digits) and the tails after.
proof fn lemma_pad4_lex(a: int, b: int, ra: Seq<char>, rb: Seq<char>)
    requires
        0 <= a <= 9999,
        0 <= b <= 9999,
    ensures
        lex_le(pad4(a) + ra, pad4(b) + rb) == (if a != b {
            a < b
        } else {
            lex_le(ra, rb)
        }),
{
    lemma_pad4_split(a);
    lemma_pad4_split(b);
    assert(pad4(a) + ra =~= pad2(a / 100) + (pad2(a) + ra));
    assert(pad4(b) + rb =~= pad2(b / 100) + (pad2(b) + rb));
    lemma_pad2_lex(a / 100, b / 100, pad2(a) + ra, pad2(b) + rb);
    assert((a / 100) % 100 == a / 100 && (b / 100) % 100 == b / 100);
    if a / 100 == b / 100 {
        lemma_pad2_lex(a, b, ra, rb);
        assert(a == (a / 100) * 100 + a % 100) by (nonlinear_arith)
            requires
                a >= 0,
        ;
        assert(b == (b / 100) * 100 + b % 100) by (nonlinear_arith)
            requires
                b >= 0,
        ;
    } else {
        assert(a != b);
        assert((a < b) == (a / 100 < b / 100)) by (nonlinear_arith)
            requires
                0 <= a,
                0 <= b,
                a / 100 != b / 100,
        ;
    }
}

/// Later months lie at or past earlier ones.
proof fn lemma_days_to_month_mono(y: int, m1: int, m2: int)
    requires
        1 <= m1 <= m2,
    ensures
        days_to_month(y, m1) <= days_to_month(y, m2),
    decreases m2 - m1,
{
    if m1 < m2 {
        lemma_days_to_month_mono(y, m1, m2 - 1);
        assert(days_to_month(y, m2) == days_to_month(y, m2 - 1) + month_len(y, m2 - 1));
    }
}

/// An earlier civil date names an earlier day, field by field.
proof fn lemma_civil_key_mono(y1: int, m1: int, d1: int, y2: int, m2: int, d2: int)
    requires
        1970 <= y1,
        1 <= m1 <= 12,
        1 <= d1 <= month_len(y1, m1),
        days_to_month(y1, m1) + d1 - 1 < year_len(y1),
        1970 <= y2,
        1 <= m2 <= 12,
        1 <= d2 <= month_len(y2, m2),
        y1 < y2 || (y1 == y2 && (m1 < m2 || (m1 == m2 && d1 < d2))),
    ensures
        days_from_civil(y1, m1, d1) < days_from_civil(y2, m2, d2),
{
    lemma_days_to_month_mono(y2, 1, m2);
    assert(days_to_month(y2, 1) == 0);
    if y1 < y2 {
        lemma_days_to_year_mono(y1 + 1, y2);
        assert(days_to_year(y1 + 1) == days_to_year(y1) + year_len(y1));
    } else if m1 < m2 {
        assert(days_to_month(y1, m1 + 1) == days_to_month(y1, m1) + month_len(y1, m1));
        lemma_days_to_month_mono(y1, m1 + 1, m2);
    }
}

/// The stronger shape of the civil split: the day also fits its month
/// and the whole date fits its year.
proof fn lemma_civil_inverse_tight(z: int)
    requires
        0 <= z <= 2932896,
    ensures
        1970 <= civil_from_days(z).0 <= 9999,
        1 <= civil_from_days(z).1 <= 12,
        1 <= civil_from_days(z).2 <= month_len(civil_from_days(z).0, civil_from_days(z).1),
        days_to_month(civil_from_days(z).0, civil_from_days(z).1) + civil_from_days(z).2 - 1
            < year_len(civil_from_days(z).0),
        days_from_civil(civil_from_days(z).0, civil_from_days(z).1, civil_from_days(z).2) == z,
{
    lemma_civil_inverse(z);
    lemma_year_of_day_props(z, 1970);
    let y = year_of_day(z, 1970).0;
    let doy = year_of_day(z, 1970).1;
    lemma_months_sum(y);
    assert(days_to_month(y, 1) == 0);
    lemma_month_of_day_props(y, doy, 1);
}

/// The formatted text from the seconds field on.
#[verifier::opaque]
pub open spec fn tail_ss(ss: int) -> Seq<char> {
    pad2(ss) + seq!['Z']
}

/// The formatted text from the minutes field on.
#[verifier::opaque]
pub open spec fn tail_mi(mi: int, ss: int) -> Seq<char> {
    pad2(mi) + (seq![':'] + tail_ss(ss))
}

/// The formatted text from the hours field on.
#[verifier::opaque]
pub open spec fn tail_hh(hh: int, mi: int, ss: int) -> Seq<char> {
    pad2(hh) + (seq![':'] + tail_mi(mi, ss))
}

/// The formatted text from the day field on.
#[verifier::opaque]
pub open spec fn tail_d(d: int, hh: int, mi: int, ss: int) -> Seq<char> {
    pad2(d) + (seq!['T'] + tail_hh(hh, mi, ss))
}

/// The formatted text from the month field on.
#[verifier::opaque]
pub open spec fn tail_m(m: int, d: int, hh: int, mi: int, ss: int) -> Seq<char> {
    pad2(m) + (seq!['-'] + tail_d(d, hh, mi, ss))
}

/// The comparison of two two-digit fields followed by equal-shape
/// tails.
pub open spec fn field_le(a: int, b: int, rest: bool) -> bool {
    if a != b {
        a < b
    } else {
        rest
    }
}

/// Seconds tails compare by the seconds field.
#[verifier::rlimit(100)]
proof fn lemma_tail_ss_lex(s1: int, s2: int)
    requires
        0 <= s1 <= 59,
        0 <= s2 <= 59,
    ensures
        lex_le(tail_ss(s1), tail_ss(s2)) == field_le(s1, s2, true),
{
    reveal(tail_ss);
    lemma_pad2_lex(s1, s2, seq!['Z'], seq!['Z']);
    if s1 == s2 {
        lemma_lex_cons('Z', Seq::empty(), Seq::empty());
        assert(seq!['Z'] =~= seq!['Z'] + Seq::<char>::empty());
    }
}

/// Minute tails compare by the minutes, then the seconds.
#[verifier::rlimit(100)]
proof fn lemma_tail_mi_lex(m1: int, s1: int, m2: int, s2: int)
    requires
        0 <= m1 <= 59,
        0 <= m2 <= 59,
        0 <= s1 <= 59,
        0 <= s2 <= 59,
    ensures
        lex_le(tail_mi(m1, s1), tail_mi(m2, s2)) == field_le(m1, m2, field_le(s1, s2, true)),
{
    reveal(tail_mi);
    lemma_pad2_lex(m1, m2, seq![':'] + tail_ss(s1), seq![':'] + tail_ss(s2));
    if m1 == m2 {
        lemma_lex_cons(':', tail_ss(s1), tail_ss(s2));
        lemma_tail_ss_lex(s1, s2);
    }
}

/// Hour tails compare by the hours, then the minutes and seconds.
#[verifier::rlimit(100)]
proof fn lemma_tail_hh_lex(h1: int, mi1: int, s1: int, h2: int, mi2: int, s2: int)
    requires
        0 <= h1 <= 23,
        0 <= h2 <= 23,
        0 <= mi1 <= 59,
        0 <= mi2 <= 59,
        0 <= s1 <= 59,
        0 <= s2 <= 59,
    ensures
        lex_le(tail_hh(h1, mi1, s1), tail_hh(h2, mi2, s2)) == field_le(
            h1,
            h2,
            field_le(mi1, mi2, field_le(s1, s2, true)),
        ),
{
    reveal(tail_hh);
    lemma_pad2_lex(h1, h2, seq![':'] + tail_mi(mi1, s1), seq![':'] + tail_mi(mi2, s2));
    if h1 == h2 {
        lemma_lex_cons(':', tail_mi(mi1, s1), tail_mi(mi2, s2));
        lemma_tail_mi_lex(mi1, s1, mi2, s2);
    }
}

/// Day tails compare by the day, then the time of day.
#[verifier::rlimit(100)]
proof fn lemma_tail_d_lex(
    d1: int,
    h1: int,
    mi1: int,
    s1: int,
    d2: int,
    h2: int,
    mi2: int,
    s2: int,
)
    requires
        1 <= d1 <= 31,
        1 <= d2 <= 31,
        0 <= h1 <= 23,
        0 <= h2 <= 23,
        0 <= mi1 <= 59,
        0 <= mi2 <= 59,
        0 <= s1 <= 59,
        0 <= s2 <= 59,
    ensures
        lex_le(tail_d(d1, h1, mi1, s1), tail_d(d2, h2, mi2, s2)) == field_le(
            d1,
            d2,
            field_le(h1, h2, field_le(mi1, mi2, field_le(s1, s2, true))),
        ),
{
    reveal(tail_d);
    lemma_pad2_lex(d1, d2, seq!['T'] + tail_hh(h1, mi1, s1), seq!['T'] + tail_hh(h2, mi2, s2));
    if d1 == d2 {
        lemma_lex_cons('T', tail_hh(h1, mi1, s1), tail_hh(h2, mi2, s2));
        lemma_tail_hh_lex(h1, mi1, s1, h2, mi2, s2);
    }
}

/// Month tails compare by the month, then the rest of the instant.
#[verifier::rlimit(100)]
proof fn lemma_tail_m_lex(
    m1: int,
    d1: int,
    h1: int,
    mi1: int,
    s1: int,
    m2: int,
    d2: int,
    h2: int,
    mi2: int,
    s2: int,
)
    requires
        1 <= m1 <= 12,
        1 <= m2 <= 12,
        1 <= d1 <= 31,
        1 <= d2 <= 31,
        0 <= h1 <= 23,
        0 <= h2 <= 23,
        0 <= mi1 <= 59,
        0 <= mi2 <= 59,
        0 <= s1 <= 59,
        0 <= s2 <= 59,
    ensures
        lex_le(tail_m(m1, d1, h1, mi1, s1), tail_m(m2, d2, h2, mi2, s2)) == field_le(
            m1,
            m2,
            field_le(d1, d2, field_le(h1, h2, field_le(mi1, mi2, field_le(s1, s2, true)))),
        ),
{
    reveal(tail_m);
    lemma_pad2_lex(
        m1,
        m2,
        seq!['-'] + tail_d(d1, h1, mi1, s1),
        seq!['-'] + tail_d(d2, h2, mi2, s2),
    );
    if m1 == m2 {
        lemma_lex_cons('-', tail_d(d1, h1, mi1, s1), tail_d(d2, h2, mi2, s2));
        lemma_tail_d_lex(d1, h1, mi1, s1, d2, h2, mi2, s2);
    }
}

/// The formatted text, regrouped field by field.
#[verifier::rlimit(100)]
proof fn lemma_rfc3339_shape(t: int)
    requires
        0 <= t,
    ensures
        rfc3339_of(t) == pad4(civil_from_days(t / 86400).0) + (seq!['-'] + tail_m(
            civil_from_days(t / 86400).1,
            civil_from_days(t / 86400).2,
            (t % 86400) / 3600,
            ((t % 86400) / 60) % 60,
            (t % 86400) % 60,
        )),
{
    reveal(tail_m);
    reveal(tail_d);
    reveal(tail_hh);
    reveal(tail_mi);
    reveal(tail_ss);
    assert(rfc3339_of(t) =~= pad4(civil_from_days(t / 86400).0) + (seq!['-'] + tail_m(
        civil_from_days(t / 86400).1,
        civil_from_days(t / 86400).2,
        (t % 86400) / 3600,
        ((t % 86400) / 60) % 60,
        (t % 86400) % 60,
    )));
}

/// Formatted timestamps compare exactly as their instants do: the
/// fixed-width text is ordered like the clock.
#[verifier::rlimit(100)]
pub proof fn lemma_rfc3339_preserves_order(t1: int, t2: int)
    requires
        0 <= t1 <= MAX_UNIX_SECONDS,
        0 <= t2 <= MAX_UNIX_SECONDS,
    ensures
        lex_le(rfc3339_of(t1), rfc3339_of(t2)) == (t1 <= t2),
{
    let z1 = t1 / 86400;
    let sod1 = t1 % 86400;
    let z2 = t2 / 86400;
    let sod2 = t2 % 86400;
    assert(z1 <= 2932896 && z2 <= 2932896) by {
        assert(2932897 * 86400 > MAX_UNIX_SECONDS);
    }
    lemma_civil_inverse_tight(z1);
    lemma_civil_inverse_tight(z2);
    let y1 = civil_from_days(z1).0;
    let m1 = civil_from_days(z1).1;
    let d1 = civil_from_days(z1).2;
    let y2 = civil_from_days(z2).0;
    let m2 = civil_from_days(z2).1;
    let d2 = civil_from_days(z2).2;
    let hh1 = sod1 / 3600;
    let mi1 = (sod1 / 60) % 60;
    let ss1 = sod1 % 60;
    let hh2 = sod2 / 3600;
    let mi2 = (sod2 / 60) % 60;
    let ss2 = sod2 % 60;
    assert(0 <= hh1 <= 23 && 0 <= hh2 <= 23);
    assert(0 <= mi1 <= 59 && 0 <= mi2 <= 59) by {
        assert((sod1 / 60) % 60 < 60 && (sod2 / 60) % 60 < 60);
    }
    assert(0 <= ss1 <= 59 && 0 <= ss2 <= 59);
    lemma_seconds_split(sod1);
    lemma_seconds_split(sod2);

    lemma_rfc3339_shape(t1);
    lemma_rfc3339_shape(t2);

    lemma_pad4_lex(
        y1,
        y2,
        seq!['-'] + tail_m(m1, d1, hh1, mi1, ss1),
        seq!['-'] + tail_m(m2, d2, hh2, mi2, ss2),
    );
    if y1 == y2 {
        lemma_lex_cons('-', tail_m(m1, d1, hh1, mi1, ss1), tail_m(m2, d2, hh2, mi2, ss2));
        lemma_tail_m_lex(m1, d1, hh1, mi1, ss1, m2, d2, hh2, mi2, ss2);
    }
    let cmp = lex_le(rfc3339_of(t1), rfc3339_of(t2));

    if y1 == y2 && m1 == m2 && d1 == d2 {
        assert(z1 == z2);
        if hh1 == hh2 && mi1 == mi2 && ss1 == ss2 {
            assert(cmp);
            assert(t1 == t2);
        } else if hh1 != hh2 {
            assert(cmp == (hh1 < hh2));
            assert((sod1 < sod2) == (hh1 < hh2));
            lemma_day_seconds_order(z1, z2, sod1, sod2, t1, t2);
        } else if mi1 != mi2 {
            assert(cmp == (mi1 < mi2));
            assert((sod1 < sod2) == (mi1 < mi2));
            lemma_day_seconds_order(z1, z2, sod1, sod2, t1, t2);
        } else {
            assert(cmp == (ss1 < ss2));
            assert((sod1 < sod2) == (ss1 < ss2));
            lemma_day_seconds_order(z1, z2, sod1, sod2, t1, t2);
        }
    } else {
        if y1 != y2 {
            assert(cmp == (y1 < y2));
        } else if m1 != m2 {
            assert(cmp == (m1 < m2));
        } else {
            assert(cmp == (d1 < d2));
        }
        let first_lt = if y1 != y2 {
            y1 < y2
        } else if m1 != m2 {
            m1 < m2
        } else {
            d1 < d2
        };
        assert(cmp == first_lt);
        if first_lt {
            lemma_civil_key_mono(y1, m1, d1, y2, m2, d2);
        } else {
            lemma_civil_key_mono(y2, m2, d2, y1, m1, d1);
        }
        lemma_day_order(z1, z2, t1, t2);
    }
}

/// Distinct days order their instants.
proof fn lemma_day_order(z1: int, z2: int, t1: int, t2: int)
    requires
        z1 != z2,
        z1 == t1 / 86400,
        z2 == t2 / 86400,
        0 <= t1,
        0 <= t2,
    ensures
        (z1 < z2) == (t1 < t2),
        t1 != t2,
{
    assert(t1 == 86400 * z1 + t1 % 86400 && 0 <= t1 % 86400 < 86400);
    assert(t2 == 86400 * z2 + t2 % 86400 && 0 <= t2 % 86400 < 86400);
}

/// Equal days order their instants by the second of the day.
proof fn lemma_day_seconds_order(z1: int, z2: int, sod1: int, sod2: int, t1: int, t2: int)
    requires
        z1 == z2,
        sod1 != sod2,
        z1 == t1 / 86400,
        z2 == t2 / 86400,
        sod1 == t1 % 86400,
        sod2 == t2 % 86400,
        0 <= t1,
        0 <= t2,
    ensures
        (sod1 < sod2) == (t1 < t2),
        t1 != t2,
{
    assert(t1 == 86400 * z1 + sod1);
    assert(t2 == 86400 * z2 + sod2);
}

/// Is `v[i]` a decimal digit?
fn digit_at(v: &Vec<char>, i: usize) -> (r: bool)
    requires
        i < v@.len(),
    ensures
        r == is_digit(v@, i as int),
{
    '0' <= v[i] && v[i] <= '9'
}

/// Read two digits at positions `i` and `i + 1`.
fn read2(v: &Vec<char>, i: usize) -> (r: i64)
    requires
        i + 2 <= v@.len(),
        is_digit(v@, i as int),
        is_digit(v@, i as int + 1),
    ensures
        r == num2(v@, i as int),
        0 <= r <= 99,
{
    let _n = v.len();
    let a = (v[i] as u32 - 48) as i64;
    let b = (v[i + 1] as u32 - 48) as i64;
    a * 10 + b
}

/// Days from 1970-01-01 to the civil date `y-m-d`.
fn days_from_civil_exec(y: i64, m: i64, d: i64) -> (r: i64)
    requires
        1970 <= y <= 9999,
        1 <= m <= 12,
        1 <= d <= 31,
    ensures
        r == days_from_civil(y as int, m as int, d as int),
        0 <= r <= 2939000,
{
    let mut acc: i64 = 0;
    let mut yy: i64 = 1970;
    while yy < y
        invariant
            1970 <= yy <= y <= 9999,
            acc == days_to_year(yy as int),
            0 <= acc <= 366 * (yy - 1970),
        decreases y - yy,
    {
        acc = acc + year_len_exec(yy);
        yy = yy + 1;
    }
    let mut mm: i64 = 1;
    let mut macc: i64 = 0;
    while mm < m
        invariant
            1 <= mm <= m <= 12,
            1970 <= y <= 9999,
            macc == days_to_month(y as int, mm as int),
            0 <= macc <= 31 * (mm - 1),
        decreases m - mm,
    {
        macc = macc + month_len_exec(y, mm);
        mm = mm + 1;
    }
    acc + macc + d - 1
}

/// Parse a timestamp in either accepted shape to a Unix second.
///
/// Accepts the canonical RFC 3339 UTC form the store writes
/// (`YYYY-MM-DDTHH:MM:SSZ`) and the engine default
/// (`YYYY-MM-DD HH:MM:SS`, read as UTC); returns `None` for anything
/// else.
pub fn parse_timestamp(s: &str) -> (r: Option<i64>)
    ensures
        r is Some <==> spec_parse_timestamp(s@) is Some,
        r is Some ==> r->0 == spec_parse_timestamp(s@)->0,
{
    let v = str_to_chars(s);
    let zulu: bool;
    if v.len() == 20 {
        zulu = true;
    } else if v.len() == 19 {
        zulu = false;
    } else {
        return None;
    }
    let sep = if zulu { 'T' } else { ' ' };
    let shape_ok = digit_at(&v, 0) && digit_at(&v, 1) && digit_at(&v, 2) && digit_at(&v, 3)
        && v[4] == '-' && digit_at(&v, 5) && digit_at(&v, 6) && v[7] == '-' && digit_at(&v, 8)
        && digit_at(&v, 9) && v[10] == sep && digit_at(&v, 11) && digit_at(&v, 12) && v[13] == ':'
        && digit_at(&v, 14) && digit_at(&v, 15) && v[16] == ':' && digit_at(&v, 17)
        && digit_at(&v, 18) && (!zulu || v[19] == 'Z');
    if !shape_ok {
        return None;
    }
    let y = read2(&v, 0) * 100 + read2(&v, 2);
    let mo = read2(&v, 5);
    let d = read2(&v, 8);
    let h = read2(&v, 11);
    let mi = read2(&v, 14);
    let ss = read2(&v, 17);
    if !(1970 <= y && 1 <= mo && mo <= 12 && 1 <= d && d <= 31 && h <= 23 && mi <= 59 && ss <= 59) {
        return None;
    }
    let days = days_from_civil_exec(y, mo, d);
    Some(days * 86400 + h * 3600 + mi * 60 + ss)
}

} // verus!
