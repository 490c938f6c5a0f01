//! Renderings for the console: login times as calendar dates and large
//! counts with thousands separators.

use vstd::prelude::*;
use crate::text::{decimal, push_decimal, string_from_chars};

verus! {

/// Whether a year of the Gregorian calendar has 366 days.
pub open spec fn is_leap(y: int) -> bool {
    (y % 4 == 0 && y % 100 != 0) || y % 400 == 0
}

/// Days in year `y`.
pub open spec fn year_len(y: int) -> int {
    if is_leap(y) { 366 } else { 365 }
}

/// Days in month `m` (1 to 12).
pub open spec fn month_len(m: int, leap: bool) -> int {
    if m == 2 {
        if leap { 29 } else { 28 }
    } else if m == 4 || m == 6 || m == 9 || m == 11 {
        30
    } else {
        31
    }
}

/// The year and the day within it (from 0) that lie `days` days after the
/// first day of year `y`.
pub open spec fn year_and_day(days: int, y: int) -> (int, int)
    decreases days,
{
    if days < 0 || days < year_len(y) {
        (y, days)
    } else {
        year_and_day(days - year_len(y), y + 1)
    }
}

/// The month (from `m`) and the day within it (from 0) of day `d` of a year.
pub open spec fn month_and_day(d: int, m: int, leap: bool) -> (int, int)
    decreases 12 - m,
{
    if m >= 12 || d < month_len(m, leap) {
        (m, d)
    } else {
        month_and_day(d - month_len(m, leap), m + 1, leap)
    }
}

/// Decimal digits of `n`, with zeros in front up to `w` digits.
pub open spec fn zero_padded(n: nat, w: nat) -> Seq<char> {
    let d = decimal(n);
    if d.len() >= w { d } else { Seq::new((w - d.len()) as nat, |i: int| '0') + d }
}

/// A Unix time in seconds as `YYYY/MM/DD hh:mm` (UTC), or `-` for zero.
pub open spec fn timestamp_text(ts: u32) -> Seq<char> {
    if ts == 0 {
        "-"@
    } else {
        let yd = year_and_day((ts / 86400) as int, 1970);
        let md = month_and_day(yd.1, 1, is_leap(yd.0));
        zero_padded(yd.0 as nat, 4) + seq!['/'] + zero_padded(md.0 as nat, 2) + seq!['/']
            + zero_padded((md.1 + 1) as nat, 2) + seq![' '] + zero_padded(((ts / 3600) % 24) as nat, 2)
            + seq![':'] + zero_padded(((ts / 60) % 60) as nat, 2)
    }
}

/// Digits from position `i` on, with a comma before each group of three
/// counted from the right (none before the first digit).
pub open spec fn grouped_from(d: Seq<char>, i: int) -> Seq<char>
    decreases d.len() - i,
{
    if i < 0 || i >= d.len() {
        seq![]
    } else {
        let sep: Seq<char> = if i > 0 && (d.len() - i) % 3 == 0 { seq![','] } else { seq![] };
        sep + seq![d[i]] + grouped_from(d, i + 1)
    }
}

/// A count with thousands separators, as `1,234,567`.
pub open spec fn number_text(n: u64) -> Seq<char> {
    grouped_from(decimal(n as nat), 0)
}

/// Appends `n` in decimal with zeros in front up to `w` digits.
fn push_padded(out: &mut Vec<char>, n: u64, w: usize)
    ensures
        final(out)@ == old(out)@ + zero_padded(n as nat, w as nat),
{
    let mut digits: Vec<char> = Vec::new();
    push_decimal(&mut digits, n);
    assert(digits@ =~= decimal(n as nat));
    let mut k = digits.len();
    let ghost start = out@;
    while k < w
        invariant
            digits@ == decimal(n as nat),
            digits@.len() <= k <= w || (k == digits@.len() && k >= w),
            out@ == start + Seq::new((k - digits@.len()) as nat, |i: int| '0'),
        decreases w - k,
    {
        out.push('0');
        assert(start + Seq::new((k + 1 - digits@.len()) as nat, |i: int| '0') =~= (start + Seq::new((k - digits@.len()) as nat, |i: int| '0')).push('0'));
        k = k + 1;
    }
    let ghost zeros = out@;
    let mut j: usize = 0;
    while j < digits.len()
        invariant
            j <= digits@.len(),
            out@ == zeros + digits@.take(j as int),
        decreases digits@.len() - j,
    {
        out.push(digits[j]);
        assert(zeros + digits@.take(j + 1) =~= (zeros + digits@.take(j as int)).push(digits@[j as int]));
        j = j + 1;
    }
    assert(digits@.take(j as int) =~= digits@);
    if digits.len() >= w {
        assert(out@ =~= old(out)@ + zero_padded(n as nat, w as nat));
    } else {
        assert(out@ =~= old(out)@ + zero_padded(n as nat, w as nat));
    }
}

/// A year's length.
fn days_in_year(y: u32) -> (n: u32)
    ensures
        n == year_len(y as int),
{
    if (y % 4 == 0 && y % 100 != 0) || y % 400 == 0 { 366 } else { 365 }
}

/// A month's length.
fn days_in_month(m: u32, leap: bool) -> (n: u32)
    ensures
        n == month_len(m as int, leap),
{
    if m == 2 {
        if leap { 29 } else { 28 }
    } else if m == 4 || m == 6 || m == 9 || m == 11 {
        30
    } else {
        31
    }
}

/// The days of a year add up to its length.
proof fn lemma_months_cover(d: int, m: int, leap: bool)
    requires
        1 <= m <= 12,
        0 <= d,
        d + (if m <= 1 { 0 } else { month_prefix(m - 1, leap) }) < (if leap { 366int } else { 365int }),
    ensures
        month_and_day(d, m, leap).1 < month_len(month_and_day(d, m, leap).0, leap),
        1 <= month_and_day(d, m, leap).0 <= 12,
        0 <= month_and_day(d, m, leap).1,
    decreases 12 - m,
{
    reveal_with_fuel(month_prefix, 13);
    if m < 12 && d >= month_len(m, leap) {
        lemma_months_cover(d - month_len(m, leap), m + 1, leap);
    }
}

/// Days in months 1 to `m`.
pub open spec fn month_prefix(m: int, leap: bool) -> int
    decreases m,
{
    if m <= 0 { 0 } else { month_prefix(m - 1, leap) + month_len(m, leap) }
}

/// Renders a Unix time in seconds as `YYYY/MM/DD hh:mm` (UTC); zero renders
/// as `-`.
pub fn format_unix_timestamp(ts: u32) -> (s: String)
    ensures
        s@ == timestamp_text(ts),
{
    if ts == 0 {
        let s = "-".to_owned();
        proof { reveal_strlit("-"); }
        return s;
    }
    let min = (ts / 60) % 60;
    let hour = (ts / 3600) % 24;
    let mut days: u32 = ts / 86400;
    let mut year: u32 = 1970;
    while days >= days_in_year(year)
        invariant
            year_and_day((ts / 86400) as int, 1970) == year_and_day(days as int, year as int),
            1970 <= year <= 1970 + (ts / 86400 - days),
            days <= ts / 86400,
        decreases days,
    {
        days = days - days_in_year(year);
        year = year + 1;
    }
    let leap = (year % 4 == 0 && year % 100 != 0) || year % 400 == 0;
    assert(leap == is_leap(year as int));
    let ghost yd = year_and_day((ts / 86400) as int, 1970);
    assert(yd == (year as int, days as int));
    proof {
        reveal_with_fuel(month_prefix, 13);
        lemma_months_cover(days as int, 1, leap);
    }
    let mut month: u32 = 1;
    let mut d: u32 = days;
    while month < 12 && d >= days_in_month(month, leap)
        invariant
            1 <= month <= 12,
            d <= days,
            month_and_day(days as int, 1, leap) == month_and_day(d as int, month as int, leap),
        decreases 12 - month,
    {
        d = d - days_in_month(month, leap);
        month = month + 1;
    }
    let mut out: Vec<char> = Vec::new();
    push_padded(&mut out, year as u64, 4);
    out.push('/');
    push_padded(&mut out, month as u64, 2);
    out.push('/');
    push_padded(&mut out, (d + 1) as u64, 2);
    out.push(' ');
    push_padded(&mut out, hour as u64, 2);
    out.push(':');
    push_padded(&mut out, min as u64, 2);
    assert(out@ =~= timestamp_text(ts));
    string_from_chars(&out)
}

/// Renders a count with a comma between groups of three digits.
pub fn format_number(n: u64) -> (s: String)
    ensures
        s@ == number_text(n),
{
    let mut digits: Vec<char> = Vec::new();
    push_decimal(&mut digits, n);
    assert(digits@ =~= decimal(n as nat));
    let len = digits.len();
    let mut out: Vec<char> = Vec::new();
    let ghost d = digits@;
    let mut i: usize = 0;
    while i < len
        invariant
            len == d.len(),
            d == digits@,
            i <= len,
            out@ + grouped_from(d, i as int) == grouped_from(d, 0),
        decreases len - i,
    {
        let ghost before = out@;
        if i > 0 && (len - i) % 3 == 0 {
            out.push(',');
        }
        out.push(digits[i]);
        proof {
            let sep: Seq<char> = if i > 0 && (d.len() - i) % 3 == 0 { seq![','] } else { seq![] };
            assert(grouped_from(d, i as int) == sep + seq![d[i as int]] + grouped_from(d, i + 1));
            assert(out@ =~= before + sep + seq![d[i as int]]);
            assert(before + (sep + seq![d[i as int]] + grouped_from(d, i + 1)) =~= out@ + grouped_from(d, i + 1));
        }
        i = i + 1;
    }
    assert(grouped_from(d, len as int) =~= Seq::<char>::empty());
    assert(out@ =~= grouped_from(d, 0));
    string_from_chars(&out)
}


/// Text with the commas left out.
pub open spec fn without_commas(s: Seq<char>) -> Seq<char>
    decreases s.len(),
{
    if s.len() == 0 {
        seq![]
    } else {
        let head: Seq<char> = if s[0] == ',' { seq![] } else { seq![s[0]] };
        head + without_commas(s.drop_first())
    }
}

/// Leaving commas out of a concatenation leaves them out of each part.
proof fn lemma_without_commas_concat(a: Seq<char>, b: Seq<char>)
    ensures
        without_commas(a + b) == without_commas(a) + without_commas(b),
    decreases a.len(),
{
    if a.len() == 0 {
        assert(a + b =~= b);
        assert(without_commas(a) =~= Seq::<char>::empty());
        assert(Seq::<char>::empty() + without_commas(b) =~= without_commas(b));
    } else {
        assert((a + b).drop_first() =~= a.drop_first() + b);
        lemma_without_commas_concat(a.drop_first(), b);
        assert((a + b)[0] == a[0]);
        let head: Seq<char> = if a[0] == ',' { seq![] } else { seq![a[0]] };
        assert(head + (without_commas(a.drop_first()) + without_commas(b)) =~= (head + without_commas(a.drop_first())) + without_commas(b));
    }
}

/// Decimal digits are digits.
proof fn lemma_decimal_digits(n: nat)
    ensures
        forall|k: int| 0 <= k < decimal(n).len() ==> 48 <= (#[trigger] decimal(n)[k]) as int <= 57,
    decreases n,
{
    if n < 10 {
        assert(decimal(n)[0] == (n + 48) as char);
        assert(((n + 48) as char) as int == n + 48);
    } else {
        lemma_decimal_digits(n / 10);
        let d = decimal(n);
        let c = ((n % 10) + 48) as char;
        assert(c as int == (n % 10) + 48);
        assert forall|k: int| 0 <= k < d.len() implies 48 <= (#[trigger] d[k]) as int <= 57 by {
            if k < d.len() - 1 {
                assert(d[k] == decimal(n / 10)[k]);
            } else {
                assert(d[k] == c);
            }
        }
    }
}

/// Grouping from position `i` keeps the digits from `i` on.
proof fn lemma_grouped_digits(d: Seq<char>, i: int)
    requires
        0 <= i <= d.len(),
        forall|k: int| 0 <= k < d.len() ==> (#[trigger] d[k]) as int != 44,
    ensures
        without_commas(grouped_from(d, i)) == d.skip(i),
    decreases d.len() - i,
{
    if i == d.len() {
        assert(d.skip(i) =~= Seq::<char>::empty());
        assert(grouped_from(d, i) =~= Seq::<char>::empty());
    } else {
        lemma_grouped_digits(d, i + 1);
        let sep: Seq<char> = if i > 0 && (d.len() - i) % 3 == 0 { seq![','] } else { seq![] };
        lemma_without_commas_concat(sep, seq![d[i]]);
        lemma_without_commas_concat(sep + seq![d[i]], grouped_from(d, i + 1));
        reveal_with_fuel(without_commas, 2);
        assert(without_commas(sep) =~= Seq::<char>::empty()) by {
            if sep.len() > 0 {
                assert(sep.drop_first() =~= Seq::<char>::empty());
            }
        }
        assert(seq![d[i]].drop_first() =~= Seq::<char>::empty());
        assert(d[i] as int != 44);
        assert(without_commas(seq![d[i]]) =~= seq![d[i]]);
        assert(d.skip(i) =~= seq![d[i]] + d.skip(i + 1));
    }
}

/// Leaving the separators out of a rendered count gives its decimal digits.
pub proof fn lemma_grouping_keeps_digits(n: u64)
    ensures
        without_commas(number_text(n)) == decimal(n as nat),
{
    let d = decimal(n as nat);
    lemma_decimal_digits(n as nat);
    lemma_grouped_digits(d, 0);
    assert(d.skip(0) =~= d);
}

} // verus!
