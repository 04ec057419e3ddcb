//! Rendering of sizes and counts for the status line and listings.
use vstd::prelude::*;
use vstd::arithmetic::div_mod::{lemma_div_denominator, lemma_fundamental_div_mod, lemma_div_is_ordered_by_denominator};
use crate::text::{concat2, decimal, decimal_text, digit_char, zero_padded, zero_padded_text};

verus! {

pub const KIB: u64 = 1024;
pub const MIB: u64 = 1048576;
pub const GIB: u64 = 1073741824;

/// The spacing of the 64-bit floats near `v`: 1 below 2^53, doubling with
/// each further bit.
pub open spec fn f64_grain(v: nat) -> nat
    decreases v,
{
    if v < 0x20_0000_0000_0000 {
        1
    } else {
        2 * f64_grain(v / 2)
    }
}

/// The value of `v as f64`: `v` rounded to 53 significant bits, ties to
/// even.
pub open spec fn f64_of(v: nat) -> nat {
    let d = f64_grain(v);
    let m = v / d;
    let r = v % d;
    if d == 1 {
        v
    } else if r * 2 > d || (r * 2 == d && m % 2 == 1) {
        (m + 1) * d
    } else {
        m * d
    }
}

/// The quotient `x / unit` in tenths, rounded to the nearest tenth with ties
/// to even, as `{:.1}` renders an exact float.
pub open spec fn tenths(x: nat, unit: nat) -> nat {
    let q = (10 * x) / unit;
    let r = (10 * x) % unit;
    if r * 2 > unit || (r * 2 == unit && q % 2 == 1) {
        q + 1
    } else {
        q
    }
}

/// A count of tenths written with one decimal: `12` is `1.2`.
pub open spec fn one_decimal(t: nat) -> Seq<char> {
    decimal(t / 10) + seq!['.', digit_char(t % 10)]
}

/// How a byte count is shown: bytes below a KiB as an integer with
/// " B", larger sizes in KB, MB or GB (powers of 1024) with one decimal.
pub open spec fn size_text(bytes: nat) -> Seq<char> {
    if bytes >= GIB {
        one_decimal(tenths(f64_of(bytes), GIB as nat)) + " GB"@
    } else if bytes >= MIB {
        one_decimal(tenths(f64_of(bytes), MIB as nat)) + " MB"@
    } else if bytes >= KIB {
        one_decimal(tenths(f64_of(bytes), KIB as nat)) + " KB"@
    } else {
        decimal(bytes) + " B"@
    }
}

proof fn lemma_grain_bound(v: nat)
    requires
        v >= 0x20_0000_0000_0000,
    ensures
        f64_grain(v) * 0x10_0000_0000_0000 <= v,
    decreases v,
{
    assert(f64_grain(v) == 2 * f64_grain(v / 2));
    if v / 2 >= 0x20_0000_0000_0000 {
        lemma_grain_bound(v / 2);
        let g = f64_grain(v / 2);
        assert(2 * g * 0x10_0000_0000_0000 <= 2 * (v / 2)) by (nonlinear_arith)
            requires
                g * 0x10_0000_0000_0000 <= v / 2;
    } else {
        assert(f64_grain(v / 2) == 1);
    }
}

/// The value `v as f64` takes, as an integer.
fn f64_value(v: u64) -> (x: u128)
    ensures
        x == f64_of(v as nat),
        x <= 0x2_0000_0000_0000_0000,
{
    let mut w: u64 = v;
    let mut d: u128 = 1;
    while w >= 0x20_0000_0000_0000
        invariant
            1 <= d <= 4096,
            w as nat == (v as nat) / (d as nat),
            f64_grain(v as nat) == d * f64_grain(w as nat),
            d == 1 || d * 0x10_0000_0000_0000 <= v,
        decreases w,
    {
        proof {
            lemma_fundamental_div_mod(v as int, d as int);
            assert(d * w <= v) by (nonlinear_arith)
                requires
                    v as int == d * ((v as int) / (d as int)) + (v as int) % (d as int),
                    w as int == (v as int) / (d as int),
                    0 <= (v as int) % (d as int);
            assert(d * 0x20_0000_0000_0000 <= d * w) by (nonlinear_arith)
                requires
                    w >= 0x20_0000_0000_0000,
                    d >= 1;
            lemma_div_denominator(v as int, d as int, 2);
            assert(f64_grain(w as nat) == 2 * f64_grain((w / 2) as nat));
            assert(d * (2 * f64_grain((w / 2) as nat)) == (2 * d) * f64_grain((w / 2) as nat)) by (nonlinear_arith);
        }
        w = w / 2;
        d = d * 2;
    }
    proof {
        assert(f64_grain(w as nat) == 1);
        let g = f64_grain(w as nat);
        assert(d * g == d) by (nonlinear_arith)
            requires
                g == 1;
    }
    if d == 1 {
        return v as u128;
    }
    let r: u128 = (v as u128) % d;
    let m: u128 = w as u128;
    proof {
        lemma_fundamental_div_mod(v as int, d as int);
        assert(m * d <= 0x20_0000_0000_0000 * 4096) by (nonlinear_arith)
            requires
                m < 0x20_0000_0000_0000,
                d <= 4096;
        assert((m + 1) * d <= 0x20_0000_0000_0000 * 4096) by (nonlinear_arith)
            requires
                m + 1 <= 0x20_0000_0000_0000,
                d <= 4096;
    }
    if r * 2 > d || (r * 2 == d && m % 2 == 1) {
        (m + 1) * d
    } else {
        m * d
    }
}

/// The value `x / unit` in tenths, rounded half to even.
fn tenths_of(x: u128, unit: u128) -> (t: u64)
    requires
        x <= 0x2_0000_0000_0000_0000,
        1024 <= unit <= 0x4000_0000,
    ensures
        t as nat == tenths(x as nat, unit as nat),
{
    let num: u128 = 10 * x;
    let q: u128 = num / unit;
    let r: u128 = num % unit;
    proof {
        lemma_div_is_ordered_by_denominator(num as int, 1024, unit as int);
        assert(num / 1024 <= 0x50_0000_0000_0000_0000int / 1024);
    }
    if r * 2 > unit || (r * 2 == unit && q % 2 == 1) {
        (q + 1) as u64
    } else {
        q as u64
    }
}

fn digit_of(d: u64) -> (c: char)
    requires
        d < 10,
    ensures
        c == digit_char(d as nat),
{
    if d == 0 { '0' }
    else if d == 1 { '1' }
    else if d == 2 { '2' }
    else if d == 3 { '3' }
    else if d == 4 { '4' }
    else if d == 5 { '5' }
    else if d == 6 { '6' }
    else if d == 7 { '7' }
    else if d == 8 { '8' }
    else { '9' }
}

/// A count of tenths written with one decimal.
fn one_decimal_text(t: u64) -> (res: String)
    ensures
        res@ == one_decimal(t as nat),
{
    let mut res = decimal_text(t / 10);
    res.push('.');
    res.push(digit_of(t % 10));
    assert(res@ =~= one_decimal(t as nat));
    res
}

/// A byte count for people: "512 B", "1.5 KB", "3.2 MB", "1.0 GB"
/// (units of 1024, one decimal rounded as `{:.1}` rounds the float
/// quotient).
pub fn format_size(bytes: u64) -> (res: String)
    ensures
        res@ == size_text(bytes as nat),
{
    if bytes >= GIB {
        let mut s = one_decimal_text(tenths_of(f64_value(bytes), GIB as u128));
        s.append(" GB");
        s
    } else if bytes >= MIB {
        let mut s = one_decimal_text(tenths_of(f64_value(bytes), MIB as u128));
        s.append(" MB");
        s
    } else if bytes >= KIB {
        let mut s = one_decimal_text(tenths_of(f64_value(bytes), KIB as u128));
        s.append(" KB");
        s
    } else {
        let mut s = decimal_text(bytes);
        s.append(" B");
        s
    }
}

} // verus!

verus! {

/// The first and last day, counted from 1970-01-01, that chrono can hold:
/// -262143-01-01 and 262142-12-31 in the proleptic Gregorian calendar.
pub const FIRST_CHRONO_DAY: i64 = -96465292;
pub const LAST_CHRONO_DAY: i64 = 95026236;

/// Whether `DateTime::from_timestamp(secs, 0)` accepts a number of seconds:
/// the day it falls on lies within chrono's calendar.
pub open spec fn chrono_accepts(secs: int) -> bool {
    FIRST_CHRONO_DAY <= secs / 86400 <= LAST_CHRONO_DAY
}

/// A calendar time in the machine's local time zone, to the minute.
#[derive(Clone, Copy, Debug, PartialEq, Eq)]
pub struct LocalTime {
    pub year: i32,
    pub month: u32,
    pub day: u32,
    pub hour: u32,
    pub minute: u32,
}

/// The fields of a local time lie in their ranges.
pub open spec fn local_time_valid(t: LocalTime) -> bool {
    &&& 1 <= t.month <= 12
    &&& 1 <= t.day <= 31
    &&& t.hour < 24
    &&& t.minute < 60
}

/// A year as chrono's `%Y` writes it: four digits from 0 to 9999, otherwise
/// a sign and at least four digits.
pub open spec fn year_text(y: int) -> Seq<char> {
    if 0 <= y <= 9999 {
        zero_padded(y as nat, 4)
    } else if y < 0 {
        seq!['-'] + zero_padded((-y) as nat, 4)
    } else {
        seq!['+'] + zero_padded(y as nat, 4)
    }
}

/// A local time written as `%Y-%m-%d %H:%M`.
pub open spec fn ymd_hm_text(t: LocalTime) -> Seq<char> {
    year_text(t.year as int) + "-"@ + zero_padded(t.month as nat, 2) + "-"@
        + zero_padded(t.day as nat, 2) + " "@ + zero_padded(t.hour as nat, 2) + ":"@
        + zero_padded(t.minute as nat, 2)
}

/// The proleptic Gregorian date (year, month, day) of the day `z` days
/// after 1970-01-01, by the usual era arithmetic: eras of 400 years that
/// start on March 1st.
pub open spec fn civil_from_days(z: int) -> (int, int, int) {
    let z = z + 719468;
    let era = z / 146097;
    let doe = z - era * 146097;
    let yoe = (doe - doe / 1460 + doe / 36524 - doe / 146096) / 365;
    let y = yoe + era * 400;
    let doy = doe - (365 * yoe + yoe / 4 - yoe / 100);
    let mp = (5 * doy + 2) / 153;
    let d = doy - (153 * mp + 2) / 5 + 1;
    let m = if mp < 10 { mp + 3 } else { mp - 9 };
    (if m <= 2 { y + 1 } else { y }, m, d)
}

/// The calendar minute (year, month, day, hour, minute) of the instant `u`
/// seconds after 1970-01-01 00:00, read on a clock set to UTC.
pub open spec fn calendar_minute(u: int) -> (int, int, int, int, int) {
    let (y, m, d) = civil_from_days(u / 86400);
    let sod = u % 86400;
    (y, m, d, sod / 3600, (sod % 3600) / 60)
}

/// `t` is the calendar minute of the instant `u`.
pub open spec fn shows_instant(t: LocalTime, u: int) -> bool {
    calendar_minute(u) == (t.year as int, t.month as int, t.day as int, t.hour as int, t.minute as int)
}

/// `t` is the local time of the instant `secs` under some UTC offset of
/// less than a day: the calendar minute of `secs + o` for such an `o`.
pub open spec fn local_time_of_instant(t: LocalTime, secs: int) -> bool {
    exists|u: int| -86400 < u - secs < 86400 && #[trigger] shows_instant(t, u)
}

/// `DateTime::from_timestamp(secs, 0)`, then `with_timezone(&Local)` and the
/// year, month, day, hour and minute of the result: the instant `secs`
/// seconds after the epoch in the machine's local time zone, or `None` when
/// chrono cannot hold that instant. The local time is the UTC calendar
/// minute of `secs` shifted by the zone's offset, which chrono keeps
/// strictly within a day (`FixedOffset::east_opt`); which offset applies
/// depends on the machine's time zone and is not stated. chrono panics when
/// its time-zone data cannot give an offset for the instant; that depends
/// on the machine, not on `secs`.
#[verifier::external_body]
fn local_time_of(secs: i64) -> (res: Option<LocalTime>)
    ensures
        res is Some <==> chrono_accepts(secs as int),
        res matches Some(t) ==> local_time_valid(t) && local_time_of_instant(t, secs as int),
{
    match chrono::DateTime::from_timestamp(secs, 0) {
        Some(t) => {
            let l = t.with_timezone(&chrono::Local);
            Some(LocalTime {
                year: chrono::Datelike::year(&l),
                month: chrono::Datelike::month(&l),
                day: chrono::Datelike::day(&l),
                hour: chrono::Timelike::hour(&l),
                minute: chrono::Timelike::minute(&l),
            })
        },
        None => None,
    }
}

/// A year as `%Y` writes it.
pub fn year_string(y: i32) -> (res: String)
    ensures
        res@ == year_text(y as int),
{
    if 0 <= y && y <= 9999 {
        zero_padded_text(y as u64, 4)
    } else if y < 0 {
        let magnitude: i64 = -(y as i64);
        let digits = zero_padded_text(magnitude as u64, 4);
        proof {
            reveal_strlit("-");
        }
        concat2("-", digits.as_str())
    } else {
        let digits = zero_padded_text(y as u64, 4);
        proof {
            reveal_strlit("+");
        }
        concat2("+", digits.as_str())
    }
}

/// A local time as `%Y-%m-%d %H:%M`.
pub fn ymd_hm_string(t: LocalTime) -> (res: String)
    ensures
        res@ == ymd_hm_text(t),
{
    let mut s = year_string(t.year);
    s.append("-");
    let m = zero_padded_text(t.month as u64, 2);
    s.append(m.as_str());
    s.append("-");
    let d = zero_padded_text(t.day as u64, 2);
    s.append(d.as_str());
    s.append(" ");
    let h = zero_padded_text(t.hour as u64, 2);
    s.append(h.as_str());
    s.append(":");
    let mi = zero_padded_text(t.minute as u64, 2);
    s.append(mi.as_str());
    s
}

/// The text shown for a modification time: the local time when chrono
/// could place the timestamp, an em dash otherwise.
pub fn date_text(local: Option<LocalTime>) -> (res: String)
    ensures
        match local {
            Some(t) => res@ == ymd_hm_text(t),
            None => res@ == "\u{2014}"@,
        },
{
    match local {
        Some(t) => ymd_hm_string(t),
        None => crate::text::owned("\u{2014}"),
    }
}

/// A timestamp as "YYYY-MM-DD HH:MM" in local time, or an em dash when it
/// lies outside the range chrono can represent. The local time is the UTC
/// calendar minute of the timestamp shifted by the machine's UTC offset,
/// which is less than a day.
pub fn format_date(timestamp: i64) -> (res: String)
    ensures
        !chrono_accepts(timestamp as int) ==> res@ == "\u{2014}"@,
        chrono_accepts(timestamp as int) ==> exists|t: LocalTime|
            local_time_valid(t) && local_time_of_instant(t, timestamp as int) && res@ == #[trigger] ymd_hm_text(t),
{
    let local = local_time_of(timestamp);
    let res = date_text(local);
    proof {
        if let Some(t) = local {
            assert(local_time_valid(t) && local_time_of_instant(t, timestamp as int) && res@ == ymd_hm_text(t));
        }
    }
    res
}

/// The permission string of a Unix mode, as `ls -l` shows it: 'd' for a
/// directory, 'l' for a link, '-' otherwise, then read/write/execute for
/// owner, group and others.
pub open spec fn permission_text(mode: u32) -> Seq<char> {
    seq![
        if mode & 0o40000 != 0 { 'd' } else if mode & 0o120000 == 0o120000 { 'l' } else { '-' },
        if mode & 0o400 != 0 { 'r' } else { '-' },
        if mode & 0o200 != 0 { 'w' } else { '-' },
        if mode & 0o100 != 0 { 'x' } else { '-' },
        if mode & 0o040 != 0 { 'r' } else { '-' },
        if mode & 0o020 != 0 { 'w' } else { '-' },
        if mode & 0o010 != 0 { 'x' } else { '-' },
        if mode & 0o004 != 0 { 'r' } else { '-' },
        if mode & 0o002 != 0 { 'w' } else { '-' },
        if mode & 0o001 != 0 { 'x' } else { '-' },
    ]
}


/// Each character of the permission string shows its own bits of the mode:
/// the first is 'd' exactly when the directory bit (bit 14) is set, and 'l'
/// exactly when it is not and both link bits (15 and 13) are; then, from
/// bit 8 down to bit 0, 'r', 'w' and 'x' in turn for a set bit and '-' for
/// a clear one.
pub proof fn lemma_permission_bits(mode: u32)
    ensures
        permission_text(mode).len() == 10,
        (permission_text(mode)[0] == 'd') <==> (mode >> 14u32) & 1u32 == 1u32,
        (permission_text(mode)[0] == 'l') <==> (mode >> 14u32) & 1u32 == 0u32 && (mode >> 15u32) & 1u32 == 1u32 && (mode >> 13u32) & 1u32 == 1u32,
        permission_text(mode)[1] == (if (mode >> 8u32) & 1u32 == 1u32 { 'r' } else { '-' }),
        permission_text(mode)[2] == (if (mode >> 7u32) & 1u32 == 1u32 { 'w' } else { '-' }),
        permission_text(mode)[3] == (if (mode >> 6u32) & 1u32 == 1u32 { 'x' } else { '-' }),
        permission_text(mode)[4] == (if (mode >> 5u32) & 1u32 == 1u32 { 'r' } else { '-' }),
        permission_text(mode)[5] == (if (mode >> 4u32) & 1u32 == 1u32 { 'w' } else { '-' }),
        permission_text(mode)[6] == (if (mode >> 3u32) & 1u32 == 1u32 { 'x' } else { '-' }),
        permission_text(mode)[7] == (if (mode >> 2u32) & 1u32 == 1u32 { 'r' } else { '-' }),
        permission_text(mode)[8] == (if (mode >> 1u32) & 1u32 == 1u32 { 'w' } else { '-' }),
        permission_text(mode)[9] == (if (mode >> 0u32) & 1u32 == 1u32 { 'x' } else { '-' }),
{
    assert(((mode & 0o400u32) != 0u32) == ((mode >> 8u32) & 1u32 == 1u32)) by (bit_vector);
    assert(((mode & 0o200u32) != 0u32) == ((mode >> 7u32) & 1u32 == 1u32)) by (bit_vector);
    assert(((mode & 0o100u32) != 0u32) == ((mode >> 6u32) & 1u32 == 1u32)) by (bit_vector);
    assert(((mode & 0o040u32) != 0u32) == ((mode >> 5u32) & 1u32 == 1u32)) by (bit_vector);
    assert(((mode & 0o020u32) != 0u32) == ((mode >> 4u32) & 1u32 == 1u32)) by (bit_vector);
    assert(((mode & 0o010u32) != 0u32) == ((mode >> 3u32) & 1u32 == 1u32)) by (bit_vector);
    assert(((mode & 0o004u32) != 0u32) == ((mode >> 2u32) & 1u32 == 1u32)) by (bit_vector);
    assert(((mode & 0o002u32) != 0u32) == ((mode >> 1u32) & 1u32 == 1u32)) by (bit_vector);
    assert(((mode & 0o001u32) != 0u32) == ((mode >> 0u32) & 1u32 == 1u32)) by (bit_vector);
    assert(((mode & 0o40000u32) != 0u32) == ((mode >> 14u32) & 1u32 == 1u32)) by (bit_vector);
    assert(((mode & 0o120000u32) == 0o120000u32) == ((mode >> 15u32) & 1u32 == 1u32 && (mode >> 13u32) & 1u32 == 1u32)) by (bit_vector);
    assert((mode >> 14u32) & 1u32 == 1u32 || (mode >> 14u32) & 1u32 == 0u32) by (bit_vector);
}

/// The ten-character permission string of a Unix mode.
pub fn format_permissions(mode: u32) -> (res: String)
    ensures
        res@ == permission_text(mode),
        res@.len() == 10,
        (res@[0] == 'd') <==> (mode >> 14u32) & 1u32 == 1u32,
        (res@[0] == 'l') <==> (mode >> 14u32) & 1u32 == 0u32 && (mode >> 15u32) & 1u32 == 1u32 && (mode >> 13u32) & 1u32 == 1u32,
        res@[1] == (if (mode >> 8u32) & 1u32 == 1u32 { 'r' } else { '-' }),
        res@[2] == (if (mode >> 7u32) & 1u32 == 1u32 { 'w' } else { '-' }),
        res@[3] == (if (mode >> 6u32) & 1u32 == 1u32 { 'x' } else { '-' }),
        res@[4] == (if (mode >> 5u32) & 1u32 == 1u32 { 'r' } else { '-' }),
        res@[5] == (if (mode >> 4u32) & 1u32 == 1u32 { 'w' } else { '-' }),
        res@[6] == (if (mode >> 3u32) & 1u32 == 1u32 { 'x' } else { '-' }),
        res@[7] == (if (mode >> 2u32) & 1u32 == 1u32 { 'r' } else { '-' }),
        res@[8] == (if (mode >> 1u32) & 1u32 == 1u32 { 'w' } else { '-' }),
        res@[9] == (if (mode >> 0u32) & 1u32 == 1u32 { 'x' } else { '-' }),
{
    proof {
        lemma_permission_bits(mode);
    }
    let c0 = if mode & 0o40000 != 0 { 'd' } else if mode & 0o120000 == 0o120000 { 'l' } else { '-' };
    let c1 = if mode & 0o400 != 0 { 'r' } else { '-' };
    let c2 = if mode & 0o200 != 0 { 'w' } else { '-' };
    let c3 = if mode & 0o100 != 0 { 'x' } else { '-' };
    let c4 = if mode & 0o040 != 0 { 'r' } else { '-' };
    let c5 = if mode & 0o020 != 0 { 'w' } else { '-' };
    let c6 = if mode & 0o010 != 0 { 'x' } else { '-' };
    let c7 = if mode & 0o004 != 0 { 'r' } else { '-' };
    let c8 = if mode & 0o002 != 0 { 'w' } else { '-' };
    let c9 = if mode & 0o001 != 0 { 'x' } else { '-' };
    assert(permission_text(mode) == seq![c0, c1, c2, c3, c4, c5, c6, c7, c8, c9]);
    let cs: Vec<char> = vec![c0, c1, c2, c3, c4, c5, c6, c7, c8, c9];
    let s = crate::text::string_of(&cs);
    assert(s@ =~= permission_text(mode));
    s
}

/// The item count of the status line: "1 item", "N items", or "V of N
/// items" while a filter hides some.
pub open spec fn item_count_line(visible: nat, total: nat) -> Seq<char> {
    if visible == total {
        if total == 1 { "1 item"@ } else { decimal(total) + " items"@ }
    } else {
        decimal(visible) + " of "@ + decimal(total) + " items"@
    }
}

/// The item count of the status line.
pub fn item_count_text(visible: u32, total: u32) -> (res: String)
    ensures
        res@ == item_count_line(visible as nat, total as nat),
{
    if visible == total {
        if total == 1 {
            crate::text::owned("1 item")
        } else {
            let mut s = decimal_text(total as u64);
            s.append(" items");
            s
        }
    } else {
        let mut s = decimal_text(visible as u64);
        s.append(" of ");
        let t = decimal_text(total as u64);
        s.append(t.as_str());
        s.append(" items");
        s
    }
}

/// The selection part of the status line: empty when nothing is selected,
/// "N selected" otherwise.
pub fn selection_text(count: u32) -> (res: String)
    ensures
        res@ == if count == 0 { Seq::<char>::empty() } else { decimal(count as nat) + " selected"@ },
{
    if count == 0 {
        String::new()
    } else {
        let mut s = decimal_text(count as u64);
        s.append(" selected");
        s
    }
}

/// The disk part of the status line: "F free of T" with both sizes as
/// `format_size` writes them, empty when the total is unknown (0).
pub fn disk_info_text(free: u64, total: u64) -> (res: String)
    ensures
        res@ == if total > 0 { size_text(free as nat) + " free of "@ + size_text(total as nat) } else { Seq::<char>::empty() },
{
    if total > 0 {
        let mut s = format_size(free);
        s.append(" free of ");
        let t = format_size(total);
        s.append(t.as_str());
        s
    } else {
        String::new()
    }
}

} // verus!

verus! {

/// The shown number of tenths `t` lies within half a tenth of the exact
/// quotient `x / unit`.
pub open spec fn within_half_tenth(t: nat, x: nat, unit: nat) -> bool {
    let diff = t * unit - 10 * x;
    -(unit as int) <= 2 * diff <= unit
}

proof fn lemma_tenths_rounds(x: nat, unit: nat)
    requires
        unit > 0,
    ensures
        within_half_tenth(tenths(x, unit), x, unit),
{
    let q = (10 * x) / unit;
    let r = (10 * x) % unit;
    lemma_fundamental_div_mod((10 * x) as int, unit as int);
    assert(10 * x == unit * q + r);
    assert(0 <= r < unit);
    let t = tenths(x, unit);
    if r * 2 > unit || (r * 2 == unit && q % 2 == 1) {
        assert(t == q + 1);
        assert(t * unit == q * unit + unit) by (nonlinear_arith)
            requires t == q + 1;
    } else {
        assert(t == q);
    }
    assert(q * unit == unit * q) by (nonlinear_arith);
}

proof fn lemma_f64_exact(v: nat)
    requires
        v < 0x20_0000_0000_0000,
    ensures
        f64_of(v) == v,
{
    assert(f64_grain(v) == 1);
}

/// Sizes below 1024 bytes are shown as a whole number of bytes; from 1024
/// bytes, 1024 KB and 1024 MB up they are shown in KB, MB and GB (powers
/// of 1024) with one decimal; while the byte count is exact as a float
/// (below 2^53) the shown tenths lie within half a tenth of the true size in
/// that unit.
pub proof fn lemma_size_units(bytes: nat)
    ensures
        bytes < 1024 ==> size_text(bytes) == decimal(bytes) + " B"@,
        1024 <= bytes < 1048576 ==> exists|t: nat| #[trigger] one_decimal(t) + " KB"@ == size_text(bytes)
            && within_half_tenth(t, bytes, 1024),
        1048576 <= bytes < 1073741824 ==> exists|t: nat| #[trigger] one_decimal(t) + " MB"@ == size_text(bytes)
            && within_half_tenth(t, bytes, 1048576),
        1073741824 <= bytes ==> exists|t: nat| #[trigger] one_decimal(t) + " GB"@ == size_text(bytes)
            && (bytes < 0x20_0000_0000_0000 ==> within_half_tenth(t, bytes, 1073741824)),
{
    if bytes < 0x20_0000_0000_0000 {
        lemma_f64_exact(bytes);
    }
    if 1024 <= bytes < 1048576 {
        lemma_tenths_rounds(bytes, 1024);
        let t = tenths(bytes, 1024);
        assert(one_decimal(t) + " KB"@ == size_text(bytes));
    } else if 1048576 <= bytes < 1073741824 {
        lemma_tenths_rounds(bytes, 1048576);
        let t = tenths(bytes, 1048576);
        assert(one_decimal(t) + " MB"@ == size_text(bytes));
    } else if 1073741824 <= bytes {
        lemma_tenths_rounds(bytes, 1073741824);
        let t = tenths(f64_of(bytes), 1073741824);
        assert(one_decimal(t) + " GB"@ == size_text(bytes));
    }
}

} // verus!
