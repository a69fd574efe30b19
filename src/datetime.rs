//! The date and time stamp that the editor inserts.
use vstd::prelude::*;

verus! {

/// Decimal digits of `n`, most significant first.
pub open spec fn dec(n: nat) -> Seq<char>
    decreases n,
{
    if n < 10 {
        seq![digit_char(n)]
    } else {
        dec(n / 10).push(digit_char(n % 10))
    }
}

pub open spec fn digit_char(d: nat) -> char {
    (d + 48) as char
}

/// `n` in decimal, left-padded with zeros to at least `w` characters.
pub open spec fn padded(n: nat, w: nat) -> Seq<char> {
    let d = dec(n);
    if d.len() < w {
        Seq::new((w - d.len()) as nat, |_i: int| '0') + d
    } else {
        d
    }
}

/// Hour, minute, day, month and year of the second `secs` counted from
/// 1970-01-01 00:00 (days to civil date after Howard Hinnant).
pub open spec fn civil_of(secs: nat) -> (nat, nat, nat, nat, nat) {
    let days = secs / 86400 + 719468;
    let day_secs = secs % 86400;
    let era = days / 146097;
    let doe = days % 146097;
    let yoe = (doe - doe / 1460 + doe / 36524 - doe / 146096) / 365;
    let y = yoe + era * 400;
    let doy = doe - (365 * yoe + yoe / 4 - yoe / 100);
    let mp = (5 * doy + 2) / 153;
    let d = doy - (153 * mp + 2) / 5 + 1;
    let m = if mp < 10 {
        mp + 3
    } else {
        mp - 9
    };
    let y = if m <= 2 {
        y + 1
    } else {
        y
    };
    ((day_secs / 3600) as nat, ((day_secs % 3600) / 60) as nat, d as nat, m as nat, y as nat)
}

/// The stamp "HH:MM DD/MM/YYYY" of the local second `secs`.
pub open spec fn stamp_of(secs: nat) -> Seq<char> {
    let (h, mi, d, mo, y) = civil_of(secs);
    padded(h, 2) + seq![':'] + padded(mi, 2) + seq![' '] + padded(d, 2) + seq!['/'] + padded(
        mo,
        2,
    ) + seq!['/'] + padded(y, 4)
}

fn push_dec(out: &mut Vec<char>, n: u64)
    ensures
        final(out)@ == old(out)@ + dec(n as nat),
    decreases n,
{
    if n >= 10 {
        push_dec(out, n / 10);
    }
    let c = ((n % 10) as u8 + 48) as char;
    out.push(c);
    assert(c == digit_char((n % 10) as nat));
    if n >= 10 {
        assert(old(out)@ + dec(n as nat) =~= old(out)@ + dec((n / 10) as nat) + seq![c]);
    } else {
        assert(old(out)@ + dec(n as nat) =~= old(out)@ + seq![c]);
    }
}

fn dec_len(n: u64) -> (r: u64)
    ensures
        r == dec(n as nat).len(),
        r <= n as int + 1,
    decreases n,
{
    if n >= 10 {
        let k = dec_len(n / 10);
        assert(n / 10 + 2 <= n + 1);
        k + 1
    } else {
        1
    }
}

fn push_padded(out: &mut Vec<char>, n: u64, w: u64)
    requires
        w <= 4,
    ensures
        final(out)@ == old(out)@ + padded(n as nat, w as nat),
{
    let k = dec_len(n);
    let ghost base = out@;
    if k < w {
        let mut i: u64 = 0;
        while i < w - k
            invariant
                k < w <= 4,
                i <= w - k,
                out@ == base + Seq::new(i as nat, |_j: int| '0'),
            decreases w - k - i,
        {
            out.push('0');
            i = i + 1;
            assert(out@ =~= base + Seq::new(i as nat, |_j: int| '0'));
        }
    }
    push_dec(out, n);
    assert(out@ =~= base + padded(n as nat, w as nat));
}

/// The stamp "HH:MM DD/MM/YYYY" (zero-padded, the year to at least four
/// digits) of the local time `local_secs`, counted in seconds from
/// 1970-01-01 00:00 in the local time zone.
pub fn format_local_datetime(local_secs: u64) -> (r: String)
    ensures
        r@ == stamp_of(local_secs as nat),
{
    let days: u64 = local_secs / 86400 + 719468;
    let day_secs = local_secs % 86400;
    let hours = day_secs / 3600;
    let minutes = (day_secs % 3600) / 60;
    let era = days / 146097;
    let doe = days % 146097;
    assert(doe / 1460 <= doe) by (nonlinear_arith)
        requires
            doe >= 0,
    ;
    let yoe = (doe - doe / 1460 + doe / 36524 - doe / 146096) / 365;
    assert(yoe <= 400) by (nonlinear_arith)
        requires
            doe < 146097,
            yoe == (doe - doe / 1460 + doe / 36524 - doe / 146096) / 365,
    ;
    assert(era <= 1000000000000) by (nonlinear_arith)
        requires
            days <= u64::MAX / 86400 + 719468,
            era == days / 146097,
    ;
    let y = yoe + era * 400;
    assert(365 * yoe + yoe / 4 - yoe / 100 <= doe) by (nonlinear_arith)
        requires
            doe < 146097,
            yoe == (doe - doe / 1460 + doe / 36524 - doe / 146096) / 365,
    ;
    let doy = doe - (365 * yoe + yoe / 4 - yoe / 100);
    assert(doy < 366) by (nonlinear_arith)
        requires
            doe < 146097,
            yoe == (doe - doe / 1460 + doe / 36524 - doe / 146096) / 365,
            doy == doe - (365 * yoe + yoe / 4 - yoe / 100),
    ;
    let mp = (5 * doy + 2) / 153;
    assert((153 * mp + 2) / 5 <= doy) by (nonlinear_arith)
        requires
            mp == (5 * doy + 2) / 153,
    ;
    let d = doy - (153 * mp + 2) / 5 + 1;
    let m = if mp < 10 {
        mp + 3
    } else {
        mp - 9
    };
    let y = if m <= 2 {
        y + 1
    } else {
        y
    };
    let mut out: Vec<char> = Vec::new();
    push_padded(&mut out, hours, 2);
    out.push(':');
    push_padded(&mut out, minutes, 2);
    out.push(' ');
    push_padded(&mut out, d, 2);
    out.push('/');
    push_padded(&mut out, m, 2);
    out.push('/');
    push_padded(&mut out, y, 4);
    assert(out@ =~= stamp_of(local_secs as nat));
    crate::buffer::string_from_chars(&out)
}

} // verus!
