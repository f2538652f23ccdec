//! The build's `built_at` stamp: an ISO-8601 UTC timestamp from seconds since the Unix epoch,
//! the civil date computed with Howard Hinnant's days-to-civil algorithm.

use vstd::prelude::*;
use crate::text::{append_chars, decimal, decimal_int, render_i64, render_u64, string_of};

verus! {

/// Division truncating toward zero, as Rust's `/` on signed integers.
pub open spec fn tdiv(a: int, b: int) -> int {
    if a >= 0 {
        a / b
    } else {
        -((-a) / b)
    }
}

/// `(year, month, day)` of the day `days` after 1970-01-01, by days-to-civil: shift to an era
/// starting 0000-03-01, find the year of the era and the day of the (March-based) year, then the
/// month and day.
pub open spec fn civil_from_days(days: int) -> (int, int, int) {
    let z = days + 719_468;
    let era = z / 146_097;
    let doe = z % 146_097;
    let yoe = tdiv(doe - doe / 1460 + doe / 36_524 - doe / 146_096, 365);
    let doy = doe - (365 * yoe + tdiv(yoe, 4) - tdiv(yoe, 100));
    let mp = tdiv(5 * doy + 2, 153);
    let d = doy - tdiv(153 * mp + 2, 5) + 1;
    let mo = if mp < 10 {
        mp + 3
    } else {
        mp - 9
    };
    let y = yoe + era * 400 + if mo <= 2 {
        1int
    } else {
        0int
    };
    (y, mo, d)
}

/// `format!("{n:0w$}")`: the decimal form, zero-padded after any sign to `w` characters.
pub open spec fn padded(n: int, w: nat) -> Seq<char> {
    let digits = if n < 0 {
        decimal((-n) as nat)
    } else {
        decimal(n as nat)
    };
    let sign = if n < 0 {
        seq!['-']
    } else {
        Seq::<char>::empty()
    };
    let fill = if sign.len() + digits.len() < w {
        (w - sign.len() - digits.len()) as nat
    } else {
        0nat
    };
    sign + Seq::new(fill, |i: int| '0') + digits
}

/// The stamp of `secs` seconds after the epoch: `YYYY-MM-DDTHH:MM:SSZ`.
pub open spec fn timestamp_spec(secs: nat) -> Seq<char> {
    let (y, mo, d) = civil_from_days((secs / 86_400) as int);
    let h = (secs % 86_400) / 3600;
    let m = (secs % 3600) / 60;
    let s = secs % 60;
    padded(y, 4) + seq!['-'] + padded(mo, 2) + seq!['-'] + padded(d, 2) + seq!['T'] + padded(h as int, 2) + seq![
        ':',
    ] + padded(m as int, 2) + seq![':'] + padded(s as int, 2) + seq!['Z']
}

fn push_padded(out: &mut Vec<char>, n: i64, w: usize)
    requires
        n > i64::MIN,
    ensures
        final(out)@ == old(out)@ + padded(n as int, w as nat),
{
    let digits = if n < 0 {
        render_u64((-n) as u64)
    } else {
        render_u64(n as u64)
    };
    let ghost start = out@;
    let sign: usize = if n < 0 {
        1
    } else {
        0
    };
    if n < 0 {
        out.push('-');
    }
    let fill: usize = if w > sign && w - sign > digits.len() {
        w - sign - digits.len()
    } else {
        0
    };
    let ghost pre = out@;
    let mut k: usize = 0;
    while k < fill
        invariant
            k <= fill,
            out@ == pre + Seq::new(k as nat, |i: int| '0'),
        decreases fill - k,
    {
        out.push('0');
        assert(out@ =~= pre + Seq::new((k + 1) as nat, |i: int| '0'));
        k += 1;
    }
    append_chars(out, digits.as_slice());
    proof {
        if n < 0 {
            assert(pre =~= start.push('-'));
            assert(out@ =~= start + (seq!['-'] + Seq::new(fill as nat, |i: int| '0') + digits@));
        } else {
            assert(pre =~= start);
            assert(out@ =~= start + (Seq::<char>::empty() + Seq::new(fill as nat, |i: int| '0') + digits@));
        }
    }
}

/// The civil date of a day after the epoch.
#[verifier::rlimit(50)]
fn civil_exec(days: i64) -> (r: (i64, i64, i64))
    requires
        0 <= days <= 0x1_0000_0000_0000,
    ensures
        (r.0 as int, r.1 as int, r.2 as int) == civil_from_days(days as int),
        r.0 > i64::MIN && r.1 > i64::MIN && r.2 > i64::MIN,
{
    let z = days + 719_468;
    let era = z / 146_097;
    let doe = z % 146_097;
    let yoe = (doe - doe / 1460 + doe / 36_524 - doe / 146_096) / 365;
    let doy = doe - (365 * yoe + yoe / 4 - yoe / 100);
    let mp = (5 * doy + 2) / 153;
    let d = doy - (153 * mp + 2) / 5 + 1;
    let mo = if mp < 10 {
        mp + 3
    } else {
        mp - 9
    };
    let y = yoe + era * 400 + if mo <= 2 {
        1
    } else {
        0
    };
    (y, mo, d)
}

/// The ISO-8601 UTC stamp of `secs` seconds after the Unix epoch.
pub fn utc_timestamp(secs: u64) -> (r: String)
    ensures
        r@ == timestamp_spec(secs as nat),
{
    let days = (secs / 86_400) as i64;
    let h = ((secs % 86_400) / 3600) as i64;
    let m = ((secs % 3600) / 60) as i64;
    let s = (secs % 60) as i64;
    let (y, mo, d) = civil_exec(days);
    let mut out: Vec<char> = Vec::new();
    push_padded(&mut out, y, 4);
    out.push('-');
    push_padded(&mut out, mo, 2);
    out.push('-');
    push_padded(&mut out, d, 2);
    out.push('T');
    push_padded(&mut out, h, 2);
    out.push(':');
    push_padded(&mut out, m, 2);
    out.push(':');
    push_padded(&mut out, s, 2);
    out.push('Z');
    string_of(out.as_slice())
}

/// `SystemTime::now`, as whole seconds after the Unix epoch; `None` for a clock set before it.
/// Nothing is stated of the value: it is the time of the call.
#[verifier::external_body]
fn seconds_since_epoch() -> (r: Option<u64>) {
    std::time::SystemTime::now().duration_since(std::time::UNIX_EPOCH).ok().map(|d| d.as_secs())
}

/// The stamp of the moment of the call; a clock set before the epoch stamps the epoch.
pub fn now_utc() -> (r: String)
    ensures
        exists|secs: nat| secs <= u64::MAX && r@ == timestamp_spec(secs),
{
    let secs = match seconds_since_epoch() {
        Some(s) => s,
        None => 0,
    };
    let r = utc_timestamp(secs);
    assert(r@ == timestamp_spec(secs as nat));
    r
}

/// Every stamp names a real moment: a year from 1970 on, a month from 1 to 12, a day that month
/// has (at most 29 in February, 30 in April, June, September and November, 31 otherwise), an
/// hour below 24 and a minute and second below 60.
pub proof fn timestamp_fields_in_range(secs: nat)
    ensures
        ({
            let (y, mo, d) = civil_from_days((secs / 86_400) as int);
            &&& y >= 1970
            &&& 1 <= mo <= 12
            &&& 1 <= d <= 31
            &&& mo == 2 ==> d <= 29
            &&& (mo == 4 || mo == 6 || mo == 9 || mo == 11) ==> d <= 30
        }),
        (secs % 86_400) / 3600 < 24,
        (secs % 3600) / 60 < 60,
        secs % 60 < 60,
{
    let days = (secs / 86_400) as int;
    let z = days + 719_468;
    let doe = z % 146_097;
    let yoe = (doe - doe / 1460 + doe / 36_524 - doe / 146_096) / 365;
    let doy = doe - (365 * yoe + yoe / 4 - yoe / 100);
    assert(0 <= doe < 146_097);
    assert(0 <= yoe <= 399);
    assert(0 <= doy <= 365);
}

} // verus!
