use vstd::prelude::*;

verus! {

#[verifier::external_type_specification]
#[verifier::external_body]
pub struct ExSystemTime(std::time::SystemTime);

/// std's `SystemTime::now`: the system clock's reading at the call. Nothing
/// is stated of it: it is the time of the call.
#[verifier::external_body]
fn system_now() -> std::time::SystemTime {
    std::time::SystemTime::now()
}

/// std's `UNIX_EPOCH`, the start of 1970 in UTC.
#[verifier::external_body]
fn unix_epoch() -> std::time::SystemTime {
    std::time::UNIX_EPOCH
}

/// std's `SystemTime::duration_since`, kept as an `Option`: the time from
/// `earlier` to `later`, `None` when `later` lies before `earlier`. Nothing
/// more is stated: a `SystemTime` is opaque here.
#[verifier::external_body]
fn duration_since(later: std::time::SystemTime, earlier: std::time::SystemTime) -> Option<
    core::time::Duration,
> {
    later.duration_since(earlier).ok()
}

/// std's `Duration::as_secs`: the whole seconds of a duration. Nothing is
/// stated of it: a `Duration` is opaque here.
#[verifier::external_body]
fn duration_secs(d: &core::time::Duration) -> u64 {
    d.as_secs()
}

/// std's `Duration::subsec_nanos`: the nanoseconds past the whole seconds of
/// a duration. Stated, as std documents it: fewer than one billion.
#[verifier::external_body]
fn subsec_nanos(d: &core::time::Duration) -> (r: u32)
    ensures
        r < 1_000_000_000,
{
    d.subsec_nanos()
}

/// chrono's `DateTime::<Utc>::from_timestamp(secs, nsecs)` read back with
/// `timestamp_micros`: the instant `secs` seconds and `nsecs` nanoseconds
/// after the start of 1970, in microseconds. Stated, as chrono's source
/// shows (`timestamp` gives `secs` back, `timestamp_subsec_micros` is the
/// nanoseconds over 1000): a result is `secs * 1_000_000 + nsecs / 1000`.
/// When chrono gives `None` (an instant outside its calendar range, or no
/// valid nanosecond) is not stated: the range takes pages.
#[verifier::external_body]
fn chrono_micros(secs: i64, nsecs: u32) -> (r: Option<i64>)
    ensures
        r matches Some(m) ==> m == secs * 1_000_000 + nsecs / 1000,
{
    match chrono::DateTime::<chrono::Utc>::from_timestamp(secs, nsecs) {
        Some(t) => Some(t.timestamp_micros()),
        None => None,
    }
}

/// The low 32 bits of a reading of the clock in whole seconds since the Unix
/// epoch; 0 for a clock that reads before the epoch (`None`).
pub open spec fn secs_of(reading: Option<u64>) -> u32 {
    match reading {
        Some(s) => (s % 0x1_0000_0000) as u32,
        None => 0,
    }
}

/// The low 32 bits of a clock reading in seconds, 0 when there is none.
pub fn secs_of_reading(reading: Option<u64>) -> (r: u32)
    ensures
        r == secs_of(reading),
{
    match reading {
        Some(s) => (s % 0x1_0000_0000) as u32,
        None => 0,
    }
}

/// The seconds and nanoseconds of a clock reading relative to the start of
/// 1970, as chrono counts them for a `SystemTime`. `after` is the time since
/// the epoch when the reading is not before it; otherwise `before` is the time
/// from the reading to the epoch, and the seconds count down from the epoch
/// with the nanoseconds counting up. `None` when the seconds do not fit an
/// `i64`.
pub open spec fn timestamp_parts(after: Option<(u64, u32)>, before: Option<(u64, u32)>) -> Option<
    (i64, u32),
> {
    match after {
        Some((s, n)) => if s <= i64::MAX {
            Some((s as i64, n))
        } else {
            None
        },
        None => match before {
            Some((s, n)) => if s >= i64::MAX {
                None
            } else if n == 0 {
                Some(((0 - s) as i64, 0u32))
            } else {
                Some(((0 - s - 1) as i64, (1_000_000_000 - n) as u32))
            },
            None => None,
        },
    }
}

/// `timestamp_parts` of a clock reading.
pub fn timestamp_parts_of(after: Option<(u64, u32)>, before: Option<(u64, u32)>) -> (r: Option<
    (i64, u32),
>)
    requires
        after matches Some((_, n)) ==> n < 1_000_000_000,
        before matches Some((_, n)) ==> n < 1_000_000_000,
    ensures
        r == timestamp_parts(after, before),
{
    match after {
        Some((s, n)) => if s <= i64::MAX as u64 {
            Some((s as i64, n))
        } else {
            None
        },
        None => match before {
            Some((s, n)) => if s >= i64::MAX as u64 {
                None
            } else if n == 0 {
                Some((0 - (s as i64), 0u32))
            } else {
                Some((0 - (s as i64) - 1, 1_000_000_000 - n))
            },
            None => None,
        },
    }
}

/// The whole seconds and the nanoseconds of a duration.
fn duration_parts(d: &core::time::Duration) -> (r: (u64, u32))
    ensures
        r.1 < 1_000_000_000,
{
    (duration_secs(d), subsec_nanos(d))
}

/// The current Unix time in microseconds, through chrono (negative for a
/// clock set before 1970); 0 when the reading lies outside what chrono or an
/// `i64` can count.
pub(crate) fn utc_now_micros() -> i64 {
    let now = system_now();
    let epoch = unix_epoch();
    let after = match duration_since(now, epoch) {
        Some(d) => Some(duration_parts(&d)),
        None => None,
    };
    let before = match after {
        Some(_) => None,
        None => match duration_since(epoch, now) {
            Some(d) => Some(duration_parts(&d)),
            None => None,
        },
    };
    match timestamp_parts_of(after, before) {
        Some((secs, nsecs)) => match chrono_micros(secs, nsecs) {
            Some(m) => m,
            None => 0,
        },
        None => 0,
    }
}

/// The current Unix time in whole seconds, read from the system clock at the
/// call and kept to its low 32 bits; 0 when the clock reads before 1970.
pub fn get_current_secs() -> u32 {
    let reading = match duration_since(system_now(), unix_epoch()) {
        Some(d) => Some(duration_secs(&d)),
        None => None,
    };
    secs_of_reading(reading)
}

/// The Unix second, kept to its low 32 bits, at which a timestamp in
/// microseconds falls; 0 for a timestamp before 1970.
pub open spec fn second_of_micros(m: i64) -> u32 {
    if m < 0 {
        0
    } else {
        ((m / 1_000_000) % 0x1_0000_0000) as u32
    }
}

/// The second at which a timestamp in microseconds falls.
pub fn second_of(m: i64) -> (r: u32)
    ensures
        r == second_of_micros(m),
{
    if m < 0 {
        0
    } else {
        ((m / 1_000_000) % 0x1_0000_0000) as u32
    }
}

/// The second at which an entry with a time to live of `ttl` seconds, written
/// at second `now`, expires: 0 (never) for a zero `ttl`, else `now + ttl`
/// modulo 2^32.
pub open spec fn expiry(now: u32, ttl: u32) -> u32 {
    if ttl == 0 {
        0
    } else {
        ((now + ttl) % 0x1_0000_0000) as u32
    }
}

pub fn expiry_secs(now: u32, ttl: u32) -> (r: u32)
    ensures
        r == expiry(now, ttl),
{
    if ttl == 0 {
        0
    } else if now <= u32::MAX - ttl {
        now + ttl
    } else {
        now - (u32::MAX - ttl) - 1
    }
}

/// A put stamped at `ts` (microseconds) with a time to live of `ttl > 0`
/// seconds expires `ttl` seconds after the second of its stamp: never at
/// 0 (never) and, while the sum fits 32 bits, strictly after that second, so
/// a value is never stored already expired.
pub proof fn law_expiry_after_stamp(ts: i64, ttl: u32)
    requires
        ttl > 0,
        second_of_micros(ts) + ttl < 0x1_0000_0000,
    ensures
        expiry(second_of_micros(ts), ttl) == second_of_micros(ts) + ttl,
        expiry(second_of_micros(ts), ttl) > second_of_micros(ts),
        expiry(second_of_micros(ts), ttl) != 0,
        ts >= 1_000_000 && ts < 0x1_0000_0000 * 1_000_000 ==> expiry(second_of_micros(ts), ttl)
            == ts / 1_000_000 + ttl,
{
    if ts >= 1_000_000 && ts < 0x1_0000_0000 * 1_000_000 {
        assert(ts / 1_000_000 < 0x1_0000_0000);
    }
}

} // verus!
