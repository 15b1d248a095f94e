use vstd::prelude::*;

use crate::commands::command_ops::counter::counter_req::CounterReq;
use crate::util::clock::{expiry, expiry_secs, second_of, second_of_micros, utc_now_micros};

verus! {

impl CounterReq {
    /// A `Put` of `value` written at `timestamp` (microseconds) and second
    /// `now_secs`, living `ttl` seconds (0: forever).
    pub fn put_at(value: i64, ttl: u32, timestamp: i64, now_secs: u32) -> (r: CounterReq)
        ensures
            r == (CounterReq::Put { value, ttl: expiry(now_secs, ttl), timestamp }),
    {
        CounterReq::Put { timestamp, value, ttl: expiry_secs(now_secs, ttl) }
    }

    /// A `Put` of `value` stamped with the current time, living `ttl` seconds
    /// from the second of its stamp (0: forever).
    pub fn put(value: i64, ttl: u32) -> (r: CounterReq)
        ensures
            r matches CounterReq::Put { value: v, ttl: t, .. } && v == value && (ttl == 0 ==> t == 0),
            r matches CounterReq::Put { timestamp: ts, ttl: t, .. } && t == expiry(second_of_micros(ts), ttl),
    {
        let timestamp = utc_now_micros();
        let now = second_of(timestamp);
        CounterReq::put_at(value, ttl, timestamp, now)
    }

    pub fn get() -> (r: CounterReq)
        ensures
            r == CounterReq::Get,
    {
        CounterReq::Get
    }

    /// A `Del` stamped with the current time.
    pub fn del() -> (r: CounterReq)
        ensures
            r is Del,
    {
        CounterReq::Del { timestamp: utc_now_micros() }
    }

    /// An `Inc` stamped with the current time.
    pub fn inc() -> (r: CounterReq)
        ensures
            r is Inc,
    {
        CounterReq::Inc { timestamp: utc_now_micros() }
    }

    /// A `Dec` stamped with the current time.
    pub fn dec() -> (r: CounterReq)
        ensures
            r is Dec,
    {
        CounterReq::Dec { timestamp: utc_now_micros() }
    }
}

} // verus!
