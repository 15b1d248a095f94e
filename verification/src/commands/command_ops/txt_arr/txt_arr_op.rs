use vstd::prelude::*;

use crate::commands::command_ops::txt_arr::txt_arr_req::TxtArrReq;
use crate::util::clock::{expiry, expiry_secs, second_of, second_of_micros, utc_now_micros};

verus! {

impl TxtArrReq {
    /// A `Put` of `value` written at `timestamp` (microseconds) and second
    /// `now_secs`, living `ttl` seconds (0: forever).
    pub fn put_at(value: Vec<String>, ttl: u32, timestamp: i64, now_secs: u32) -> (r: TxtArrReq)
        ensures
            r matches TxtArrReq::Put { timestamp: ts, value: v, ttl: t } && ts == timestamp && v
                == value && t == expiry(now_secs, ttl),
    {
        TxtArrReq::Put { timestamp, value, ttl: expiry_secs(now_secs, ttl) }
    }

    /// A `Put` of `value` stamped with the current time, living `ttl` seconds
    /// from the second of its stamp (0: forever).
    pub fn put(value: Vec<String>, ttl: u32) -> (r: TxtArrReq)
        ensures
            r matches TxtArrReq::Put { value: v, ttl: t, .. } && v == value && (ttl == 0 ==> t == 0),
            r matches TxtArrReq::Put { timestamp: ts, ttl: t, .. } && t == expiry(second_of_micros(ts), ttl),
    {
        let timestamp = utc_now_micros();
        let now = second_of(timestamp);
        TxtArrReq::put_at(value, ttl, timestamp, now)
    }

    pub fn get() -> (r: TxtArrReq)
        ensures
            r == TxtArrReq::Get,
    {
        TxtArrReq::Get
    }

    /// A `Del` stamped with the current time.
    pub fn del() -> (r: TxtArrReq)
        ensures
            r is Del,
    {
        TxtArrReq::Del { timestamp: utc_now_micros() }
    }
}

} // verus!
