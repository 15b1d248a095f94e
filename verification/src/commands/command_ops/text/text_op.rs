use vstd::prelude::*;

use crate::commands::command_ops::text::text_req::TextReq;
use crate::util::clock::{expiry, expiry_secs, second_of, second_of_micros, utc_now_micros};

verus! {

impl TextReq {
    /// A `Put` of `value` written at `timestamp` (microseconds) and second
    /// `now_secs`, living `ttl` seconds (0: forever).
    pub fn put_at(value: String, ttl: u32, timestamp: i64, now_secs: u32) -> (r: TextReq)
        ensures
            r matches TextReq::Put { timestamp: ts, value: v, ttl: t } && ts == timestamp && v
                == value && t == expiry(now_secs, ttl),
    {
        TextReq::Put { timestamp, value, ttl: expiry_secs(now_secs, ttl) }
    }

    /// A `Put` of `value` stamped with the current time, living `ttl` seconds
    /// from the second of its stamp (0: forever).
    pub fn put(value: String, ttl: u32) -> (r: TextReq)
        ensures
            r matches TextReq::Put { value: v, ttl: t, .. } && v == value && (ttl == 0 ==> t == 0),
            r matches TextReq::Put { timestamp: ts, ttl: t, .. } && t == expiry(second_of_micros(ts), ttl),
    {
        let timestamp = utc_now_micros();
        let now = second_of(timestamp);
        TextReq::put_at(value, ttl, timestamp, now)
    }

    pub fn get() -> (r: TextReq)
        ensures
            r == TextReq::Get,
    {
        TextReq::Get
    }

    /// A `Del` stamped with the current time.
    pub fn del() -> (r: TextReq)
        ensures
            r is Del,
    {
        TextReq::Del { timestamp: utc_now_micros() }
    }
}

} // verus!
