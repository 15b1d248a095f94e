use vstd::prelude::*;

use crate::commands::command_req::CommandReqSerializer;
use crate::util::parser::{append_i64, append_small_bytes, append_u32, i64_bytes, small_string_bytes, u32_bytes};
use crate::util::tags::{
    name_cntr,
    name_dec,
    name_del,
    name_get,
    name_inc,
    name_put,
    tag_cntr,
    tag_dec,
    tag_del,
    tag_get,
    tag_inc,
    tag_put,
};

verus! {

/// Commands on a counter.
#[derive(Debug, Clone)]
pub enum CounterReq {
    /// Set the counter to `value`, expiring at second `ttl` (0: never).
    Put { value: i64, ttl: u32, timestamp: i64 },
    Get,
    Inc { timestamp: i64 },
    Dec { timestamp: i64 },
    Del { timestamp: i64 },
}

impl CommandReqSerializer for CounterReq {
    open spec fn encodable(&self) -> bool {
        true
    }

    open spec fn encoding(&self) -> Seq<u8> {
        small_string_bytes(tag_cntr()) + match self {
            CounterReq::Put { value, ttl, timestamp } => small_string_bytes(tag_put()) + i64_bytes(
                *value,
            ) + u32_bytes(*ttl) + i64_bytes(*timestamp),
            CounterReq::Get => small_string_bytes(tag_get()),
            CounterReq::Inc { timestamp } => small_string_bytes(tag_inc()) + i64_bytes(*timestamp),
            CounterReq::Dec { timestamp } => small_string_bytes(tag_dec()) + i64_bytes(*timestamp),
            CounterReq::Del { timestamp } => small_string_bytes(tag_del()) + i64_bytes(*timestamp),
        }
    }

    fn serialize(&self, buf: &mut Vec<u8>) {
        append_small_bytes(buf, &name_cntr());
        match self {
            CounterReq::Put { value, ttl, timestamp } => {
                append_small_bytes(buf, &name_put());
                append_i64(buf, *value);
                append_u32(buf, *ttl);
                append_i64(buf, *timestamp);
            },
            CounterReq::Get => {
                append_small_bytes(buf, &name_get());
            },
            CounterReq::Inc { timestamp } => {
                append_small_bytes(buf, &name_inc());
                append_i64(buf, *timestamp);
            },
            CounterReq::Dec { timestamp } => {
                append_small_bytes(buf, &name_dec());
                append_i64(buf, *timestamp);
            },
            CounterReq::Del { timestamp } => {
                append_small_bytes(buf, &name_del());
                append_i64(buf, *timestamp);
            },
        }
        assert(buf@ =~= old(buf)@ + self.encoding());
    }
}

/// The wire form of every counter command, byte for byte: the kind `CNTR`
/// and then the command's own name, each as a small string (`+`, the length,
/// the ASCII letters), then its numbers. In particular an increment and a
/// decrement stamped alike never encode alike.
pub proof fn law_counter_wire_layout(value: i64, ttl: u32, t: i64)
    ensures
        (CounterReq::Put { value, ttl, timestamp: t }).encoding() == seq![
            0x2bu8, 4u8, 0x43u8, 0x4eu8, 0x54u8, 0x52u8, 0x2bu8, 3u8, 0x50u8, 0x55u8, 0x54u8,
        ] + i64_bytes(value) + u32_bytes(ttl) + i64_bytes(t),
        CounterReq::Get.encoding() == seq![
            0x2bu8, 4u8, 0x43u8, 0x4eu8, 0x54u8, 0x52u8, 0x2bu8, 3u8, 0x47u8, 0x45u8, 0x54u8,
        ],
        (CounterReq::Inc { timestamp: t }).encoding() == seq![
            0x2bu8, 4u8, 0x43u8, 0x4eu8, 0x54u8, 0x52u8, 0x2bu8, 3u8, 0x49u8, 0x4eu8, 0x43u8,
        ] + i64_bytes(t),
        (CounterReq::Dec { timestamp: t }).encoding() == seq![
            0x2bu8, 4u8, 0x43u8, 0x4eu8, 0x54u8, 0x52u8, 0x2bu8, 3u8, 0x44u8, 0x45u8, 0x43u8,
        ] + i64_bytes(t),
        (CounterReq::Del { timestamp: t }).encoding() == seq![
            0x2bu8, 4u8, 0x43u8, 0x4eu8, 0x54u8, 0x52u8, 0x2bu8, 3u8, 0x44u8, 0x45u8, 0x4cu8,
        ] + i64_bytes(t),
        (CounterReq::Inc { timestamp: t }).encoding() != (CounterReq::Dec { timestamp: t }).encoding(),
{
    let head = seq![0x2bu8, 4u8, 0x43u8, 0x4eu8, 0x54u8, 0x52u8];
    assert(small_string_bytes(tag_cntr()) =~= head);
    assert(small_string_bytes(tag_put()) =~= seq![0x2bu8, 3u8, 0x50u8, 0x55u8, 0x54u8]);
    assert(small_string_bytes(tag_get()) =~= seq![0x2bu8, 3u8, 0x47u8, 0x45u8, 0x54u8]);
    assert(small_string_bytes(tag_inc()) =~= seq![0x2bu8, 3u8, 0x49u8, 0x4eu8, 0x43u8]);
    assert(small_string_bytes(tag_dec()) =~= seq![0x2bu8, 3u8, 0x44u8, 0x45u8, 0x43u8]);
    assert(small_string_bytes(tag_del()) =~= seq![0x2bu8, 3u8, 0x44u8, 0x45u8, 0x4cu8]);
    assert((CounterReq::Put { value, ttl, timestamp: t }).encoding() =~= seq![
        0x2bu8, 4u8, 0x43u8, 0x4eu8, 0x54u8, 0x52u8, 0x2bu8, 3u8, 0x50u8, 0x55u8, 0x54u8,
    ] + i64_bytes(value) + u32_bytes(ttl) + i64_bytes(t));
    assert(CounterReq::Get.encoding() =~= seq![
        0x2bu8, 4u8, 0x43u8, 0x4eu8, 0x54u8, 0x52u8, 0x2bu8, 3u8, 0x47u8, 0x45u8, 0x54u8,
    ]);
    assert((CounterReq::Inc { timestamp: t }).encoding() =~= seq![
        0x2bu8, 4u8, 0x43u8, 0x4eu8, 0x54u8, 0x52u8, 0x2bu8, 3u8, 0x49u8, 0x4eu8, 0x43u8,
    ] + i64_bytes(t));
    assert((CounterReq::Dec { timestamp: t }).encoding() =~= seq![
        0x2bu8, 4u8, 0x43u8, 0x4eu8, 0x54u8, 0x52u8, 0x2bu8, 3u8, 0x44u8, 0x45u8, 0x43u8,
    ] + i64_bytes(t));
    assert((CounterReq::Del { timestamp: t }).encoding() =~= seq![
        0x2bu8, 4u8, 0x43u8, 0x4eu8, 0x54u8, 0x52u8, 0x2bu8, 3u8, 0x44u8, 0x45u8, 0x4cu8,
    ] + i64_bytes(t));
    assert((CounterReq::Inc { timestamp: t }).encoding()[8] != (CounterReq::Dec {
        timestamp: t,
    }).encoding()[8]);
}

} // verus!
