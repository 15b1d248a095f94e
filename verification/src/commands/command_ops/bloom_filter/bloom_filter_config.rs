use vstd::prelude::*;

use crate::util::decimal::{ascii_chars, ascii_string, lemma_decimal_ascii, push_signed_decimal, signed_decimal_bytes};

verus! {

/// How many items a bloom filter is sized for.
#[derive(Debug, Clone, Copy, PartialEq, Eq, Structural)]
pub struct BloomFilterConfig {
    pub item_count: i64,
}

impl BloomFilterConfig {
    /// The item count in decimal.
    pub fn to_str(&self) -> (s: String)
        ensures
            s@ == ascii_chars(signed_decimal_bytes(self.item_count as int)),
    {
        let mut buf: Vec<u8> = Vec::new();
        push_signed_decimal(&mut buf, self.item_count);
        proof {
            let v = self.item_count as int;
            if v < 0 {
                lemma_decimal_ascii((-v) as nat);
            } else {
                lemma_decimal_ascii(v as nat);
            }
        }
        ascii_string(buf)
    }
}

} // verus!
