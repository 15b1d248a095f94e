use vstd::prelude::*;

use crate::util::decimal::{ascii_chars, ascii_string, decimal_bytes, lemma_decimal_ascii, push_decimal};

verus! {

/// A rate limiter grants at most `max_tokens` tokens per `interval_sec`
/// seconds.
#[derive(Debug, Clone, Copy, PartialEq, Eq, Structural)]
pub struct RateLimiterConfig {
    pub interval_sec: u64,
    pub max_tokens: u64,
}

impl RateLimiterConfig {
    /// The interval and the token count in decimal, joined by `|`.
    pub fn to_str(&self) -> (s: String)
        ensures
            s@ == ascii_chars(
                decimal_bytes(self.interval_sec as nat) + seq![124u8] + decimal_bytes(
                    self.max_tokens as nat,
                ),
            ),
    {
        let mut buf: Vec<u8> = Vec::new();
        push_decimal(&mut buf, self.interval_sec);
        buf.push(124u8);
        push_decimal(&mut buf, self.max_tokens);
        proof {
            lemma_decimal_ascii(self.interval_sec as nat);
            lemma_decimal_ascii(self.max_tokens as nat);
        }
        ascii_string(buf)
    }
}

} // verus!
