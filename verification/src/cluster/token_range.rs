use vstd::prelude::*;

use crate::util::decimal::{
    all_ascii,
    ascii_chars,
    ascii_string,
    decimal_bytes,
    lemma_all_ascii_concat,
    lemma_decimal_ascii,
    push_decimal,
};
use crate::util::parser::extend_bytes;
use crate::util::tags::ascii;

verus! {

/// The tokens after `start` up to and including `end`.
#[derive(Debug, Clone, Copy, PartialEq, Eq, Hash, Structural)]
pub struct TokenRange {
    pub start: u64,
    pub end: u64,
}

impl TokenRange {
    /// `TR {start} - {end}` as ASCII bytes.
    pub open spec fn display_bytes(self) -> Seq<u8> {
        ascii(seq!['T', 'R', ' ']) + decimal_bytes(self.start as nat) + ascii(seq![' ', '-', ' '])
            + decimal_bytes(self.end as nat)
    }

    pub proof fn lemma_display_ascii(self)
        ensures
            all_ascii(self.display_bytes()),
    {
        let a = ascii(seq!['T', 'R', ' ']);
        let b = ascii(seq![' ', '-', ' ']);
        assert(all_ascii(a));
        assert(all_ascii(b));
        lemma_decimal_ascii(self.start as nat);
        lemma_decimal_ascii(self.end as nat);
        lemma_all_ascii_concat(a, decimal_bytes(self.start as nat));
        lemma_all_ascii_concat(a + decimal_bytes(self.start as nat), b);
        lemma_all_ascii_concat(a + decimal_bytes(self.start as nat) + b, decimal_bytes(self.end as nat));
    }

    /// Appends `TR {start} - {end}`.
    pub fn push_display(&self, buf: &mut Vec<u8>)
        ensures
            final(buf)@ == old(buf)@ + self.display_bytes(),
    {
        let head = ['T' as u8, 'R' as u8, ' ' as u8];
        assert(head@ =~= ascii(seq!['T', 'R', ' ']));
        extend_bytes(buf, &head);
        push_decimal(buf, self.start);
        let dash = [' ' as u8, '-' as u8, ' ' as u8];
        assert(dash@ =~= ascii(seq![' ', '-', ' ']));
        extend_bytes(buf, &dash);
        push_decimal(buf, self.end);
        assert(buf@ =~= old(buf)@ + self.display_bytes());
    }

    /// The range as `TR {start} - {end}`.
    pub fn to_string(&self) -> (s: String)
        ensures
            s@ == ascii_chars(self.display_bytes()),
    {
        let mut buf: Vec<u8> = Vec::new();
        self.push_display(&mut buf);
        proof {
            self.lemma_display_ascii();
            assert(buf@ =~= self.display_bytes());
        }
        ascii_string(buf)
    }
}

} // verus!
