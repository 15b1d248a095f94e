use vstd::prelude::*;

use crate::cluster::ServerAddress;
use crate::util::decimal::{
    all_ascii,
    ascii_chars,
    ascii_string,
    decimal_bytes,
    lemma_all_ascii_concat,
    lemma_decimal_ascii,
    push_decimal,
};
use crate::util::parser::extend_bytes;
use crate::util::tags::ascii;

verus! {

/// A server of the cluster as the cluster describes it.
#[derive(Debug, Clone)]
pub struct NodeDTO {
    pub id: u64,
    pub address: ServerAddress,
}

impl NodeDTO {
    /// `NodeDTO {id}` as ASCII bytes.
    pub open spec fn display_bytes(self) -> Seq<u8> {
        ascii(seq!['N', 'o', 'd', 'e', 'D', 'T', 'O', ' ']) + decimal_bytes(self.id as nat)
    }

    pub proof fn lemma_display_ascii(self)
        ensures
            all_ascii(self.display_bytes()),
    {
        let a = ascii(seq!['N', 'o', 'd', 'e', 'D', 'T', 'O', ' ']);
        assert(all_ascii(a));
        lemma_decimal_ascii(self.id as nat);
        lemma_all_ascii_concat(a, decimal_bytes(self.id as nat));
    }

    /// Appends `NodeDTO {id}`.
    pub fn push_display(&self, buf: &mut Vec<u8>)
        ensures
            final(buf)@ == old(buf)@ + self.display_bytes(),
    {
        let head = [
            'N' as u8,
            'o' as u8,
            'd' as u8,
            'e' as u8,
            'D' as u8,
            'T' as u8,
            'O' as u8,
            ' ' as u8,
        ];
        assert(head@ =~= ascii(seq!['N', 'o', 'd', 'e', 'D', 'T', 'O', ' ']));
        extend_bytes(buf, &head);
        push_decimal(buf, self.id);
        assert(buf@ =~= old(buf)@ + self.display_bytes());
    }

    /// The node as `NodeDTO {id}`.
    pub fn to_string(&self) -> (s: String)
        ensures
            s@ == ascii_chars(self.display_bytes()),
    {
        let mut buf: Vec<u8> = Vec::new();
        self.push_display(&mut buf);
        proof {
            self.lemma_display_ascii();
            assert(buf@ =~= self.display_bytes());
        }
        ascii_string(buf)
    }
}

} // verus!
