use vstd::prelude::*;

use crate::cluster::node::NodeDTO;
use crate::cluster::token_range::TokenRange;
use crate::util::decimal::{all_ascii, ascii_chars, ascii_string, lemma_all_ascii_concat};
use crate::util::parser::extend_bytes;
use crate::util::tags::ascii;

verus! {

/// A token range and the ids of the nodes that hold it, the first of them
/// being the one that data commands go to.
#[derive(Debug)]
pub struct TokenRangeReplicas {
    pub token_range: TokenRange,
    pub replicas: Vec<u64>,
}

impl View for TokenRangeReplicas {
    type V = (TokenRange, Seq<u64>);

    open spec fn view(&self) -> (TokenRange, Seq<u64>) {
        (self.token_range, self.replicas@)
    }
}

/// A token range and the nodes that hold it, as the cluster describes it.
#[derive(Debug, Clone)]
pub struct TokenRangeReplicasDTO {
    pub token_range: TokenRange,
    pub replicas: Vec<NodeDTO>,
}

/// The displays of `nodes` joined by `, `.
pub open spec fn joined_nodes(nodes: Seq<NodeDTO>) -> Seq<u8>
    decreases nodes.len(),
{
    if nodes.len() == 0 {
        seq![]
    } else if nodes.len() == 1 {
        nodes[0].display_bytes()
    } else {
        joined_nodes(nodes.drop_last()) + ascii(seq![',', ' ']) + nodes.last().display_bytes()
    }
}

proof fn lemma_joined_ascii(nodes: Seq<NodeDTO>)
    ensures
        all_ascii(joined_nodes(nodes)),
    decreases nodes.len(),
{
    if nodes.len() == 1 {
        nodes[0].lemma_display_ascii();
    } else if nodes.len() > 1 {
        lemma_joined_ascii(nodes.drop_last());
        nodes.last().lemma_display_ascii();
        let sep = ascii(seq![',', ' ']);
        assert(all_ascii(sep));
        lemma_all_ascii_concat(joined_nodes(nodes.drop_last()), sep);
        lemma_all_ascii_concat(joined_nodes(nodes.drop_last()) + sep, nodes.last().display_bytes());
    }
}

impl TokenRangeReplicasDTO {
    /// `{token range} [{node}, {node}, ...]` as ASCII bytes.
    pub open spec fn display_bytes(self) -> Seq<u8> {
        self.token_range.display_bytes() + ascii(seq![' ', '[']) + joined_nodes(self.replicas@)
            + ascii(seq![']'])
    }

    /// The range and its nodes as `{token range} [{node}, {node}, ...]`.
    pub fn to_string(&self) -> (s: String)
        ensures
            s@ == ascii_chars(self.display_bytes()),
    {
        let mut buf: Vec<u8> = Vec::new();
        self.token_range.push_display(&mut buf);
        let open = [' ' as u8, '[' as u8];
        assert(open@ =~= ascii(seq![' ', '[']));
        extend_bytes(&mut buf, &open);
        let ghost start = buf@;
        let mut i: usize = 0;
        while i < self.replicas.len()
            invariant
                0 <= i <= self.replicas@.len(),
                buf@ == start + joined_nodes(self.replicas@.subrange(0, i as int)),
            decreases self.replicas@.len() - i,
        {
            let ghost before = buf@;
            if i > 0 {
                let sep = [',' as u8, ' ' as u8];
                assert(sep@ =~= ascii(seq![',', ' ']));
                extend_bytes(&mut buf, &sep);
            }
            self.replicas[i].push_display(&mut buf);
            proof {
                let next = self.replicas@.subrange(0, i + 1);
                assert(next.drop_last() =~= self.replicas@.subrange(0, i as int));
                if i == 0 {
                    assert(self.replicas@.subrange(0, 0) =~= Seq::<NodeDTO>::empty());
                }
            }
            i = i + 1;
            assert(buf@ =~= start + joined_nodes(self.replicas@.subrange(0, i as int)));
        }
        let close = [']' as u8];
        assert(close@ =~= ascii(seq![']']));
        extend_bytes(&mut buf, &close);
        proof {
            assert(self.replicas@.subrange(0, self.replicas@.len() as int) =~= self.replicas@);
            assert(buf@ =~= self.display_bytes());
            self.token_range.lemma_display_ascii();
            lemma_joined_ascii(self.replicas@);
            let open_s = ascii(seq![' ', '[']);
            let close_s = ascii(seq![']']);
            assert(all_ascii(open_s));
            assert(all_ascii(close_s));
            lemma_all_ascii_concat(self.token_range.display_bytes(), open_s);
            lemma_all_ascii_concat(self.token_range.display_bytes() + open_s, joined_nodes(self.replicas@));
            lemma_all_ascii_concat(
                self.token_range.display_bytes() + open_s + joined_nodes(self.replicas@),
                close_s,
            );
        }
        ascii_string(buf)
    }
}

} // verus!
