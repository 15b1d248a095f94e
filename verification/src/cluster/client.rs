use vstd::prelude::*;

use rand::seq::IndexedRandom;
use rand::SeedableRng;

use crate::cluster::cluster_state::ClusterState;
use crate::cluster::node::NodeDTO;
use crate::cluster::token_range::TokenRange;
use crate::cluster::token_range_replica::{TokenRangeReplicas, TokenRangeReplicasDTO};
use crate::commands::command_req::Req;
use crate::util::parser::text_bytes;

verus! {

/// A description of the cluster as servers send it.
#[derive(Debug, Clone)]
pub struct ClusterDTO {
    /// The sixteen bytes of the cluster's UUID.
    pub id: [u8; 16],
    pub cluster_state: ClusterState,
    pub hash: u64,
    pub last_updated_at: i64,
    pub token_range_replicas: Vec<TokenRangeReplicasDTO>,
    pub node_id: u64,
}

// ---------------------------------------------------------------------------
// Keys to tokens
// ---------------------------------------------------------------------------
/// The 64-bit XXH3 hash (default secret, no seed) of some bytes.
pub uninterp spec fn xxh3_64_of(data: Seq<u8>) -> u64;

/// xxhash-rust's `xxh3::xxh3_64`; its result is named `xxh3_64_of` of the
/// input bytes and nothing more is stated of it.
#[verifier::external_body]
fn xxh3_64(data: &[u8]) -> (r: u64)
    ensures
        r == xxh3_64_of(data@),
{
    xxhash_rust::xxh3::xxh3_64(data)
}

/// The token of a key: its XXH3 hash modulo 65536.
pub open spec fn key_token(key: Seq<u8>) -> u64 {
    (xxh3_64_of(key) % 65536) as u64
}

pub fn get_key_hash(key: &[u8]) -> (r: u64)
    ensures
        r == key_token(key@),
        r < 65536,
{
    xxh3_64(key) % 65536
}

// ---------------------------------------------------------------------------
// Tokens to nodes
// ---------------------------------------------------------------------------
/// Why a request has nowhere to go.
#[derive(Debug, Clone, Copy, PartialEq, Eq, Structural)]
pub enum RouteError {
    /// The cluster has no token ranges yet.
    NoTokenRanges,
    /// The chosen token range has no replicas.
    NoReplicas,
    /// The operating system's random source failed, so no node could be
    /// picked at random.
    NoRandomSource,
}

/// The token ranges are ordered by their ends.
pub open spec fn sorted_by_end(trs: Seq<TokenRangeReplicas>) -> bool {
    forall|i: int, j: int|
        0 <= i <= j < trs.len() ==> #[trigger] trs[i].token_range.end
            <= #[trigger] trs[j].token_range.end
}

/// `n` is the range that owns `token`: when the ranges are ordered by their
/// ends, the first range whose end is at least `token`, or the first range
/// when every end is below it (the ring wraps around).
pub open spec fn is_owner(trs: Seq<TokenRangeReplicas>, token: u64, n: int) -> bool {
    &&& 0 <= n < trs.len()
    &&& sorted_by_end(trs) ==> {
        ||| (token <= trs[n].token_range.end && forall|j: int|
            0 <= j < n ==> #[trigger] trs[j].token_range.end < token)
        ||| (n == 0 && forall|j: int| 0 <= j < trs.len() ==> #[trigger] trs[j].token_range.end < token)
    }
}

/// The position of the range that owns `token`.
pub fn find_token_range(trs: &Vec<TokenRangeReplicas>, token: u64) -> (n: usize)
    requires
        trs@.len() > 0,
    ensures
        is_owner(trs@, token, n as int),
{
    let mut lo: usize = 0;
    let mut hi: usize = trs.len();
    while lo < hi
        invariant
            0 <= lo <= hi <= trs@.len(),
            sorted_by_end(trs@) ==> forall|j: int|
                0 <= j < lo ==> #[trigger] trs@[j].token_range.end < token,
            sorted_by_end(trs@) ==> forall|j: int|
                hi <= j < trs@.len() ==> token <= #[trigger] trs@[j].token_range.end,
        decreases hi - lo,
    {
        let mid = lo + (hi - lo) / 2;
        if trs[mid].token_range.end < token {
            proof {
                if sorted_by_end(trs@) {
                    assert forall|j: int| 0 <= j < mid + 1 implies #[trigger] trs@[j].token_range.end
                        < token by {
                        assert(trs@[j].token_range.end <= trs@[mid as int].token_range.end);
                    }
                }
            }
            lo = mid + 1;
        } else {
            proof {
                if sorted_by_end(trs@) {
                    assert forall|j: int| mid <= j < trs@.len() implies token
                        <= #[trigger] trs@[j].token_range.end by {
                        assert(trs@[mid as int].token_range.end <= trs@[j].token_range.end);
                    }
                }
            }
            hi = mid;
        }
    }
    if lo == trs.len() {
        0
    } else {
        lo
    }
}

/// `r` is where a request for `token` goes: the first replica of the range
/// that owns the token, or `NoReplicas` when that range has none.
pub open spec fn routed_by_token(trs: Seq<TokenRangeReplicas>, token: u64, r: Result<u64, RouteError>) -> bool {
    if trs.len() == 0 {
        r == Err::<u64, RouteError>(RouteError::NoTokenRanges)
    } else {
        exists|n: int|
            #![trigger trs[n]]
            is_owner(trs, token, n) && if trs[n].replicas@.len() == 0 {
                r == Err::<u64, RouteError>(RouteError::NoReplicas)
            } else {
                r == Ok::<u64, RouteError>(trs[n].replicas@[0])
            }
    }
}

/// The node that a data request for `token` goes to.
pub fn route_by_token(trs: &Vec<TokenRangeReplicas>, token: u64) -> (r: Result<u64, RouteError>)
    ensures
        routed_by_token(trs@, token, r),
{
    if trs.len() == 0 {
        return Err(RouteError::NoTokenRanges);
    }
    let n = find_token_range(trs, token);
    let tr = &trs[n];
    if tr.replicas.len() == 0 {
        Err(RouteError::NoReplicas)
    } else {
        Ok(tr.replicas[0])
    }
}

proof fn lemma_owner_unique(trs: Seq<TokenRangeReplicas>, token: u64, n1: int, n2: int)
    requires
        sorted_by_end(trs),
        is_owner(trs, token, n1),
        is_owner(trs, token, n2),
    ensures
        n1 == n2,
{
    if n1 < n2 {
        assert(trs[n1].token_range.end < token);
        assert(trs[n2].token_range.end < token);
    } else if n2 < n1 {
        assert(trs[n2].token_range.end < token);
        assert(trs[n1].token_range.end < token);
    }
}

/// In a table ordered by range ends every token has exactly one owner, so
/// data requests for one key always go to the same node.
pub proof fn law_route_by_token_unique(
    trs: Seq<TokenRangeReplicas>,
    token: u64,
    r1: Result<u64, RouteError>,
    r2: Result<u64, RouteError>,
)
    requires
        sorted_by_end(trs),
        routed_by_token(trs, token, r1),
        routed_by_token(trs, token, r2),
    ensures
        r1 == r2,
{
    if trs.len() > 0 {
        let n1 = choose|n: int|
            #![trigger trs[n]]
            is_owner(trs, token, n) && if trs[n].replicas@.len() == 0 {
                r1 == Err::<u64, RouteError>(RouteError::NoReplicas)
            } else {
                r1 == Ok::<u64, RouteError>(trs[n].replicas@[0])
            };
        let n2 = choose|n: int|
            #![trigger trs[n]]
            is_owner(trs, token, n) && if trs[n].replicas@.len() == 0 {
                r2 == Err::<u64, RouteError>(RouteError::NoReplicas)
            } else {
                r2 == Ok::<u64, RouteError>(trs[n].replicas@[0])
            };
        lemma_owner_unique(trs, token, n1, n2);
    }
}

#[verifier::external_type_specification]
#[verifier::external_body]
pub struct ExStdRng(rand::rngs::StdRng);

/// rand's `SeedableRng::try_from_os_rng` for `StdRng`, kept as an `Option`:
/// a generator seeded from the operating system's random source, `None` when
/// that source fails. Which of the two comes back is left unsaid: it rests
/// on the machine.
#[verifier::external_body]
fn os_rng() -> Option<rand::rngs::StdRng> {
    rand::rngs::StdRng::try_from_os_rng().ok()
}

/// One element of `items`, picked uniformly at random by rand's
/// `IndexedRandom::choose` with the generator `rng`. Stated: nothing is
/// picked exactly when `items` is empty, and what is picked is an element of
/// `items`. Which one is left unsaid: it is random.
#[verifier::external_body]
fn choose_random<'a, T>(items: &'a [T], rng: &mut rand::rngs::StdRng) -> (r: Option<&'a T>)
    ensures
        r is None <==> items@.len() == 0,
        r matches Some(x) ==> items@.contains(*x),
{
    items.choose(rng)
}

/// `r` is where a configuration request may go: some replica of some range;
/// `NoReplicas` only when some range has no replicas; `NoRandomSource` only
/// when there are ranges (the operating system's random source failed).
pub open spec fn routed_at_random(trs: Seq<TokenRangeReplicas>, r: Result<u64, RouteError>) -> bool {
    if trs.len() == 0 {
        r == Err::<u64, RouteError>(RouteError::NoTokenRanges)
    } else {
        &&& r matches Ok(id) ==> exists|i: int|
            0 <= i < trs.len() && (#[trigger] trs[i]).replicas@.contains(id)
        &&& r matches Err(e) ==> e == RouteError::NoRandomSource || (e == RouteError::NoReplicas
            && exists|i: int| 0 <= i < trs.len() && (#[trigger] trs[i]).replicas@.len() == 0)
    }
}

/// The node that a configuration request goes to, drawn with `rng`: a
/// random replica of a random range. It never reports a failed random
/// source: the generator is already there.
pub fn route_at_random_with(trs: &Vec<TokenRangeReplicas>, rng: &mut rand::rngs::StdRng) -> (r: Result<
    u64,
    RouteError,
>)
    ensures
        routed_at_random(trs@, r),
        r != Err::<u64, RouteError>(RouteError::NoRandomSource),
{
    match choose_random(trs.as_slice(), rng) {
        None => Err(RouteError::NoTokenRanges),
        Some(tr) => {
            match choose_random(tr.replicas.as_slice(), rng) {
                None => Err(RouteError::NoReplicas),
                Some(id) => Ok(*id),
            }
        },
    }
}

/// The node that a configuration request goes to: a random replica of a
/// random range, drawn with a generator seeded from the operating system;
/// `NoRandomSource` when the table has ranges but that seeding fails.
pub fn route_at_random(trs: &Vec<TokenRangeReplicas>) -> (r: Result<u64, RouteError>)
    ensures
        routed_at_random(trs@, r),
{
    if trs.len() == 0 {
        return Err(RouteError::NoTokenRanges);
    }
    match os_rng() {
        Some(mut rng) => route_at_random_with(trs, &mut rng),
        None => Err(RouteError::NoRandomSource),
    }
}

/// The node that a request goes to: a data request goes to the first replica
/// of the range that owns its key's token; a configuration request to a
/// random replica of a random range.
pub fn route(trs: &Vec<TokenRangeReplicas>, req: &Req) -> (r: Result<u64, RouteError>)
    ensures
        req matches Req::Command(k) ==> routed_by_token(trs@, key_token(text_bytes(k.key@)), r),
        req is Cfg ==> routed_at_random(trs@, r),
{
    match req {
        Req::Command(key_req) => {
            let token = get_key_hash(key_req.key.as_str().as_bytes());
            route_by_token(trs, token)
        },
        Req::Cfg(_) => route_at_random(trs),
    }
}

/// When the cluster has ranges and every range has a replica, a
/// configuration request always finds a node, unless the operating system's
/// random source fails.
pub proof fn law_cfg_route_found(trs: Seq<TokenRangeReplicas>, r: Result<u64, RouteError>)
    requires
        trs.len() > 0,
        forall|i: int| 0 <= i < trs.len() ==> (#[trigger] trs[i]).replicas@.len() > 0,
        routed_at_random(trs, r),
    ensures
        r is Ok || r == Err::<u64, RouteError>(RouteError::NoRandomSource),
{
}


// ---------------------------------------------------------------------------
// From a cluster description to the routing table
// ---------------------------------------------------------------------------
/// The ids of some nodes.
pub open spec fn node_ids(nodes: Seq<NodeDTO>) -> Seq<u64> {
    nodes.map_values(|n: NodeDTO| n.id)
}

/// Each described range with the ids of its replicas.
pub open spec fn layout_of(dtos: Seq<TokenRangeReplicasDTO>) -> Seq<(TokenRange, Seq<u64>)> {
    dtos.map_values(|d: TokenRangeReplicasDTO| (d.token_range, node_ids(d.replicas@)))
}

/// The ranges of a routing table with their replicas.
pub open spec fn views(trs: Seq<TokenRangeReplicas>) -> Seq<(TokenRange, Seq<u64>)> {
    trs.map_values(|t: TokenRangeReplicas| t@)
}

fn replica_ids(nodes: &Vec<NodeDTO>) -> (r: Vec<u64>)
    ensures
        r@ == node_ids(nodes@),
{
    let mut ids: Vec<u64> = Vec::new();
    let mut i: usize = 0;
    while i < nodes.len()
        invariant
            0 <= i <= nodes@.len(),
            ids@ == node_ids(nodes@.subrange(0, i as int)),
        decreases nodes@.len() - i,
    {
        ids.push(nodes[i].id);
        i = i + 1;
        assert(ids@ =~= node_ids(nodes@.subrange(0, i as int)));
    }
    assert(nodes@.subrange(0, nodes@.len() as int) =~= nodes@);
    ids
}

/// The ranges among `s` that end at token `e`, in their order in `s`.
pub open spec fn ending_at(s: Seq<(TokenRange, Seq<u64>)>, e: u64) -> Seq<(TokenRange, Seq<u64>)> {
    s.filter(|t: (TokenRange, Seq<u64>)| t.0.end == e)
}

/// Putting `x` at `j`, before ranges that all end after it, selects by end
/// as putting it last does.
proof fn lemma_insert_ending_at(p: Seq<(TokenRange, Seq<u64>)>, j: int, x: (TokenRange, Seq<u64>), e: u64)
    requires
        0 <= j <= p.len(),
        forall|k: int| j <= k < p.len() ==> x.0.end < (#[trigger] p[k]).0.end,
    ensures
        ending_at(p.insert(j, x), e) == ending_at(p.push(x), e),
{
    let pred = |t: (TokenRange, Seq<u64>)| t.0.end == e;
    let a = p.subrange(0, j);
    let b = p.subrange(j, p.len() as int);
    let one = seq![x];
    assert(p.insert(j, x) =~= a + one + b);
    assert(p.push(x) =~= a + b + one);
    Seq::filter_distributes_over_add(a + one, b, pred);
    Seq::filter_distributes_over_add(a, one, pred);
    Seq::filter_distributes_over_add(a + b, one, pred);
    Seq::filter_distributes_over_add(a, b, pred);
    assert(one =~= Seq::<(TokenRange, Seq<u64>)>::empty().push(x));
    Seq::<(TokenRange, Seq<u64>)>::empty().lemma_filter_push(x, pred);
    reveal(Seq::filter);
    assert(Seq::<(TokenRange, Seq<u64>)>::empty().filter(pred) =~= Seq::<(TokenRange, Seq<u64>)>::empty());
    if x.0.end == e {
        assert(b.all(|t: (TokenRange, Seq<u64>)| !pred(t))) by {
            assert forall|k: int| 0 <= k < b.len() implies !pred(#[trigger] b[k]) by {
                assert(b[k] == p[j + k]);
            }
        }
        b.lemma_all_neg_filter_empty(pred);
        assert(b.filter(pred) =~= Seq::<(TokenRange, Seq<u64>)>::empty());
        assert(ending_at(p.insert(j, x), e) =~= a.filter(pred) + one.filter(pred));
        assert(ending_at(p.push(x), e) =~= a.filter(pred) + one.filter(pred));
    } else {
        assert(one.filter(pred) =~= Seq::<(TokenRange, Seq<u64>)>::empty());
        assert(ending_at(p.insert(j, x), e) =~= a.filter(pred) + b.filter(pred));
        assert(ending_at(p.push(x), e) =~= a.filter(pred) + b.filter(pred));
    }
}

/// Orders the ranges by their ends; ranges with equal ends keep their order
/// (a stable sort), so the result is the one ordering with these two
/// properties.
pub fn sort_by_end(v: &mut Vec<TokenRangeReplicas>)
    ensures
        sorted_by_end(final(v)@),
        forall|e: u64| #[trigger] ending_at(views(final(v)@), e) == ending_at(views(old(v)@), e),
        views(final(v)@).to_multiset() == views(old(v)@).to_multiset(),
{
    broadcast use vstd::seq_lib::group_to_multiset_ensures;

    let n = v.len();
    let mut i: usize = 0;
    while i < n
        invariant
            n == v@.len(),
            0 <= i <= n,
            forall|a: int, b: int|
                0 <= a <= b < i ==> #[trigger] v@[a].token_range.end
                    <= #[trigger] v@[b].token_range.end,
            views(v@).to_multiset() == views(old(v)@).to_multiset(),
            forall|e: u64| #[trigger] ending_at(views(v@), e) == ending_at(views(old(v)@), e),
        decreases n - i,
    {
        let ghost before = v@;
        let x = v.remove(i);
        assert(views(v@) =~= views(before).remove(i as int));
        let mut j = i;
        while j > 0 && v[j - 1].token_range.end > x.token_range.end
            invariant
                0 <= j <= i,
                i < n,
                v@.len() == n - 1,
                v@ == before.remove(i as int),
                forall|k: int| j <= k < i ==> x.token_range.end < #[trigger] v@[k].token_range.end,
            decreases j,
        {
            j = j - 1;
        }
        let ghost removed = v@;
        let ghost xv = x@;
        v.insert(j, x);
        proof {
            let vb = views(before);
            assert(views(v@) =~= views(removed).insert(j as int, xv));
            assert(vb[i as int] == xv);
            assert(views(removed) == vb.remove(i as int));
            vstd::seq_lib::to_multiset_remove(vb, i as int);
            vstd::seq_lib::to_multiset_insert(views(removed), j as int, xv);
            assert(views(removed).to_multiset() == vb.to_multiset().remove(xv));
            assert(views(v@).to_multiset() == views(removed).to_multiset().insert(xv));
            assert(vb.contains(xv));
            vstd::seq_lib::to_multiset_contains(vb, xv);
            assert(vb.to_multiset().contains(xv));
            assert(vb.to_multiset().remove(xv).insert(xv) =~= vb.to_multiset());
            let pre = vb.subrange(0, i as int);
            let post = vb.subrange(i + 1, n as int);
            assert(vb =~= pre.push(xv) + post);
            assert(views(removed) =~= pre + post);
            assert(views(v@) =~= pre.insert(j as int, xv) + post);
            assert forall|e: u64| #[trigger] ending_at(views(v@), e) == ending_at(views(old(v)@), e) by {
                let pred = |t: (TokenRange, Seq<u64>)| t.0.end == e;
                assert forall|k: int| j <= k < pre.len() implies xv.0.end < (#[trigger] pre[k]).0.end by {
                    assert(removed[k] == before[k]);
                }
                lemma_insert_ending_at(pre, j as int, xv, e);
                Seq::filter_distributes_over_add(pre.insert(j as int, xv), post, pred);
                Seq::filter_distributes_over_add(pre.push(xv), post, pred);
                assert(ending_at(views(v@), e) == ending_at(vb, e));
            }
        }
        assert forall|a: int, b: int| 0 <= a <= b < i + 1 implies #[trigger] v@[a].token_range.end
            <= #[trigger] v@[b].token_range.end by {
            if a < j && b < j {
                assert(v@[a] == before[a] && v@[b] == before[b]);
            } else if a < j && b == j {
                assert(v@[a] == before[a]);
                assert(before[a].token_range.end <= before[j - 1].token_range.end);
                assert(removed[j - 1] == before[j - 1]);
            } else if a < j {
                assert(v@[a] == before[a] && v@[b] == before[b - 1]);
            } else if a == j && b > j {
                assert(v@[b] == removed[b - 1]);
            } else if a > j {
                assert(v@[a] == before[a - 1] && v@[b] == before[b - 1]);
            }
        }
        i = i + 1;
    }
}

/// Ranges in order of their ends.
pub open spec fn ends_sorted(s: Seq<(TokenRange, Seq<u64>)>) -> bool {
    forall|i: int, j: int| 0 <= i <= j < s.len() ==> #[trigger] s[i].0.end <= #[trigger] s[j].0.end
}

proof fn lemma_ending_at_last(s: Seq<(TokenRange, Seq<u64>)>, e: u64)
    requires
        s.len() > 0,
    ensures
        ending_at(s, e) == if s.last().0.end == e {
            ending_at(s.drop_last(), e).push(s.last())
        } else {
            ending_at(s.drop_last(), e)
        },
{
    reveal(Seq::filter);
}

/// Some range of `s` ends at `e` exactly when `ending_at(s, e)` is not empty.
proof fn lemma_ending_at_nonempty(s: Seq<(TokenRange, Seq<u64>)>, e: u64)
    ensures
        ending_at(s, e).len() > 0 <==> exists|k: int| 0 <= k < s.len() && (#[trigger] s[k]).0.end == e,
{
    let pred = |t: (TokenRange, Seq<u64>)| t.0.end == e;
    if ending_at(s, e).len() > 0 {
        s.lemma_filter_pred(pred, 0);
        let x = s.filter(pred)[0];
        assert(s.filter(pred).contains(x));
        s.lemma_filter_contains_rev(pred, x);
        let k = choose|k: int| 0 <= k < s.len() && s[k] == x;
        assert(s[k].0.end == e);
    }
    if exists|k: int| 0 <= k < s.len() && (#[trigger] s[k]).0.end == e {
        let k = choose|k: int| 0 <= k < s.len() && (#[trigger] s[k]).0.end == e;
        s.lemma_filter_contains(pred, k);
    }
}

/// A sequence of ranges in order of their ends is determined by which ranges
/// end at each token and in which order.
proof fn lemma_sorted_by_end_unique(a: Seq<(TokenRange, Seq<u64>)>, b: Seq<(TokenRange, Seq<u64>)>)
    requires
        ends_sorted(a),
        ends_sorted(b),
        forall|e: u64| #[trigger] ending_at(a, e) == ending_at(b, e),
    ensures
        a == b,
    decreases a.len() + b.len(),
{
    if a.len() == 0 || b.len() == 0 {
        if a.len() > 0 {
            lemma_ending_at_nonempty(a, a[0].0.end);
            lemma_ending_at_nonempty(b, a[0].0.end);
            assert(ending_at(a, a[0].0.end) == ending_at(b, a[0].0.end));
        } else if b.len() > 0 {
            lemma_ending_at_nonempty(a, b[0].0.end);
            lemma_ending_at_nonempty(b, b[0].0.end);
            assert(ending_at(a, b[0].0.end) == ending_at(b, b[0].0.end));
        }
        assert(a =~= b);
    } else {
        let ma = a.last().0.end;
        let mb = b.last().0.end;
        lemma_ending_at_nonempty(a, ma);
        lemma_ending_at_nonempty(b, ma);
        assert(ending_at(a, ma) == ending_at(b, ma));
        let kb = choose|k: int| 0 <= k < b.len() && (#[trigger] b[k]).0.end == ma;
        assert(b[kb].0.end <= b[b.len() - 1].0.end);
        lemma_ending_at_nonempty(a, mb);
        lemma_ending_at_nonempty(b, mb);
        assert(ending_at(a, mb) == ending_at(b, mb));
        let ka = choose|k: int| 0 <= k < a.len() && (#[trigger] a[k]).0.end == mb;
        assert(a[ka].0.end <= a[a.len() - 1].0.end);
        assert(ma == mb);
        let a2 = a.drop_last();
        let b2 = b.drop_last();
        lemma_ending_at_last(a, ma);
        lemma_ending_at_last(b, ma);
        assert(a.last() == ending_at(a, ma).last());
        assert(b.last() == ending_at(b, ma).last());
        assert forall|e: u64| #[trigger] ending_at(a2, e) == ending_at(b2, e) by {
            lemma_ending_at_last(a, e);
            lemma_ending_at_last(b, e);
            assert(ending_at(a, e) == ending_at(b, e));
            if e == ma {
                assert(ending_at(a2, e) =~= ending_at(a, e).drop_last());
                assert(ending_at(b2, e) =~= ending_at(b, e).drop_last());
            }
        }
        assert(ends_sorted(a2)) by {
            assert forall|i: int, j: int| 0 <= i <= j < a2.len() implies #[trigger] a2[i].0.end
                <= #[trigger] a2[j].0.end by {
                assert(a2[i] == a[i] && a2[j] == a[j]);
            }
        }
        assert(ends_sorted(b2)) by {
            assert forall|i: int, j: int| 0 <= i <= j < b2.len() implies #[trigger] b2[i].0.end
                <= #[trigger] b2[j].0.end by {
                assert(b2[i] == b[i] && b2[j] == b[j]);
            }
        }
        lemma_sorted_by_end_unique(a2, b2);
        assert(a =~= a2.push(a.last()));
        assert(b =~= b2.push(b.last()));
    }
}

/// The routing table is a function of the cluster description: two tables
/// that are both ordered by range ends and keep, for every end, the ranges of
/// the description that end there in the description's order, are the same.
pub proof fn law_routing_table_determined(
    dtos: Seq<TokenRangeReplicasDTO>,
    t1: Seq<TokenRangeReplicas>,
    t2: Seq<TokenRangeReplicas>,
)
    requires
        sorted_by_end(t1),
        sorted_by_end(t2),
        forall|e: u64| #[trigger] ending_at(views(t1), e) == ending_at(layout_of(dtos), e),
        forall|e: u64| #[trigger] ending_at(views(t2), e) == ending_at(layout_of(dtos), e),
    ensures
        views(t1) == views(t2),
{
    assert forall|i: int, j: int| 0 <= i <= j < views(t1).len() implies #[trigger] views(t1)[i].0.end
        <= #[trigger] views(t1)[j].0.end by {
        assert(t1[i].token_range.end <= t1[j].token_range.end);
    }
    assert forall|i: int, j: int| 0 <= i <= j < views(t2).len() implies #[trigger] views(t2)[i].0.end
        <= #[trigger] views(t2)[j].0.end by {
        assert(t2[i].token_range.end <= t2[j].token_range.end);
    }
    assert forall|e: u64| #[trigger] ending_at(views(t1), e) == ending_at(views(t2), e) by {
        assert(ending_at(views(t1), e) == ending_at(layout_of(dtos), e));
        assert(ending_at(views(t2), e) == ending_at(layout_of(dtos), e));
    }
    lemma_sorted_by_end_unique(views(t1), views(t2));
}

/// The routing table of a cluster description: each described range with the
/// ids of its replicas, ordered by the ends of the ranges; ranges with equal
/// ends stay in the order of the description.
pub fn token_range_replicas_of(dtos: &Vec<TokenRangeReplicasDTO>) -> (r: Vec<TokenRangeReplicas>)
    ensures
        sorted_by_end(r@),
        forall|e: u64| #[trigger] ending_at(views(r@), e) == ending_at(layout_of(dtos@), e),
        views(r@).to_multiset() == layout_of(dtos@).to_multiset(),
{
    let mut out: Vec<TokenRangeReplicas> = Vec::new();
    let mut i: usize = 0;
    while i < dtos.len()
        invariant
            0 <= i <= dtos@.len(),
            views(out@) == layout_of(dtos@.subrange(0, i as int)),
        decreases dtos@.len() - i,
    {
        let dto = &dtos[i];
        let ids = replica_ids(&dto.replicas);
        let ghost prev = views(out@);
        out.push(TokenRangeReplicas { token_range: dto.token_range, replicas: ids });
        proof {
            assert(views(out@) =~= prev.push((dtos@[i as int].token_range, node_ids(dtos@[i as int].replicas@))));
            assert(layout_of(dtos@.subrange(0, i + 1)) =~= layout_of(dtos@.subrange(0, i as int)).push(
                (dtos@[i as int].token_range, node_ids(dtos@[i as int].replicas@)),
            ));
        }
        i = i + 1;
    }
    assert(dtos@.subrange(0, dtos@.len() as int) =~= dtos@);
    sort_by_end(&mut out);
    out
}


/// The first replica of each range that has one, in the order of the ranges.
pub open spec fn first_replica_ids(trs: Seq<TokenRangeReplicas>) -> Seq<u64>
    decreases trs.len(),
{
    if trs.len() == 0 {
        Seq::empty()
    } else {
        let rest = first_replica_ids(trs.drop_last());
        if trs.last().replicas@.len() > 0 {
            rest.push(trs.last().replicas@[0])
        } else {
            rest
        }
    }
}

/// The ids of the nodes that take the data requests of the ranges: the first
/// replica of each range that has one, in the order of the ranges.
pub fn first_replicas(trs: &Vec<TokenRangeReplicas>) -> (r: Vec<u64>)
    ensures
        r@ == first_replica_ids(trs@),
{
    let mut out: Vec<u64> = Vec::new();
    let mut i: usize = 0;
    while i < trs.len()
        invariant
            0 <= i <= trs@.len(),
            out@ == first_replica_ids(trs@.subrange(0, i as int)),
        decreases trs@.len() - i,
    {
        assert(trs@.subrange(0, i + 1).drop_last() =~= trs@.subrange(0, i as int));
        assert(trs@.subrange(0, i + 1).last() == trs@[i as int]);
        if trs[i].replicas.len() > 0 {
            out.push(trs[i].replicas[0]);
        }
        i = i + 1;
    }
    assert(trs@.subrange(0, trs@.len() as int) =~= trs@);
    out
}

/// `p` names a replica of the described ranges: range `p.0`, replica `p.1`.
pub open spec fn is_replica_pos(dtos: Seq<TokenRangeReplicasDTO>, p: (usize, usize)) -> bool {
    p.0 < dtos.len() && p.1 < dtos[p.0 as int].replicas@.len()
}

/// The node id at a replica position.
pub open spec fn id_at(dtos: Seq<TokenRangeReplicasDTO>, p: (usize, usize)) -> u64 {
    dtos[p.0 as int].replicas@[p.1 as int].id
}

/// `p` comes before `q` in the order of the description.
pub open spec fn pos_before(p: (usize, usize), q: (usize, usize)) -> bool {
    p.0 < q.0 || (p.0 == q.0 && p.1 < q.1)
}

/// `p` is where a node that is not yet known appears first.
pub open spec fn first_new(dtos: Seq<TokenRangeReplicasDTO>, known: Seq<u64>, p: (usize, usize)) -> bool {
    &&& is_replica_pos(dtos, p)
    &&& !known.contains(id_at(dtos, p))
    &&& forall|q: (usize, usize)|
        is_replica_pos(dtos, q) && pos_before(q, p) ==> #[trigger] id_at(dtos, q) != id_at(dtos, p)
}

fn contains_id(ids: &Vec<u64>, id: u64) -> (r: bool)
    ensures
        r == ids@.contains(id),
{
    let mut i: usize = 0;
    while i < ids.len()
        invariant
            0 <= i <= ids@.len(),
            forall|k: int| 0 <= k < i ==> ids@[k] != id,
        decreases ids@.len() - i,
    {
        if ids[i] == id {
            return true;
        }
        i = i + 1;
    }
    false
}

/// The replicas of a cluster description whose nodes need a connection: the
/// first place where each node that is not in `known` appears, in the order
/// of the description.
pub fn new_replica_positions(dtos: &Vec<TokenRangeReplicasDTO>, known: &Vec<u64>) -> (r: Vec<
    (usize, usize),
>)
    ensures
        forall|k: int| 0 <= k < r@.len() ==> first_new(dtos@, known@, #[trigger] r@[k]),
        forall|k: int, l: int| 0 <= k < l < r@.len() ==> pos_before(#[trigger] r@[k], #[trigger] r@[l]),
        forall|p: (usize, usize)| first_new(dtos@, known@, p) ==> r@.contains(p),
{
    let mut out: Vec<(usize, usize)> = Vec::new();
    let mut seen: Vec<u64> = Vec::new();
    let mut k: usize = 0;
    while k < known.len()
        invariant
            0 <= k <= known@.len(),
            seen@ == known@.subrange(0, k as int),
        decreases known@.len() - k,
    {
        seen.push(known[k]);
        k = k + 1;
        assert(seen@ =~= known@.subrange(0, k as int));
    }
    assert(seen@ =~= known@);
    let mut i: usize = 0;
    while i < dtos.len()
        invariant
            0 <= i <= dtos@.len(),
            forall|k: int|
                0 <= k < out@.len() ==> first_new(dtos@, known@, #[trigger] out@[k]) && pos_before(
                    out@[k],
                    (i, 0usize),
                ),
            forall|k: int, l: int|
                0 <= k < l < out@.len() ==> pos_before(#[trigger] out@[k], #[trigger] out@[l]),
            forall|p: (usize, usize)|
                is_replica_pos(dtos@, p) && pos_before(p, (i, 0usize)) && first_new(dtos@, known@, p)
                    ==> out@.contains(p),
            forall|x: u64|
                #![trigger seen@.contains(x)]
                seen@.contains(x) <==> (known@.contains(x) || exists|p: (usize, usize)|
                    is_replica_pos(dtos@, p) && pos_before(p, (i, 0usize)) && #[trigger] id_at(
                        dtos@,
                        p,
                    ) == x),
        decreases dtos@.len() - i,
    {
        let replicas = &dtos[i].replicas;
        let mut j: usize = 0;
        while j < replicas.len()
            invariant
                0 <= i < dtos@.len(),
                replicas@ == dtos@[i as int].replicas@,
                0 <= j <= replicas@.len(),
                forall|k: int|
                    0 <= k < out@.len() ==> first_new(dtos@, known@, #[trigger] out@[k]) && pos_before(
                        out@[k],
                        (i, j),
                    ),
                forall|k: int, l: int|
                    0 <= k < l < out@.len() ==> pos_before(#[trigger] out@[k], #[trigger] out@[l]),
                forall|p: (usize, usize)|
                    is_replica_pos(dtos@, p) && pos_before(p, (i, j)) && first_new(dtos@, known@, p)
                        ==> out@.contains(p),
                forall|x: u64|
                    #![trigger seen@.contains(x)]
                    seen@.contains(x) <==> (known@.contains(x) || exists|p: (usize, usize)|
                        is_replica_pos(dtos@, p) && pos_before(p, (i, j)) && #[trigger] id_at(
                            dtos@,
                            p,
                        ) == x),
            decreases replicas@.len() - j,
        {
            let id = replicas[j].id;
            let ghost here = (i, j);
            let ghost old_seen = seen@;
            let ghost old_out = out@;
            assert(id == id_at(dtos@, here));
            let fresh = !contains_id(&seen, id);
            if fresh {
                proof {
                    assert forall|q: (usize, usize)|
                        is_replica_pos(dtos@, q) && pos_before(q, here) implies #[trigger] id_at(
                        dtos@,
                        q,
                    ) != id_at(dtos@, here) by {
                        if id_at(dtos@, q) == id {
                            assert(old_seen.contains(id));
                        }
                    }
                    assert(first_new(dtos@, known@, here));
                }
                out.push((i, j));
                seen.push(id);
            }
            proof {
                assert(fresh ==> seen@ == old_seen.push(id) && out@ == old_out.push(here));
                assert(!fresh ==> seen@ == old_seen && out@ == old_out && old_seen.contains(id));
                let next = (i, (j + 1) as usize);
                assert forall|x: u64|
                    #![trigger seen@.contains(x)]
                    seen@.contains(x) <==> (known@.contains(x) || exists|p: (usize, usize)|
                        is_replica_pos(dtos@, p) && pos_before(p, next) && #[trigger] id_at(
                            dtos@,
                            p,
                        ) == x) by {
                    if seen@.contains(x) {
                        if old_seen.contains(x) {
                            if !known@.contains(x) {
                                let p = choose|p: (usize, usize)|
                                    is_replica_pos(dtos@, p) && pos_before(p, here) && #[trigger] id_at(
                                        dtos@,
                                        p,
                                    ) == x;
                                assert(is_replica_pos(dtos@, p) && pos_before(p, next) && id_at(dtos@, p) == x);
                            }
                        } else {
                            assert(fresh);
                            assert(x == id);
                            assert(is_replica_pos(dtos@, here) && pos_before(here, next) && id_at(dtos@, here) == x);
                        }
                    }
                    if known@.contains(x) {
                        assert(old_seen.contains(x));
                        if fresh {
                            assert(seen@[old_seen.index_of(x)] == x);
                        }
                    }
                    if exists|p: (usize, usize)|
                        is_replica_pos(dtos@, p) && pos_before(p, next) && #[trigger] id_at(dtos@, p)
                            == x {
                        let p = choose|p: (usize, usize)|
                            is_replica_pos(dtos@, p) && pos_before(p, next) && #[trigger] id_at(
                                dtos@,
                                p,
                            ) == x;
                        if p == here {
                            assert(x == id);
                            if fresh {
                                assert(seen@[seen@.len() - 1] == x);
                            }
                        } else {
                            assert(pos_before(p, here));
                            assert(old_seen.contains(x));
                            if fresh {
                                assert(seen@[old_seen.index_of(x)] == x);
                            }
                        }
                    }
                }
                assert forall|p: (usize, usize)|
                    is_replica_pos(dtos@, p) && pos_before(p, next) && first_new(dtos@, known@, p)
                        implies out@.contains(p) by {
                    if p == here {
                        if !fresh {
                            assert(old_seen.contains(id));
                            assert(!known@.contains(id));
                            let q = choose|q: (usize, usize)|
                                is_replica_pos(dtos@, q) && pos_before(q, here) && #[trigger] id_at(
                                    dtos@,
                                    q,
                                ) == id;
                            assert(id_at(dtos@, q) != id_at(dtos@, here));
                        }
                        assert(out@[out@.len() - 1] == here);
                    } else {
                        assert(pos_before(p, here));
                        assert(old_out.contains(p));
                        if fresh {
                            assert(out@[old_out.index_of(p)] == p);
                        }
                    }
                }
                assert forall|k: int|
                    0 <= k < out@.len() implies first_new(dtos@, known@, #[trigger] out@[k])
                        && pos_before(out@[k], next) by {
                    if k < old_out.len() {
                        assert(out@[k] == old_out[k]);
                    }
                }
            }
            j = j + 1;
        }
        proof {
            assert forall|p: (usize, usize)|
                is_replica_pos(dtos@, p) && pos_before(p, ((i + 1) as usize, 0usize)) implies pos_before(
                p,
                (i, j),
            ) by {}
        }
        i = i + 1;
    }
    proof {
        assert forall|p: (usize, usize)| first_new(dtos@, known@, p) implies out@.contains(p) by {
            assert(pos_before(p, (i, 0usize)));
        }
    }
    out
}

} // verus!
