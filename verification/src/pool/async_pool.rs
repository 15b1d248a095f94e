use vstd::prelude::*;
use std::collections::VecDeque;

verus! {

/// The number of connections a pool opens for a requested size: at least one.
pub open spec fn spec_pool_size(requested: u16) -> u16 {
    if requested == 0 { 1 } else { requested }
}

/// The number of connections a pool opens when `requested` were asked for.
pub fn pool_size(requested: u16) -> (size: u16)
    ensures
        size == spec_pool_size(requested),
        size >= 1,
{
    if requested == 0 { 1 } else { requested }
}

/// The slot handed out after `cur` in a pool of `size` connections.
pub open spec fn spec_next_index(cur: u16, size: u16) -> u16 {
    if cur + 1 >= size { 0 } else { (cur + 1) as u16 }
}

/// The slot handed out after `cur`: the next one, wrapping to the first
/// after the last.
pub fn next_index(cur: u16, size: u16) -> (next: u16)
    ensures
        next == spec_next_index(cur, size),
{
    if cur as u32 + 1 >= size as u32 { 0 } else { cur + 1 }
}

/// The slot handed out by the `k`-th request of a fresh pool of `size`.
pub open spec fn slot_after(size: u16, k: nat) -> u16
    decreases k,
{
    if k == 0 { 0 } else { spec_next_index(slot_after(size, (k - 1) as nat), size) }
}

/// Round robin: the `k`-th request of a fresh pool goes to connection
/// `k % size`, so every connection is used in turn and each slot handed out
/// is one of the pool's connections.
pub proof fn law_round_robin(size: u16, k: nat)
    requires
        size >= 1,
    ensures
        slot_after(size, k) == k % (size as nat),
        slot_after(size, k) < size,
    decreases k,
{
    if k > 0 {
        law_round_robin(size, (k - 1) as nat);
        let prev = slot_after(size, (k - 1) as nat);
        let n: int = size as int;
        let j: int = k - 1;
        assert(prev == j % n);
        if prev + 1 >= size {
            assert(prev + 1 == n);
            assert((j + 1) % n == 0) by (nonlinear_arith)
                requires
                    j % n == n - 1,
                    n >= 1,
                    j >= 0,
            ;
        } else {
            assert((j + 1) % n == prev + 1) by (nonlinear_arith)
                requires
                    j % n == prev,
                    prev + 1 < n,
                    j >= 0,
            ;
        }
    }
}

/// What one connection keeps between its reads and writes: whether it is
/// open, and the waiters of the requests written to it whose replies have not
/// come back, oldest first. Each waiter leaves exactly once, in the order in
/// which it was queued, either with a reply or when the connection fails.
pub struct ConnState<T> {
    connected: bool,
    pending: VecDeque<T>,
    queued: Ghost<Seq<T>>,
    answered: Ghost<Seq<T>>,
}

impl<T> ConnState<T> {
    /// Whether the connection is open.
    pub closed spec fn is_open(&self) -> bool {
        self.connected
    }

    /// The waiters whose replies have not come back, oldest first.
    pub closed spec fn waiting(&self) -> Seq<T> {
        self.pending@
    }

    /// Every waiter ever queued, in order.
    pub closed spec fn queued(&self) -> Seq<T> {
        self.queued@
    }

    /// Every waiter that has left the queue, in order.
    pub closed spec fn answered(&self) -> Seq<T> {
        self.answered@
    }

    /// Waiters leave in the order in which they came, and only an open
    /// connection has waiters. Every state of a connection keeps this.
    #[verifier::type_invariant]
    pub closed spec fn wf(self) -> bool {
        &&& self.answered@ + self.pending@ == self.queued@
        &&& !self.connected ==> self.pending@.len() == 0
    }

    /// The state of a connection that was opened (`connected`) or not, with
    /// no waiter.
    pub fn new(connected: bool) -> (s: Self)
        ensures
            s.is_open() == connected,
            s.waiting() == Seq::<T>::empty(),
            s.queued() == Seq::<T>::empty(),
            s.answered() == Seq::<T>::empty(),
    {
        let pending: VecDeque<T> = VecDeque::new();
        assert(Seq::<T>::empty() + pending@ =~= Seq::<T>::empty());
        ConnState {
            connected,
            pending,
            queued: Ghost(Seq::empty()),
            answered: Ghost(Seq::empty()),
        }
    }

    /// Moves the state out, leaving a closed connection with no history in
    /// its place.
    fn take(&mut self) -> (s: Self)
        ensures
            s == *old(self),
    {
        let mut s = ConnState::new(false);
        core::mem::swap(self, &mut s);
        s
    }

    /// Whether the connection is open; a batch that comes while it is not
    /// asks for a new connection first.
    pub fn is_connected(&self) -> (b: bool)
        ensures
            b == self.is_open(),
    {
        self.connected
    }

    /// The number of waiters.
    pub fn waiting_len(&self) -> (n: usize)
        ensures
            n == self.waiting().len(),
    {
        self.pending.len()
    }

    /// Marks a new connection as open.
    pub fn set_connected(&mut self)
        ensures
            final(self).is_open(),
            final(self).waiting() == old(self).waiting(),
            final(self).queued() == old(self).queued(),
            final(self).answered() == old(self).answered(),
    {
        let s = self.take();
        proof {
            use_type_invariant(&s);
        }
        let ConnState { connected: _, pending, queued, answered } = s;
        *self = ConnState { connected: true, pending, queued, answered };
    }

    /// Queues the waiters of a batch of requests written to the open
    /// connection, in the batch's order, behind those already waiting.
    pub fn enqueue(&mut self, batch: Vec<T>)
        requires
            old(self).is_open(),
        ensures
            final(self).is_open(),
            final(self).waiting() == old(self).waiting() + batch@,
            final(self).queued() == old(self).queued() + batch@,
            final(self).answered() == old(self).answered(),
    {
        let s = self.take();
        proof {
            use_type_invariant(&s);
        }
        let ConnState { connected, mut pending, queued, answered } = s;
        let ghost q0 = queued@;
        let ghost p0 = pending@;
        let ghost a0 = answered@;
        let mut batch = batch;
        let ghost b = batch@;
        let mut rest: Vec<T> = Vec::new();
        // reverse so that popping from the back yields the batch's order
        while batch.len() > 0
            invariant
                b == batch@ + rest@.reverse(),
            decreases batch.len(),
        {
            let x = batch.pop().unwrap();
            proof {
                assert(rest@.push(x).reverse() =~= seq![x] + rest@.reverse());
            }
            rest.push(x);
            proof {
                assert(b =~= batch@ + rest@.reverse());
            }
        }
        assert(rest@.reverse() =~= b);
        while rest.len() > 0
            invariant
                pending@ + rest@.reverse() == p0 + b,
            decreases rest.len(),
        {
            let x = rest.pop().unwrap();
            proof {
                assert(rest@.push(x).reverse() =~= seq![x] + rest@.reverse());
            }
            pending.push_back(x);
            proof {
                assert(pending@ + rest@.reverse() =~= p0 + b);
            }
        }
        assert(rest@.reverse() =~= Seq::<T>::empty());
        assert(pending@ =~= p0 + b);
        assert(a0 + pending@ =~= q0 + b);
        *self = ConnState { connected, pending, queued: Ghost(q0 + b), answered };
    }

    /// Takes the oldest waiter, to hand it the reply that came in; `None`
    /// where nobody waits.
    pub fn pop_waiter(&mut self) -> (w: Option<T>)
        ensures
            final(self).is_open() == old(self).is_open(),
            final(self).queued() == old(self).queued(),
            old(self).waiting().len() == 0 ==> w is None && final(self).waiting() == old(self).waiting() && final(self).answered() == old(self).answered(),
            old(self).waiting().len() > 0 ==> w == Some(old(self).waiting()[0]) && final(self).waiting() == old(self).waiting().drop_first() && final(self).answered() == old(self).answered().push(old(self).waiting()[0]),
    {
        let s = self.take();
        proof {
            use_type_invariant(&s);
        }
        let ConnState { connected, mut pending, queued, answered } = s;
        let w = pending.pop_front();
        match w {
            Some(x) => {
                let ghost a = answered@.push(x);
                assert(a + pending@ =~= queued@);
                *self = ConnState { connected, pending, queued, answered: Ghost(a) };
                Some(x)
            },
            None => {
                *self = ConnState { connected, pending, queued, answered };
                None
            },
        }
    }

    /// Closes the connection: every remaining waiter leaves, oldest first,
    /// to be told that the connection failed.
    pub fn close(&mut self) -> (failed: Vec<T>)
        ensures
            !final(self).is_open(),
            failed@ == old(self).waiting(),
            final(self).waiting() == Seq::<T>::empty(),
            final(self).queued() == old(self).queued(),
            final(self).answered() == old(self).answered() + old(self).waiting(),
    {
        let s = self.take();
        proof {
            use_type_invariant(&s);
        }
        let ConnState { connected: _, mut pending, queued, answered } = s;
        let ghost p0 = pending@;
        let mut failed: Vec<T> = Vec::new();
        while pending.len() > 0
            invariant
                failed@ + pending@ == p0,
            decreases pending.len(),
        {
            let x = pending.pop_front().unwrap();
            failed.push(x);
            proof {
                assert(failed@ + pending@ =~= p0);
            }
        }
        assert(failed@ =~= p0);
        let ghost a = answered@ + p0;
        assert(a + pending@ =~= queued@);
        *self = ConnState { connected: false, pending, queued, answered: Ghost(a) };
        failed
    }
}

/// What to do with a reply that the reader of a connection handed over.
pub enum ReplyAction<T> {
    /// Give the reply to this waiter; the connection stays open.
    Deliver(T),
    /// Give the reply, an error, to this waiter, then fail the connection
    /// with that error.
    DeliverAndFail(T),
    /// Nobody waits for it: fail the connection as closed.
    Fail,
}

/// One reply taken by a connection in state `pre` (`is_err` when reading it
/// failed), giving action `a` and state `post`: the oldest waiter, if any,
/// takes the reply and leaves; with nobody waiting, the action is `Fail` and
/// nothing changes.
pub open spec fn reply_step<T>(pre: ConnState<T>, is_err: bool, a: ReplyAction<T>, post: ConnState<T>) -> bool {
    &&& post.is_open() == pre.is_open()
    &&& post.queued() == pre.queued()
    &&& pre.waiting().len() == 0 ==> a is Fail && post.waiting() == pre.waiting() && post.answered() == pre.answered()
    &&& pre.waiting().len() > 0 ==> {
        &&& post.waiting() == pre.waiting().drop_first()
        &&& post.answered() == pre.answered().push(pre.waiting()[0])
        &&& a == if is_err {
            ReplyAction::DeliverAndFail(pre.waiting()[0])
        } else {
            ReplyAction::Deliver(pre.waiting()[0])
        }
    }
}

impl<T> ConnState<T> {
    /// Decides on a reply that came in (`is_err` when reading it failed):
    /// the oldest waiter takes it; a failed read, or a reply that nobody
    /// waits for, fails the connection.
    pub fn on_reply(&mut self, is_err: bool) -> (a: ReplyAction<T>)
        ensures
            reply_step(*old(self), is_err, a, *final(self)),
    {
        match self.pop_waiter() {
            Some(w) => if is_err {
                ReplyAction::DeliverAndFail(w)
            } else {
                ReplyAction::Deliver(w)
            },
            None => ReplyAction::Fail,
        }
    }
}

/// First in, first out: whatever a connection goes through, the waiters that
/// have left it (with a reply or a failure), followed by those still waiting,
/// are exactly the waiters queued on it, in the order queued.
pub proof fn law_waiters_fifo<T>(s: ConnState<T>)
    requires
        s.wf(),
    ensures
        s.answered() + s.waiting() == s.queued(),
        forall|i: int| 0 <= i < s.answered().len() ==> s.answered()[i] == s.queued()[i],
        !s.is_open() ==> s.answered() == s.queued(),
{
    assert forall|i: int| 0 <= i < s.answered().len() implies s.answered()[i] == s.queued()[i] by {
        assert((s.answered() + s.waiting())[i] == s.answered()[i]);
    }
    if !s.is_open() {
        assert(s.answered() =~= s.answered() + s.waiting());
    }
}

/// Replies go to requests in the order in which they were written: when a
/// connection takes `k` good replies in a row (the states it passes through
/// are `states`, the actions `actions`) and at least `k` waiters were
/// waiting, the `i`-th reply goes to the `i`-th waiter, and the first `k`
/// waiters have left.
pub proof fn law_replies_fifo<T>(states: Seq<ConnState<T>>, actions: Seq<ReplyAction<T>>)
    requires
        states.len() == actions.len() + 1,
        actions.len() <= states[0].waiting().len(),
        forall|i: int|
            0 <= i < actions.len() ==> reply_step(
                #[trigger] states[i],
                false,
                actions[i],
                states[i + 1],
            ),
    ensures
        forall|i: int|
            0 <= i < actions.len() ==> #[trigger] actions[i] == ReplyAction::Deliver(
                states[0].waiting()[i],
            ),
        states[actions.len() as int].waiting() == states[0].waiting().skip(actions.len() as int),
    decreases actions.len(),
{
    let k = actions.len() as int;
    if k > 0 {
        let s2 = states.drop_last();
        let a2 = actions.drop_last();
        assert forall|i: int| 0 <= i < a2.len() implies reply_step(
            #[trigger] s2[i],
            false,
            a2[i],
            s2[i + 1],
        ) by {
            assert(reply_step(states[i], false, actions[i], states[i + 1]));
        }
        law_replies_fifo(s2, a2);
        let w0 = states[0].waiting();
        assert(states[k - 1].waiting() == w0.skip(k - 1));
        assert(reply_step(states[k - 1], false, actions[k - 1], states[k]));
        assert(states[k - 1].waiting().len() > 0);
        assert(states[k].waiting() =~= w0.skip(k));
        assert(actions[k - 1] == ReplyAction::Deliver(w0[k - 1]));
        assert forall|i: int| 0 <= i < k implies #[trigger] actions[i] == ReplyAction::Deliver(w0[i]) by {
            if i < k - 1 {
                assert(a2[i] == actions[i]);
            }
        }
    } else {
        assert(states[0].waiting().skip(0) =~= states[0].waiting());
    }
}

} // verus!
