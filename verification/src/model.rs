//! The scheduling core: a queue of pending requests, an execution history,
//! and the bounded drain/execute cycle, together with the ordering laws the
//! bridge guarantees.

use vstd::prelude::*;
use crate::systems::Systems;
use crate::systems::flatten_ops;
use crate::systems::flatten_systems;

verus! {

/// One queued request: an operation handle plus whether the submitting side
/// still awaits its continuation. Execution never depends on the flag; only
/// continuation delivery does.
#[derive(Clone, Copy, PartialEq, Eq, Structural, Debug)]
pub struct Request {
    pub op: u64,
    pub awaiting: bool,
}

/// The operation handles of a queue of requests, in queue order.
pub open spec fn ops_of(q: Seq<Request>) -> Seq<u64> {
    q.map_values(|r: Request| r.op)
}

/// Fresh requests for the given operations, in order, each still awaited.
pub open spec fn as_requests(ops: Seq<u64>) -> Seq<Request> {
    ops.map_values(|op: u64| Request { op: op, awaiting: true })
}

/// The abstract state of the bridge: the pending FIFO queue, the history of
/// executed operations in execution order, and the per-cycle cap.
#[verifier::ext_equal]
pub struct BridgeState {
    pub queue: Seq<Request>,
    pub executed: Seq<u64>,
    pub limit: nat,
}

impl BridgeState {
    /// How many requests one drain/execute cycle pops from this state.
    pub open spec fn step_count(self) -> int {
        if self.queue.len() <= self.limit {
            self.queue.len() as int
        } else {
            self.limit as int
        }
    }

    /// One invocation of the drain/execute loop: pop up to `limit` requests
    /// from the front of the queue and execute their operations in order.
    pub open spec fn drain_step(self) -> BridgeState {
        BridgeState {
            queue: self.queue.skip(self.step_count()),
            executed: self.executed + ops_of(self.queue.take(self.step_count())),
            limit: self.limit,
        }
    }

    /// `n` consecutive drain/execute cycles.
    pub open spec fn drain_steps(self, n: nat) -> BridgeState
        decreases n,
    {
        if n == 0 {
            self
        } else {
            self.drain_steps((n - 1) as nat).drain_step()
        }
    }

    /// How many requests `n` consecutive cycles pop in total.
    pub open spec fn popped_after(self, n: nat) -> int
        decreases n,
    {
        if n == 0 {
            0
        } else {
            self.popped_after((n - 1) as nat) + self.drain_steps((n - 1) as nat).step_count()
        }
    }

    /// Enqueue the given operations at the back, in order, each awaited.
    pub open spec fn submit(self, ops: Seq<u64>) -> BridgeState {
        BridgeState {
            queue: self.queue + as_requests(ops),
            executed: self.executed,
            limit: self.limit,
        }
    }

    /// Discard every queued request without executing it.
    pub open spec fn drain_all(self) -> BridgeState {
        BridgeState { queue: Seq::empty(), executed: self.executed, limit: self.limit }
    }

    /// Every operation this state accounts for, in its required execution
    /// order: the executed history followed by the queue.
    pub open spec fn trace(self) -> Seq<u64> {
        self.executed + ops_of(self.queue)
    }
}

/// `ops_of` commutes with taking a prefix.
pub proof fn lemma_ops_of_take(q: Seq<Request>, k: int)
    requires
        0 <= k <= q.len(),
    ensures
        ops_of(q.take(k)) == ops_of(q).take(k),
{
    assert(ops_of(q.take(k)) =~= ops_of(q).take(k));
}

/// `ops_of` commutes with dropping a prefix.
pub proof fn lemma_ops_of_skip(q: Seq<Request>, k: int)
    requires
        0 <= k <= q.len(),
    ensures
        ops_of(q.skip(k)) == ops_of(q).skip(k),
{
    assert(ops_of(q.skip(k)) =~= ops_of(q).skip(k));
}

/// At most `limit` requests are executed per drain cycle; the requests
/// beyond the cap stay queued, in their original order.
pub proof fn lemma_cycle_cap(s: BridgeState)
    ensures
        0 <= s.step_count() <= s.limit,
        s.step_count() <= s.queue.len(),
        s.drain_step().executed == s.executed + ops_of(s.queue).take(s.step_count()),
        s.drain_step().executed.len() <= s.executed.len() + s.limit,
        s.drain_step().queue == s.queue.skip(s.step_count()),
        s.drain_step().limit == s.limit,
{
    lemma_ops_of_take(s.queue, s.step_count());
}

/// A drain cycle never loses, duplicates, or reorders operations: the trace
/// (executed history followed by queue) is exactly preserved.
pub proof fn lemma_cycle_preserves_trace(s: BridgeState)
    ensures
        s.drain_step().trace() == s.trace(),
{
    let k = s.step_count();
    lemma_ops_of_take(s.queue, k);
    lemma_ops_of_skip(s.queue, k);
    assert(ops_of(s.queue).take(k) + ops_of(s.queue).skip(k) =~= ops_of(s.queue));
    assert(s.drain_step().trace() =~= s.trace());
}

/// Submitting a group appends it to the trace: nothing already queued or
/// executed is moved, lost, or duplicated.
pub proof fn lemma_submit_appends_trace(s: BridgeState, ops: Seq<u64>)
    ensures
        s.submit(ops).trace() == s.trace() + ops,
        s.submit(ops).executed == s.executed,
        s.submit(ops).queue.len() == s.queue.len() + ops.len(),
{
    assert(ops_of(as_requests(ops)) =~= ops);
    assert(ops_of(s.queue + as_requests(ops)) =~= ops_of(s.queue) + ops);
    assert(s.submit(ops).trace() =~= s.trace() + ops);
}

/// Drain cycles execute queued operations in strict queue order: after any
/// number of cycles the executed history has grown by exactly a prefix of
/// the queued operations, and the rest are still queued, unchanged and in
/// order.
pub proof fn lemma_fifo_order(s: BridgeState, n: nat)
    ensures
        0 <= s.popped_after(n) <= s.queue.len(),
        s.drain_steps(n).executed == s.executed + ops_of(s.queue).take(s.popped_after(n)),
        s.drain_steps(n).queue == s.queue.skip(s.popped_after(n)),
        s.drain_steps(n).limit == s.limit,
    decreases n,
{
    if n == 0 {
        assert(ops_of(s.queue).take(0) =~= Seq::<u64>::empty());
        assert(s.executed + Seq::<u64>::empty() =~= s.executed);
        assert(s.queue.skip(0) =~= s.queue);
    } else {
        let m = (n - 1) as nat;
        lemma_fifo_order(s, m);
        let p = s.popped_after(m);
        let t = s.drain_steps(m);
        let k = t.step_count();
        let q = s.queue;
        let ops = ops_of(q);
        lemma_cycle_cap(t);
        lemma_ops_of_skip(q, p);
        assert(ops_of(t.queue) == ops.skip(p));
        // The new cycle pops the next k operations of the original queue.
        assert(ops.skip(p).take(k) =~= ops.subrange(p, p + k));
        assert(ops.take(p + k) =~= ops.take(p) + ops.subrange(p, p + k));
        assert((s.executed + ops.take(p)) + ops.subrange(p, p + k) =~= s.executed + ops.take(p + k));
        assert(t.drain_step().executed == s.executed + ops.take(p + k));
        assert(q.skip(p).skip(k) =~= q.skip(p + k));
        assert(s.popped_after(n) == p + k);
    }
}

/// Which operations a cycle executes depends only on the queued operations
/// and the cap, never on whether any submitter still awaits its reply:
/// dropping an awaiting task cannot prevent or reorder execution.
pub proof fn lemma_execution_ignores_waiters(s1: BridgeState, s2: BridgeState)
    requires
        ops_of(s1.queue) == ops_of(s2.queue),
        s1.executed == s2.executed,
        s1.limit == s2.limit,
    ensures
        s1.drain_step().executed == s2.drain_step().executed,
        ops_of(s1.drain_step().queue) == ops_of(s2.drain_step().queue),
{
    assert(s1.queue.len() == ops_of(s1.queue).len());
    assert(s2.queue.len() == ops_of(s2.queue).len());
    let k = s1.step_count();
    assert(s2.step_count() == k);
    lemma_cycle_cap(s1);
    lemma_cycle_cap(s2);
    lemma_ops_of_skip(s1.queue, k);
    lemma_ops_of_skip(s2.queue, k);
}

/// Discarding all queued requests and then running a cycle executes nothing.
pub proof fn lemma_drain_all_then_cycle(s: BridgeState)
    ensures
        s.drain_all().drain_step().executed == s.executed,
        s.drain_all().drain_step().queue.len() == 0,
{
    let t = s.drain_all();
    assert(t.queue.take(0) =~= Seq::<Request>::empty());
    assert(ops_of(Seq::<Request>::empty()) =~= Seq::<u64>::empty());
    assert(s.executed + Seq::<u64>::empty() =~= s.executed);
}

/// With a positive cap, every cycle that finds the queue non-empty makes
/// progress: after `n` cycles, at least `n` requests have been popped, or
/// the queue has been drained entirely.
pub proof fn lemma_cycle_progress(s: BridgeState, n: nat)
    requires
        s.limit >= 1,
    ensures
        s.popped_after(n) >= n || s.popped_after(n) == s.queue.len(),
    decreases n,
{
    if n > 0 {
        let m = (n - 1) as nat;
        lemma_cycle_progress(s, m);
        lemma_fifo_order(s, m);
        lemma_fifo_order(s, n);
        let t = s.drain_steps(m);
        assert(ops_of(t.queue).len() == t.queue.len());
        if t.queue.len() > 0 {
            assert(t.step_count() >= 1);
        }
    }
}

/// With a positive cap, enough cycles execute every queued operation —
/// each exactly once, in queue order — and leave the queue empty.
pub proof fn lemma_eventual_execution(s: BridgeState, n: nat)
    requires
        s.limit >= 1,
        n >= s.queue.len(),
    ensures
        s.drain_steps(n).executed == s.executed + ops_of(s.queue),
        s.drain_steps(n).queue.len() == 0,
{
    lemma_cycle_progress(s, n);
    lemma_fifo_order(s, n);
    assert(s.popped_after(n) == s.queue.len());
    assert(ops_of(s.queue).take(s.queue.len() as int) =~= ops_of(s.queue));
}

/// Operations submitted as one group to an idle bridge are executed in
/// exactly the submitted order: after any number of cycles the executed
/// history has grown by exactly a prefix of the submitted list.
pub proof fn lemma_submission_order(s: BridgeState, ops: Seq<u64>, n: nat)
    requires
        s.queue.len() == 0,
    ensures
        0 <= s.submit(ops).popped_after(n) <= ops.len(),
        s.submit(ops).executed == s.executed,
        s.submit(ops).drain_steps(n).executed
            == s.executed + ops.take(s.submit(ops).popped_after(n)),
{
    let t = s.submit(ops);
    assert(t.queue =~= as_requests(ops));
    assert(ops_of(as_requests(ops)) =~= ops);
    lemma_fifo_order(t, n);
}

/// The executable core: the pending queue, the executed history, and the
/// per-cycle cap, mirroring [`BridgeState`] exactly.
pub struct BridgeModel {
    pub queue: Vec<Request>,
    pub executed: Vec<u64>,
    pub limit: usize,
}

impl View for BridgeModel {
    type V = BridgeState;

    open spec fn view(&self) -> BridgeState {
        BridgeState { queue: self.queue@, executed: self.executed@, limit: self.limit as nat }
    }
}

impl BridgeModel {
    /// A fresh bridge with nothing queued, nothing executed, and the given
    /// positive per-cycle cap.
    pub fn new(limit: usize) -> (r: BridgeModel)
        requires
            limit >= 1,
        ensures
            r@ == (BridgeState {
                queue: Seq::<Request>::empty(),
                executed: Seq::<u64>::empty(),
                limit: limit as nat,
            }),
    {
        let r = BridgeModel { queue: Vec::new(), executed: Vec::new(), limit };
        proof {
            assert(r@ =~= (BridgeState {
                queue: Seq::<Request>::empty(),
                executed: Seq::<u64>::empty(),
                limit: limit as nat,
            }));
        }
        r
    }

    /// Submit one operation: enqueue it at the back, awaited.
    pub fn submit(&mut self, op: u64)
        ensures
            final(self)@ == old(self)@.submit(seq![op]),
    {
        self.queue.push(Request { op, awaiting: true });
        proof {
            assert(as_requests(seq![op]) =~= seq![Request { op, awaiting: true }]);
            assert(self@ =~= old(self)@.submit(seq![op]));
        }
    }

    /// Serialization phase of a group submission: enqueue every operation,
    /// in the given order, before any of them is executed.
    pub fn submit_ops(&mut self, ops: &Vec<u64>)
        ensures
            final(self)@ == old(self)@.submit(ops@),
    {
        let ghost pre: BridgeState = self@;
        let mut i: usize = 0;
        proof {
            assert(self@ =~= pre.submit(ops@.take(0)));
        }
        while i < ops.len()
            invariant
                i <= ops.len(),
                self@ == pre.submit(ops@.take(i as int)),
            decreases ops.len() - i,
        {
            self.queue.push(Request { op: ops[i], awaiting: true });
            proof {
                assert(as_requests(ops@.take(i as int + 1))
                    =~= as_requests(ops@.take(i as int)).push(Request { op: ops@[i as int], awaiting: true }));
                assert(self@ =~= pre.submit(ops@.take(i as int + 1)));
            }
            i += 1;
        }
        proof {
            assert(ops@.take(ops@.len() as int) =~= ops@);
        }
    }

    /// Submit a group of [`Systems`] values: flatten them in order, then
    /// enqueue every operation (the serialization phase) before anything
    /// executes.
    pub fn submit_many(&mut self, items: Vec<Systems>)
        ensures
            final(self)@ == old(self)@.submit(flatten_ops(items@)),
    {
        let ops = flatten_systems(items);
        self.submit_ops(&ops);
    }

    /// The submitting side of a queued request drops its awaitable before
    /// execution: the request stays queued; only its delivery flag changes.
    pub fn cancel_waiter(&mut self, i: usize)
        requires
            i < old(self)@.queue.len(),
        ensures
            final(self)@.queue == old(self)@.queue.update(
                i as int,
                (Request { op: old(self)@.queue[i as int].op, awaiting: false }),
            ),
            ops_of(final(self)@.queue) == ops_of(old(self)@.queue),
            final(self)@.executed == old(self)@.executed,
            final(self)@.limit == old(self)@.limit,
    {
        let op = self.queue[i].op;
        self.queue[i] = Request { op, awaiting: false };
        proof {
            assert(ops_of(self.queue@) =~= ops_of(old(self).queue@));
        }
    }

    /// One drain/execute cycle: pop up to `limit` requests from the front of
    /// the queue, record their operations as executed, in order, and return
    /// the popped requests so the host can run them and deliver
    /// continuations to those still awaited.
    pub fn drain_cycle(&mut self) -> (popped: Vec<Request>)
        ensures
            final(self)@ == old(self)@.drain_step(),
            popped@ == old(self)@.queue.take(old(self)@.step_count()),
    {
        let ghost pre: BridgeState = self@;
        let k: usize = if self.queue.len() <= self.limit {
            self.queue.len()
        } else {
            self.limit
        };
        let mut popped: Vec<Request> = Vec::new();
        let mut i: usize = 0;
        while i < k
            invariant
                i <= k,
                k <= self.queue.len(),
                self@ == pre,
                popped@ == pre.queue.take(i as int),
            decreases k - i,
        {
            let r = self.queue[i];
            popped.push(r);
            proof {
                assert(popped@ =~= pre.queue.take(i as int + 1));
            }
            i += 1;
        }
        i = 0;
        while i < k
            invariant
                i <= k,
                k <= self.queue.len(),
                self.queue@ == pre.queue,
                self.limit as nat == pre.limit,
                popped@ == pre.queue.take(k as int),
                self.executed@ == pre.executed + ops_of(pre.queue.take(i as int)),
            decreases k - i,
        {
            self.executed.push(self.queue[i].op);
            proof {
                assert(ops_of(pre.queue.take(i as int + 1))
                    =~= ops_of(pre.queue.take(i as int)).push(pre.queue[i as int].op));
                assert(self.executed@ =~= pre.executed + ops_of(pre.queue.take(i as int + 1)));
            }
            i += 1;
        }
        let mut rest: Vec<Request> = Vec::new();
        let mut j: usize = k;
        proof {
            assert(rest@ =~= pre.queue.subrange(k as int, k as int));
        }
        while j < self.queue.len()
            invariant
                k <= j <= self.queue.len(),
                self.queue@ == pre.queue,
                self.limit as nat == pre.limit,
                popped@ == pre.queue.take(k as int),
                self.executed@ == pre.executed + ops_of(pre.queue.take(k as int)),
                rest@ == pre.queue.subrange(k as int, j as int),
            decreases self.queue.len() - j,
        {
            let r = self.queue[j];
            rest.push(r);
            proof {
                assert(rest@ =~= pre.queue.subrange(k as int, j as int + 1));
            }
            j += 1;
        }
        self.queue = rest;
        proof {
            assert(pre.queue.subrange(k as int, pre.queue.len() as int) =~= pre.queue.skip(k as int));
            assert(self@ =~= pre.drain_step());
        }
        popped
    }

    /// Discard every queued request without executing any of them. A host
    /// utility for flushing stale requests; never part of normal operation.
    pub fn drain_all(&mut self)
        ensures
            final(self)@ == old(self)@.drain_all(),
    {
        self.queue.clear();
        proof {
            assert(self@ =~= old(self)@.drain_all());
        }
    }
}

} // verus!
