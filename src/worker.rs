//! The cycle of one pool worker: take a request, resolve it, reply.
use vstd::prelude::*;
use crate::target::DownloadDoneStatus;
use vstd::multiset::{group_multiset_axioms, Multiset};
use vstd::seq_lib::group_to_multiset_ensures;

verus! {

/// Where a worker stands.
#[derive(Clone, Copy, Debug, PartialEq, Eq, Structural)]
pub enum WorkerPhase {
    Receiving,
    Resolving,
    Replying,
    /// The worker has ended for good; nothing restarts it.
    Stopped,
}

/// What the runtime reports to a worker.
#[derive(Clone, Copy, Debug, PartialEq, Eq, Structural)]
pub enum WorkerEvent {
    /// A request was taken from the shared queue.
    Received,
    /// The shared queue is closed.
    QueueClosed,
    /// The request was resolved with this status.
    Resolved(DownloadDoneStatus),
    /// The status was written to the request's response sink.
    Replied,
    /// The response sink is gone.
    SinkClosed,
}

/// What the runtime does next for a worker.
#[derive(Clone, Copy, Debug, PartialEq, Eq, Structural)]
pub enum WorkerAction {
    /// Wait for the next request.
    Receive,
    /// Resolve the request just taken.
    Resolve,
    /// Write this status to the request's response sink.
    Reply(DownloadDoneStatus),
    /// End the worker.
    Stop,
}

/// One worker of the pool.
#[derive(Clone, Copy, Debug)]
pub struct Worker {
    pub id: usize,
    pub phase: WorkerPhase,
}

pub open spec fn worker_awaits(phase: WorkerPhase, event: WorkerEvent) -> bool {
    match phase {
        WorkerPhase::Receiving => event is Received || event is QueueClosed,
        WorkerPhase::Resolving => event is Resolved,
        WorkerPhase::Replying => event is Replied || event is SinkClosed,
        WorkerPhase::Stopped => false,
    }
}

pub open spec fn worker_next(phase: WorkerPhase, event: WorkerEvent) -> (WorkerPhase, WorkerAction) {
    match event {
        WorkerEvent::Received => (WorkerPhase::Resolving, WorkerAction::Resolve),
        WorkerEvent::Resolved(s) => (WorkerPhase::Replying, WorkerAction::Reply(s)),
        WorkerEvent::Replied => (WorkerPhase::Receiving, WorkerAction::Receive),
        WorkerEvent::QueueClosed => (WorkerPhase::Stopped, WorkerAction::Stop),
        WorkerEvent::SinkClosed => (WorkerPhase::Stopped, WorkerAction::Stop),
    }
}

impl Worker {
    /// A new worker, waiting for its first request.
    pub fn start(id: usize) -> (r: (Worker, WorkerAction))
        ensures
            r.0.id == id,
            r.0.phase == WorkerPhase::Receiving,
            r.1 == WorkerAction::Receive,
    {
        (Worker { id, phase: WorkerPhase::Receiving }, WorkerAction::Receive)
    }

    /// Whether the worker waits for `event`.
    pub fn awaits(&self, event: WorkerEvent) -> (r: bool)
        ensures
            r == worker_awaits(self.phase, event),
    {
        match self.phase {
            WorkerPhase::Receiving => matches!(event, WorkerEvent::Received | WorkerEvent::QueueClosed),
            WorkerPhase::Resolving => matches!(event, WorkerEvent::Resolved(_)),
            WorkerPhase::Replying => matches!(event, WorkerEvent::Replied | WorkerEvent::SinkClosed),
            WorkerPhase::Stopped => false,
        }
    }

    /// Takes the event reported for the last action and returns the next one.
    pub fn step(&mut self, event: WorkerEvent) -> (r: WorkerAction)
        requires
            worker_awaits(old(self).phase, event),
        ensures
            final(self).id == old(self).id,
            (final(self).phase, r) == worker_next(old(self).phase, event),
    {
        match event {
            WorkerEvent::Received => {
                self.phase = WorkerPhase::Resolving;
                WorkerAction::Resolve
            },
            WorkerEvent::Resolved(s) => {
                self.phase = WorkerPhase::Replying;
                WorkerAction::Reply(s)
            },
            WorkerEvent::Replied => {
                self.phase = WorkerPhase::Receiving;
                WorkerAction::Receive
            },
            WorkerEvent::QueueClosed | WorkerEvent::SinkClosed => {
                self.phase = WorkerPhase::Stopped;
                WorkerAction::Stop
            },
        }
    }
}

/// A request that a waiting worker takes gets exactly one reply, carrying
/// the status its resolution produced, after which the worker waits again.
pub proof fn lemma_one_reply_per_request(status: DownloadDoneStatus)
    ensures
        ({
            let (p1, a1) = worker_next(WorkerPhase::Receiving, WorkerEvent::Received);
            let (p2, a2) = worker_next(p1, WorkerEvent::Resolved(status));
            let (p3, a3) = worker_next(p2, WorkerEvent::Replied);
            &&& a1 == WorkerAction::Resolve
            &&& a2 == WorkerAction::Reply(status)
            &&& p2 == WorkerPhase::Replying
            &&& !worker_awaits(p2, WorkerEvent::Received)
            &&& a3 == WorkerAction::Receive
            &&& p3 == WorkerPhase::Receiving
        }),
{
}

/// A closed queue or a vanished response sink ends the worker for good.
pub proof fn lemma_stop_is_final(phase: WorkerPhase, event: WorkerEvent)
    requires
        worker_awaits(phase, event),
        event is QueueClosed || event is SinkClosed,
    ensures
        worker_next(phase, event) == (WorkerPhase::Stopped, WorkerAction::Stop),
        forall|e: WorkerEvent| !worker_awaits(WorkerPhase::Stopped, e),
{
}

/// A pool of workers sharing one request queue, with requests named by
/// ids: the queue's contents, each worker's phase and the request it holds,
/// and the ids whose status was delivered, in order of delivery.
pub struct PoolModel {
    pub pending: Seq<int>,
    pub workers: Seq<(WorkerPhase, int)>,
    pub replied: Seq<int>,
}

/// The request a worker holds, if its phase holds one.
pub open spec fn held(w: (WorkerPhase, int)) -> Multiset<int> {
    if w.0 == WorkerPhase::Resolving || w.0 == WorkerPhase::Replying {
        Multiset::singleton(w.1)
    } else {
        Multiset::empty()
    }
}

/// The requests held by workers.
pub open spec fn held_all(ws: Seq<(WorkerPhase, int)>) -> Multiset<int>
    decreases ws.len(),
{
    if ws.len() == 0 {
        Multiset::empty()
    } else {
        held_all(ws.drop_last()).add(held(ws.last()))
    }
}

/// Every request of the pool: queued, held by a worker, or answered.
pub open spec fn pool_requests(p: PoolModel) -> Multiset<int> {
    p.pending.to_multiset().add(held_all(p.workers)).add(p.replied.to_multiset())
}

/// Whether worker `i` can take `event` while the queue stays open and every
/// response sink stays alive: it takes a request only when one is queued.
pub open spec fn pool_can_step(p: PoolModel, i: int, event: WorkerEvent) -> bool {
    &&& 0 <= i < p.workers.len()
    &&& event is Received || event is Resolved || event is Replied
    &&& worker_awaits(p.workers[i].0, event)
    &&& event is Received ==> p.pending.len() > 0
}

/// Worker `i` of the pool takes `event`, moving as `worker_next` says: a
/// received request leaves the head of the queue, and a reply delivers the
/// status of the request the worker holds.
pub open spec fn pool_step(p: PoolModel, i: int, event: WorkerEvent) -> PoolModel {
    let w = p.workers[i];
    let phase = worker_next(w.0, event).0;
    match event {
        WorkerEvent::Received => PoolModel {
            pending: p.pending.remove(0),
            workers: p.workers.update(i, (phase, p.pending[0])),
            replied: p.replied,
        },
        WorkerEvent::Replied => PoolModel {
            pending: p.pending,
            workers: p.workers.update(i, (phase, w.1)),
            replied: p.replied.push(w.1),
        },
        _ => PoolModel { pending: p.pending, workers: p.workers.update(i, (phase, w.1)), replied: p.replied },
    }
}

proof fn lemma_held_all_update(ws: Seq<(WorkerPhase, int)>, i: int, x: (WorkerPhase, int))
    requires
        0 <= i < ws.len(),
    ensures
        held_all(ws.update(i, x)).add(held(ws[i])) == held_all(ws).add(held(x)),
    decreases ws.len(),
{
    broadcast use group_multiset_axioms;

    let u = ws.update(i, x);
    let d = ws.drop_last();
    assert(held_all(u) == held_all(u.drop_last()).add(held(u.last())));
    assert(held_all(ws) == held_all(d).add(held(ws.last())));
    if i == ws.len() - 1 {
        assert(u.drop_last() =~= d);
        assert(u.last() == x);
        assert forall|v: int| #[trigger] held_all(u).add(held(ws[i])).count(v) == held_all(ws).add(
            held(x),
        ).count(v) by {}
    } else {
        assert(u.drop_last() =~= d.update(i, x));
        assert(u.last() == ws.last());
        assert(d[i] == ws[i]);
        lemma_held_all_update(d, i, x);
        assert forall|v: int| #[trigger] held_all(u).add(held(ws[i])).count(v) == held_all(ws).add(
            held(x),
        ).count(v) by {
            assert(held_all(d.update(i, x)).add(held(d[i])).count(v) == held_all(d).add(
                held(x),
            ).count(v));
        }
    }
    assert(held_all(u).add(held(ws[i])) =~= held_all(ws).add(held(x)));
}

/// No step of the pool loses, duplicates or invents a request: every
/// request stays exactly once queued, held by one worker, or answered.
pub proof fn lemma_pool_step_keeps_requests(p: PoolModel, i: int, event: WorkerEvent)
    requires
        pool_can_step(p, i, event),
    ensures
        pool_requests(pool_step(p, i, event)) == pool_requests(p),
{
    broadcast use group_to_multiset_ensures, group_multiset_axioms;

    let w = p.workers[i];
    let q = pool_step(p, i, event);
    lemma_held_all_update(p.workers, i, q.workers[i]);
    let hp = held_all(p.workers);
    let hq = held_all(q.workers);
    if event is Received {
        let h = p.pending[0];
        assert(p.pending.contains(h));
        assert(q.pending.to_multiset() =~= p.pending.to_multiset().remove(h));
        assert(held(q.workers[i]) =~= Multiset::singleton(h));
        assert(held(w) =~= Multiset::empty());
        assert(hq =~= hp.add(Multiset::singleton(h)));
        assert(p.pending.to_multiset().count(h) > 0);
    } else if event is Replied {
        assert(held(w) =~= Multiset::singleton(w.1));
        assert(held(q.workers[i]) =~= Multiset::empty());
        assert(hq.add(Multiset::singleton(w.1)) =~= hp);
        assert(q.replied.to_multiset() =~= p.replied.to_multiset().insert(w.1));
    } else {
        assert(held(w) =~= held(q.workers[i]));
        assert(hq.add(held(w)) == hp.add(held(w)));
        assert forall|v: int| #[trigger] hq.count(v) == hp.count(v) by {
            assert(hq.add(held(w)).count(v) == hp.add(held(w)).count(v));
        }
        assert(hq =~= hp);
    }
    assert(pool_requests(q) =~= pool_requests(p));
}

/// Workers that all wait, with `m` distinct queued requests and none
/// answered yet: the pool as it starts.
pub open spec fn pool_start(workers: nat, m: nat) -> PoolModel {
    PoolModel {
        pending: Seq::new(m, |k: int| k),
        workers: Seq::new(workers, |k: int| (WorkerPhase::Receiving, 0)),
        replied: Seq::empty(),
    }
}

/// A pool run: each step is one that some worker can take.
pub open spec fn pool_run(p: PoolModel, steps: Seq<(int, WorkerEvent)>) -> PoolModel
    decreases steps.len(),
{
    if steps.len() == 0 {
        p
    } else {
        pool_step(pool_run(p, steps.drop_last()), steps.last().0, steps.last().1)
    }
}

pub open spec fn pool_run_valid(p: PoolModel, steps: Seq<(int, WorkerEvent)>) -> bool
    decreases steps.len(),
{
    steps.len() == 0 || (pool_run_valid(p, steps.drop_last()) && pool_can_step(
        pool_run(p, steps.drop_last()),
        steps.last().0,
        steps.last().1,
    ))
}

proof fn lemma_pool_run_keeps_requests(p: PoolModel, steps: Seq<(int, WorkerEvent)>)
    requires
        pool_run_valid(p, steps),
    ensures
        pool_requests(pool_run(p, steps)) == pool_requests(p),
    decreases steps.len(),
{
    if steps.len() > 0 {
        lemma_pool_run_keeps_requests(p, steps.drop_last());
        lemma_pool_step_keeps_requests(pool_run(p, steps.drop_last()), steps.last().0, steps.last().1);
    }
}

proof fn lemma_held_all_idle(ws: Seq<(WorkerPhase, int)>)
    requires
        forall|k: int| 0 <= k < ws.len() ==> #[trigger] ws[k].0 == WorkerPhase::Receiving,
    ensures
        held_all(ws) == Multiset::<int>::empty(),
    decreases ws.len(),
{
    broadcast use group_multiset_axioms;

    if ws.len() > 0 {
        lemma_held_all_idle(ws.drop_last());
        assert(held_all(ws) =~= Multiset::empty());
    }
}

/// Pool fan-out: `n` workers draining `m` distinct requests, with the queue
/// open and every response sink alive, in any interleaving of their steps.
/// Once the queue is empty and every worker waits again, each request has
/// had exactly one status delivered, and no other status was delivered.
pub proof fn lemma_pool_fan_out(n: nat, m: nat, steps: Seq<(int, WorkerEvent)>)
    requires
        pool_run_valid(pool_start(n, m), steps),
        pool_run(pool_start(n, m), steps).pending.len() == 0,
        forall|k: int|
            0 <= k < n ==> #[trigger] pool_run(pool_start(n, m), steps).workers[k].0
                == WorkerPhase::Receiving,
    ensures
        pool_run(pool_start(n, m), steps).replied.len() == m,
        forall|k: int|
            0 <= k < m ==> #[trigger] pool_run(pool_start(n, m), steps).replied.to_multiset().count(k)
                == 1,
        forall|k: int|
            pool_run(pool_start(n, m), steps).replied.contains(k) ==> 0 <= k < m,
{
    broadcast use group_to_multiset_ensures, group_multiset_axioms;

    let p0 = pool_start(n, m);
    let p = pool_run(p0, steps);
    lemma_pool_run_keeps_requests(p0, steps);
    lemma_pool_workers_len(p0, steps);
    lemma_held_all_idle(p.workers);
    lemma_held_all_idle(p0.workers);
    assert(forall|a: int| !p.pending.contains(a));
    assert(p.pending.to_multiset() =~= Multiset::empty());
    assert(forall|a: int| !p0.replied.contains(a));
    assert(p0.replied.to_multiset() =~= Multiset::empty());
    assert(p0.pending.no_duplicates());
    p0.pending.lemma_multiset_has_no_duplicates();
    assert(pool_requests(p) == pool_requests(p0));
    assert forall|v: int| #[trigger] p.replied.to_multiset().count(v) == p0.pending.to_multiset().count(v) by {
        assert(pool_requests(p).count(v) == pool_requests(p0).count(v));
    }
    assert(p.replied.to_multiset() =~= p0.pending.to_multiset());
    assert(p.replied.len() == p.replied.to_multiset().len());
    assert(p0.pending.len() == p0.pending.to_multiset().len());
    assert forall|k: int| 0 <= k < m implies #[trigger] p.replied.to_multiset().count(k) == 1 by {
        assert(p0.pending[k] == k);
        assert(p0.pending.contains(k));
    }
    assert forall|k: int| p.replied.contains(k) implies 0 <= k < m by {
        assert(p0.pending.to_multiset().count(k) > 0);
        assert(p0.pending.contains(k));
    }
}

proof fn lemma_pool_workers_len(p: PoolModel, steps: Seq<(int, WorkerEvent)>)
    requires
        pool_run_valid(p, steps),
    ensures
        pool_run(p, steps).workers.len() == p.workers.len(),
    decreases steps.len(),
{
    if steps.len() > 0 {
        lemma_pool_workers_len(p, steps.drop_last());
    }
}

/// Steps a worker still owes: two for a request it resolves, one for a
/// reply it sends.
pub open spec fn owed(w: (WorkerPhase, int)) -> int {
    if w.0 == WorkerPhase::Resolving {
        2
    } else if w.0 == WorkerPhase::Replying {
        1
    } else {
        0
    }
}

pub open spec fn owed_all(ws: Seq<(WorkerPhase, int)>) -> int
    decreases ws.len(),
{
    if ws.len() == 0 {
        0
    } else {
        owed_all(ws.drop_last()) + owed(ws.last())
    }
}

/// The steps left before the pool is drained: three per queued request.
pub open spec fn pool_work(p: PoolModel) -> int {
    3 * p.pending.len() + owed_all(p.workers)
}

proof fn lemma_owed_all_update(ws: Seq<(WorkerPhase, int)>, i: int, x: (WorkerPhase, int))
    requires
        0 <= i < ws.len(),
    ensures
        owed_all(ws.update(i, x)) + owed(ws[i]) == owed_all(ws) + owed(x),
    decreases ws.len(),
{
    let u = ws.update(i, x);
    let d = ws.drop_last();
    if i == ws.len() - 1 {
        assert(u.drop_last() =~= d);
    } else {
        assert(u.drop_last() =~= d.update(i, x));
        lemma_owed_all_update(d, i, x);
    }
}

proof fn lemma_owed_all_nonneg(ws: Seq<(WorkerPhase, int)>)
    ensures
        owed_all(ws) >= 0,
        forall|k: int| 0 <= k < ws.len() ==> owed_all(ws) >= owed(#[trigger] ws[k]),
        owed_all(ws) > 0 ==> exists|k: int|
            0 <= k < ws.len() && (#[trigger] ws[k].0 == WorkerPhase::Resolving || ws[k].0
                == WorkerPhase::Replying),
    decreases ws.len(),
{
    if ws.len() > 0 {
        let d = ws.drop_last();
        lemma_owed_all_nonneg(d);
        assert forall|k: int| 0 <= k < ws.len() implies owed_all(ws) >= owed(#[trigger] ws[k]) by {
            if k < ws.len() - 1 {
                assert(ws[k] == d[k]);
            }
        }
        if owed(ws.last()) > 0 {
            assert(ws[ws.len() - 1].0 == WorkerPhase::Resolving || ws[ws.len() - 1].0
                == WorkerPhase::Replying);
        } else if owed_all(ws) > 0 {
            let k = choose|k: int|
                0 <= k < d.len() && (#[trigger] d[k].0 == WorkerPhase::Resolving || d[k].0
                    == WorkerPhase::Replying);
            assert(ws[k] == d[k]);
        }
    }
}

/// Every step of the pool takes exactly one step off the work left, which
/// starts at three per queued request.
pub proof fn lemma_pool_step_progresses(p: PoolModel, i: int, event: WorkerEvent)
    requires
        pool_can_step(p, i, event),
    ensures
        pool_work(pool_step(p, i, event)) == pool_work(p) - 1,
{
    let q = pool_step(p, i, event);
    lemma_owed_all_update(p.workers, i, q.workers[i]);
}

/// While work is left, some worker can step: one that holds a request
/// goes on with it, and with every worker waiting a queued request can be
/// taken.
pub proof fn lemma_pool_can_progress(p: PoolModel)
    requires
        pool_work(p) > 0,
        forall|k: int| 0 <= k < p.workers.len() ==> #[trigger] p.workers[k].0 != WorkerPhase::Stopped,
        p.workers.len() > 0,
    ensures
        exists|i: int, e: WorkerEvent| pool_can_step(p, i, e),
{
    lemma_owed_all_nonneg(p.workers);
    if owed_all(p.workers) == 0 {
        assert(p.pending.len() > 0);
        assert(owed(p.workers[0]) == 0);
        assert(pool_can_step(p, 0, WorkerEvent::Received));
    } else {
        let k = choose|k: int|
            0 <= k < p.workers.len() && (#[trigger] p.workers[k].0 == WorkerPhase::Resolving
                || p.workers[k].0 == WorkerPhase::Replying);
        if p.workers[k].0 == WorkerPhase::Resolving {
            assert(pool_can_step(p, k, WorkerEvent::Resolved(DownloadDoneStatus::Success)));
        } else {
            assert(pool_can_step(p, k, WorkerEvent::Replied));
        }
    }
}

} // verus!
