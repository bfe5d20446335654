//! The identify queue: a single dispenser that serialises session starts
//! across the shard range, serving requests in FIFO order with at least
//! `QUEUE_WAIT_MS` of wall clock between consecutive dispenses.
use vstd::prelude::*;

verus! {

/// Minimum gap between two identify dispenses, in milliseconds: the
/// gateway's identify rate limit ceiling with a small safety margin.
pub const QUEUE_WAIT_MS: u64 = 7000;

/// One fulfilled identify request: which shard was released, and when.
#[derive(Clone, Copy)]
pub struct Fulfilment {
    pub id: u16,
    pub at_ms: u64,
}

/// The abstract state of the queue: requests pending in FIFO order, and
/// the history of fulfilments, oldest first.
pub struct QueueView {
    pub pending: Seq<u16>,
    pub fulfilled: Seq<Fulfilment>,
}

/// Consecutive fulfilments lie at least `QUEUE_WAIT_MS` apart.
pub open spec fn paced(h: Seq<Fulfilment>) -> bool {
    forall|i: int|
        0 <= i && i + 1 < h.len() ==> (#[trigger] h[i]).at_ms + QUEUE_WAIT_MS <= h[i + 1].at_ms
}

/// Enqueuing appends the request to the back of the line.
pub open spec fn up_trans(v: QueueView, id: u16) -> QueueView {
    QueueView { pending: v.pending.push(id), fulfilled: v.fulfilled }
}

/// The queue may dispense: someone is waiting, and either nothing was
/// dispensed yet or the pacing gap since the last dispense has elapsed.
pub open spec fn ready_spec(v: QueueView, now_ms: u64) -> bool {
    &&& v.pending.len() > 0
    &&& (v.fulfilled.len() == 0 || v.fulfilled.last().at_ms + QUEUE_WAIT_MS <= now_ms)
}

/// Dispensing releases the head of the line and records the fulfilment.
pub open spec fn dispense_trans(v: QueueView, now_ms: u64) -> (QueueView, u16) {
    (
        QueueView {
            pending: v.pending.drop_first(),
            fulfilled: v.fulfilled.push(Fulfilment { id: v.pending[0], at_ms: now_ms }),
        },
        v.pending[0],
    )
}

/// The identify queue's state, as the dispenser task owns it.
pub struct IdentifyQueue {
    pending: Vec<u16>,
    fulfilled: Vec<Fulfilment>,
}

impl View for IdentifyQueue {
    type V = QueueView;

    closed spec fn view(&self) -> QueueView {
        QueueView { pending: self.pending@, fulfilled: self.fulfilled@ }
    }
}

impl IdentifyQueue {
    /// The queue's invariant: its fulfilment history is paced.
    pub open spec fn wf(self) -> bool {
        paced(self@.fulfilled)
    }

    /// An empty queue with no history.
    pub fn new() -> (q: Self)
        ensures
            q@.pending == Seq::<u16>::empty(),
            q@.fulfilled == Seq::<Fulfilment>::empty(),
            q.wf(),
    {
        IdentifyQueue { pending: Vec::new(), fulfilled: Vec::new() }
    }

    /// Enqueues one identify request at the back of the line.
    pub fn up(&mut self, id: u16)
        ensures
            final(self)@ == up_trans(old(self)@, id),
            final(self).wf() == old(self).wf(),
    {
        self.pending.push(id);
    }

    /// Whether the queue may dispense now.
    pub fn ready(&self, now_ms: u64) -> (r: bool)
        ensures
            r == ready_spec(self@, now_ms),
    {
        if self.pending.len() == 0 {
            false
        } else if self.fulfilled.len() == 0 {
            true
        } else {
            let last = self.fulfilled[self.fulfilled.len() - 1].at_ms;
            now_ms >= last && now_ms - last >= QUEUE_WAIT_MS
        }
    }

    /// Releases the head of the line, recording the fulfilment time; the
    /// pacing invariant is preserved because dispensing demands that the
    /// gap since the previous fulfilment has elapsed.
    pub fn dispense(&mut self, now_ms: u64) -> (id: u16)
        requires
            old(self).wf(),
            ready_spec(old(self)@, now_ms),
        ensures
            final(self).wf(),
            (final(self)@, id) == dispense_trans(old(self)@, now_ms),
            id == old(self)@.pending[0],
            final(self)@.pending == old(self)@.pending.drop_first(),
            final(self)@.fulfilled == old(self)@.fulfilled.push(
                Fulfilment { id, at_ms: now_ms },
            ),
    {
        let id = self.pending.remove(0);
        self.fulfilled.push(Fulfilment { id, at_ms: now_ms });
        proof {
            assert(self@.pending =~= old(self)@.pending.drop_first());
            let h = self@.fulfilled;
            assert forall|i: int| 0 <= i && i + 1 < h.len() implies (#[trigger] h[i]).at_ms
                + QUEUE_WAIT_MS <= h[i + 1].at_ms by {
                if i + 1 < h.len() - 1 {
                    assert(old(self)@.fulfilled[i] == h[i]);
                }
            }
        }
        id
    }
}

/// Between any two consecutive fulfilments of a well-formed queue, at
/// least `QUEUE_WAIT_MS` of wall clock passes.
pub proof fn lemma_fulfilments_paced(q: IdentifyQueue, i: int)
    requires
        q.wf(),
        0 <= i,
        i + 1 < q@.fulfilled.len(),
    ensures
        q@.fulfilled[i + 1].at_ms - q@.fulfilled[i].at_ms >= QUEUE_WAIT_MS,
{
}

/// Enqueuing the same id twice in succession on an otherwise empty line
/// and serving both requests produces exactly two fulfilments for that id,
/// separated by at least `QUEUE_WAIT_MS`.
pub proof fn lemma_same_id_twice(v: QueueView, id: u16, t1: u64, t2: u64)
    requires
        v.pending.len() == 0,
        ready_spec(up_trans(up_trans(v, id), id), t1),
        ready_spec(dispense_trans(up_trans(up_trans(v, id), id), t1).0, t2),
    ensures
        ({
            let v1 = up_trans(up_trans(v, id), id);
            let (v2, id1) = dispense_trans(v1, t1);
            let (v3, id2) = dispense_trans(v2, t2);
            &&& id1 == id
            &&& id2 == id
            &&& v3.pending.len() == 0
            &&& v3.fulfilled == v.fulfilled.push(Fulfilment { id, at_ms: t1 }).push(
                Fulfilment { id, at_ms: t2 },
            )
            &&& t2 - t1 >= QUEUE_WAIT_MS
        }),
{
    let v1 = up_trans(up_trans(v, id), id);
    assert(v1.pending =~= seq![id, id]);
    let (v2, id1) = dispense_trans(v1, t1);
    assert(v2.pending =~= seq![id]);
    let (v3, id2) = dispense_trans(v2, t2);
    assert(v3.pending =~= Seq::<u16>::empty());
    assert(v2.fulfilled.last() == Fulfilment { id, at_ms: t1 });
}

/// What the dispenser task does with one receive on its request channel.
pub enum QueueStep {
    /// Serve the request: signal the waiter, then sleep the pacing gap.
    Dispense(u16),
    /// The channel has ended: the task stops.
    Stop,
}

/// The dispenser task's decision for one channel receive. The task stops
/// exactly when the request channel has ended, which the channel promises
/// happens exactly when every sender has been dropped; any request it does
/// receive is served. No error stops the task.
pub fn queue_task_step(recv: Option<u16>) -> (r: QueueStep)
    ensures
        r is Stop <==> recv is None,
        recv matches Some(id) ==> r == QueueStep::Dispense(id),
{
    match recv {
        Some(id) => QueueStep::Dispense(id),
        None => QueueStep::Stop,
    }
}

}
