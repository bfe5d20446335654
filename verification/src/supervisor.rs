//! The per-shard supervisor's decision logic: how a failure of the event
//! loop is classified, which recovery follows (resume, or re-queue and
//! reconnect), and what one run of the loop publishes.
use crate::codec::{bytes_eq, encode_record, record_of, record_tag};
use crate::frame::{is_payload_frame, payload_of, Frame};
use vstd::prelude::*;

verus! {

/// The close frame carried by a connection-closed failure.
#[derive(Debug)]
pub struct CloseInfo {
    pub code: u16,
    pub reason: Vec<u8>,
}

/// A failure of one event-loop pass, as the supervisor sees it.
#[derive(Debug)]
pub enum ShardError {
    /// The message stream ended without yielding another frame.
    StreamEnded,
    /// A frame exceeded the gateway library's capacity and was discarded.
    Capacity,
    /// The connection closed, with the close frame if one was received.
    ConnectionClosed(Option<CloseInfo>),
    /// A protocol violation, with its reason text.
    Protocol(Vec<u8>),
    /// An inbound frame failed to parse as a gateway event.
    Json,
    /// Any other failure.
    Other,
}

/// The bytes of `"Connection reset without closing handshake"`, the one
/// protocol violation that means the peer is gone rather than misbehaving.
pub open spec fn reset_reason() -> Seq<u8> {
    seq![
        67u8, 111u8, 110u8, 110u8, 101u8, 99u8, 116u8, 105u8, 111u8, 110u8, 32u8, 114u8, 101u8,
        115u8, 101u8, 116u8, 32u8, 119u8, 105u8, 116u8, 104u8, 111u8, 117u8, 116u8, 32u8, 99u8,
        108u8, 111u8, 115u8, 105u8, 110u8, 103u8, 32u8, 104u8, 97u8, 110u8, 100u8, 115u8, 104u8,
        97u8, 107u8, 101u8,
    ]
}

fn reset_reason_bytes() -> (r: Vec<u8>)
    ensures
        r@ == reset_reason(),
{
    let mut r: Vec<u8> = Vec::new();
    r.push(67);
    r.push(111);
    r.push(110);
    r.push(110);
    r.push(101);
    r.push(99);
    r.push(116);
    r.push(105);
    r.push(111);
    r.push(110);
    r.push(32);
    r.push(114);
    r.push(101);
    r.push(115);
    r.push(101);
    r.push(116);
    r.push(32);
    r.push(119);
    r.push(105);
    r.push(116);
    r.push(104);
    r.push(111);
    r.push(117);
    r.push(116);
    r.push(32);
    r.push(99);
    r.push(108);
    r.push(111);
    r.push(115);
    r.push(105);
    r.push(110);
    r.push(103);
    r.push(32);
    r.push(104);
    r.push(97);
    r.push(110);
    r.push(100);
    r.push(115);
    r.push(104);
    r.push(97);
    r.push(107);
    r.push(101);
    proof {
        assert(r@ =~= reset_reason());
    }
    r
}

/// What the event loop does after a failure: carry on looping, or treat
/// the session as lost and recover.
pub enum LoopOutcome {
    Continue,
    SessionLoss,
}

/// The classification of a failure. Session loss: the stream ending, a
/// close handshake, or the connection being reset. An oversized frame has
/// already been discarded by the gateway library, so it costs nothing; any
/// other failure is transient and the loop carries on.
pub open spec fn classify_spec(e: ShardError) -> LoopOutcome {
    match e {
        ShardError::StreamEnded => LoopOutcome::SessionLoss,
        ShardError::Capacity => LoopOutcome::Continue,
        ShardError::ConnectionClosed(c) => if c is Some {
            LoopOutcome::SessionLoss
        } else {
            LoopOutcome::Continue
        },
        ShardError::Protocol(reason) => if reason@ == reset_reason() {
            LoopOutcome::SessionLoss
        } else {
            LoopOutcome::Continue
        },
        ShardError::Json => LoopOutcome::Continue,
        ShardError::Other => LoopOutcome::Continue,
    }
}

/// Classifies one failure of the event loop.
pub fn classify(e: &ShardError) -> (r: LoopOutcome)
    ensures
        r == classify_spec(*e),
{
    match e {
        ShardError::StreamEnded => LoopOutcome::SessionLoss,
        ShardError::Capacity => LoopOutcome::Continue,
        ShardError::ConnectionClosed(c) => {
            if c.is_some() {
                LoopOutcome::SessionLoss
            } else {
                LoopOutcome::Continue
            }
        },
        ShardError::Protocol(reason) => {
            let reset = reset_reason_bytes();
            if bytes_eq(reason.as_slice(), reset.as_slice()) {
                LoopOutcome::SessionLoss
            } else {
                LoopOutcome::Continue
            }
        },
        ShardError::Json => LoopOutcome::Continue,
        ShardError::Other => LoopOutcome::Continue,
    }
}

/// The recovery performed after a session loss.
pub enum Recovery {
    /// A session id survives: reconnect at once, skipping the queue.
    Resume,
    /// No session id: wait for an identify ticket, then reconnect.
    EnqueueThenReconnect,
}

/// Whether a recovery consumes an identify ticket.
pub open spec fn consumes_ticket(r: Recovery) -> bool {
    r is EnqueueThenReconnect
}

/// What one failure leads to, given whether a session id survives.
pub enum ErrorStep {
    KeepLooping,
    Recover(Recovery),
}

/// The supervisor's whole response to a failure: transient failures keep
/// the loop running; a session loss resumes when a session id survives and
/// re-queues for a fresh identify when none does.
pub open spec fn on_error_spec(e: ShardError, has_session: bool) -> ErrorStep {
    match classify_spec(e) {
        LoopOutcome::Continue => ErrorStep::KeepLooping,
        LoopOutcome::SessionLoss => ErrorStep::Recover(
            if has_session {
                Recovery::Resume
            } else {
                Recovery::EnqueueThenReconnect
            },
        ),
    }
}

/// Decides the supervisor's response to one failure.
pub fn on_error(e: &ShardError, has_session: bool) -> (r: ErrorStep)
    ensures
        r == on_error_spec(*e, has_session),
{
    match classify(e) {
        LoopOutcome::Continue => ErrorStep::KeepLooping,
        LoopOutcome::SessionLoss => ErrorStep::Recover(
            if has_session {
                Recovery::Resume
            } else {
                Recovery::EnqueueThenReconnect
            },
        ),
    }
}

/// A recovery with a live session id never consumes an identify ticket; a
/// fresh reconnect, after a session loss with no session id, always does.
pub proof fn lemma_ticket_consumption(e: ShardError, has_session: bool)
    ensures
        on_error_spec(e, has_session) matches ErrorStep::Recover(rec) ==> (consumes_ticket(rec)
            <==> !has_session),
{
}

/// One pass of the supervisor's event loop, seen from outside: either a
/// frame arrived and its gateway processing succeeded or not, or the pass
/// failed outright.
pub enum LoopEvent {
    Arrived(Frame, bool),
    Failed(ShardError),
}

/// The payload one pass publishes, if any: the frame's bytes, exactly when
/// it is a payload frame whose processing succeeded.
pub open spec fn published_by(ev: LoopEvent) -> Option<Seq<u8>> {
    match ev {
        LoopEvent::Arrived(f, ok) => if ok && is_payload_frame(f) {
            Some(payload_of(f))
        } else {
            None
        },
        LoopEvent::Failed(_) => None,
    }
}

/// The payloads a run of the loop publishes, in order.
pub open spec fn publications(evs: Seq<LoopEvent>) -> Seq<Seq<u8>>
    decreases evs.len(),
{
    if evs.len() == 0 {
        Seq::empty()
    } else {
        let rest = publications(evs.drop_last());
        match published_by(evs.last()) {
            Some(p) => rest.push(p),
            None => rest,
        }
    }
}

/// The payload bytes of every payload frame the gateway delivered, in order.
pub open spec fn inbound_payloads(evs: Seq<LoopEvent>) -> Seq<Seq<u8>>
    decreases evs.len(),
{
    if evs.len() == 0 {
        Seq::empty()
    } else {
        let rest = inbound_payloads(evs.drop_last());
        match evs.last() {
            LoopEvent::Arrived(f, _) => if is_payload_frame(f) {
                rest.push(payload_of(f))
            } else {
                rest
            },
            LoopEvent::Failed(_) => rest,
        }
    }
}

/// `xs` occurs inside `ys` in order: `ys` with some elements left out.
pub open spec fn is_subseq<A>(xs: Seq<A>, ys: Seq<A>) -> bool
    decreases xs.len() + ys.len(),
{
    if xs.len() == 0 {
        true
    } else if ys.len() == 0 {
        false
    } else {
        (xs.last() == ys.last() && is_subseq(xs.drop_last(), ys.drop_last())) || is_subseq(
            xs,
            ys.drop_last(),
        )
    }
}

/// What a supervisor publishes is a subsequence of the payload frames the
/// gateway delivered: passes may be lost at error boundaries, but what is
/// published is never reordered and never invented.
pub proof fn lemma_publications_subsequence(evs: Seq<LoopEvent>)
    ensures
        is_subseq(publications(evs), inbound_payloads(evs)),
    decreases evs.len(),
{
    if evs.len() > 0 {
        let rest = evs.drop_last();
        lemma_publications_subsequence(rest);
        let p = publications(rest);
        let ib = inbound_payloads(rest);
        let pubs = publications(evs);
        let inb = inbound_payloads(evs);
        match evs.last() {
            LoopEvent::Arrived(f, ok) => {
                if is_payload_frame(f) {
                    assert(inb == ib.push(payload_of(f)));
                    assert(inb.drop_last() =~= ib);
                    if ok {
                        assert(pubs == p.push(payload_of(f)));
                        assert(pubs.drop_last() =~= p);
                        assert(pubs.last() == inb.last());
                    } else {
                        assert(pubs == p);
                        if pubs.len() > 0 {
                            assert(is_subseq(pubs, inb.drop_last()));
                        }
                    }
                } else {
                    assert(pubs == p && inb == ib);
                }
            },
            LoopEvent::Failed(_) => {
                assert(pubs == p && inb == ib);
            },
        }
    }
}

/// The records a run of the loop publishes for shard `id`: each published
/// payload tagged with the id.
pub open spec fn records_published(evs: Seq<LoopEvent>, id: u16) -> Seq<Seq<u8>> {
    publications(evs).map_values(|p: Seq<u8>| record_of(p, id))
}

/// Every record a supervisor for a shard id within the owned range
/// publishes is at least two bytes long and carries a tag within that
/// range.
pub proof fn lemma_records_tagged(evs: Seq<LoopEvent>, id: u16, start: u16, until: u16)
    requires
        start <= id <= until,
    ensures
        forall|k: int|
            0 <= k < records_published(evs, id).len() ==> {
                let r = #[trigger] records_published(evs, id)[k];
                r.len() >= 2 && start <= record_tag(r) <= until
            },
{
    assert forall|k: int| 0 <= k < records_published(evs, id).len() implies {
        let r = #[trigger] records_published(evs, id)[k];
        r.len() >= 2 && start <= record_tag(r) <= until
    } by {
        crate::codec::lemma_record_tag_in_range(publications(evs)[k], id, start, until);
    }
}

/// One shard's supervisor as the event loop sees it: the shard id it
/// publishes under, and the history of every pass, kept in ghost form so
/// that what the loop has published is pinned to the model above.
pub struct Supervisor {
    pub id: u16,
    pub history: Ghost<Seq<LoopEvent>>,
}

impl Supervisor {
    /// A supervisor that has seen nothing yet.
    pub fn new(id: u16) -> (s: Self)
        ensures
            s.id == id,
            s.history@ == Seq::<LoopEvent>::empty(),
    {
        Supervisor { id, history: Ghost(Seq::empty()) }
    }

    /// One pass over a delivered frame whose gateway processing succeeded
    /// or not: the record to publish, exactly when the frame carries a
    /// payload and its processing succeeded.
    pub fn observe_frame(&mut self, frame: Frame, processed_ok: bool) -> (r: Option<Vec<u8>>)
        ensures
            final(self).id == old(self).id,
            final(self).history@ == old(self).history@.push(
                LoopEvent::Arrived(frame, processed_ok),
            ),
            r is Some <==> processed_ok && is_payload_frame(frame),
            r matches Some(rec) ==> rec@ == record_of(payload_of(frame), old(self).id),
            publications(final(self).history@) == (if processed_ok && is_payload_frame(frame) {
                publications(old(self).history@).push(payload_of(frame))
            } else {
                publications(old(self).history@)
            }),
            inbound_payloads(final(self).history@) == (if is_payload_frame(frame) {
                inbound_payloads(old(self).history@).push(payload_of(frame))
            } else {
                inbound_payloads(old(self).history@)
            }),
    {
        let ghost f = frame;
        let ghost h = self.history@;
        self.history = Ghost(self.history@.push(LoopEvent::Arrived(f, processed_ok)));
        proof {
            assert(h.push(LoopEvent::Arrived(f, processed_ok)).drop_last() =~= h);
        }
        match frame.into_payload() {
            Some(payload) => {
                if processed_ok {
                    Some(encode_record(payload, self.id))
                } else {
                    None
                }
            },
            None => None,
        }
    }

    /// One pass that failed outright: nothing is published for it.
    pub fn observe_failure(&mut self, e: &ShardError)
        ensures
            final(self).id == old(self).id,
            final(self).history@ == old(self).history@.push(LoopEvent::Failed(*e)),
            publications(final(self).history@) == publications(old(self).history@),
            inbound_payloads(final(self).history@) == inbound_payloads(old(self).history@),
    {
        let ghost h = self.history@;
        proof {
            assert(h.push(LoopEvent::Failed(*e)).drop_last() =~= h);
        }
        self.history = Ghost(self.history@.push(LoopEvent::Failed(*e)));
    }

    /// In every state a supervisor can reach, what it has published is a
    /// subsequence of the payload frames it was handed.
    pub proof fn lemma_never_reorders(self)
        ensures
            is_subseq(publications(self.history@), inbound_payloads(self.history@)),
    {
        lemma_publications_subsequence(self.history@);
    }
}

}
