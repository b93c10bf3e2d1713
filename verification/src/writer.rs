//! The serial writer's decision step: a queued message is written to the
//! device, newline-terminated, only while the serial transport is reported
//! healthy; a failed write flips the health signal and the same message is
//! retried once the transport recovers.

use vstd::prelude::*;

verus! {

/// A message as it goes onto the wire: the text followed by the newline
/// delimiter.
pub open spec fn spec_framed(m: Seq<char>) -> Seq<char> {
    m.push('\n')
}

/// Frame one message for the serial wire format.
pub fn frame_line(m: &str) -> (r: String)
    ensures
        r@ == spec_framed(m@),
{
    let mut s = String::from_str(m);
    s.append("\n");
    proof {
        reveal_strlit("\n");
        assert(s@ =~= m@.push('\n'));
    }
    s
}

/// What the writer does with the message at the head of its queue: while the
/// serial health signal is false it never attempts a write and only waits;
/// once the signal is true it writes the message, newline-terminated.
pub fn writer_step(healthy: bool, m: &str) -> (r: Option<String>)
    ensures
        r is Some <==> healthy,
        healthy ==> r->0@ == spec_framed(m@),
{
    if healthy {
        Some(frame_line(m))
    } else {
        None
    }
}

/// A ghost trace of the serial writer: every message enqueued toward it so
/// far, in order, and what has gone onto the wire.
pub struct WriterTrace {
    /// All messages handed to the writer's queue, oldest first.
    pub queued: Seq<Seq<char>>,
    /// The framed messages written so far, in the order they were written.
    pub written: Seq<Seq<char>>,
}

/// The writer's order discipline: what has been written is exactly the
/// oldest queued messages, framed, in queue order.
pub open spec fn writer_trace_ok(t: WriterTrace) -> bool {
    &&& t.written.len() <= t.queued.len()
    &&& forall|i: int|
        0 <= i < t.written.len() ==> t.written[i] == spec_framed(#[trigger] t.queued[i])
}

/// One round of the writer task, seen on the trace: while the health signal
/// is false nothing is written; while it is true and a message is pending,
/// the oldest unwritten one goes out, framed.
pub open spec fn spec_writer_round(t: WriterTrace, healthy: bool) -> WriterTrace {
    if healthy && t.written.len() < t.queued.len() {
        WriterTrace {
            queued: t.queued,
            written: t.written.push(spec_framed(t.queued[t.written.len() as int])),
        }
    } else {
        t
    }
}

/// A message arriving at the back of the writer's queue.
pub open spec fn spec_writer_enqueue(t: WriterTrace, m: Seq<char>) -> WriterTrace {
    WriterTrace { queued: t.queued.push(m), written: t.written }
}

/// While the serial health signal is false the writer writes nothing, and
/// every round — wherever the signal stands — keeps the order discipline:
/// the oldest queued message is always written before any newer one.
pub proof fn lemma_writer_round_keeps_order(t: WriterTrace, healthy: bool)
    requires
        writer_trace_ok(t),
    ensures
        writer_trace_ok(spec_writer_round(t, healthy)),
        !healthy ==> spec_writer_round(t, healthy).written == t.written,
{
}

/// A message arriving never disturbs what was already written or its order.
pub proof fn lemma_writer_enqueue_keeps_order(t: WriterTrace, m: Seq<char>)
    requires
        writer_trace_ok(t),
    ensures
        writer_trace_ok(spec_writer_enqueue(t, m)),
        spec_writer_enqueue(t, m).written == t.written,
{
}

} // verus!
