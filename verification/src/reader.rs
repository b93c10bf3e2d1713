//! The serial reader's translation step: raw bytes from the transport are
//! reassembled into lines, empty lines are discarded, and each remaining
//! line is parsed as JSON and forwarded compactly re-serialized; lines that
//! do not parse are dropped and never stall the task.

use vstd::prelude::*;
use crate::jsonio::{json_normal, json_normalize, lossy_decoded, lossy_text, trim_text, trimmed};
use crate::lines::{
    has_newline, lemma_pending_scan, lemma_remainder_no_newline, lemma_split_concat,
    lemma_split_none, line_remainder, split_lines, split_lines_from, LineBuffer,
};

verus! {

/// The message a single reassembled line contributes: its compact JSON form,
/// or `None` where the line is blank or does not parse.
pub open spec fn line_message(line: Seq<u8>) -> Option<Seq<char>> {
    let t = trimmed(lossy_decoded(line));
    if t.len() == 0 {
        None
    } else {
        json_normal(t)
    }
}

/// The messages a sequence of lines contributes, in arrival order: one per
/// line that carries a message, none for the rest.
pub open spec fn line_messages(lines: Seq<Seq<u8>>) -> Seq<Seq<char>>
    decreases lines.len(),
{
    if lines.len() == 0 {
        Seq::empty()
    } else {
        let rest = line_messages(lines.skip(1));
        match line_message(lines[0]) {
            Some(m) => seq![m] + rest,
            None => rest,
        }
    }
}

/// How many of the lines carry a message.
pub open spec fn message_count(lines: Seq<Seq<u8>>) -> nat
    decreases lines.len(),
{
    if lines.len() == 0 {
        0nat
    } else {
        (if line_message(lines[0]) is Some {
            1nat
        } else {
            0nat
        }) + message_count(lines.skip(1))
    }
}

/// A sequence of lines holding exactly `k` well-formed messages contributes
/// exactly `k` queue entries; malformed or blank lines contribute none.
pub proof fn lemma_message_count(lines: Seq<Seq<u8>>)
    ensures
        line_messages(lines).len() == message_count(lines),
    decreases lines.len(),
{
    if lines.len() == 0 {
    } else {
        lemma_message_count(lines.skip(1));
    }
}

/// Messages distribute over concatenation of line sequences: what the reader
/// forwards keeps arrival order across reads.
pub proof fn lemma_messages_concat(a: Seq<Seq<u8>>, b: Seq<Seq<u8>>)
    ensures
        line_messages(a + b) == line_messages(a) + line_messages(b),
    decreases a.len(),
{
    if a.len() == 0 {
        assert(a + b =~= b);
        assert(line_messages(a) + line_messages(b) =~= line_messages(b));
    } else {
        assert((a + b).len() > 0 && (a + b)[0] == a[0]);
        assert((a + b).skip(1) =~= a.skip(1) + b);
        lemma_messages_concat(a.skip(1), b);
        match line_message(a[0]) {
            Some(m) => {
                assert(seq![m] + (line_messages(a.skip(1)) + line_messages(b)) =~= (seq![m]
                    + line_messages(a.skip(1))) + line_messages(b));
            },
            None => {},
        }
    }
}

/// Feeding the reader two chunks one after the other forwards exactly the
/// messages of the combined byte stream, in arrival order, and leaves the
/// same partial line behind: reads may split the stream anywhere without
/// losing, duplicating or reordering messages.
pub proof fn lemma_incremental_reads(b: Seq<u8>, c: Seq<u8>)
    ensures
        line_messages(split_lines(b)) + line_messages(split_lines(line_remainder(b) + c))
            == line_messages(split_lines(b + c)),
        line_remainder(line_remainder(b) + c) == line_remainder(b + c),
{
    let r1 = line_remainder(b);
    lemma_split_concat(b, c, Seq::empty());
    lemma_remainder_no_newline(b, Seq::empty());
    lemma_pending_scan(r1, c);
    lemma_messages_concat(split_lines(b), split_lines_from(c, r1));
}

/// The whole byte stream a sequence of reads delivered.
pub open spec fn concat_chunks(cs: Seq<Seq<u8>>) -> Seq<u8>
    decreases cs.len(),
{
    if cs.len() == 0 {
        Seq::empty()
    } else {
        cs[0] + concat_chunks(cs.skip(1))
    }
}

/// The messages forwarded when the reads in `cs` are processed one at a
/// time, starting from the partial line `pending`.
pub open spec fn chunk_messages(pending: Seq<u8>, cs: Seq<Seq<u8>>) -> Seq<Seq<char>>
    decreases cs.len(),
{
    if cs.len() == 0 {
        Seq::empty()
    } else {
        line_messages(split_lines(pending + cs[0])) + chunk_messages(
            line_remainder(pending + cs[0]),
            cs.skip(1),
        )
    }
}

/// The partial line left in the buffer after the reads in `cs` are
/// processed one at a time, starting from `pending`.
pub open spec fn chunk_rest(pending: Seq<u8>, cs: Seq<Seq<u8>>) -> Seq<u8>
    decreases cs.len(),
{
    if cs.len() == 0 {
        pending
    } else {
        chunk_rest(line_remainder(pending + cs[0]), cs.skip(1))
    }
}

/// Read-by-read processing from a delimiter-free partial line agrees with
/// processing the whole stream at once.
proof fn lemma_chunks_from(pending: Seq<u8>, cs: Seq<Seq<u8>>)
    requires
        !has_newline(pending),
    ensures
        chunk_messages(pending, cs) == line_messages(split_lines(pending + concat_chunks(cs))),
        chunk_rest(pending, cs) == line_remainder(pending + concat_chunks(cs)),
    decreases cs.len(),
{
    if cs.len() == 0 {
        assert(pending + concat_chunks(cs) =~= pending);
        lemma_split_none(pending);
    } else {
        let b = pending + cs[0];
        let r1 = line_remainder(b);
        lemma_remainder_no_newline(b, Seq::empty());
        lemma_chunks_from(r1, cs.skip(1));
        lemma_incremental_reads(b, concat_chunks(cs.skip(1)));
        assert(b + concat_chunks(cs.skip(1)) =~= pending + concat_chunks(cs));
        assert(line_messages(split_lines(b)) + line_messages(
            split_lines(r1 + concat_chunks(cs.skip(1))),
        ) =~= chunk_messages(pending, cs));
    }
}

/// For every sequence of serial reads: the messages forwarded when the
/// reads are processed one at a time from an empty buffer are exactly the
/// messages of the newline-terminated lines of the combined byte stream,
/// one per well-formed line, in arrival order — however the stream was
/// split into reads — and the buffer is left holding the bytes after the
/// last delimiter.
pub proof fn lemma_reads_split_anywhere(cs: Seq<Seq<u8>>)
    ensures
        chunk_messages(Seq::empty(), cs) == line_messages(split_lines(concat_chunks(cs))),
        chunk_rest(Seq::empty(), cs) == line_remainder(concat_chunks(cs)),
        chunk_messages(Seq::empty(), cs).len() == message_count(split_lines(concat_chunks(cs))),
{
    assert(!has_newline(Seq::<u8>::empty()));
    lemma_chunks_from(Seq::empty(), cs);
    assert(Seq::<u8>::empty() + concat_chunks(cs) =~= concat_chunks(cs));
    lemma_message_count(split_lines(concat_chunks(cs)));
}

/// What one read attempt on the serial transport came to, as the task
/// reports it.
pub enum ReadEvent {
    /// Bytes arrived.
    Data,
    /// Nothing arrived: a zero-length read or a read timeout, neither of
    /// which is a failure.
    Idle,
    /// The read failed with a real I/O error.
    Failed,
    /// No transport handle is currently held.
    NoPort,
}

/// What the reader does next.
pub enum ReaderAction {
    /// Pace the loop briefly, then keep reading.
    KeepReading,
    /// Back off briefly, then retry the read.
    Backoff,
    /// Publish the serial health signal false and wait for the transport to
    /// recover: the sole path by which the reader reports serial failure.
    Disconnect,
}

/// Decide how the reader continues after one read attempt: data keeps the
/// loop going, an empty read or timeout only backs off, and any other
/// failure — and only such a failure — reports the transport down.
pub fn reader_reaction(ev: &ReadEvent) -> (r: ReaderAction)
    ensures
        r is KeepReading <==> ev is Data,
        r is Backoff <==> ev is Idle,
        r is Disconnect <==> (ev is Failed || ev is NoPort),
{
    match ev {
        ReadEvent::Data => ReaderAction::KeepReading,
        ReadEvent::Idle => ReaderAction::Backoff,
        ReadEvent::Failed => ReaderAction::Disconnect,
        ReadEvent::NoPort => ReaderAction::Disconnect,
    }
}

/// Translate one reassembled line: drop it if blank after trimming or not
/// valid JSON, else hand back its compact serialization.
pub fn handle_line(line: &Vec<u8>) -> (r: Option<String>)
    ensures
        r is Some <==> line_message(line@) is Some,
        r is Some ==> r->0@ == line_message(line@)->0,
{
    let text = lossy_text(line.as_slice());
    let t = trim_text(text.as_str());
    if t.as_str().is_empty() {
        None
    } else {
        json_normalize(t.as_str())
    }
}

/// Feed one chunk of freshly read bytes through the reassembly buffer and
/// hand back every message the completed lines carry, in arrival order.
pub fn extract_messages(buf: &mut LineBuffer, chunk: &[u8]) -> (msgs: Vec<String>)
    ensures
        msgs@.map_values(|m: String| m@) == line_messages(split_lines(old(buf)@ + chunk@)),
        final(buf)@ == line_remainder(old(buf)@ + chunk@),
{
    buf.push_chunk(chunk);
    let ghost b0: Seq<u8> = buf@;
    let mut msgs: Vec<String> = Vec::new();
    proof {
        assert(msgs@.map_values(|m: String| m@) + line_messages(split_lines(b0)) =~=
            line_messages(split_lines(b0)));
    }
    loop
        invariant_except_break
            line_messages(split_lines(b0)) == msgs@.map_values(|m: String| m@) + line_messages(
                split_lines(buf@),
            ),
            line_remainder(b0) == line_remainder(buf@),
        ensures
            msgs@.map_values(|m: String| m@) == line_messages(split_lines(b0)),
            buf@ == line_remainder(b0),
        decreases buf@.len(),
    {
        let line = match buf.next_line() {
            Some(line) => line,
            None => {
                proof {
                    assert(msgs@.map_values(|m: String| m@) + line_messages(split_lines(buf@))
                        =~= msgs@.map_values(|m: String| m@));
                }
                break ;
            },
        };
        let ghost before = msgs@;
        match handle_line(&line) {
            Some(m) => {
                msgs.push(m);
                proof {
                    assert(msgs@.map_values(|m: String| m@) =~= before.map_values(
                        |m: String| m@,
                    ).push(line_message(line@)->0));
                    lemma_messages_cons(line@, buf@);
                    assert(before.map_values(|m: String| m@) + (seq![line_message(line@)->0]
                        + line_messages(split_lines(buf@))) =~= msgs@.map_values(|m: String| m@)
                        + line_messages(split_lines(buf@)));
                }
            },
            None => {
                proof {
                    lemma_messages_cons(line@, buf@);
                }
            },
        }
    }
    msgs
}

/// The messages of a line sequence beginning with `l` are the message of `l`
/// (if any) followed by the rest.
proof fn lemma_messages_cons(l: Seq<u8>, rest_bytes: Seq<u8>)
    ensures
        line_messages(seq![l] + split_lines(rest_bytes)) == (match line_message(l) {
            Some(m) => seq![m] + line_messages(split_lines(rest_bytes)),
            None => line_messages(split_lines(rest_bytes)),
        }),
{
    let ls = seq![l] + split_lines(rest_bytes);
    assert(ls.len() > 0 && ls[0] == l);
    assert(ls.skip(1) =~= split_lines(rest_bytes));
}

} // verus!
