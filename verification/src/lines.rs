//! Line reassembly: a growable byte accumulator that holds partial lines
//! across serial reads.  A complete message is any accumulated content up to
//! and including a newline delimiter, drained destructively once a newline is
//! found.

use vstd::prelude::*;

verus! {

/// The newline delimiter of the serial wire format.
pub open spec fn is_newline(b: u8) -> bool {
    b == 10u8
}

/// Whether the bytes hold a complete (newline-terminated) line.
pub open spec fn has_newline(b: Seq<u8>) -> bool {
    exists|i: int| 0 <= i < b.len() && is_newline(b[i])
}

/// The complete lines of `b` when scanning continues from a partial line
/// `acc` accumulated so far.  Delimiters are not part of the lines.
pub open spec fn split_lines_from(b: Seq<u8>, acc: Seq<u8>) -> Seq<Seq<u8>>
    decreases b.len(),
{
    if b.len() == 0 {
        Seq::empty()
    } else if is_newline(b[0]) {
        seq![acc] + split_lines_from(b.skip(1), Seq::empty())
    } else {
        split_lines_from(b.skip(1), acc.push(b[0]))
    }
}

/// The partial line left over after the last delimiter, when scanning
/// continues from `acc`.
pub open spec fn remainder_from(b: Seq<u8>, acc: Seq<u8>) -> Seq<u8>
    decreases b.len(),
{
    if b.len() == 0 {
        acc
    } else if is_newline(b[0]) {
        remainder_from(b.skip(1), Seq::empty())
    } else {
        remainder_from(b.skip(1), acc.push(b[0]))
    }
}

/// The complete lines of a byte sequence, in arrival order.
pub open spec fn split_lines(b: Seq<u8>) -> Seq<Seq<u8>> {
    split_lines_from(b, Seq::empty())
}

/// The bytes after the last delimiter: the partial line still waiting for
/// its newline.
pub open spec fn line_remainder(b: Seq<u8>) -> Seq<u8> {
    remainder_from(b, Seq::empty())
}

/// Scanning bytes without a delimiter yields no line and only grows the
/// partial line.
proof fn lemma_split_no_newline(b: Seq<u8>, acc: Seq<u8>)
    requires
        !has_newline(b),
    ensures
        split_lines_from(b, acc) == Seq::<Seq<u8>>::empty(),
        remainder_from(b, acc) == acc + b,
    decreases b.len(),
{
    if b.len() == 0 {
        assert(acc + b =~= acc);
    } else {
        assert(!is_newline(b[0]));
        assert(!has_newline(b.skip(1))) by {
            assert(forall|i: int|
                0 <= i < b.skip(1).len() ==> b.skip(1)[i] == b[i + 1]);
        }
        lemma_split_no_newline(b.skip(1), acc.push(b[0]));
        assert(acc.push(b[0]) + b.skip(1) =~= acc + b);
    }
}

/// A scan that starts after a delimiter-free prefix `p` is the same scan with
/// `p` appended to the partial line.
proof fn lemma_split_shift(p: Seq<u8>, x: Seq<u8>, acc: Seq<u8>)
    requires
        !has_newline(p),
    ensures
        split_lines_from(p + x, acc) == split_lines_from(x, acc + p),
        remainder_from(p + x, acc) == remainder_from(x, acc + p),
    decreases p.len(),
{
    if p.len() == 0 {
        assert(p + x =~= x);
        assert(acc + p =~= acc);
    } else {
        assert(!is_newline(p[0]));
        assert(!has_newline(p.skip(1))) by {
            assert(forall|i: int|
                0 <= i < p.skip(1).len() ==> p.skip(1)[i] == p[i + 1]);
        }
        assert((p + x).len() > 0 && (p + x)[0] == p[0]);
        assert((p + x).skip(1) =~= p.skip(1) + x);
        lemma_split_shift(p.skip(1), x, acc.push(p[0]));
        assert(acc.push(p[0]) + p.skip(1) =~= acc + p);
    }
}

/// Scanning `a + b` yields the lines of `a` followed by the lines of `b`
/// scanned from the partial line `a` leaves behind: batch processing and
/// incremental processing agree.
pub proof fn lemma_split_concat(a: Seq<u8>, b: Seq<u8>, acc: Seq<u8>)
    ensures
        split_lines_from(a + b, acc) == split_lines_from(a, acc) + split_lines_from(
            b,
            remainder_from(a, acc),
        ),
        remainder_from(a + b, acc) == remainder_from(b, remainder_from(a, acc)),
    decreases a.len(),
{
    if a.len() == 0 {
        assert(a + b =~= b);
        assert(split_lines_from(a, acc) + split_lines_from(b, remainder_from(a, acc)) =~=
            split_lines_from(b, acc));
    } else {
        assert((a + b).len() > 0 && (a + b)[0] == a[0]);
        assert((a + b).skip(1) =~= a.skip(1) + b);
        if is_newline(a[0]) {
            lemma_split_concat(a.skip(1), b, Seq::empty());
            assert(seq![acc] + (split_lines_from(a.skip(1), Seq::empty()) + split_lines_from(
                b,
                remainder_from(a.skip(1), Seq::empty()),
            )) =~= (seq![acc] + split_lines_from(a.skip(1), Seq::empty())) + split_lines_from(
                b,
                remainder_from(a.skip(1), Seq::empty()),
            ));
        } else {
            lemma_split_concat(a.skip(1), b, acc.push(a[0]));
        }
    }
}

/// The partial line a scan leaves behind never holds a delimiter.
pub proof fn lemma_remainder_no_newline(b: Seq<u8>, acc: Seq<u8>)
    requires
        !has_newline(acc),
    ensures
        !has_newline(remainder_from(b, acc)),
    decreases b.len(),
{
    if b.len() == 0 {
    } else if is_newline(b[0]) {
        assert(!has_newline(Seq::<u8>::empty()));
        lemma_remainder_no_newline(b.skip(1), Seq::empty());
    } else {
        assert(!has_newline(acc.push(b[0]))) by {
            assert(forall|i: int|
                0 <= i < acc.len() ==> acc.push(b[0])[i] == acc[i]);
            assert(acc.push(b[0])[acc.len() as int] == b[0]);
        }
        lemma_remainder_no_newline(b.skip(1), acc.push(b[0]));
    }
}

/// A byte sequence whose first delimiter stands at `i` splits into the line
/// before `i` and the lines of what follows.
pub proof fn lemma_split_first_line(b: Seq<u8>, i: int)
    requires
        0 <= i < b.len(),
        is_newline(b[i]),
        forall|j: int| 0 <= j < i ==> !is_newline(b[j]),
    ensures
        split_lines(b) == seq![b.take(i)] + split_lines(b.skip(i + 1)),
        line_remainder(b) == line_remainder(b.skip(i + 1)),
{
    let p = b.take(i);
    let x = b.skip(i);
    assert(!has_newline(p)) by {
        assert(forall|j: int| 0 <= j < p.len() ==> p[j] == b[j]);
    }
    assert(b =~= p + x);
    lemma_split_shift(p, x, Seq::empty());
    assert(Seq::<u8>::empty() + p =~= p);
    assert(x.len() > 0 && is_newline(x[0]));
    assert(x.skip(1) =~= b.skip(i + 1));
}

/// Scanning new bytes while a delimiter-free partial line `p` is pending is
/// the same as scanning `p` followed by those bytes afresh.
pub proof fn lemma_pending_scan(p: Seq<u8>, x: Seq<u8>)
    requires
        !has_newline(p),
    ensures
        split_lines(p + x) == split_lines_from(x, p),
        line_remainder(p + x) == remainder_from(x, p),
{
    lemma_split_shift(p, x, Seq::empty());
    assert(Seq::<u8>::empty() + p =~= p);
}

/// A byte sequence without a delimiter has no complete line and is all
/// partial line.
pub proof fn lemma_split_none(b: Seq<u8>)
    requires
        !has_newline(b),
    ensures
        split_lines(b) == Seq::<Seq<u8>>::empty(),
        line_remainder(b) == b,
{
    lemma_split_no_newline(b, Seq::empty());
    assert(Seq::<u8>::empty() + b =~= b);
}

/// The line reassembly buffer of a serial reader: bytes of incomplete lines
/// kept across read calls.
pub struct LineBuffer {
    data: Vec<u8>,
}

impl View for LineBuffer {
    type V = Seq<u8>;

    closed spec fn view(&self) -> Seq<u8> {
        self.data@
    }
}

impl LineBuffer {
    /// An empty buffer.
    pub fn new() -> (r: LineBuffer)
        ensures
            r@ == Seq::<u8>::empty(),
    {
        LineBuffer { data: Vec::new() }
    }

    /// Append freshly read bytes to the buffer.
    pub fn push_chunk(&mut self, chunk: &[u8])
        ensures
            final(self)@ == old(self)@ + chunk@,
    {
        self.data.extend_from_slice(chunk);
    }

    /// Drain the first complete line, without its delimiter, if one is
    /// present.
    pub fn next_line(&mut self) -> (r: Option<Vec<u8>>)
        ensures
            r is Some <==> has_newline(old(self)@),
            r is Some ==> {
                &&& split_lines(old(self)@) == seq![r->0@] + split_lines(final(self)@)
                &&& line_remainder(old(self)@) == line_remainder(final(self)@)
                &&& final(self)@.len() < old(self)@.len()
            },
            r is None ==> {
                &&& final(self)@ == old(self)@
                &&& split_lines(final(self)@) == Seq::<Seq<u8>>::empty()
                &&& line_remainder(final(self)@) == final(self)@
            },
    {
        let n = self.data.len();
        let mut i: usize = 0;
        let mut found = false;
        while i < n && !found
            invariant
                i <= n,
                n == self.data@.len(),
                self.data@ == old(self)@,
                forall|j: int| 0 <= j < i ==> !is_newline(old(self)@[j]),
                found ==> i < n && is_newline(old(self)@[i as int]),
            decreases n - i + (if found { 0int } else { 1int }),
        {
            if self.data[i] == 10u8 {
                found = true;
            } else {
                i = i + 1;
            }
        }
        if !found {
            proof {
                assert(!has_newline(old(self)@));
                lemma_split_none(old(self)@);
            }
            return None;
        }
        let mut tail = self.data.split_off(i + 1);
        self.data.pop();
        core::mem::swap(&mut self.data, &mut tail);
        proof {
            assert(tail@ =~= old(self)@.take(i as int));
            assert(self.data@ =~= old(self)@.skip(i + 1));
            lemma_split_first_line(old(self)@, i as int);
            assert(has_newline(old(self)@));
        }
        Some(tail)
    }

    /// How many bytes of partial lines the buffer holds.
    pub fn len(&self) -> (n: usize)
        ensures
            n == self@.len(),
    {
        self.data.len()
    }
}

} // verus!
