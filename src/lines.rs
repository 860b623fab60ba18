//! Framing of a byte stream into newline-terminated lines.

use vstd::prelude::*;

verus! {

/// The line terminator.
pub const NEWLINE: u8 = 10;

/// Reads `bytes` from left to right: the lines closed by a newline so far
/// (terminator removed), and the bytes of the line still open.
pub open spec fn scan(bytes: Seq<u8>) -> (Seq<Seq<u8>>, Seq<u8>)
    decreases bytes.len(),
{
    if bytes.len() == 0 {
        (Seq::empty(), Seq::empty())
    } else {
        let (done, open) = scan(bytes.drop_last());
        if bytes.last() == NEWLINE {
            (done.push(open), Seq::empty())
        } else {
            (done, open.push(bytes.last()))
        }
    }
}

/// The complete lines of a stream that is still open.
pub open spec fn lines_of(bytes: Seq<u8>) -> Seq<Seq<u8>> {
    scan(bytes).0
}

/// The bytes after the last newline.
pub open spec fn pending_of(bytes: Seq<u8>) -> Seq<u8> {
    scan(bytes).1
}

/// The lines of a stream that has closed: a final line without terminator
/// counts as a line of its own.
pub open spec fn all_lines(bytes: Seq<u8>) -> Seq<Seq<u8>> {
    if pending_of(bytes).len() > 0 {
        lines_of(bytes).push(pending_of(bytes))
    } else {
        lines_of(bytes)
    }
}

/// The lines of a closed stream, or the complete ones of an open stream.
pub open spec fn delivered_lines(bytes: Seq<u8>, closed: bool) -> Seq<Seq<u8>> {
    if closed {
        all_lines(bytes)
    } else {
        lines_of(bytes)
    }
}

pub open spec fn has_no_newline(s: Seq<u8>) -> bool {
    forall|i: int| 0 <= i < s.len() ==> s[i] != NEWLINE
}

/// The stream that writes each of `ls` followed by a newline.
pub open spec fn joined(ls: Seq<Seq<u8>>) -> Seq<u8>
    decreases ls.len(),
{
    if ls.len() == 0 {
        Seq::empty()
    } else {
        joined(ls.drop_last()) + ls.last() + seq![NEWLINE]
    }
}

/// Bytes without a newline only extend the open line.
pub proof fn lemma_scan_fragment(bytes: Seq<u8>, frag: Seq<u8>)
    requires
        has_no_newline(frag),
    ensures
        scan(bytes + frag) == (lines_of(bytes), pending_of(bytes) + frag),
    decreases frag.len(),
{
    if frag.len() == 0 {
        assert(bytes + frag =~= bytes);
        assert(pending_of(bytes) + frag =~= pending_of(bytes));
    } else {
        let head = frag.drop_last();
        assert(has_no_newline(head));
        lemma_scan_fragment(bytes, head);
        assert((bytes + frag).drop_last() =~= bytes + head);
        assert((bytes + frag).last() == frag.last());
        assert(frag.last() == frag[frag.len() - 1]);
        assert((pending_of(bytes) + head).push(frag.last()) =~= pending_of(bytes) + frag);
    }
}

/// Lines written with their terminators are read back exactly, and nothing
/// stays open.
pub proof fn lemma_lines_round_trip(ls: Seq<Seq<u8>>)
    requires
        forall|i: int| 0 <= i < ls.len() ==> has_no_newline(#[trigger] ls[i]),
    ensures
        lines_of(joined(ls)) == ls,
        pending_of(joined(ls)) == Seq::<u8>::empty(),
        all_lines(joined(ls)) == ls,
    decreases ls.len(),
{
    if ls.len() > 0 {
        let init = ls.drop_last();
        assert forall|i: int| 0 <= i < init.len() implies has_no_newline(#[trigger] init[i]) by {
            assert(init[i] == ls[i]);
        }
        lemma_lines_round_trip(init);
        let before = joined(init) + ls.last();
        assert(has_no_newline(ls.last())) by {
            assert(ls.last() == ls[ls.len() - 1]);
        }
        lemma_scan_fragment(joined(init), ls.last());
        assert(Seq::<u8>::empty() + ls.last() =~= ls.last());
        let whole = joined(ls);
        assert(whole.drop_last() =~= before);
        assert(whole.last() == NEWLINE);
        assert(init.push(ls.last()) =~= ls);
    }
}

/// A final line written without terminator before the stream closes is
/// delivered whole, as the last line, after the terminated ones.
pub proof fn lemma_unterminated_line_kept(ls: Seq<Seq<u8>>, frag: Seq<u8>)
    requires
        forall|i: int| 0 <= i < ls.len() ==> has_no_newline(#[trigger] ls[i]),
        has_no_newline(frag),
        frag.len() > 0,
    ensures
        all_lines(joined(ls) + frag) == ls.push(frag),
{
    lemma_lines_round_trip(ls);
    lemma_scan_fragment(joined(ls), frag);
    assert(Seq::<u8>::empty() + frag =~= frag);
}

/// The open part of a line stream: what has been read and not yet framed.
pub struct LineBuffer {
    pending: Vec<u8>,
    seen: Ghost<Seq<u8>>,
}

impl View for LineBuffer {
    /// Every byte handed to the buffer so far.
    type V = Seq<u8>;

    closed spec fn view(&self) -> Seq<u8> {
        self.seen@
    }
}

impl LineBuffer {
    pub closed spec fn wf(&self) -> bool {
        self.pending@ == pending_of(self.seen@)
    }

    pub fn new() -> (r: LineBuffer)
        ensures
            r.wf(),
            r@ == Seq::<u8>::empty(),
    {
        LineBuffer { pending: Vec::new(), seen: Ghost(Seq::empty()) }
    }

    /// Takes in `chunk` and hands out the lines that it completes, in order.
    pub fn push(&mut self, chunk: &[u8]) -> (r: Vec<Vec<u8>>)
        requires
            old(self).wf(),
        ensures
            final(self).wf(),
            final(self)@ == old(self)@ + chunk@,
            lines_of(old(self)@) + r@.map_values(|l: Vec<u8>| l@) == lines_of(final(self)@),
    {
        let mut out: Vec<Vec<u8>> = Vec::new();
        let ghost start = self.seen@;
        let mut i: usize = 0;
        while i < chunk.len()
            invariant
                i <= chunk@.len(),
                self.wf(),
                start == old(self)@,
                self.seen@ == start + chunk@.subrange(0, i as int),
                lines_of(start) + out@.map_values(|l: Vec<u8>| l@) == lines_of(self.seen@),
            decreases chunk@.len() - i,
        {
            let b = chunk[i];
            let ghost prev = self.seen@;
            let ghost next = prev.push(b);
            assert(start + chunk@.subrange(0, i + 1) =~= next);
            assert(next.drop_last() =~= prev);
            if b == NEWLINE {
                let mut line: Vec<u8> = Vec::new();
                core::mem::swap(&mut line, &mut self.pending);
                let ghost before = out@.map_values(|l: Vec<u8>| l@);
                out.push(line);
                assert(out@.map_values(|l: Vec<u8>| l@) =~= before.push(line@));
                assert((lines_of(start) + out@.map_values(|l: Vec<u8>| l@)) =~= lines_of(prev).push(line@));
            } else {
                self.pending.push(b);
            }
            self.seen = Ghost(next);
            i = i + 1;
        }
        assert(chunk@.subrange(0, chunk@.len() as int) =~= chunk@);
        out
    }

    /// Ends the stream: hands out the open line, if it holds any byte.
    pub fn finish(&mut self) -> (r: Option<Vec<u8>>)
        requires
            old(self).wf(),
        ensures
            final(self)@ == old(self)@,
            match r {
                Some(line) => pending_of(old(self)@).len() > 0 && line@ == pending_of(old(self)@),
                None => pending_of(old(self)@).len() == 0,
            },
            all_lines(old(self)@) == lines_of(old(self)@) + match r {
                Some(line) => seq![line@],
                None => Seq::<Seq<u8>>::empty(),
            },
    {
        if self.pending.len() > 0 {
            let mut line: Vec<u8> = Vec::new();
            core::mem::swap(&mut line, &mut self.pending);
            proof {
                assert(lines_of(self.seen@).push(line@) =~= lines_of(self.seen@) + seq![line@]);
            }
            Some(line)
        } else {
            proof {
                assert(lines_of(self.seen@) + Seq::<Seq<u8>>::empty() =~= lines_of(self.seen@));
            }
            None
        }
    }
}

} // verus!
