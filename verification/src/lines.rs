//! The line readers' splitting logic: turn an incrementally read byte
//! stream into newline-terminated lines, plus a final unterminated
//! fragment if the stream does not end in a newline.
//!
//! The reading itself (blocking I/O on the child's pipes) happens outside;
//! the raw chunks are fed here, and every captured line leaves byte for
//! byte as it arrived, including its terminator.

use vstd::prelude::*;

verus! {

/// The line terminator: ASCII line feed.
pub const NL: u8 = 0x0a;

/// How many bytes of `s` are newlines.
pub open spec fn count_newlines(s: Seq<u8>) -> nat
    decreases s.len(),
{
    if s.len() == 0 {
        0
    } else {
        count_newlines(s.drop_last()) + if s.last() == NL {
            1nat
        } else {
            0nat
        }
    }
}

/// The bytes of `s` after its last newline (all of `s` if it has none).
pub open spec fn tail_fragment(s: Seq<u8>) -> Seq<u8>
    decreases s.len(),
{
    if s.len() == 0 {
        Seq::<u8>::empty()
    } else if s.last() == NL {
        Seq::<u8>::empty()
    } else {
        tail_fragment(s.drop_last()).push(s.last())
    }
}

/// The newline-terminated lines of `s`, in stream order, each including
/// its terminator. Bytes after the last newline belong to no line.
pub open spec fn complete_lines(s: Seq<u8>) -> Seq<Seq<u8>>
    decreases s.len(),
{
    if s.len() == 0 {
        Seq::<Seq<u8>>::empty()
    } else if s.last() == NL {
        complete_lines(s.drop_last()).push(tail_fragment(s.drop_last()).push(NL))
    } else {
        complete_lines(s.drop_last())
    }
}

/// All the given lines, joined back into one byte sequence.
pub open spec fn concat_bytes(ls: Seq<Seq<u8>>) -> Seq<u8>
    decreases ls.len(),
{
    if ls.len() == 0 {
        Seq::<u8>::empty()
    } else {
        concat_bytes(ls.drop_last()) + ls.last()
    }
}

/// Law: a stream yields exactly one line per newline it contains.
pub proof fn lemma_line_count(s: Seq<u8>)
    ensures
        complete_lines(s).len() == count_newlines(s),
    decreases s.len(),
{
    if s.len() > 0 {
        lemma_line_count(s.drop_last());
    }
}

/// Law: splitting loses and changes nothing — the lines, joined in order,
/// followed by the unterminated tail fragment, are byte for byte the
/// original stream.
pub proof fn lemma_lines_exact(s: Seq<u8>)
    ensures
        concat_bytes(complete_lines(s)) + tail_fragment(s) == s,
    decreases s.len(),
{
    if s.len() == 0 {
        assert(concat_bytes(complete_lines(s)) + tail_fragment(s) =~= s);
    } else {
        let t = s.drop_last();
        let b = s.last();
        lemma_lines_exact(t);
        assert(s =~= t.push(b));
        if b == NL {
            let line = tail_fragment(t).push(NL);
            assert(complete_lines(t).push(line).drop_last() =~= complete_lines(t));
            assert(complete_lines(t).push(line).last() == line);
            assert(concat_bytes(complete_lines(s)) == concat_bytes(complete_lines(t)) + line);
            assert(concat_bytes(complete_lines(t)) + line =~= (concat_bytes(complete_lines(t))
                + tail_fragment(t)).push(NL));
            assert(tail_fragment(s) =~= Seq::<u8>::empty());
            assert(concat_bytes(complete_lines(s)) + tail_fragment(s) =~= t.push(NL));
        } else {
            assert(concat_bytes(complete_lines(s)) + tail_fragment(s) =~= (concat_bytes(
                complete_lines(t),
            ) + tail_fragment(t)).push(b));
        }
    }
}

/// True of a sequence with no newline byte.
pub open spec fn newline_free(s: Seq<u8>) -> bool {
    forall|i: int| 0 <= i < s.len() ==> s[i] != NL
}

/// True of a well-shaped captured line: nonempty, newline-terminated,
/// with no newline before the terminator.
pub open spec fn is_complete_line(l: Seq<u8>) -> bool {
    &&& l.len() > 0
    &&& l.last() == NL
    &&& newline_free(l.drop_last())
}

/// Law: the tail fragment contains no newline.
pub proof fn lemma_fragment_newline_free(s: Seq<u8>)
    ensures
        newline_free(tail_fragment(s)),
    decreases s.len(),
{
    if s.len() > 0 && s.last() != NL {
        lemma_fragment_newline_free(s.drop_last());
    }
}

/// Law: every split-off line is nonempty, ends in exactly one newline,
/// and carries none before it.
pub proof fn lemma_lines_complete(s: Seq<u8>)
    ensures
        forall|i: int|
            0 <= i < complete_lines(s).len() ==> #[trigger] is_complete_line(complete_lines(s)[i]),
    decreases s.len(),
{
    if s.len() > 0 {
        let t = s.drop_last();
        lemma_lines_complete(t);
        if s.last() == NL {
            lemma_fragment_newline_free(t);
            let line = tail_fragment(t).push(NL);
            assert(line.drop_last() =~= tail_fragment(t));
            assert(is_complete_line(line));
            assert(forall|i: int|
                0 <= i < complete_lines(t).len() ==> complete_lines(s)[i] == complete_lines(
                    t,
                )[i]);
        }
    }
}

/// One stream's incremental line splitter. Raw chunks go in through
/// `feed`; complete lines come out in read order; `finish` hands back the
/// final unterminated fragment, if any. The view is the buffered bytes
/// after the last newline seen so far.
pub struct LineSplitter {
    buf: Vec<u8>,
}

impl LineSplitter {
    pub closed spec fn view(&self) -> Seq<u8> {
        self.buf@
    }

    pub open spec fn well_formed(&self) -> bool {
        newline_free(self@)
    }

    pub fn new() -> (r: LineSplitter)
        ensures
            r@ == Seq::<u8>::empty(),
            r.well_formed(),
    {
        LineSplitter { buf: Vec::new() }
    }

    /// Feed the next chunk read from the stream. Returns every line the
    /// buffered bytes plus this chunk complete, in order, each byte for
    /// byte as read, including its newline; what follows the last newline
    /// stays buffered.
    pub fn feed(&mut self, chunk: &[u8]) -> (lines: Vec<Vec<u8>>)
        requires
            old(self).well_formed(),
        ensures
            final(self).well_formed(),
            lines@.map_values(|l: Vec<u8>| l@) == complete_lines(old(self)@ + chunk@),
            final(self)@ == tail_fragment(old(self)@ + chunk@),
    {
        let mut lines: Vec<Vec<u8>> = Vec::new();
        let mut i: usize = 0;
        proof {
            assert(old(self)@ + chunk@.take(0) =~= old(self)@);
            lemma_fragment_of_newline_free(old(self)@);
            lemma_lines_of_newline_free(old(self)@);
            assert(lines@.map_values(|l: Vec<u8>| l@) =~= complete_lines(old(self)@));
        }
        while i < chunk.len()
            invariant
                i <= chunk@.len(),
                lines@.map_values(|l: Vec<u8>| l@) == complete_lines(
                    old(self)@ + chunk@.take(i as int),
                ),
                self@ == tail_fragment(old(self)@ + chunk@.take(i as int)),
                self.well_formed(),
            decreases chunk@.len() - i,
        {
            let ghost p = old(self)@ + chunk@.take(i as int);
            let b = chunk[i];
            self.buf.push(b);
            proof {
                assert(old(self)@ + chunk@.take(i + 1) =~= p.push(b));
                assert(p.push(b).drop_last() =~= p);
                assert(p.push(b).last() == b);
            }
            if b == NL {
                let mut done: Vec<u8> = Vec::new();
                core::mem::swap(&mut done, &mut self.buf);
                proof {
                    assert(complete_lines(p.push(b)) =~= complete_lines(p).push(
                        tail_fragment(p).push(NL),
                    ));
                    assert(done@ == tail_fragment(p).push(NL));
                }
                lines.push(done);
                proof {
                    assert(lines@.map_values(|l: Vec<u8>| l@) =~= complete_lines(p).push(
                        tail_fragment(p).push(NL),
                    ));
                    assert(tail_fragment(p.push(b)) =~= Seq::<u8>::empty());
                }
            } else {
                proof {
                    assert(complete_lines(p.push(b)) =~= complete_lines(p));
                    assert(tail_fragment(p.push(b)) =~= tail_fragment(p).push(b));
                }
            }
            i = i + 1;
        }
        proof {
            assert(old(self)@ + chunk@.take(chunk@.len() as int) =~= old(self)@ + chunk@);
        }
        lines
    }

    /// End of stream: hand back the unterminated final fragment, or `None`
    /// when the stream ended at a line boundary. Mirrors how the readers
    /// deliver a last line that lacks its newline.
    pub fn finish(self) -> (r: Option<Vec<u8>>)
        ensures
            self@.len() == 0 ==> r is None,
            self@.len() > 0 ==> (match r {
                Some(l) => l@ == self@,
                None => false,
            }),
    {
        if self.buf.len() == 0 {
            None
        } else {
            Some(self.buf)
        }
    }
}

/// Law: chunking does not matter. Splitting a stream that arrives as two
/// reads — the second fed together with the first read's tail fragment,
/// as `feed` keeps it — yields exactly the lines and tail of the whole
/// stream. So a reader may cut the stream anywhere without changing what
/// is delivered.
pub proof fn lemma_chunking_independent(a: Seq<u8>, b: Seq<u8>)
    ensures
        complete_lines(a + b) == complete_lines(a) + complete_lines(tail_fragment(a) + b),
        tail_fragment(a + b) == tail_fragment(tail_fragment(a) + b),
    decreases b.len(),
{
    if b.len() == 0 {
        assert(a + b =~= a);
        assert(tail_fragment(a) + b =~= tail_fragment(a));
        lemma_fragment_newline_free(a);
        lemma_lines_of_newline_free(tail_fragment(a));
        lemma_fragment_of_newline_free(tail_fragment(a));
        assert(complete_lines(a) + complete_lines(tail_fragment(a)) =~= complete_lines(a));
    } else {
        let t = b.drop_last();
        let x = b.last();
        lemma_chunking_independent(a, t);
        assert(a + b =~= (a + t).push(x));
        assert(tail_fragment(a) + b =~= (tail_fragment(a) + t).push(x));
        assert((a + t).push(x).drop_last() =~= a + t);
        assert((tail_fragment(a) + t).push(x).drop_last() =~= tail_fragment(a) + t);
        if x == NL {
            let line = tail_fragment(a + t).push(NL);
            assert(complete_lines(a + b) == complete_lines(a + t).push(line));
            assert(complete_lines(tail_fragment(a) + b) == complete_lines(tail_fragment(a) + t)
                .push(tail_fragment(tail_fragment(a) + t).push(NL)));
            assert(tail_fragment(tail_fragment(a) + t).push(NL) == line);
            assert(complete_lines(a + t).push(line) =~= complete_lines(a) + complete_lines(
                tail_fragment(a) + t,
            ).push(line));
            assert(tail_fragment(a + b) =~= Seq::<u8>::empty());
            assert(tail_fragment(tail_fragment(a) + b) =~= Seq::<u8>::empty());
        } else {
            assert(complete_lines(a + b) == complete_lines(a + t));
            assert(complete_lines(tail_fragment(a) + b) == complete_lines(tail_fragment(a) + t));
            assert(tail_fragment(a + b) == tail_fragment(a + t).push(x));
            assert(tail_fragment(tail_fragment(a) + b) == tail_fragment(tail_fragment(a) + t).push(
                x,
            ));
        }
    }
}

/// A sequence without newlines has itself as tail fragment.
pub proof fn lemma_fragment_of_newline_free(s: Seq<u8>)
    requires
        newline_free(s),
    ensures
        tail_fragment(s) == s,
    decreases s.len(),
{
    if s.len() > 0 {
        lemma_fragment_of_newline_free(s.drop_last());
        assert(tail_fragment(s.drop_last()).push(s.last()) =~= s);
    } else {
        assert(tail_fragment(s) =~= s);
    }
}

/// A sequence without newlines completes no line.
pub proof fn lemma_lines_of_newline_free(s: Seq<u8>)
    requires
        newline_free(s),
    ensures
        complete_lines(s) == Seq::<Seq<u8>>::empty(),
    decreases s.len(),
{
    if s.len() > 0 {
        lemma_lines_of_newline_free(s.drop_last());
    }
}

} // verus!
