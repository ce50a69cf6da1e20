//! Splitting a chunked byte stream into newline-terminated records.
use vstd::prelude::*;

verus! {

/// The byte that ends every record.
pub const NEWLINE: u8 = 10;

/// The records that a separator completes in `s`, in order, each without its separator.
pub open spec fn records(s: Seq<u8>) -> Seq<Seq<u8>>
    decreases s.len(),
{
    if s.len() == 0 {
        Seq::empty()
    } else if s.last() == NEWLINE {
        records(s.drop_last()).push(pending(s.drop_last()))
    } else {
        records(s.drop_last())
    }
}

/// The bytes after the last separator of `s`: a record that has not been completed yet.
pub open spec fn pending(s: Seq<u8>) -> Seq<u8>
    decreases s.len(),
{
    if s.len() == 0 {
        Seq::empty()
    } else if s.last() == NEWLINE {
        Seq::empty()
    } else {
        pending(s.drop_last()).push(s.last())
    }
}

/// Every record of a stream that has ended: the completed ones, then the rest, if any is left.
pub open spec fn records_at_end(s: Seq<u8>) -> Seq<Seq<u8>> {
    if pending(s).len() == 0 {
        records(s)
    } else {
        records(s).push(pending(s))
    }
}

/// Whether `s` holds no separator at all.
pub open spec fn has_no_separator(s: Seq<u8>) -> bool {
    forall|i: int| 0 <= i < s.len() ==> s[i] != NEWLINE
}

/// The byte contents of a sequence of buffers.
pub open spec fn contents(v: Seq<Vec<u8>>) -> Seq<Seq<u8>> {
    v.map_values(|b: Vec<u8>| b@)
}

/// A stream made of the given records, each followed by a separator.
pub open spec fn terminated(recs: Seq<Seq<u8>>) -> Seq<u8>
    decreases recs.len(),
{
    if recs.len() == 0 {
        Seq::empty()
    } else {
        terminated(recs.drop_last()) + recs.last().push(NEWLINE)
    }
}

/// All chunks of a stream, joined.
pub open spec fn concat(chunks: Seq<Seq<u8>>) -> Seq<u8>
    decreases chunks.len(),
{
    if chunks.len() == 0 {
        Seq::empty()
    } else {
        concat(chunks.drop_last()) + chunks.last()
    }
}

/// What a framer that starts empty has handed out, and holds, after it was fed `chunks` in turn
/// (none of them empty).
pub open spec fn framed(chunks: Seq<Seq<u8>>) -> (Seq<Seq<u8>>, Seq<u8>)
    decreases chunks.len(),
{
    if chunks.len() == 0 {
        (Seq::empty(), Seq::empty())
    } else {
        let (out, held) = framed(chunks.drop_last());
        (out + records(held + chunks.last()), pending(held + chunks.last()))
    }
}

/// A stretch without separators completes no record and is held back whole.
pub proof fn lemma_no_separator(s: Seq<u8>)
    requires
        has_no_separator(s),
    ensures
        records(s) == Seq::<Seq<u8>>::empty(),
        pending(s) == s,
    decreases s.len(),
{
    if s.len() > 0 {
        lemma_no_separator(s.drop_last());
        assert(s.drop_last().push(s.last()) == s);
    }
}

/// What is held back never holds a separator.
pub proof fn lemma_pending_has_no_separator(s: Seq<u8>)
    ensures
        has_no_separator(pending(s)),
    decreases s.len(),
{
    if s.len() > 0 {
        lemma_pending_has_no_separator(s.drop_last());
    }
}

/// Framing `a + b` gives the records of `a`, then those of what `a` left pending followed by `b`.
pub proof fn lemma_records_append(a: Seq<u8>, b: Seq<u8>)
    ensures
        records(a + b) == records(a) + records(pending(a) + b),
        pending(a + b) == pending(pending(a) + b),
    decreases b.len(),
{
    if b.len() == 0 {
        assert(a + b == a);
        assert(pending(a) + b == pending(a));
        lemma_pending_has_no_separator(a);
        lemma_no_separator(pending(a));
        assert(records(a) + records(pending(a)) == records(a));
    } else {
        let b0 = b.drop_last();
        lemma_records_append(a, b0);
        assert((a + b).drop_last() == a + b0);
        assert((a + b).last() == b.last());
        assert((pending(a) + b).drop_last() == pending(a) + b0);
        assert((pending(a) + b).last() == b.last());
        if b.last() == NEWLINE {
            assert(records(a + b) == records(a + b0).push(pending(a + b0)));
            assert(records(pending(a) + b) == records(pending(a) + b0).push(pending(pending(a) + b0)));
            assert(records(a) + records(pending(a) + b) == (records(a) + records(pending(a) + b0)).push(
                pending(pending(a) + b0),
            ));
        }
    }
}

/// Feeding a stream in chunks, split anywhere, hands out exactly the records of the whole
/// stream, in order, and holds back exactly its unterminated rest.
pub proof fn lemma_split_anywhere(chunks: Seq<Seq<u8>>)
    ensures
        framed(chunks).0 == records(concat(chunks)),
        framed(chunks).1 == pending(concat(chunks)),
    decreases chunks.len(),
{
    if chunks.len() > 0 {
        let init = chunks.drop_last();
        lemma_split_anywhere(init);
        lemma_records_append(concat(init), chunks.last());
    }
}

/// A stream of records that each end with a separator frames back into those same records,
/// with nothing held back.
pub proof fn lemma_terminated_records(recs: Seq<Seq<u8>>)
    requires
        forall|i: int| 0 <= i < recs.len() ==> has_no_separator(#[trigger] recs[i]),
    ensures
        records(terminated(recs)) == recs,
        pending(terminated(recs)) == Seq::<u8>::empty(),
    decreases recs.len(),
{
    if recs.len() > 0 {
        let init = recs.drop_last();
        let last = recs.last();
        assert forall|i: int| 0 <= i < init.len() implies has_no_separator(#[trigger] init[i]) by {
            assert(init[i] == recs[i]);
        }
        lemma_terminated_records(init);
        let body = terminated(init) + last;
        assert(terminated(recs) == body.push(NEWLINE));
        assert(terminated(recs).drop_last() == body);
        lemma_records_append(terminated(init), last);
        assert(pending(terminated(init)) + last == last);
        lemma_no_separator(last);
        assert(records(terminated(init)) + Seq::<Seq<u8>>::empty() == init);
        assert(init.push(last) == recs);
    }
}

/// Any split of a stream of complete records, fed chunk by chunk, hands out exactly those
/// records, byte for byte and in order, and holds nothing back.
pub proof fn lemma_split_complete_records(chunks: Seq<Seq<u8>>, recs: Seq<Seq<u8>>)
    requires
        forall|i: int| 0 <= i < recs.len() ==> has_no_separator(#[trigger] recs[i]),
        concat(chunks) == terminated(recs),
    ensures
        framed(chunks).0 == recs,
        framed(chunks).1 == Seq::<u8>::empty(),
{
    lemma_split_anywhere(chunks);
    lemma_terminated_records(recs);
}

/// Everything that a framer that starts empty hands out when fed `chunks` in turn and then
/// told that the stream has ended.
pub open spec fn framed_to_end(chunks: Seq<Seq<u8>>) -> Seq<Seq<u8>> {
    let (out, held) = framed(chunks);
    if held.len() == 0 {
        out
    } else {
        out.push(held)
    }
}

/// Fed in any split and then ended, a framer hands out every record of the whole stream once,
/// in order, the unterminated rest last.
pub proof fn lemma_framed_to_end(chunks: Seq<Seq<u8>>)
    ensures
        framed_to_end(chunks) == records_at_end(concat(chunks)),
{
    lemma_split_anywhere(chunks);
}

/// A last record that lacks its separator comes out exactly once, after all the others, when
/// the stream ends.
pub proof fn lemma_unterminated_last(chunks: Seq<Seq<u8>>, recs: Seq<Seq<u8>>, last: Seq<u8>)
    requires
        forall|i: int| 0 <= i < recs.len() ==> has_no_separator(#[trigger] recs[i]),
        has_no_separator(last),
        last.len() > 0,
        concat(chunks) == terminated(recs) + last,
    ensures
        framed_to_end(chunks) == recs.push(last),
        framed_to_end(chunks) == records_at_end(concat(chunks)),
{
    lemma_split_anywhere(chunks);
    lemma_terminated_records(recs);
    lemma_records_append(terminated(recs), last);
    lemma_no_separator(last);
    assert(Seq::<u8>::empty() + last == last);
    assert(recs + Seq::<Seq<u8>>::empty() == recs);
}

/// Accumulates bytes across chunks and hands out each record as soon as its separator arrives.
pub struct RecordFramer {
    buffer: Vec<u8>,
}

impl RecordFramer {
    /// The bytes received that no separator has completed yet.
    pub closed spec fn held(&self) -> Seq<u8> {
        self.buffer@
    }

    pub open spec fn well_formed(&self) -> bool {
        has_no_separator(self.held())
    }

    pub fn new() -> (r: RecordFramer)
        ensures
            r.well_formed(),
            r.held() == Seq::<u8>::empty(),
    {
        RecordFramer { buffer: Vec::new() }
    }

    /// Appends `chunk` and returns the records that it completes. An empty chunk marks the end
    /// of the stream: what is held then comes out as the last record, if anything is held.
    pub fn feed(&mut self, chunk: &[u8]) -> (r: Vec<Vec<u8>>)
        requires
            old(self).well_formed(),
        ensures
            final(self).well_formed(),
            chunk@.len() > 0 ==> contents(r@) == records(old(self).held() + chunk@),
            chunk@.len() > 0 ==> final(self).held() == pending(old(self).held() + chunk@),
            chunk@.len() == 0 ==> contents(r@) == records_at_end(old(self).held()),
            chunk@.len() == 0 ==> final(self).held() == Seq::<u8>::empty(),
    {
        proof {
            lemma_no_separator(self.buffer@);
        }
        if chunk.len() == 0 {
            let mut out: Vec<Vec<u8>> = Vec::new();
            if self.buffer.len() > 0 {
                let mut last: Vec<u8> = Vec::new();
                std::mem::swap(&mut last, &mut self.buffer);
                out.push(last);
                assert(contents(out@) =~= seq![old(self).held()]);
            } else {
                assert(contents(out@) =~= Seq::<Seq<u8>>::empty());
            }
            return out;
        }
        let ghost start = self.buffer@;
        let mut out: Vec<Vec<u8>> = Vec::new();
        let mut i: usize = 0;
        assert(start + chunk@.subrange(0, 0) == start);
        assert(contents(out@) =~= Seq::<Seq<u8>>::empty());
        while i < chunk.len()
            invariant
                0 <= i <= chunk@.len(),
                contents(out@) == records(start + chunk@.subrange(0, i as int)),
                self.buffer@ == pending(start + chunk@.subrange(0, i as int)),
            decreases chunk@.len() - i,
        {
            let ghost before = start + chunk@.subrange(0, i as int);
            let ghost after = start + chunk@.subrange(0, i + 1);
            assert(after.drop_last() == before);
            assert(after.last() == chunk@[i as int]);
            let b = chunk[i];
            if b == NEWLINE {
                let mut rec: Vec<u8> = Vec::new();
                std::mem::swap(&mut rec, &mut self.buffer);
                let ghost prev = out@;
                out.push(rec);
                assert(contents(out@) =~= contents(prev).push(rec@));
            } else {
                self.buffer.push(b);
            }
            i = i + 1;
        }
        assert(chunk@.subrange(0, chunk@.len() as int) == chunk@);
        proof {
            lemma_pending_has_no_separator(start + chunk@);
        }
        out
    }
}

} // verus!
