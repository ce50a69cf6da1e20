//! The consumer's pull-based handle on a chat stream. The handle decides; whoever owns the
//! transport performs the reads it asks for and hands each result back.
use vstd::prelude::*;
use crate::chat::StreamEvent;
use crate::decode::{DecodeError, decode, decode_record};
use crate::framer::{RecordFramer, records, pending, records_at_end, contents};

verus! {

/// Why an item of the stream carries no event.
#[derive(Debug, Clone, Copy, PartialEq, Eq, Structural)]
pub enum StreamError {
    /// One record did not decode; the stream goes on.
    Decode(DecodeError),
    /// The connection failed; nothing follows.
    Transport,
}

/// Where a stream stands. It only ever moves forward: open, draining, closed.
#[derive(Debug, Clone, Copy, PartialEq, Eq, Structural)]
pub enum StreamState {
    /// The transport may still deliver bytes.
    Open,
    /// The transport is done; what is queued can still be pulled.
    Draining,
    /// Nothing more comes out.
    Closed,
}

/// The answer to one pull.
#[derive(Debug, PartialEq)]
pub enum Pull {
    /// The next item, in the order its record arrived.
    Item(Result<StreamEvent, StreamError>),
    /// Nothing is queued: read the next chunk from the transport and hand it over.
    NeedChunk,
    /// The stream has ended.
    Ended,
}

/// The item that one record becomes.
pub open spec fn outcome_of(record: Seq<u8>) -> Result<StreamEvent, StreamError> {
    match decode_record(record) {
        Ok(e) => Ok(e),
        Err(d) => Err(StreamError::Decode(d)),
    }
}

/// The items that records become, one each, in order.
pub open spec fn outcomes(recs: Seq<Seq<u8>>) -> Seq<Result<StreamEvent, StreamError>> {
    recs.map_values(|r: Seq<u8>| outcome_of(r))
}

/// Every record becomes exactly one item, in the order the records came, whether it decoded
/// or not: a record that fails does not hide those after it.
pub proof fn lemma_one_item_per_record(recs: Seq<Seq<u8>>)
    ensures
        outcomes(recs).len() == recs.len(),
        forall|i: int| 0 <= i < recs.len() ==> #[trigger] outcomes(recs)[i] == outcome_of(recs[i]),
{
}

/// Items of records that came one after the other come one after the other.
pub proof fn lemma_outcomes_append(a: Seq<Seq<u8>>, b: Seq<Seq<u8>>)
    ensures
        outcomes(a + b) == outcomes(a) + outcomes(b),
{
    assert(outcomes(a + b) =~= outcomes(a) + outcomes(b));
}

/// A chat stream as its consumer sees it: records framed and decoded so far wait in a queue
/// until they are pulled.
pub struct ChatStream {
    framer: RecordFramer,
    queue: Vec<Result<StreamEvent, StreamError>>,
    state: StreamState,
}

impl ChatStream {
    pub closed spec fn spec_state(&self) -> StreamState {
        self.state
    }

    /// Items decoded and not pulled yet, oldest first.
    pub closed spec fn queued(&self) -> Seq<Result<StreamEvent, StreamError>> {
        self.queue@
    }

    /// Bytes of a record whose separator has not arrived yet.
    pub closed spec fn held(&self) -> Seq<u8> {
        self.framer.held()
    }

    pub open spec fn well_formed(&self) -> bool {
        crate::framer::has_no_separator(self.held())
    }

    pub fn new() -> (r: ChatStream)
        ensures
            r.well_formed(),
            r.state() == StreamState::Open,
            r.queued() == Seq::<Result<StreamEvent, StreamError>>::empty(),
            r.held() == Seq::<u8>::empty(),
    {
        ChatStream { framer: RecordFramer::new(), queue: Vec::new(), state: StreamState::Open }
    }

    #[verifier::when_used_as_spec(spec_state)]
    pub fn state(&self) -> (r: StreamState)
        ensures
            r == self.spec_state(),
    {
        self.state
    }

    /// Whether the transport should be read now: only while it is open and everything read
    /// so far has been pulled, so that a slow consumer holds reads back.
    pub fn wants_chunk(&self) -> (r: bool)
        ensures
            r == (self.state() == StreamState::Open && self.queued().len() == 0),
    {
        matches!(self.state, StreamState::Open) && self.queue.len() == 0
    }

    fn push_outcomes(&mut self, recs: &Vec<Vec<u8>>)
        ensures
            final(self).queue@ == old(self).queue@ + outcomes(contents(recs@)),
            final(self).framer == old(self).framer,
            final(self).state == old(self).state,
    {
        let mut j: usize = 0;
        while j < recs.len()
            invariant
                0 <= j <= recs@.len(),
                self.queue@ == old(self).queue@ + outcomes(contents(recs@).subrange(0, j as int)),
                self.framer == old(self).framer,
                self.state == old(self).state,
            decreases recs@.len() - j,
        {
            let o = match decode(recs[j].as_slice()) {
                Ok(e) => Ok(e),
                Err(d) => Err(StreamError::Decode(d)),
            };
            let ghost prev = self.queue@;
            self.queue.push(o);
            assert(contents(recs@).subrange(0, j + 1) == contents(recs@).subrange(0, j as int).push(
                recs@[j as int]@,
            ));
            assert(outcomes(contents(recs@).subrange(0, j + 1)) =~= outcomes(
                contents(recs@).subrange(0, j as int),
            ).push(o));
            assert(self.queue@ =~= prev.push(o));
            j = j + 1;
        }
        assert(contents(recs@).subrange(0, recs@.len() as int) =~= contents(recs@));
    }

    /// Takes a chunk that the transport delivered. Each record that it completes is decoded and
    /// queued in order; one that fails to decode is queued as its error and the rest go on.
    /// An empty chunk carries nothing. Once the transport is done, chunks are ignored.
    pub fn receive(&mut self, chunk: &[u8])
        requires
            old(self).well_formed(),
        ensures
            final(self).well_formed(),
            final(self).state() == old(self).state(),
            old(self).state() == StreamState::Open ==> final(self).queued() == old(self).queued()
                + outcomes(records(old(self).held() + chunk@)),
            old(self).state() == StreamState::Open ==> final(self).held() == pending(
                old(self).held() + chunk@,
            ),
            old(self).state() != StreamState::Open ==> final(self).queued() == old(self).queued()
                && final(self).held() == old(self).held(),
    {
        if !matches!(self.state, StreamState::Open) {
            return;
        }
        if chunk.len() == 0 {
            proof {
                assert(old(self).held() + chunk@ == old(self).held());
                crate::framer::lemma_pending_has_no_separator(old(self).held());
                crate::framer::lemma_no_separator(old(self).held());
                assert(outcomes(Seq::<Seq<u8>>::empty()) =~= Seq::<Result<StreamEvent, StreamError>>::empty());
                assert(self.queue@ + Seq::<Result<StreamEvent, StreamError>>::empty() == self.queue@);
            }
            return;
        }
        let recs = self.framer.feed(chunk);
        self.push_outcomes(&recs);
    }

    /// The transport has ended normally. A last record that lacks its separator is decoded and
    /// queued; then the stream drains.
    pub fn end_of_input(&mut self)
        requires
            old(self).well_formed(),
        ensures
            final(self).well_formed(),
            old(self).state() == StreamState::Open ==> final(self).state() == StreamState::Draining
                && final(self).queued() == old(self).queued() + outcomes(records_at_end(old(self).held()))
                && final(self).held() == Seq::<u8>::empty(),
            old(self).state() != StreamState::Open ==> final(self).state() == old(self).state()
                && final(self).queued() == old(self).queued()
                && final(self).held() == old(self).held(),
    {
        if !matches!(self.state, StreamState::Open) {
            return;
        }
        let empty: Vec<u8> = Vec::new();
        let recs = self.framer.feed(empty.as_slice());
        self.push_outcomes(&recs);
        self.state = StreamState::Draining;
    }

    /// The transport failed. One transport error is queued after everything decoded so far, a
    /// partial record is dropped, and the stream drains.
    pub fn transport_failed(&mut self)
        requires
            old(self).well_formed(),
        ensures
            final(self).well_formed(),
            old(self).state() == StreamState::Open ==> final(self).state() == StreamState::Draining
                && final(self).queued() == old(self).queued().push(Err(StreamError::Transport))
                && final(self).held() == Seq::<u8>::empty(),
            old(self).state() != StreamState::Open ==> final(self).state() == old(self).state()
                && final(self).queued() == old(self).queued()
                && final(self).held() == old(self).held(),
    {
        if !matches!(self.state, StreamState::Open) {
            return;
        }
        self.queue.push(Err(StreamError::Transport));
        self.framer = RecordFramer::new();
        self.state = StreamState::Draining;
    }

    /// The consumer gives the stream up: nothing queued is kept and no read is asked for again.
    pub fn close(&mut self)
        ensures
            final(self).well_formed(),
            final(self).state() == StreamState::Closed,
            final(self).queued() == Seq::<Result<StreamEvent, StreamError>>::empty(),
            final(self).held() == Seq::<u8>::empty(),
    {
        self.queue = Vec::new();
        self.framer = RecordFramer::new();
        self.state = StreamState::Closed;
    }

    /// Pulls the oldest queued item. With nothing queued, an open stream asks for a read and
    /// one whose transport is done closes and says it has ended.
    pub fn next(&mut self) -> (r: Pull)
        requires
            old(self).well_formed(),
        ensures
            final(self).well_formed(),
            final(self).held() == old(self).held(),
            old(self).queued().len() > 0 ==> r == Pull::Item(old(self).queued()[0])
                && final(self).queued() == old(self).queued().drop_first()
                && final(self).state() == old(self).state(),
            old(self).queued().len() == 0 && old(self).state() == StreamState::Open ==> r
                == Pull::NeedChunk && final(self).queued() == old(self).queued()
                && final(self).state() == StreamState::Open,
            old(self).queued().len() == 0 && old(self).state() != StreamState::Open ==> r
                == Pull::Ended && final(self).queued() == old(self).queued()
                && final(self).state() == StreamState::Closed,
    {
        if self.queue.len() > 0 {
            let item = self.queue.remove(0);
            assert(old(self).queued().drop_first() =~= old(self).queued().remove(0));
            return Pull::Item(item);
        }
        if matches!(self.state, StreamState::Open) {
            return Pull::NeedChunk;
        }
        self.state = StreamState::Closed;
        Pull::Ended
    }
}

} // verus!
