//! A streaming session: the decisions of the background task that turns the
//! chunks of a response body into stream events.
//!
//! The session keeps no partial line from one chunk to the next: a payload
//! that a chunk boundary cuts in two is lost, as its two halves are not JSON.
use vstd::prelude::*;

use crate::decoder::{
    brace_tail, chunk_payload_texts, chunk_payloads, cuts_no_payload, law_chunking_invariance,
    law_line_with_brace_isolated, law_line_without_brace_ignored, lemma_line_payloads_single,
    payload_text, split_lines, NEWLINE, OPEN_BRACE,
};
use crate::types::StreamResponse;

verus! {

/// The events among the outcomes of parsing payloads: each successful parse,
/// in order; failed parses are dropped.
pub open spec fn events_of(outcomes: Seq<Option<StreamResponse>>) -> Seq<StreamResponse>
    decreases outcomes.len(),
{
    if outcomes.len() == 0 {
        Seq::empty()
    } else {
        events_of(outcomes.drop_last()) + match outcomes.last() {
            Some(e) => seq![e],
            None => Seq::empty(),
        }
    }
}

/// The events that one chunk yields, where `parse` gives the outcome of
/// parsing each payload text.
pub open spec fn chunk_events(
    chunk: Seq<u8>,
    parse: spec_fn(Seq<char>) -> Option<StreamResponse>,
) -> Seq<StreamResponse> {
    events_of(chunk_payload_texts(chunk).map_values(parse))
}

/// The events of a whole stream, chunk after chunk.
pub open spec fn stream_events(
    chunks: Seq<Seq<u8>>,
    parse: spec_fn(Seq<char>) -> Option<StreamResponse>,
) -> Seq<StreamResponse>
    decreases chunks.len(),
{
    if chunks.len() == 0 {
        Seq::empty()
    } else {
        stream_events(chunks.drop_last(), parse) + chunk_events(chunks.last(), parse)
    }
}

/// The bytes of a stream, all chunks joined.
pub open spec fn joined(chunks: Seq<Seq<u8>>) -> Seq<u8>
    decreases chunks.len(),
{
    if chunks.len() == 0 {
        Seq::empty()
    } else {
        joined(chunks.drop_last()) + chunks.last()
    }
}

/// No chunk boundary of the stream cuts a line that carries a payload: each
/// chunk meets the bytes before it as `cuts_no_payload` asks.
pub open spec fn cuts_no_payload_between(chunks: Seq<Seq<u8>>) -> bool {
    forall|i: int| 1 <= i < chunks.len() ==> cuts_no_payload(joined(chunks.take(i)), #[trigger] chunks[i])
}

/// Returns the events among the outcomes of parsing one chunk's payloads,
/// in order.
pub fn deliverable(outcomes: Vec<Option<StreamResponse>>) -> (r: Vec<StreamResponse>)
    ensures
        r@ == events_of(outcomes@),
{
    let mut out: Vec<StreamResponse> = Vec::new();
    let mut rest = outcomes;
    let ghost all = outcomes@;
    let ghost mut i: int = 0;
    proof {
        assert(all.subrange(0, 0) =~= Seq::<Option<StreamResponse>>::empty());
        assert(rest@ =~= all.subrange(0, all.len() as int));
    }
    while rest.len() > 0
        invariant
            0 <= i <= all.len(),
            rest@ == all.subrange(i, all.len() as int),
            out@ == events_of(all.subrange(0, i)),
        decreases rest@.len(),
    {
        let o = rest.remove(0);
        proof {
            assert(o == all[i]);
            assert(all.subrange(0, i + 1).drop_last() =~= all.subrange(0, i));
            assert(rest@ =~= all.subrange(i + 1, all.len() as int));
        }
        if let Some(e) = o {
            out.push(e);
        }
        proof {
            i = i + 1;
        }
        assert(out@ =~= events_of(all.subrange(0, i)));
    }
    proof {
        assert(all.subrange(0, i) =~= all);
    }
    out
}

pub proof fn lemma_events_of_concat(x: Seq<Option<StreamResponse>>, y: Seq<Option<StreamResponse>>)
    ensures
        events_of(x + y) == events_of(x) + events_of(y),
    decreases y.len(),
{
    if y.len() == 0 {
        assert(x + y =~= x);
        assert(events_of(x) + events_of(y) =~= events_of(x));
    } else {
        assert((x + y).drop_last() =~= x + y.drop_last());
        lemma_events_of_concat(x, y.drop_last());
        assert(events_of(x + y) =~= events_of(x) + events_of(y));
    }
}

pub proof fn lemma_events_of_all_parsed(outcomes: Seq<Option<StreamResponse>>)
    requires
        forall|j: int| 0 <= j < outcomes.len() ==> (#[trigger] outcomes[j]) is Some,
    ensures
        events_of(outcomes).len() == outcomes.len(),
        forall|j: int| 0 <= j < outcomes.len() ==> #[trigger] events_of(outcomes)[j] == outcomes[j]->0,
    decreases outcomes.len(),
{
    if outcomes.len() > 0 {
        lemma_events_of_all_parsed(outcomes.drop_last());
        assert(outcomes.last() == outcomes[outcomes.len() - 1]);
    }
}

/// A line that holds a `{` but whose payload does not parse is skipped: the
/// chunk yields the events of the lines before it followed by those of the
/// lines after it, as if the line were not there.
pub proof fn law_unparsable_line_skipped(
    before: Seq<u8>,
    line: Seq<u8>,
    after: Seq<u8>,
    parse: spec_fn(Seq<char>) -> Option<StreamResponse>,
)
    requires
        before.len() == 0 || before.last() == NEWLINE,
        !line.contains(NEWLINE),
        line.contains(OPEN_BRACE),
        parse(payload_text(brace_tail(line)->0)) is None,
    ensures
        chunk_events(before + line.push(NEWLINE) + after, parse) == chunk_events(before, parse)
            + chunk_events(after, parse),
{
    law_line_with_brace_isolated(before, line, after);
    let t = payload_text(brace_tail(line)->0);
    let tb = chunk_payload_texts(before);
    let ta = chunk_payload_texts(after);
    assert((tb + seq![t] + ta).map_values(parse) =~= tb.map_values(parse) + seq![parse(t)]
        + ta.map_values(parse));
    lemma_events_of_concat(tb.map_values(parse) + seq![parse(t)], ta.map_values(parse));
    lemma_events_of_concat(tb.map_values(parse), seq![parse(t)]);
    assert(seq![parse(t)].drop_last() =~= Seq::<Option<StreamResponse>>::empty());
    assert(seq![parse(t)].last() == parse(t));
    assert(events_of(Seq::<Option<StreamResponse>>::empty()) == Seq::<StreamResponse>::empty());
    assert(events_of(seq![parse(t)]) =~= Seq::<StreamResponse>::empty());
    assert(events_of(tb.map_values(parse)) + Seq::<StreamResponse>::empty() =~= events_of(
        tb.map_values(parse),
    ));
}

/// A line without a `{` never yields an event: the chunk yields the events of
/// the lines before it followed by those of the lines after it.
pub proof fn law_line_without_brace_silent(
    before: Seq<u8>,
    line: Seq<u8>,
    after: Seq<u8>,
    parse: spec_fn(Seq<char>) -> Option<StreamResponse>,
)
    requires
        before.len() == 0 || before.last() == NEWLINE,
        !line.contains(NEWLINE),
        !line.contains(OPEN_BRACE),
    ensures
        chunk_events(before + line.push(NEWLINE) + after, parse) == chunk_events(before, parse)
            + chunk_events(after, parse),
{
    law_line_without_brace_ignored(before, line, after);
    let tb = chunk_payload_texts(before);
    let ta = chunk_payload_texts(after);
    assert((tb + ta).map_values(parse) =~= tb.map_values(parse) + ta.map_values(parse));
    lemma_events_of_concat(tb.map_values(parse), ta.map_values(parse));
}

/// Events arrive whole and in order: where no chunk boundary cuts a line
/// that carries a payload and every payload of the stream parses, the session
/// delivers exactly one event per payload line, in the order of the lines in
/// the stream, however the stream was cut into chunks.
pub proof fn law_every_valid_line_delivered(
    chunks: Seq<Seq<u8>>,
    parse: spec_fn(Seq<char>) -> Option<StreamResponse>,
)
    requires
        cuts_no_payload_between(chunks),
        forall|j: int|
            0 <= j < chunk_payload_texts(joined(chunks)).len() ==> (#[trigger] parse(
                chunk_payload_texts(joined(chunks))[j],
            )) is Some,
    ensures
        stream_events(chunks, parse).len() == chunk_payload_texts(joined(chunks)).len(),
        forall|j: int|
            0 <= j < stream_events(chunks, parse).len() ==> #[trigger] stream_events(chunks, parse)[j]
                == parse(chunk_payload_texts(joined(chunks))[j])->0,
{
    law_stream_chunking_invariance(chunks, parse);
    let outcomes = chunk_payload_texts(joined(chunks)).map_values(parse);
    lemma_events_of_all_parsed(outcomes);
}

/// Chunking does not change the events: where no chunk boundary cuts a line
/// that carries a payload, the session delivers the events of the whole body
/// taken as one chunk, in the same order.
pub proof fn law_stream_chunking_invariance(
    chunks: Seq<Seq<u8>>,
    parse: spec_fn(Seq<char>) -> Option<StreamResponse>,
)
    requires
        cuts_no_payload_between(chunks),
    ensures
        stream_events(chunks, parse) == chunk_events(joined(chunks), parse),
    decreases chunks.len(),
{
    if chunks.len() == 0 {
        lemma_line_payloads_single(Seq::<u8>::empty());
        assert(chunk_payload_texts(Seq::<u8>::empty()) =~= Seq::<Seq<char>>::empty());
        assert(chunk_payload_texts(Seq::<u8>::empty()).map_values(parse) =~= Seq::<
            Option<StreamResponse>,
        >::empty());
    } else {
        let n = chunks.len() - 1;
        let init = chunks.drop_last();
        assert forall|i: int| 1 <= i < init.len() implies cuts_no_payload(
            joined(init.take(i)),
            #[trigger] init[i],
        ) by {
            assert(init.take(i) =~= chunks.take(i));
            assert(init[i] == chunks[i]);
            assert(cuts_no_payload(joined(chunks.take(i)), chunks[i]));
        }
        law_stream_chunking_invariance(init, parse);
        let a = joined(init);
        let b = chunks.last();
        if n == 0 {
            assert(init =~= Seq::<Seq<u8>>::empty());
            assert(split_lines(a).last() == Seq::<u8>::empty());
        } else {
            assert(chunks.take(n) =~= init);
            assert(cuts_no_payload(joined(chunks.take(n)), chunks[n]));
        }
        assert(cuts_no_payload(a, b));
        law_chunking_invariance(a, b);
        let ta = chunk_payload_texts(a);
        let tb = chunk_payload_texts(b);
        assert((ta + tb).map_values(parse) =~= ta.map_values(parse) + tb.map_values(parse));
        lemma_events_of_concat(ta.map_values(parse), tb.map_values(parse));
    }
}

pub proof fn lemma_events_of_len(outcomes: Seq<Option<StreamResponse>>)
    ensures
        events_of(outcomes).len() <= outcomes.len(),
    decreases outcomes.len(),
{
    if outcomes.len() > 0 {
        lemma_events_of_len(outcomes.drop_last());
    }
}

/// Where a streaming session stands: it starts, streams one chunk after
/// another, and is closed for good once the body ends or fails.
#[derive(Debug, Clone, Copy, PartialEq, Eq, Structural)]
pub enum StreamState {
    NotStarted,
    Streaming,
    Closed,
}

/// The state of one streaming session, with counts of what it swallowed.
#[derive(Debug, Clone, Copy, PartialEq, Eq, Structural)]
pub struct StreamDecoder {
    pub state: StreamState,
    /// Events handed on to the consumer.
    pub delivered: u64,
    /// Payload lines dropped because they did not parse.
    pub skipped: u64,
    /// Failures of the body stream that were logged; the first one ends
    /// the session.
    pub chunk_errors: u64,
}

impl StreamDecoder {
    pub fn new() -> (r: StreamDecoder)
        ensures
            r.state == StreamState::NotStarted,
            r.delivered == 0,
            r.skipped == 0,
            r.chunk_errors == 0,
    {
        StreamDecoder { state: StreamState::NotStarted, delivered: 0, skipped: 0, chunk_errors: 0 }
    }

    pub fn is_closed(&self) -> (r: bool)
        ensures
            r == (self.state == StreamState::Closed),
    {
        self.state == StreamState::Closed
    }

    /// Takes one chunk of the body and returns its payload texts, to be
    /// parsed in order.
    pub fn on_chunk(&mut self, chunk: &[u8]) -> (r: Vec<String>)
        requires
            old(self).state != StreamState::Closed,
        ensures
            final(self).state == StreamState::Streaming,
            final(self).delivered == old(self).delivered,
            final(self).skipped == old(self).skipped,
            final(self).chunk_errors == old(self).chunk_errors,
            r@.len() == chunk_payload_texts(chunk@).len(),
            forall|j: int| 0 <= j < r@.len() ==> #[trigger] r@[j]@ == chunk_payload_texts(chunk@)[j],
    {
        self.state = StreamState::Streaming;
        chunk_payloads(chunk)
    }

    /// Records a failure of the body stream, which ends the session: the
    /// failure is counted and the session is closed for good.
    pub fn on_chunk_error(&mut self)
        requires
            old(self).state != StreamState::Closed,
        ensures
            final(self).state == StreamState::Closed,
            final(self).delivered == old(self).delivered,
            final(self).skipped == old(self).skipped,
            final(self).chunk_errors == old(self).chunk_errors.saturating_add(1),
    {
        self.state = StreamState::Closed;
        self.chunk_errors = self.chunk_errors.saturating_add(1);
    }

    /// Takes the outcomes of parsing one chunk's payloads, in order, and
    /// returns the events to hand on; each failed parse is counted and
    /// dropped.
    pub fn on_parsed(&mut self, outcomes: Vec<Option<StreamResponse>>) -> (r: Vec<StreamResponse>)
        requires
            old(self).state == StreamState::Streaming,
        ensures
            r@ == events_of(outcomes@),
            final(self).state == StreamState::Streaming,
            final(self).delivered == old(self).delivered.saturating_add(r@.len() as u64),
            final(self).skipped == old(self).skipped.saturating_add(
                (outcomes@.len() - r@.len()) as u64,
            ),
            final(self).chunk_errors == old(self).chunk_errors,
    {
        let n = outcomes.len();
        let ghost all = outcomes@;
        let events = deliverable(outcomes);
        proof {
            lemma_events_of_len(all);
        }
        let m = events.len();
        self.delivered = self.delivered.saturating_add(m as u64);
        self.skipped = self.skipped.saturating_add((n - m) as u64);
        events
    }

    /// The body has ended: the session is closed for good.
    pub fn close(&mut self)
        ensures
            final(self).state == StreamState::Closed,
            final(self).delivered == old(self).delivered,
            final(self).skipped == old(self).skipped,
            final(self).chunk_errors == old(self).chunk_errors,
    {
        self.state = StreamState::Closed;
    }
}

} // verus!
