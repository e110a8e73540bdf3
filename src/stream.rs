//! The per-request stream: it frames the body, passes decoded records on to
//! the caller, and decides when the stream is over. Reading and decoding
//! happen outside; this type makes every decision between them.
use vstd::prelude::*;
use crate::error::OllamaError;
use crate::framer::{LineFramer, feed_output, views};
use crate::wire::ChatResponseDelta;

verus! {

/// Where a stream stands.
#[derive(PartialEq, Eq, Structural, Clone, Copy, Debug)]
pub enum StreamState {
    /// Records are still expected.
    Streaming,
    /// The server sent its last record, or the body ended.
    Finished,
    /// The caller gave up on the stream.
    Cancelled,
    /// The transport failed; the error went to the caller.
    Failed,
}

/// One decoded record arriving in state `s`: the next state, and the record
/// to hand to the caller, if any. A record that failed to decode (`None`) is
/// dropped; a record marked `done` is the last one delivered.
pub open spec fn accept_step(s: StreamState, d: Option<ChatResponseDelta>) -> (
    StreamState,
    Option<ChatResponseDelta>,
) {
    if s != StreamState::Streaming {
        (s, None)
    } else {
        match d {
            None => (s, None),
            Some(d) => (
                if d.done {
                    StreamState::Finished
                } else {
                    StreamState::Streaming
                },
                Some(d),
            ),
        }
    }
}

/// The state reached and the records delivered when the decode results `ds`
/// arrive one after another in state `s`.
pub open spec fn run(s: StreamState, ds: Seq<Option<ChatResponseDelta>>) -> (
    StreamState,
    Seq<ChatResponseDelta>,
)
    decreases ds.len(),
{
    if ds.len() == 0 {
        (s, Seq::empty())
    } else {
        let (s1, out) = run(s, ds.drop_last());
        let (s2, r) = accept_step(s1, ds.last());
        match r {
            Some(d) => (s2, out.push(d)),
            None => (s2, out),
        }
    }
}

/// A record that fails to decode changes nothing: the records around it are
/// delivered exactly as if it had not been there.
pub proof fn lemma_malformed_record_is_skipped(
    s: StreamState,
    before: Seq<Option<ChatResponseDelta>>,
    after: Seq<Option<ChatResponseDelta>>,
)
    ensures
        run(s, before + seq![None] + after) == run(s, before + after),
    decreases after.len(),
{
    if after.len() == 0 {
        assert(before + seq![None] + after =~= before.push(None));
        assert(before.push(None).drop_last() =~= before);
        assert(before + after =~= before);
    } else {
        let a0 = after.drop_last();
        lemma_malformed_record_is_skipped(s, before, a0);
        assert((before + seq![None] + after).drop_last() =~= before + seq![None] + a0);
        assert((before + after).drop_last() =~= before + a0);
        assert((before + seq![None] + after).last() == after.last());
        assert((before + after).last() == after.last());
    }
}

/// Once a stream is no longer `Streaming`, nothing more is delivered and its
/// state stays as it is.
pub proof fn lemma_stopped_stream_is_silent(s: StreamState, ds: Seq<Option<ChatResponseDelta>>)
    requires
        s != StreamState::Streaming,
    ensures
        run(s, ds) == (s, Seq::<ChatResponseDelta>::empty()),
    decreases ds.len(),
{
    if ds.len() > 0 {
        lemma_stopped_stream_is_silent(s, ds.drop_last());
    }
}

/// A record marked `done` is the last one delivered: the stream is finished
/// right after it, whatever follows.
pub proof fn lemma_done_record_ends_stream(
    s: StreamState,
    before: Seq<Option<ChatResponseDelta>>,
    last: ChatResponseDelta,
    after: Seq<Option<ChatResponseDelta>>,
)
    requires
        run(s, before).0 == StreamState::Streaming,
        last.done,
    ensures
        run(s, before + seq![Some(last)] + after) == (
            StreamState::Finished,
            run(s, before).1.push(last),
        ),
    decreases after.len(),
{
    let head = before.push(Some(last));
    assert(head.drop_last() =~= before);
    assert(run(s, head) == (StreamState::Finished, run(s, before).1.push(last)));
    lemma_stopped_stream_is_silent_after(s, head, after);
    assert(before + seq![Some(last)] + after =~= head + after);
}

proof fn lemma_stopped_stream_is_silent_after(
    s: StreamState,
    head: Seq<Option<ChatResponseDelta>>,
    after: Seq<Option<ChatResponseDelta>>,
)
    requires
        run(s, head).0 != StreamState::Streaming,
    ensures
        run(s, head + after) == run(s, head),
    decreases after.len(),
{
    if after.len() == 0 {
        assert(head + after =~= head);
    } else {
        let a0 = after.drop_last();
        lemma_stopped_stream_is_silent_after(s, head, a0);
        assert((head + after).drop_last() =~= head + a0);
    }
}

/// The decision side of one streaming chat request.
pub struct DeltaStream {
    framer: LineFramer,
    state: StreamState,
}

impl DeltaStream {
    /// The framer's buffer is consistent with what it was fed.
    pub closed spec fn wf(&self) -> bool {
        self.framer.wf()
    }

    /// The stream's state.
    pub closed spec fn spec_state(&self) -> StreamState {
        self.state
    }

    /// Every body byte that reached the framer.
    pub closed spec fn body(&self) -> Seq<u8> {
        self.framer@
    }

    /// A stream that has received nothing.
    pub fn new() -> (r: Self)
        ensures
            r.wf(),
            r.spec_state() == StreamState::Streaming,
            r.body() == Seq::<u8>::empty(),
    {
        DeltaStream { framer: LineFramer::new(), state: StreamState::Streaming }
    }

    /// The stream's state.
    pub fn state(&self) -> (r: StreamState)
        ensures
            r == self.spec_state(),
    {
        self.state
    }

    /// Whether the reader should go on: only while the stream is `Streaming`.
    pub fn wants_more(&self) -> (r: bool)
        ensures
            r == (self.spec_state() == StreamState::Streaming),
    {
        self.state == StreamState::Streaming
    }

    /// Takes the next piece of the body and returns the lines to decode. Once
    /// the stream is over, bytes are ignored and no line comes out.
    pub fn feed(&mut self, bytes: &[u8]) -> (lines: Vec<Vec<u8>>)
        requires
            old(self).wf(),
        ensures
            final(self).wf(),
            final(self).spec_state() == old(self).spec_state(),
            old(self).spec_state() == StreamState::Streaming ==> {
                &&& final(self).body() == old(self).body() + bytes@
                &&& views(lines@) == feed_output(old(self).body(), bytes@)
            },
            old(self).spec_state() != StreamState::Streaming ==> {
                &&& final(self).body() == old(self).body()
                &&& lines@.len() == 0
            },
    {
        if self.state == StreamState::Streaming {
            self.framer.feed(bytes)
        } else {
            Vec::new()
        }
    }

    /// Takes the decode result of one line (`None`: it was not a valid record)
    /// and returns the record to deliver, if any.
    pub fn accept(&mut self, decoded: Option<ChatResponseDelta>) -> (r: Option<ChatResponseDelta>)
        requires
            old(self).wf(),
        ensures
            final(self).wf(),
            final(self).body() == old(self).body(),
            (final(self).spec_state(), r) == accept_step(old(self).spec_state(), decoded),
    {
        if self.state != StreamState::Streaming {
            return None;
        }
        match decoded {
            None => None,
            Some(d) => {
                if d.done {
                    self.state = StreamState::Finished;
                }
                Some(d)
            },
        }
    }

    /// The body ended (a read returned no bytes): a stream still running is
    /// finished.
    pub fn end_of_body(&mut self)
        requires
            old(self).wf(),
        ensures
            final(self).wf(),
            final(self).body() == old(self).body(),
            final(self).spec_state() == if old(self).spec_state() == StreamState::Streaming {
                StreamState::Finished
            } else {
                old(self).spec_state()
            },
    {
        if self.state == StreamState::Streaming {
            self.state = StreamState::Finished;
        }
    }

    /// The transport failed. A running stream fails and hands the error on to
    /// the caller, as its last item; a stream already over drops it.
    pub fn fail(&mut self, error: OllamaError) -> (r: Option<OllamaError>)
        requires
            old(self).wf(),
        ensures
            final(self).wf(),
            final(self).body() == old(self).body(),
            old(self).spec_state() == StreamState::Streaming ==> final(self).spec_state()
                == StreamState::Failed && r == Some(error),
            old(self).spec_state() != StreamState::Streaming ==> final(self).spec_state()
                == old(self).spec_state() && r is None,
    {
        if self.state == StreamState::Streaming {
            self.state = StreamState::Failed;
            Some(error)
        } else {
            None
        }
    }

    /// The caller cancels. A running stream stops at once and the result says
    /// that its transport is to be torn down; cancelling a stream that is
    /// already over changes nothing and asks for no teardown.
    pub fn cancel(&mut self) -> (teardown: bool)
        requires
            old(self).wf(),
        ensures
            final(self).wf(),
            final(self).body() == old(self).body(),
            teardown == (old(self).spec_state() == StreamState::Streaming),
            final(self).spec_state() == if teardown {
                StreamState::Cancelled
            } else {
                old(self).spec_state()
            },
    {
        if self.state == StreamState::Streaming {
            self.state = StreamState::Cancelled;
            true
        } else {
            false
        }
    }
}

} // verus!
