//! The streaming response engine as a state machine.
//!
//! The caller reads the events of the reply stream and hands them to the
//! engine one by one; the engine answers each with the actions to perform
//! on the HTTP response: emit the head, or send body bytes. The head comes
//! exactly once and before any body bytes, and the body bytes are the bytes
//! of the reply after its metadata document, in the order of the stream.

use crate::framing::{
    detect_metadata, first_terminator, has_metadata, joined, lemma_first_terminator_exists,
    lemma_first_terminator_is, lemma_terminator_survives_append, split_prelude, MetadataBuffer,
};
use vstd::prelude::*;

verus! {

/// One event of the reply stream.
#[derive(Clone, Debug, PartialEq, Eq)]
pub enum StreamEvent {
    /// A chunk of the reply.
    PayloadChunk(Vec<u8>),
    /// The function has completed.
    InvokeComplete,
    /// Any other event.
    Other,
    /// The stream has ended or failed; no event follows.
    End,
}

/// A stream event as a mathematical value.
pub enum EventView {
    PayloadChunk(Seq<u8>),
    InvokeComplete,
    Other,
    End,
}

impl View for StreamEvent {
    type V = EventView;

    open spec fn view(&self) -> EventView {
        match self {
            StreamEvent::PayloadChunk(c) => EventView::PayloadChunk(c@),
            StreamEvent::InvokeComplete => EventView::InvokeComplete,
            StreamEvent::Other => EventView::Other,
            StreamEvent::End => EventView::End,
        }
    }
}

/// Where the head of the response comes from.
#[derive(Clone, Debug, PartialEq, Eq)]
pub enum HeadSource {
    /// The reply has no metadata document: the default head.
    Defaults,
    /// The bytes of the reply's metadata document.
    Document(Vec<u8>),
}

/// Something to do on the HTTP response.
#[derive(Clone, Debug, PartialEq, Eq)]
pub enum StreamAction {
    /// Emit the head.
    Head(HeadSource),
    /// Send these bytes as the next piece of the body. An empty piece
    /// marks the completion of the function.
    Body(Vec<u8>),
}

/// An action as a mathematical value; a head holds the bytes of the
/// metadata document, or `None` for the default head.
pub enum ActionView {
    Head(Option<Seq<u8>>),
    Body(Seq<u8>),
}

impl View for StreamAction {
    type V = ActionView;

    open spec fn view(&self) -> ActionView {
        match self {
            StreamAction::Head(HeadSource::Defaults) => ActionView::Head(None),
            StreamAction::Head(HeadSource::Document(d)) => ActionView::Head(Some(d@)),
            StreamAction::Body(b) => ActionView::Body(b@),
        }
    }
}

/// The views of a list of actions, in order.
pub open spec fn action_views(actions: Seq<StreamAction>) -> Seq<ActionView> {
    Seq::new(actions.len(), |i: int| actions[i]@)
}

/// The engine for one streamed reply.
#[derive(Debug)]
pub enum StreamEngine {
    /// No chunk has come yet.
    Detecting,
    /// The reply started with `{`; its metadata document is being collected.
    Collecting(MetadataBuffer),
    /// The head is out; chunks are forwarded as body.
    Forwarding,
    /// The stream has ended.
    Finished,
}

/// The state of an engine as a mathematical value.
pub enum EngineView {
    Detecting,
    Collecting(Seq<u8>),
    Forwarding,
    Finished,
}

impl View for StreamEngine {
    type V = EngineView;

    open spec fn view(&self) -> EngineView {
        match self {
            StreamEngine::Detecting => EngineView::Detecting,
            StreamEngine::Collecting(buffer) => EngineView::Collecting(buffer@),
            StreamEngine::Forwarding => EngineView::Forwarding,
            StreamEngine::Finished => EngineView::Finished,
        }
    }
}

/// Body bytes are sent only where there are any.
pub open spec fn body_actions(bytes: Seq<u8>) -> Seq<ActionView> {
    if bytes.len() > 0 {
        seq![ActionView::Body(bytes)]
    } else {
        Seq::empty()
    }
}

/// One more chunk while the metadata document is collected. Once the
/// terminator is complete, the head is emitted from the document and the
/// bytes after the terminator start the body.
pub open spec fn collect_step(held: Seq<u8>, chunk: Seq<u8>) -> (EngineView, Seq<ActionView>) {
    match split_prelude(held + chunk) {
        Some((document, body)) => (
            EngineView::Forwarding,
            seq![ActionView::Head(Some(document))] + body_actions(body),
        ),
        None => (EngineView::Collecting(held + chunk), Seq::empty()),
    }
}

/// The next state and the actions for one event.
pub open spec fn step(state: EngineView, event: EventView) -> (EngineView, Seq<ActionView>) {
    match state {
        EngineView::Detecting => match event {
            EventView::PayloadChunk(c) => if has_metadata(c) {
                collect_step(Seq::empty(), c)
            } else {
                (EngineView::Forwarding, seq![ActionView::Head(None)] + body_actions(c))
            },
            EventView::End => (EngineView::Finished, seq![ActionView::Head(None)]),
            _ => (EngineView::Detecting, Seq::empty()),
        },
        EngineView::Collecting(held) => match event {
            EventView::PayloadChunk(c) => collect_step(held, c),
            EventView::End => (EngineView::Finished, seq![ActionView::Head(None)]),
            _ => (EngineView::Collecting(held), Seq::empty()),
        },
        EngineView::Forwarding => match event {
            EventView::PayloadChunk(c) => (EngineView::Forwarding, seq![ActionView::Body(c)]),
            EventView::InvokeComplete => (
                EngineView::Forwarding,
                seq![ActionView::Body(Seq::empty())],
            ),
            EventView::Other => (EngineView::Forwarding, Seq::empty()),
            EventView::End => (EngineView::Finished, Seq::empty()),
        },
        EngineView::Finished => (EngineView::Finished, Seq::empty()),
    }
}

/// The state after a sequence of events and all actions on the way.
pub open spec fn run(state: EngineView, events: Seq<EventView>) -> (EngineView, Seq<ActionView>)
    decreases events.len(),
{
    if events.len() == 0 {
        (state, Seq::empty())
    } else {
        let (mid, first) = run(state, events.drop_last());
        let (end, more) = step(mid, events.last());
        (end, first + more)
    }
}

impl StreamEngine {
    /// An engine for a stream of which nothing has been read.
    pub fn new() -> (engine: StreamEngine)
        ensures
            engine@ == EngineView::Detecting,
    {
        StreamEngine::Detecting
    }

    /// Tells whether the head has been emitted.
    pub fn head_emitted(&self) -> (emitted: bool)
        ensures
            emitted == (self@ is Forwarding || self@ is Finished),
    {
        match self {
            StreamEngine::Forwarding => true,
            StreamEngine::Finished => true,
            _ => false,
        }
    }

    /// Takes in one more chunk of a reply that started with `{`.
    fn collect(buffer: MetadataBuffer, chunk: Vec<u8>) -> (next: (StreamEngine, Vec<StreamAction>))
        ensures
            (next.0@, action_views(next.1@)) == collect_step(buffer@, chunk@),
    {
        let mut buffer = buffer;
        let ghost held = buffer@;
        let mut actions: Vec<StreamAction> = Vec::new();
        let (document, body) = buffer.collect_metadata(chunk.as_slice());
        match document {
            Some(d) => {
                actions.push(StreamAction::Head(HeadSource::Document(d)));
                if body.len() > 0 {
                    actions.push(StreamAction::Body(body));
                }
                proof {
                    assert(action_views(actions@) =~= collect_step(held, chunk@).1);
                }
                (StreamEngine::Forwarding, actions)
            },
            None => {
                proof {
                    assert(action_views(actions@) =~= Seq::<ActionView>::empty());
                }
                (StreamEngine::Collecting(buffer), actions)
            },
        }
    }

    /// Takes the next event of the stream and says what to do on the
    /// response.
    ///
    /// Before the first chunk nothing is done. A first chunk that is empty
    /// or does not start with `{` means that there is no metadata document:
    /// the default head is emitted and the chunk is body. Otherwise chunks
    /// are collected until the terminator is complete; then the head is
    /// emitted from the document. From then on every chunk is body, as it
    /// comes, and the completion of the function is an empty piece of
    /// body. If the stream ends before a head was emitted, the default head
    /// is emitted and what was collected is dropped.
    pub fn on_event(&mut self, event: StreamEvent) -> (actions: Vec<StreamAction>)
        ensures
            (final(self)@, action_views(actions@)) == step(old(self)@, event@),
    {
        let mut state = StreamEngine::Finished;
        core::mem::swap(self, &mut state);
        let mut actions: Vec<StreamAction> = Vec::new();
        match state {
            StreamEngine::Detecting => match event {
                StreamEvent::PayloadChunk(chunk) => {
                    if detect_metadata(chunk.as_slice()) {
                        let (next, todo) = StreamEngine::collect(MetadataBuffer::new(), chunk);
                        *self = next;
                        actions = todo;
                    } else {
                        actions.push(StreamAction::Head(HeadSource::Defaults));
                        if chunk.len() > 0 {
                            actions.push(StreamAction::Body(chunk));
                        }
                        *self = StreamEngine::Forwarding;
                    }
                },
                StreamEvent::End => {
                    actions.push(StreamAction::Head(HeadSource::Defaults));
                    *self = StreamEngine::Finished;
                },
                _ => {
                    *self = StreamEngine::Detecting;
                },
            },
            StreamEngine::Collecting(buffer) => match event {
                StreamEvent::PayloadChunk(chunk) => {
                    let (next, todo) = StreamEngine::collect(buffer, chunk);
                    *self = next;
                    actions = todo;
                },
                StreamEvent::End => {
                    actions.push(StreamAction::Head(HeadSource::Defaults));
                    *self = StreamEngine::Finished;
                },
                _ => {
                    *self = StreamEngine::Collecting(buffer);
                },
            },
            StreamEngine::Forwarding => match event {
                StreamEvent::PayloadChunk(chunk) => {
                    actions.push(StreamAction::Body(chunk));
                    *self = StreamEngine::Forwarding;
                },
                StreamEvent::InvokeComplete => {
                    actions.push(StreamAction::Body(Vec::new()));
                    *self = StreamEngine::Forwarding;
                },
                StreamEvent::Other => {
                    *self = StreamEngine::Forwarding;
                },
                StreamEvent::End => {
                    *self = StreamEngine::Finished;
                },
            },
            StreamEngine::Finished => {},
        }
        proof {
            assert(action_views(actions@) =~= step(old(self)@, event@).1);
        }
        actions
    }
}

/// The head has been emitted in this state.
pub open spec fn head_is_out(state: EngineView) -> bool {
    state is Forwarding || state is Finished
}

/// The actions are one head followed by pieces of body only.
pub open spec fn head_then_body(actions: Seq<ActionView>) -> bool {
    &&& actions.len() >= 1
    &&& actions[0] is Head
    &&& forall|i: int| 1 <= i < actions.len() ==> actions[i] is Body
}

/// The payloads of the chunks among the events, in order.
pub open spec fn payload_chunks(events: Seq<EventView>) -> Seq<Seq<u8>>
    decreases events.len(),
{
    if events.len() == 0 {
        Seq::empty()
    } else {
        let before = payload_chunks(events.drop_last());
        match events.last() {
            EventView::PayloadChunk(c) => before.push(c),
            _ => before,
        }
    }
}

/// All body bytes that the actions send, in order.
pub open spec fn body_bytes(actions: Seq<ActionView>) -> Seq<u8>
    decreases actions.len(),
{
    if actions.len() == 0 {
        Seq::empty()
    } else {
        body_bytes(actions.drop_last()) + match actions.last() {
            ActionView::Body(b) => b,
            ActionView::Head(_) => Seq::empty(),
        }
    }
}

/// The stream has not ended within these events.
pub open spec fn still_open(events: Seq<EventView>) -> bool {
    forall|i: int| 0 <= i < events.len() ==> !(events[i] is End)
}

/// The body bytes of two lists of actions, one after the other.
proof fn lemma_body_bytes_add(a: Seq<ActionView>, b: Seq<ActionView>)
    ensures
        body_bytes(a + b) == body_bytes(a) + body_bytes(b),
    decreases b.len(),
{
    if b.len() == 0 {
        assert(a + b == a);
    } else {
        lemma_body_bytes_add(a, b.drop_last());
        assert((a + b).drop_last() == a + b.drop_last());
        assert((a + b).last() == b.last());
    }
}

/// The body bytes of at most two actions.
proof fn lemma_body_bytes_small(actions: Seq<ActionView>)
    requires
        actions.len() <= 2,
    ensures
        actions.len() == 0 ==> body_bytes(actions) == Seq::<u8>::empty(),
        actions.len() == 1 ==> body_bytes(actions) == body_bytes(seq![actions[0]]),
        actions.len() == 1 && actions[0] is Head ==> body_bytes(actions) == Seq::<u8>::empty(),
        actions.len() == 1 && actions[0] is Body ==> body_bytes(actions) == actions[0]->Body_0,
        actions.len() == 2 && actions[0] is Head && actions[1] is Body ==> body_bytes(actions)
            == actions[1]->Body_0,
{
    reveal_with_fuel(body_bytes, 3);
    if actions.len() == 1 {
        assert(actions == seq![actions[0]]);
        assert(actions.drop_last().len() == 0);
    }
    if actions.len() == 2 {
        assert(actions.drop_last().drop_last().len() == 0);
        assert(actions.drop_last().last() == actions[0]);
    }
}

/// The response head is emitted exactly once and before the first body
/// byte: whatever events have come, either nothing has been done yet, or
/// the actions so far are one head followed by body pieces only.
pub proof fn lemma_head_comes_first(events: Seq<EventView>)
    ensures
        ({
            let (state, actions) = run(EngineView::Detecting, events);
            if head_is_out(state) {
                head_then_body(actions)
            } else {
                actions.len() == 0
            }
        }),
    decreases events.len(),
{
    if events.len() > 0 {
        lemma_head_comes_first(events.drop_last());
        let (mid, first) = run(EngineView::Detecting, events.drop_last());
        let (end, more) = step(mid, events.last());
        let all = first + more;
        if head_is_out(mid) {
            assert(all[0] == first[0]);
            assert forall|i: int| 1 <= i < all.len() implies all[i] is Body by {
                if i < first.len() {
                    assert(all[i] == first[i]);
                } else {
                    assert(all[i] == more[i - first.len()]);
                }
            }
        } else {
            assert(all =~= more);
        }
    }
}

/// Once the stream has ended the engine is finished, so by then the head
/// has been emitted, also for a stream without any chunk.
pub proof fn lemma_end_finishes(events: Seq<EventView>)
    requires
        !still_open(events),
    ensures
        run(EngineView::Detecting, events).0 is Finished,
        head_then_body(run(EngineView::Detecting, events).1),
    decreases events.len(),
{
    let front = events.drop_last();
    if events.last() is End {
    } else {
        assert(!still_open(front)) by {
            let i = choose|i: int| 0 <= i < events.len() && events[i] is End;
            assert(front[i] is End);
        }
        lemma_end_finishes(front);
    }
    lemma_head_comes_first(events);
}

/// The body is the reply after its metadata document, byte for byte and in
/// the order of the stream, whatever the chunk boundaries are.
///
/// For a stream that is still open: without any chunk nothing has been done.
/// Where the first chunk announces no metadata document, the default head
/// was emitted and the body sent so far is all chunks joined. Where it does,
/// the joined chunks decide: while they hold no complete terminator, they
/// are all held back and nothing has been done; once they do, the head was
/// emitted from the bytes before the first terminator, and the body sent so
/// far is exactly the bytes after it.
pub proof fn lemma_body_is_the_reply(events: Seq<EventView>)
    requires
        still_open(events),
    ensures
        ({
            let chunks = payload_chunks(events);
            let (state, actions) = run(EngineView::Detecting, events);
            if chunks.len() == 0 {
                state == EngineView::Detecting && actions.len() == 0
            } else if !has_metadata(chunks[0]) {
                &&& state == EngineView::Forwarding
                &&& actions.len() >= 1
                &&& actions[0] == ActionView::Head(None)
                &&& body_bytes(actions) == joined(chunks)
            } else {
                match split_prelude(joined(chunks)) {
                    Some((document, body)) => {
                        &&& state == EngineView::Forwarding
                        &&& actions.len() >= 1
                        &&& actions[0] == ActionView::Head(Some(document))
                        &&& body_bytes(actions) == body
                    },
                    None => state == EngineView::Collecting(joined(chunks)) && actions.len() == 0,
                }
            }
        }),
    decreases events.len(),
{
    if events.len() > 0 {
        let front = events.drop_last();
        assert(still_open(front)) by {
            assert forall|i: int| 0 <= i < front.len() implies !(front[i] is End) by {
                assert(front[i] == events[i]);
            }
        }
        assert(!(events.last() is End)) by {
            assert(events[events.len() - 1] == events.last());
        }
        lemma_body_is_the_reply(front);
        let before = payload_chunks(front);
        let chunks = payload_chunks(events);
        let (mid, first) = run(EngineView::Detecting, front);
        let (end, more) = step(mid, events.last());
        let all = first + more;
        lemma_body_bytes_add(first, more);
        assert(more.len() <= 2);
        lemma_body_bytes_small(more);
        if first.len() > 0 {
            assert(all[0] == first[0]);
        }
        match events.last() {
            EventView::PayloadChunk(c) => {
                assert(chunks == before.push(c));
                assert(chunks.drop_last() == before);
                assert(joined(chunks) == joined(before) + c);
                if before.len() == 0 {
                    assert(joined(before) == Seq::<u8>::empty());
                    assert(joined(chunks) == c);
                    assert(Seq::<u8>::empty() + c == c);
                    assert(chunks[0] == c);
                    assert(all == more);
                    if has_metadata(c) {
                        match split_prelude(c) {
                            Some((document, body)) => {
                                assert(more[0] == ActionView::Head(Some(document)));
                                if body.len() == 0 {
                                    assert(body == Seq::<u8>::empty());
                                }
                            },
                            None => {},
                        }
                    } else {
                        assert(more[0] == ActionView::Head(None));
                        if c.len() == 0 {
                            assert(c == Seq::<u8>::empty());
                        }
                    }
                } else {
                    assert(chunks[0] == before[0]);
                    if !has_metadata(before[0]) {
                        assert(body_bytes(all) == joined(before) + c);
                    } else {
                        let whole = joined(before);
                        match split_prelude(whole) {
                            Some((document, body)) => {
                                let k = first_terminator(whole);
                                lemma_first_terminator_exists(whole);
                                lemma_terminator_survives_append(whole, c, k);
                                lemma_first_terminator_is(whole + c, k);
                                assert((whole + c).subrange(0, k) == whole.subrange(0, k));
                                assert((whole + c).subrange(k + 8, (whole + c).len() as int)
                                    == whole.subrange(k + 8, whole.len() as int) + c);
                            },
                            None => {
                                assert(all == more);
                                match split_prelude(whole + c) {
                                    Some((document, body)) => {
                                        assert(more[0] == ActionView::Head(Some(document)));
                                        if body.len() == 0 {
                                            assert(body == Seq::<u8>::empty());
                                        }
                                    },
                                    None => {},
                                }
                            },
                        }
                    }
                }
            },
            _ => {
                assert(chunks == before);
                if mid is Forwarding {
                    assert(body_bytes(more) == Seq::<u8>::empty());
                    assert(body_bytes(all) == body_bytes(first));
                } else {
                    assert(all == first);
                }
            },
        }
    }
}

} // verus!
