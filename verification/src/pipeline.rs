//! The progress pipeline: the producer's end of the channel that carries
//! progress events to the caller, and the framing of the caller's stream.

use crate::identity::PlanId;
use crate::progress::{ProgressEvent, ProgressEventView};
use vstd::prelude::*;
use vstd::string::StringExecFns;

verus! {

#[verifier::external_type_specification]
#[verifier::external_body]
#[verifier::reject_recursive_types(T)]
pub struct ExUnboundedSender<T>(tokio::sync::mpsc::UnboundedSender<T>);

/// Calls `tokio::sync::mpsc::UnboundedSender::send`, which never waits.
/// Trusted: nothing is claimed of the result, which says whether the
/// receiving half was still open when the event was sent.
#[verifier::external_body]
fn hand_over(sender: &tokio::sync::mpsc::UnboundedSender<ProgressEvent>, event: ProgressEvent) -> (accepted:
    bool) {
    sender.send(event).is_ok()
}

/// The producer's end of the progress channel. It keeps account of the
/// events it was given to send, whether or not anyone was left to receive
/// them.
pub struct ProgressSender {
    sender: tokio::sync::mpsc::UnboundedSender<ProgressEvent>,
    handed: Ghost<Seq<ProgressEventView>>,
}

impl ProgressSender {
    /// The events given to this sender so far, oldest first.
    pub closed spec fn handed(&self) -> Seq<ProgressEventView> {
        self.handed@
    }

    pub fn new(sender: tokio::sync::mpsc::UnboundedSender<ProgressEvent>) -> (producer: Self)
        ensures
            producer.handed() == Seq::<ProgressEventView>::empty(),
    {
        ProgressSender { sender, handed: Ghost(Seq::empty()) }
    }

    /// Hands `event` to the channel, behind the events handed over before.
    /// Returns whether the channel took it; where the receiver is gone the
    /// event is dropped, and that is no error.
    pub fn emit(&mut self, event: ProgressEvent) -> (accepted: bool)
        ensures
            final(self).handed() == old(self).handed().push(event@),
    {
        proof {
            self.handed@ = self.handed@.push(event@);
        }
        hand_over(&self.sender, event)
    }

    /// Hands each of `events` to the channel, in order. Returns how many
    /// of them the channel took.
    pub fn emit_all(&mut self, events: &Vec<ProgressEvent>) -> (accepted: usize)
        ensures
            final(self).handed() == old(self).handed() + events.deep_view(),
            accepted <= events.len(),
    {
        let ghost before = self.handed();
        let mut accepted: usize = 0;
        let mut i: usize = 0;
        while i < events.len()
            invariant
                accepted <= i <= events.len(),
                self.handed() == before + events.deep_view().take(i as int),
            decreases events.len() - i,
        {
            if self.emit(events[i].clone()) {
                accepted += 1;
            }
            i += 1;
        }
        accepted
    }
}

/// The marker that closes a stream.
pub open spec fn done_marker() -> Seq<char> {
    "[CODESTORY_DONE]"@
}

/// One frame of the stream that a caller reads.
#[derive(Debug)]
pub enum StreamFrame {
    /// Opens the stream and names the session.
    Started { session_id: PlanId },
    /// Carries one progress event.
    Content(ProgressEvent),
    /// Closes the stream.
    Done { done: String, session_id: PlanId },
}

/// The mathematical content of a [`StreamFrame`].
pub enum StreamFrameView {
    Started { session_id: PlanId },
    Content(ProgressEventView),
    Done { done: Seq<char>, session_id: PlanId },
}

impl View for StreamFrame {
    type V = StreamFrameView;

    open spec fn view(&self) -> StreamFrameView {
        match self {
            StreamFrame::Started { session_id } => StreamFrameView::Started {
                session_id: *session_id,
            },
            StreamFrame::Content(event) => StreamFrameView::Content(event@),
            StreamFrame::Done { done, session_id } => StreamFrameView::Done {
                done: done@,
                session_id: *session_id,
            },
        }
    }
}

impl DeepView for StreamFrame {
    type V = StreamFrameView;

    open spec fn deep_view(&self) -> StreamFrameView {
        self@
    }
}

/// How far a stream has come.
#[derive(Debug, Clone, Copy, PartialEq, Eq, Structural)]
pub enum FramingState {
    /// Nothing has been written.
    Unopened,
    /// The opening frame has been written, the closing frame has not.
    Open,
    /// The closing frame has been written.
    Closed,
}

/// What the far end of the channel yields.
#[derive(Debug)]
pub enum Received {
    /// The next event.
    Event(ProgressEvent),
    /// The channel is closed and empty: the producer is done.
    End,
}

/// The mathematical content of a [`Received`].
pub enum ReceivedView {
    Event(ProgressEventView),
    End,
}

impl View for Received {
    type V = ReceivedView;

    open spec fn view(&self) -> ReceivedView {
        match self {
            Received::Event(event) => ReceivedView::Event(event@),
            Received::End => ReceivedView::End,
        }
    }
}

/// The frames with which a stream opens, if it has not been opened.
pub open spec fn opening(session_id: PlanId, state: FramingState) -> Seq<StreamFrameView> {
    if state == FramingState::Unopened {
        seq![StreamFrameView::Started { session_id }]
    } else {
        Seq::empty()
    }
}

/// What a stream in `state` writes when the channel yields `received`, and
/// the state it is in afterwards. A stream that is closed writes nothing
/// more; any other stream writes its opening frame first if that is still
/// owed, and then a content frame for an event, or the closing frame at
/// the end.
pub open spec fn framing(session_id: PlanId, state: FramingState, received: ReceivedView) -> (
    FramingState,
    Seq<StreamFrameView>,
) {
    if state == FramingState::Closed {
        (FramingState::Closed, Seq::empty())
    } else {
        match received {
            ReceivedView::Event(event) => (
                FramingState::Open,
                opening(session_id, state) + seq![StreamFrameView::Content(event)],
            ),
            ReceivedView::End => (
                FramingState::Closed,
                opening(session_id, state) + seq![
                    StreamFrameView::Done { done: done_marker(), session_id },
                ],
            ),
        }
    }
}

/// The whole stream for a session in which `events` were produced: the
/// opening frame, one content frame for each event in order, and the
/// closing frame.
pub open spec fn framed(session_id: PlanId, events: Seq<ProgressEventView>) -> Seq<StreamFrameView> {
    seq![StreamFrameView::Started { session_id }] + Seq::new(
        events.len(),
        |i: int| StreamFrameView::Content(events[i]),
    ) + seq![StreamFrameView::Done { done: done_marker(), session_id }]
}

/// The writer of one caller's stream.
#[derive(Debug)]
pub struct StreamFramer {
    session_id: PlanId,
    state: FramingState,
}

impl StreamFramer {
    pub closed spec fn session(&self) -> PlanId {
        self.session_id
    }

    pub closed spec fn framing_state(&self) -> FramingState {
        self.state
    }

    pub fn new(session_id: PlanId) -> (framer: Self)
        ensures
            framer.session() == session_id,
            framer.framing_state() == FramingState::Unopened,
    {
        StreamFramer { session_id, state: FramingState::Unopened }
    }

    pub fn state(&self) -> (state: FramingState)
        ensures
            state == self.framing_state(),
    {
        self.state
    }

    /// Writes the opening frame, unless it has been written.
    pub fn open(&mut self) -> (frames: Vec<StreamFrame>)
        ensures
            final(self).session() == old(self).session(),
            frames.deep_view() == opening(old(self).session(), old(self).framing_state()),
            final(self).framing_state() == if old(self).framing_state()
                == FramingState::Unopened {
                FramingState::Open
            } else {
                old(self).framing_state()
            },
    {
        let mut frames: Vec<StreamFrame> = Vec::new();
        if self.state == FramingState::Unopened {
            frames.push(StreamFrame::Started { session_id: self.session_id });
            self.state = FramingState::Open;
        }
        frames
    }

    /// Writes the frames for what the channel yielded.
    pub fn on_received(&mut self, received: Received) -> (frames: Vec<StreamFrame>)
        ensures
            final(self).session() == old(self).session(),
            (final(self).framing_state(), frames.deep_view()) == framing(
                old(self).session(),
                old(self).framing_state(),
                received@,
            ),
    {
        match self.state {
            FramingState::Closed => {
                let frames: Vec<StreamFrame> = Vec::new();
                frames
            },
            _ => {
                let mut frames = self.open();
                match received {
                    Received::Event(event) => {
                        frames.push(StreamFrame::Content(event));
                    },
                    Received::End => {
                        frames.push(
                            StreamFrame::Done {
                                done: String::from_str("[CODESTORY_DONE]"),
                                session_id: self.session_id,
                            },
                        );
                        self.state = FramingState::Closed;
                    },
                }
                frames
            },
        }
    }
}

/// The frames that an unclosed stream writes for `events`, one after
/// another, and the state it is in afterwards.
pub open spec fn framing_of_events(
    session_id: PlanId,
    state: FramingState,
    events: Seq<ProgressEventView>,
) -> (FramingState, Seq<StreamFrameView>)
    decreases events.len(),
{
    if events.len() == 0 {
        (state, Seq::empty())
    } else {
        let (before, earlier) = framing_of_events(session_id, state, events.drop_last());
        let (after, last) = framing(session_id, before, ReceivedView::Event(events.last()));
        (after, earlier + last)
    }
}

/// A stream always has the same shape: whatever events are produced, and
/// whether or not the opening frame was written ahead of the first event,
/// the caller reads the opening frame, then the events in the order in
/// which they were produced, then the closing frame, and nothing after it.
pub proof fn law_stream_is_framed(
    session_id: PlanId,
    opened_ahead: bool,
    events: Seq<ProgressEventView>,
    later: ReceivedView,
)
    ensures
        ({
            let ahead = opening(session_id, FramingState::Unopened);
            let start = if opened_ahead {
                FramingState::Open
            } else {
                FramingState::Unopened
            };
            let (state, contents) = framing_of_events(session_id, start, events);
            let (closed, closing) = framing(session_id, state, ReceivedView::End);
            let written = if opened_ahead {
                ahead + contents + closing
            } else {
                contents + closing
            };
            &&& written == framed(session_id, events)
            &&& closed == FramingState::Closed
            &&& framing(session_id, closed, later) == (
                FramingState::Closed,
                Seq::<StreamFrameView>::empty(),
            )
        }),
{
    let start = if opened_ahead {
        FramingState::Open
    } else {
        FramingState::Unopened
    };
    lemma_framing_of_events(session_id, start, events);
}

proof fn lemma_framing_of_events(
    session_id: PlanId,
    start: FramingState,
    events: Seq<ProgressEventView>,
)
    requires
        start != FramingState::Closed,
    ensures
        ({
            let (state, contents) = framing_of_events(session_id, start, events);
            &&& state == if events.len() == 0 {
                start
            } else {
                FramingState::Open
            }
            &&& contents == opening(
                session_id,
                if events.len() == 0 {
                    FramingState::Open
                } else {
                    start
                },
            ) + Seq::new(events.len(), |i: int| StreamFrameView::Content(events[i]))
        }),
    decreases events.len(),
{
    if events.len() > 0 {
        lemma_framing_of_events(session_id, start, events.drop_last());
    }
}

} // verus!
