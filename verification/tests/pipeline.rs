use sidecar::identity::{LlmProperties, PlanId, RequestContext, RequestId};
use sidecar::pipeline::{FramingState, ProgressSender, Received, StreamFrame, StreamFramer};
use sidecar::progress::ProgressEvent;
use tokio::sync::mpsc::error::TryRecvError;
use tokio::sync::mpsc::unbounded_channel;

fn event(n: usize) -> ProgressEvent {
    ProgressEvent::step_finished(PlanId::from_u128(1), n)
}

#[test]
fn events_arrive_in_the_order_sent() {
    let (sender, mut receiver) = unbounded_channel();
    let mut producer = ProgressSender::new(sender);
    assert!(producer.emit(event(0)));
    assert_eq!(producer.emit_all(&vec![event(1), event(2)]), 2);
    for n in 0..3 {
        let got = receiver.try_recv().expect("an event is waiting");
        assert_eq!(got.answer_up_until_now(), format!("Finished executing until: {}", n));
    }
    assert!(matches!(receiver.try_recv(), Err(TryRecvError::Empty)));
    drop(producer);
    assert!(matches!(receiver.try_recv(), Err(TryRecvError::Disconnected)));
}

#[test]
fn sending_to_a_vanished_receiver_is_no_error() {
    let (sender, receiver) = unbounded_channel();
    let mut producer = ProgressSender::new(sender);
    drop(receiver);
    assert!(!producer.emit(event(0)));
    assert_eq!(producer.emit_all(&vec![event(1), event(2)]), 0);
}

fn kinds(frames: &[StreamFrame]) -> Vec<String> {
    frames
        .iter()
        .map(|frame| match frame {
            StreamFrame::Started { session_id } => format!("start {}", session_id.as_u128()),
            StreamFrame::Content(event) => event.answer_up_until_now().to_owned(),
            StreamFrame::Done { done, session_id } => format!("{} {}", done, session_id.as_u128()),
        })
        .collect()
}

#[test]
fn stream_opens_carries_and_closes() {
    let mut framer = StreamFramer::new(PlanId::from_u128(4));
    assert_eq!(framer.state(), FramingState::Unopened);
    let mut frames = framer.open();
    assert_eq!(framer.state(), FramingState::Open);
    assert!(framer.open().is_empty());
    frames.extend(framer.on_received(Received::Event(event(0))));
    frames.extend(framer.on_received(Received::Event(event(1))));
    frames.extend(framer.on_received(Received::End));
    assert_eq!(framer.state(), FramingState::Closed);
    assert_eq!(
        kinds(&frames),
        vec![
            "start 4",
            "Finished executing until: 0",
            "Finished executing until: 1",
            "[CODESTORY_DONE] 4",
        ]
    );
    assert!(framer.on_received(Received::Event(event(2))).is_empty());
    assert!(framer.on_received(Received::End).is_empty());
    assert!(framer.open().is_empty());
    assert_eq!(framer.state(), FramingState::Closed);
}

#[test]
fn stream_that_was_not_opened_ahead_still_opens_first() {
    let mut framer = StreamFramer::new(PlanId::from_u128(4));
    let frames = framer.on_received(Received::Event(event(0)));
    assert_eq!(kinds(&frames), vec!["start 4", "Finished executing until: 0"]);
    let mut empty = StreamFramer::new(PlanId::from_u128(8));
    let frames = empty.on_received(Received::End);
    assert_eq!(kinds(&frames), vec!["start 8", "[CODESTORY_DONE] 8"]);
}

#[test]
fn request_for_a_plan_is_named_after_it() {
    let id = PlanId::from_u128(0xffu128);
    let context = RequestContext::for_plan(id, "http://localhost:42".to_owned());
    assert_eq!(context.root_request_id(), "00000000-0000-0000-0000-0000000000ff");
    assert_eq!(context.request_id().request_id(), "00000000-0000-0000-0000-0000000000ff");
    assert_eq!(context.request_id().root_request_id(), context.root_request_id());
    assert_eq!(context.editor_url(), "http://localhost:42");
    assert!(!context.cancellation_token().is_cancelled());
    assert!(context.llm_properties().is_none());
}

#[test]
fn request_context_keeps_what_it_is_given() {
    let token = tokio_util::sync::CancellationToken::new();
    let context = RequestContext::new(
        RequestId::new("root".to_owned(), "attempt".to_owned()),
        "url".to_owned(),
        token.clone(),
        Some(LlmProperties::anthropic(None, "key".to_owned())),
    );
    let llm = context.llm_properties().expect("a model was chosen");
    assert_eq!(llm.model(), "ClaudeSonnet");
    assert_eq!(llm.provider(), "Anthropic");
    assert_eq!(llm.api_key(), "key");
    let named = LlmProperties::anthropic(Some("opus".to_owned()), "k".to_owned());
    assert_eq!(named.model(), "opus");
    let other = LlmProperties::new("m".to_owned(), "p".to_owned(), "k".to_owned());
    assert_eq!((other.model(), other.provider(), other.api_key()), ("m", "p", "k"));
    assert_eq!(context.root_request_id(), "root");
    assert_eq!(context.request_id().request_id(), "attempt");
    token.cancel();
    assert!(context.cancellation_token().is_cancelled());
    let copy = context.request_id().clone();
    assert_eq!(copy.root_request_id(), "root");
}

#[test]
fn random_plan_ids_differ() {
    let a = PlanId::random();
    let b = PlanId::random();
    assert_ne!(a, b);
    let text = a.to_text();
    assert_eq!(text.len(), 36);
    assert_eq!(text.as_bytes()[14], b'4');
    assert!(b"89ab".contains(&text.as_bytes()[19]));
    assert_eq!((a.as_u128() >> 76) & 0xf, 4);
}
