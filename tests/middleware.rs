use observability::carrier::HeaderCarrier;
use observability::middleware::lifecycle::{
    HandlerEvent, Readiness, SpanAction, SpanLifecycle, SpanPhase,
};
use observability::middleware::{actix, tower};
use HandlerEvent::{Cancel, Complete, Fail, Resume, Suspend};

fn ends(events: &[HandlerEvent]) -> usize {
    let mut span = SpanLifecycle::new();
    let mut n = 0;
    for e in events {
        match span.on_event(*e) {
            SpanAction::End | SpanAction::ExitAndEnd => n += 1,
            _ => {}
        }
    }
    n
}

#[test]
fn span_ends_once_on_completion() {
    assert_eq!(ends(&[Resume, Suspend, Resume, Complete, Cancel]), 1);
}

#[test]
fn span_ends_once_on_error() {
    assert_eq!(ends(&[Resume, Fail, Resume, Cancel]), 1);
}

#[test]
fn span_ends_once_on_cancel_while_suspended() {
    assert_eq!(ends(&[Resume, Suspend, Cancel, Cancel]), 1);
    assert_eq!(ends(&[Cancel]), 1);
}

#[test]
fn span_is_entered_only_while_running() {
    let mut span = SpanLifecycle::new();
    assert_eq!(span.current_phase(), SpanPhase::Created);
    assert_eq!(span.on_event(HandlerEvent::Resume), SpanAction::Enter);
    assert_eq!(span.on_event(HandlerEvent::Suspend), SpanAction::Exit);
    assert_eq!(span.current_phase(), SpanPhase::Exited);
    assert_eq!(span.on_event(HandlerEvent::Resume), SpanAction::Enter);
    assert_eq!(span.on_event(HandlerEvent::Complete), SpanAction::ExitAndEnd);
    assert!(span.is_ended());
    assert_eq!(span.on_event(HandlerEvent::Cancel), SpanAction::Nothing);
}

#[test]
fn readiness_is_forwarded() {
    let layer = tower::TraceLayer;
    let service = layer.layer(5u32);
    assert_eq!(*service.get_ref(), 5);
    assert_eq!(service.poll_ready::<&str>(Readiness::Ready), Readiness::Ready);
    assert_eq!(service.poll_ready::<&str>(Readiness::Pending), Readiness::Pending);
    assert_eq!(service.poll_ready(Readiness::Failed("down")), Readiness::Failed("down"));
    let other = actix::TraceLayer.new_transform("inner");
    assert_eq!(other.poll_ready::<u8>(Readiness::Pending), Readiness::Pending);
    assert_eq!(other.into_inner(), "inner");
}

#[test]
fn each_request_gets_its_own_parent() {
    let mut with_header = HeaderCarrier::new();
    with_header.set(
        "traceparent",
        "00-4bf92f3577b34da6a3ce929d0e0e4736-00f067aa0ba902b7-01".to_string(),
    );
    let without = HeaderCarrier::new();
    let service = tower::TraceLayer.layer(());
    let a = service.call(&with_header);
    let b = service.call(&without);
    assert_eq!(a.parent.as_ref().map(|p| p.context.trace_id), Some(0x4bf92f3577b34da6a3ce929d0e0e4736));
    assert!(b.parent.is_none());
    assert_eq!(a.lifecycle.current_phase(), SpanPhase::Created);
}
