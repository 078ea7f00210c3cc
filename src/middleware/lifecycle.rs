//! The life of one request span, as a state machine driven by what the
//! instrumented handler does.

use vstd::prelude::*;

use crate::carrier::HttpHeaderProvider;
use crate::http_injector::{extract_opentelemetry_context_from_request, extracted, PropagatedContext};

verus! {

#[derive(Clone, Copy, Debug, PartialEq, Eq, Structural)]
pub enum SpanPhase {
    /// Made from the extracted context; the handler has not run yet.
    Created,
    /// Current for the handler, which is making progress.
    Entered,
    /// The handler is suspended; the span is not current.
    Exited,
    /// Ended; nothing more happens to it.
    Ended,
}

/// What the handler's computation does next.
#[derive(Clone, Copy, Debug, PartialEq, Eq, Structural)]
pub enum HandlerEvent {
    /// It is polled and runs.
    Resume,
    /// It returns without completing.
    Suspend,
    /// It completes with a response.
    Complete,
    /// It completes with an error.
    Fail,
    /// It is dropped, completed or not.
    Cancel,
}

/// What the middleware does to the span in answer.
#[derive(Clone, Copy, Debug, PartialEq, Eq, Structural)]
pub enum SpanAction {
    Enter,
    Exit,
    ExitAndEnd,
    End,
    Nothing,
}

/// The transition of the span for one event.
pub open spec fn next(p: SpanPhase, e: HandlerEvent) -> (SpanPhase, SpanAction) {
    match (p, e) {
        (SpanPhase::Ended, _) => (SpanPhase::Ended, SpanAction::Nothing),
        (SpanPhase::Entered, HandlerEvent::Resume) => (SpanPhase::Entered, SpanAction::Nothing),
        (_, HandlerEvent::Resume) => (SpanPhase::Entered, SpanAction::Enter),
        (SpanPhase::Entered, HandlerEvent::Suspend) => (SpanPhase::Exited, SpanAction::Exit),
        (SpanPhase::Entered, _) => (SpanPhase::Ended, SpanAction::ExitAndEnd),
        (_, HandlerEvent::Cancel) => (SpanPhase::Ended, SpanAction::End),
        (_, _) => (p, SpanAction::Nothing),
    }
}

pub open spec fn ends_span(a: SpanAction) -> bool {
    a == SpanAction::End || a == SpanAction::ExitAndEnd
}

/// Phase after `evs`, and how many times the span was ended on the way.
pub open spec fn run(p: SpanPhase, evs: Seq<HandlerEvent>) -> (SpanPhase, nat)
    decreases evs.len(),
{
    if evs.len() == 0 {
        (p, 0)
    } else {
        let (q, a) = next(p, evs[0]);
        let (r, n) = run(q, evs.skip(1));
        (r, n + if ends_span(a) { 1nat } else { 0nat })
    }
}

pub fn step(p: SpanPhase, e: HandlerEvent) -> (r: (SpanPhase, SpanAction))
    ensures
        r == next(p, e),
{
    match (p, e) {
        (SpanPhase::Ended, _) => (SpanPhase::Ended, SpanAction::Nothing),
        (SpanPhase::Entered, HandlerEvent::Resume) => (SpanPhase::Entered, SpanAction::Nothing),
        (_, HandlerEvent::Resume) => (SpanPhase::Entered, SpanAction::Enter),
        (SpanPhase::Entered, HandlerEvent::Suspend) => (SpanPhase::Exited, SpanAction::Exit),
        (SpanPhase::Entered, _) => (SpanPhase::Ended, SpanAction::ExitAndEnd),
        (_, HandlerEvent::Cancel) => (SpanPhase::Ended, SpanAction::End),
        (_, _) => (p, SpanAction::Nothing),
    }
}

/// Whatever the handler does, the span is ended at most once, never after it
/// ended, and it is ended exactly when the last phase is `Ended`.
pub proof fn lemma_span_ends_at_most_once(p: SpanPhase, evs: Seq<HandlerEvent>)
    ensures
        run(p, evs).1 <= 1,
        p == SpanPhase::Ended ==> run(p, evs) == (SpanPhase::Ended, 0nat),
        p != SpanPhase::Ended ==> (run(p, evs).1 == 1 <==> run(p, evs).0 == SpanPhase::Ended),
    decreases evs.len(),
{
    if evs.len() > 0 {
        let (q, a) = next(p, evs[0]);
        lemma_span_ends_at_most_once(q, evs.skip(1));
    }
}

/// A span whose computation is dropped in the end, after it completed, failed
/// or while it was suspended, is ended exactly once.
pub proof fn lemma_span_ends_exactly_once(evs: Seq<HandlerEvent>)
    ensures
        run(SpanPhase::Created, evs.push(HandlerEvent::Cancel)) == (SpanPhase::Ended, 1nat),
{
    lemma_run_cancel(SpanPhase::Created, evs);
}

proof fn lemma_run_cancel(p: SpanPhase, evs: Seq<HandlerEvent>)
    ensures
        run(p, evs.push(HandlerEvent::Cancel)).0 == SpanPhase::Ended,
        p != SpanPhase::Ended ==> run(p, evs.push(HandlerEvent::Cancel)).1 == 1,
    decreases evs.len(),
{
    let all = evs.push(HandlerEvent::Cancel);
    lemma_span_ends_at_most_once(p, all);
    if evs.len() > 0 {
        let (q, a) = next(p, evs[0]);
        assert(all.skip(1) =~= evs.skip(1).push(HandlerEvent::Cancel));
        lemma_run_cancel(q, evs.skip(1));
    } else {
        assert(all.skip(1) =~= Seq::<HandlerEvent>::empty());
    }
}

/// The span of one request and where it stands in its life.
pub struct SpanLifecycle {
    phase: SpanPhase,
}

impl SpanLifecycle {
    pub closed spec fn phase(&self) -> SpanPhase {
        self.phase
    }

    pub fn new() -> (r: Self)
        ensures
            r.phase() == SpanPhase::Created,
    {
        SpanLifecycle { phase: SpanPhase::Created }
    }

    pub fn current_phase(&self) -> (r: SpanPhase)
        ensures
            r == self.phase(),
    {
        self.phase
    }

    /// Records `e` and says what to do to the span.
    pub fn on_event(&mut self, e: HandlerEvent) -> (r: SpanAction)
        ensures
            (final(self).phase(), r) == next(old(self).phase(), e),
    {
        let (p, a) = step(self.phase, e);
        self.phase = p;
        a
    }

    pub fn is_ended(&self) -> (r: bool)
        ensures
            r == (self.phase() == SpanPhase::Ended),
    {
        match self.phase {
            SpanPhase::Ended => true,
            _ => false,
        }
    }
}

/// Readiness of a service: ready, failed with an error, or not yet ready.
#[derive(Debug, PartialEq, Eq)]
pub enum Readiness<E> {
    Ready,
    Failed(E),
    Pending,
}

/// The middleware is ready exactly when the service it wraps is: its
/// readiness, error included, is handed on unchanged.
pub fn forward_readiness<E>(inner: Readiness<E>) -> (r: Readiness<E>)
    ensures
        r == inner,
{
    inner
}

/// What the middleware holds for one request: the parent that extraction
/// found, and the life of the request span.
pub struct RequestTrace {
    pub parent: Option<PropagatedContext>,
    pub lifecycle: SpanLifecycle,
}

/// Extraction, done before the handler runs, and a span that has yet to run.
pub fn begin_request<T: HttpHeaderProvider>(request: &T) -> (r: RequestTrace)
    ensures
        extracted(r.parent, request),
        r.lifecycle.phase() == SpanPhase::Created,
{
    let parent = extract_opentelemetry_context_from_request(request);
    RequestTrace { parent, lifecycle: SpanLifecycle::new() }
}

} // verus!
