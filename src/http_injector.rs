//! Injecting a trace context into request headers and extracting it again.

use vstd::prelude::*;

use crate::carrier::{
    lower, opt_str_view, valid_header_name, valid_header_value, visible_text, HeaderCarrier,
    HttpHeaderProvider,
};
use crate::hex::{hex_fixed, lemma_hex_fixed_shape, lemma_hex_round_trip, lemma_pow16_32};
use crate::trace_state::{
    format_tracestate, lemma_state_text_header_value, members, parse_tracestate, state_entries,
    state_text, TraceState,
};
use crate::trace_context::{
    flags_field, span_id_field, trace_id_field, version_field,
    format_traceparent, lemma_traceparent_round_trip, parse_traceparent, traceparent_decode,
    traceparent_text, TraceContext,
};

verus! {

/// Name of the header that carries the trace context.
pub const TRACEPARENT: &'static str = "traceparent";

/// Name of the header that carries the vendor entries of the trace context.
pub const TRACESTATE: &'static str = "tracestate";

/// The context that a `traceparent` header value, if any, decodes to.
pub open spec fn context_of_header(h: Option<Seq<char>>) -> Option<TraceContext> {
    match h {
        Some(v) => traceparent_decode(v),
        None => None,
    }
}

/// Read-only view over the headers of a request, handed to extraction.
pub struct RequestExtractor<'a, T: HttpHeaderProvider> {
    headers: &'a T,
}

impl<'a, T: HttpHeaderProvider> RequestExtractor<'a, T> {
    pub closed spec fn headers(&self) -> &'a T {
        self.headers
    }

    pub fn new(headers: &'a T) -> (r: Self)
        ensures
            r.headers() == headers,
    {
        RequestExtractor { headers }
    }

    pub fn get(&self, key: &str) -> (r: Option<&str>)
        ensures
            opt_str_view(r) == self.headers().header(key@),
    {
        self.headers.get(key)
    }

    /// The names of the headers, as the provider lists them.
    pub fn keys(&self) -> (r: Vec<String>)
        ensures
            r@.map_values(|s: String| s@) == self.headers().names(),
            forall|k: Seq<char>|
                #[trigger] self.headers().header(k) is Some ==> exists|i: int|
                    0 <= i < self.headers().names().len() && lower(self.headers().names()[i]) == lower(k),
    {
        self.headers.keys()
    }

    /// The context carried in the `traceparent` header; `None` when the header
    /// is absent or malformed.
    pub fn extract(&self) -> (r: Option<TraceContext>)
        ensures
            r == context_of_header(self.headers().header(TRACEPARENT@)),
    {
        match self.headers.get(TRACEPARENT) {
            Some(v) => parse_traceparent(v),
            None => None,
        }
    }
}

/// The entries that a `tracestate` header value, if any, holds.
pub open spec fn state_of_header(h: Option<Seq<char>>) -> Seq<(Seq<char>, Seq<char>)> {
    match h {
        Some(v) => state_entries(members(v)),
        None => Seq::empty(),
    }
}

/// A trace context as it crosses a process boundary: identifiers and flags,
/// with the vendor entries of its trace state.
pub struct PropagatedContext {
    pub context: TraceContext,
    pub trace_state: TraceState,
}

/// `r` is what extraction makes of the headers `h`: nothing without a valid
/// `traceparent`, else its context with the entries of the `tracestate` header.
pub open spec fn extracted<T: HttpHeaderProvider>(r: Option<PropagatedContext>, h: &T) -> bool {
    match r {
        None => context_of_header(h.header(TRACEPARENT@)) is None,
        Some(p) => {
            &&& context_of_header(h.header(TRACEPARENT@)) == Some(p.context)
            &&& p.trace_state.view() == state_of_header(h.header(TRACESTATE@))
        },
    }
}

impl<'a, T: HttpHeaderProvider> RequestExtractor<'a, T> {
    /// The context of the `traceparent` header with the entries of the
    /// `tracestate` header; `None` when there is no valid `traceparent`.
    pub fn extract_with_state(&self) -> (r: Option<PropagatedContext>)
        ensures
            extracted(r, self.headers()),
    {
        match self.extract() {
            Some(context) => {
                let trace_state = match self.headers.get(TRACESTATE) {
                    Some(v) => parse_tracestate(v),
                    None => TraceState::new(),
                };
                Some(PropagatedContext { context, trace_state })
            },
            None => None,
        }
    }
}

/// Every character of a `traceparent` text may stand in a header value.
proof fn lemma_traceparent_is_header_value(c: TraceContext)
    ensures
        valid_header_value(traceparent_text(c)),
        visible_text(traceparent_text(c)),
{
    let t = traceparent_text(c);
    lemma_hex_fixed_shape(c.trace_id as nat, 32);
    lemma_hex_fixed_shape(c.span_id as nat, 16);
    lemma_hex_fixed_shape(c.trace_flags as nat, 2);
    let a = hex_fixed(c.trace_id as nat, 32);
    let b = hex_fixed(c.span_id as nat, 16);
    let f = hex_fixed(c.trace_flags as nat, 2);
    assert forall|i: int| 0 <= i < t.len() implies ((#[trigger] t[i] == '\t' || (t[i] as u32 >= 32
        && t[i] as u32 != 127)) && (' ' <= t[i] && t[i] <= '~')) by {
        if 3 <= i < 35 {
            assert(t[i] == a[i - 3]);
        } else if 36 <= i < 52 {
            assert(t[i] == b[i - 36]);
        } else if 53 <= i < 55 {
            assert(t[i] == f[i - 53]);
        }
    }
}

proof fn lemma_traceparent_name()
    ensures
        valid_header_name(TRACEPARENT@),
        lower(TRACEPARENT@) == TRACEPARENT@,
{
    reveal_strlit("traceparent");
    assert(lower(TRACEPARENT@) =~= TRACEPARENT@);
}

/// What a carrier answers for `k` after `c` was injected into `before`.
pub open spec fn injected_header(before: HeaderCarrier, c: TraceContext, k: Seq<char>) -> Option<
    Seq<char>,
> {
    if c.is_valid() && lower(k) == TRACEPARENT@ {
        Some(traceparent_text(c))
    } else {
        before.lookup(k)
    }
}

/// Writes `context` into the `traceparent` header, replacing any earlier
/// value. A context with an all-zero identifier is not written.
pub fn inject_context(context: &TraceContext, carrier: &mut HeaderCarrier)
    ensures
        forall|k: Seq<char>| #[trigger] final(carrier).lookup(k) == injected_header(*old(carrier), *context, k),
{
    if context.trace_id == 0 || context.span_id == 0 {
        return;
    }
    let value = format_traceparent(context);
    proof {
        lemma_traceparent_is_header_value(*context);
        lemma_traceparent_name();
    }
    carrier.set(TRACEPARENT, value);
}

proof fn lemma_tracestate_name()
    ensures
        valid_header_name(TRACESTATE@),
        lower(TRACESTATE@) == TRACESTATE@,
{
    reveal_strlit("tracestate");
    assert(lower(TRACESTATE@) =~= TRACESTATE@);
}

/// What a carrier answers for `k` after `state` was injected into `before`.
pub open spec fn injected_state(before: HeaderCarrier, state: Seq<(Seq<char>, Seq<char>)>, k: Seq<
    char,
>) -> Option<Seq<char>> {
    if state.len() > 0 && lower(k) == TRACESTATE@ {
        Some(state_text(state))
    } else {
        before.lookup(k)
    }
}

/// Writes the entries of `state` into the `tracestate` header when there are any.
pub fn inject_state(state: &TraceState, carrier: &mut HeaderCarrier)
    ensures
        forall|k: Seq<char>| #[trigger] final(carrier).lookup(k) == injected_state(*old(carrier), state.view(), k),
{
    if state.len() == 0 {
        return;
    }
    let value = format_tracestate(state);
    proof {
        lemma_tracestate_name();
        lemma_state_text_header_value(state.view());
    }
    carrier.set(TRACESTATE, value);
}

/// What a carrier answers for `k` after context `c` with trace-state entries
/// `e` was injected into `before`: nothing is written for an invalid context,
/// and `tracestate` only when there are entries.
pub open spec fn injected(
    before: HeaderCarrier,
    c: TraceContext,
    e: Seq<(Seq<char>, Seq<char>)>,
    k: Seq<char>,
) -> Option<Seq<char>> {
    if c.is_valid() && lower(k) == TRACEPARENT@ {
        Some(traceparent_text(c))
    } else if c.is_valid() && e.len() > 0 && lower(k) == TRACESTATE@ {
        Some(state_text(e))
    } else {
        before.lookup(k)
    }
}

/// Injects the context of the span that is current for the caller, trace
/// state included, into the headers of an outgoing request, so that the next
/// service continues its trace.
pub fn inject_opentelemetry_context_into_request(request: &mut HeaderCarrier, current: &PropagatedContext)
    ensures
        forall|k: Seq<char>| #[trigger] final(request).lookup(k) == injected(
            *old(request),
            current.context,
            current.trace_state.view(),
            k,
        ),
{
    if current.context.trace_id == 0 || current.context.span_id == 0 {
        return;
    }
    let ghost before = *request;
    inject_context(&current.context, request);
    let ghost middle = *request;
    inject_state(&current.trace_state, request);
    proof {
        lemma_traceparent_name();
        lemma_tracestate_name();
        reveal_strlit("traceparent");
        reveal_strlit("tracestate");
        assert forall|k: Seq<char>| #[trigger] request.lookup(k) == injected(
            before,
            current.context,
            current.trace_state.view(),
            k,
        ) by {
            assert(request.lookup(k) == injected_state(middle, current.trace_state.view(), k));
            assert(middle.lookup(k) == injected_header(before, current.context, k));
            if lower(k) == TRACESTATE@ {
                assert(TRACESTATE@.len() != TRACEPARENT@.len());
            }
        }
    }
}

/// The parent of the span that a request gets: the context its headers carry,
/// with its trace state, or none, in which case the span starts a new trace.
pub fn extract_opentelemetry_context_from_request<T: HttpHeaderProvider>(request: &T) -> (r: Option<
    PropagatedContext,
>)
    ensures
        extracted(r, request),
{
    RequestExtractor::new(request).extract_with_state()
}

/// The context of a new span with identifier `span_id`: it continues the trace
/// of `parent` with its flags, or, without a parent, starts trace `root_trace_id`
/// with `root_flags`.
pub open spec fn child_context(
    parent: Option<TraceContext>,
    root_trace_id: u128,
    span_id: u64,
    root_flags: u8,
) -> TraceContext {
    match parent {
        Some(p) => TraceContext { trace_id: p.trace_id, span_id, trace_flags: p.trace_flags },
        None => TraceContext { trace_id: root_trace_id, span_id, trace_flags: root_flags },
    }
}

/// Context of the span a request runs in; the new identifiers come from the
/// tracing runtime.
pub fn child_of(parent: Option<TraceContext>, root_trace_id: u128, span_id: u64, root_flags: u8) -> (r:
    TraceContext)
    ensures
        r == child_context(parent, root_trace_id, span_id, root_flags),
{
    match parent {
        Some(p) => TraceContext { trace_id: p.trace_id, span_id, trace_flags: p.trace_flags },
        None => TraceContext { trace_id: root_trace_id, span_id, trace_flags: root_flags },
    }
}

/// Injecting a valid context into any carrier and extracting from the result
/// gives that context back; the span made under it keeps its trace and flags.
pub proof fn lemma_inject_extract_round_trip(
    before: HeaderCarrier,
    after: HeaderCarrier,
    c: TraceContext,
    e: Seq<(Seq<char>, Seq<char>)>,
    root_trace_id: u128,
    span_id: u64,
    root_flags: u8,
)
    requires
        c.is_valid(),
        forall|k: Seq<char>| #[trigger] after.lookup(k) == injected(before, c, e, k),
    ensures
        context_of_header(after.header(TRACEPARENT@)) == Some(c),
        child_context(Some(c), root_trace_id, span_id, root_flags).trace_id == c.trace_id,
        child_context(Some(c), root_trace_id, span_id, root_flags).trace_flags == c.trace_flags,
{
    lemma_traceparent_name();
    lemma_traceparent_is_header_value(c);
    assert(after.lookup(TRACEPARENT@) == injected(before, c, e, TRACEPARENT@));
    lemma_traceparent_round_trip(c);
}

/// A span made under a valid parent with a fresh, non-zero identifier is
/// injected with the parent's trace identifier and flags, version `00`, and
/// a span identifier that is neither the parent's nor all zeros.
pub proof fn lemma_child_traceparent(
    p: TraceContext,
    root_trace_id: u128,
    span_id: u64,
    root_flags: u8,
)
    requires
        p.is_valid(),
        span_id != 0,
        span_id != p.span_id,
    ensures
        child_context(Some(p), root_trace_id, span_id, root_flags).is_valid(),
        trace_id_field(traceparent_text(child_context(Some(p), root_trace_id, span_id, root_flags)))
            == trace_id_field(traceparent_text(p)),
        flags_field(traceparent_text(child_context(Some(p), root_trace_id, span_id, root_flags)))
            == flags_field(traceparent_text(p)),
        version_field(traceparent_text(child_context(Some(p), root_trace_id, span_id, root_flags)))
            == seq!['0', '0'],
        span_id_field(traceparent_text(child_context(Some(p), root_trace_id, span_id, root_flags)))
            != span_id_field(traceparent_text(p)),
        span_id_field(traceparent_text(child_context(Some(p), root_trace_id, span_id, root_flags)))
            != hex_fixed(0, 16),
{
    let c = child_context(Some(p), root_trace_id, span_id, root_flags);
    let tc = traceparent_text(c);
    let tp = traceparent_text(p);
    lemma_traceparent_round_trip(c);
    lemma_traceparent_round_trip(p);
    lemma_hex_fixed_shape(p.trace_id as nat, 32);
    lemma_hex_fixed_shape(span_id as nat, 16);
    lemma_hex_fixed_shape(p.span_id as nat, 16);
    lemma_hex_fixed_shape(p.trace_flags as nat, 2);
    assert(trace_id_field(tc) =~= hex_fixed(p.trace_id as nat, 32));
    assert(trace_id_field(tp) =~= hex_fixed(p.trace_id as nat, 32));
    assert(flags_field(tc) =~= hex_fixed(p.trace_flags as nat, 2));
    assert(flags_field(tp) =~= hex_fixed(p.trace_flags as nat, 2));
    assert(version_field(tc) =~= seq!['0', '0']);
    assert(span_id_field(tc) =~= hex_fixed(span_id as nat, 16));
    lemma_pow16_32();
    lemma_hex_round_trip(0, 16);
    lemma_hex_round_trip(span_id as nat, 16);
}

} // verus!
