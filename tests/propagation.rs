use observability::carrier::{HeaderCarrier, HttpHeaderProvider};
use observability::http_injector::{
    child_of, extract_opentelemetry_context_from_request, inject_context,
    inject_opentelemetry_context_into_request, PropagatedContext, RequestExtractor, TRACEPARENT,
};
use observability::trace_state::{format_tracestate, parse_tracestate, TraceState};
use observability::trace_context::{format_traceparent, parse_traceparent, TraceContext};

const HEADER: &str = "00-4bf92f3577b34da6a3ce929d0e0e4736-00f067aa0ba902b7-01";

fn ctx(trace_id: u128, span_id: u64, trace_flags: u8) -> TraceContext {
    TraceContext { trace_id, span_id, trace_flags }
}

#[test]
fn extracts_and_continues_known_trace() {
    let mut incoming = HeaderCarrier::new();
    incoming.set("traceparent", HEADER.to_string());
    let parent = extract_opentelemetry_context_from_request(&incoming).unwrap().context;
    assert_eq!(parent.trace_id, 0x4bf92f3577b34da6a3ce929d0e0e4736);
    assert_eq!(parent.span_id, 0x00f067aa0ba902b7);
    assert_eq!(parent.trace_flags, 1);
    assert!(parent.is_sampled());

    let child = child_of(Some(parent), 7, 0x1122334455667788, 0);
    let mut outgoing = HeaderCarrier::new();
    let current = PropagatedContext { context: child, trace_state: TraceState::new() };
    inject_opentelemetry_context_into_request(&mut outgoing, &current);
    assert_eq!(
        outgoing.get("traceparent"),
        Some("00-4bf92f3577b34da6a3ce929d0e0e4736-1122334455667788-01")
    );
}

#[test]
fn round_trip_keeps_ids_and_flags() {
    for c in [ctx(1, 1, 0), ctx(u128::MAX, u64::MAX, 0xff), ctx(0xabc, 0x10, 3)] {
        let mut carrier = HeaderCarrier::new();
        carrier.set("x-other", "kept".to_string());
        inject_context(&c, &mut carrier);
        assert_eq!(extract_opentelemetry_context_from_request(&carrier).map(|p| p.context), Some(c));
        assert_eq!(carrier.get("x-other"), Some("kept"));
    }
}

#[test]
fn formats_with_fixed_widths() {
    assert_eq!(
        format_traceparent(&ctx(0xa, 0xb, 1)),
        "00-0000000000000000000000000000000a-000000000000000b-01"
    );
    assert_eq!(parse_traceparent(HEADER), Some(ctx(0x4bf92f3577b34da6a3ce929d0e0e4736, 0x00f067aa0ba902b7, 1)));
}

#[test]
fn malformed_traceparent_gives_no_context() {
    let bad = [
        "",
        "00-4bf92f3577b34da6a3ce929d0e0e4736-00f067aa0ba902b7",
        "00-4bf92f3577b34da6a3ce929d0e0e4736-00f067aa0ba902b7-01-00",
        "00-4bf92f3577b34da6a3ce929d0e0e473g-00f067aa0ba902b7-01",
        "00-4bf92f3577b34da6a3ce929d0e0e473-00f067aa0ba902b7-01",
        "00-4bf92f3577b34da6a3ce929d0e0e47366-00f067aa0ba902b7-01",
        "00-4bf92f3577b34da6a3ce929d0e0e4736-00f067aa0ba902b-01",
        "00-00000000000000000000000000000000-00f067aa0ba902b7-01",
        "00-4bf92f3577b34da6a3ce929d0e0e4736-0000000000000000-01",
        "00-4BF92F3577B34DA6A3CE929D0E0E4736-00f067aa0ba902b7-01",
        "ff-4bf92f3577b34da6a3ce929d0e0e4736-00f067aa0ba902b7-01",
        "00_4bf92f3577b34da6a3ce929d0e0e4736_00f067aa0ba902b7_01",
        "0-04bf92f3577b34da6a3ce929d0e0e4736-00f067aa0ba902b7-01",
    ];
    for s in bad {
        assert_eq!(parse_traceparent(s), None, "{s}");
        let mut carrier = HeaderCarrier::new();
        carrier.set("traceparent", s.to_string());
        assert!(extract_opentelemetry_context_from_request(&carrier).is_none(), "{s}");
    }
    assert!(extract_opentelemetry_context_from_request(&HeaderCarrier::new()).is_none());
}

#[test]
fn header_names_are_case_insensitive() {
    let mut carrier = HeaderCarrier::new();
    carrier.set("TraceParent", HEADER.to_string());
    assert_eq!(carrier.get("traceparent"), Some(HEADER));
    assert_eq!(carrier.get("TRACEPARENT"), Some(HEADER));
    assert_eq!(carrier.keys(), vec!["traceparent".to_string()]);
    assert!(extract_opentelemetry_context_from_request(&carrier).is_some());
}

#[test]
fn set_replaces_and_drops_illegal_writes() {
    let mut carrier = HeaderCarrier::new();
    carrier.set("X-A", "1".to_string());
    carrier.set("x-a", "2".to_string());
    assert_eq!(carrier.len(), 1);
    assert_eq!(carrier.get("x-A"), Some("2"));
    carrier.set("bad name", "3".to_string());
    carrier.set("", "3".to_string());
    carrier.set("x-b", "line\nbreak".to_string());
    carrier.set("x-c", "tab\tok".to_string());
    assert_eq!(carrier.len(), 2);
    assert_eq!(carrier.get("x-b"), None);
    assert_eq!(carrier.get("x-c"), Some("tab\tok"));
    assert_eq!(carrier.keys(), vec!["x-a".to_string(), "x-c".to_string()]);
}

#[test]
fn extractor_reads_through_provider() {
    let mut carrier = HeaderCarrier::new();
    carrier.set(TRACEPARENT, HEADER.to_string());
    let extractor = RequestExtractor::new(&carrier);
    assert_eq!(extractor.get("Traceparent"), Some(HEADER));
    assert_eq!(extractor.keys(), vec!["traceparent".to_string()]);
    assert_eq!(extractor.extract().map(|c| c.span_id), Some(0x00f067aa0ba902b7));
    assert_eq!(HttpHeaderProvider::get(&carrier, "missing"), None);
}

#[test]
fn context_without_ids_is_not_injected() {
    let mut carrier = HeaderCarrier::new();
    inject_context(&ctx(0, 5, 1), &mut carrier);
    inject_context(&ctx(5, 0, 1), &mut carrier);
    assert_eq!(carrier.len(), 0);
    let root = child_of(None, 0x99, 0x42, 1);
    assert_eq!(root, ctx(0x99, 0x42, 1));
}

#[test]
fn extraction_keeps_good_trace_state_members() {
    let mut carrier = HeaderCarrier::new();
    carrier.set("traceparent", HEADER.to_string());
    carrier.set("tracestate", "k1=v1,not a member,k2=v2".to_string());
    let p = extract_opentelemetry_context_from_request(&carrier).unwrap();
    assert_eq!(p.context.trace_id, 0x4bf92f3577b34da6a3ce929d0e0e4736);
    assert_eq!(p.context.span_id, 0x00f067aa0ba902b7);
    assert_eq!(p.trace_state.len(), 2);
    assert_eq!(format_tracestate(&p.trace_state), "k1=v1,k2=v2");
}

#[test]
fn injection_writes_trace_state_only_when_present() {
    let c = ctx(0x4bf92f3577b34da6a3ce929d0e0e4736, 0x1122334455667788, 1);
    let mut with_state = HeaderCarrier::new();
    let current = PropagatedContext { context: c, trace_state: parse_tracestate("a=1,b=2") };
    inject_opentelemetry_context_into_request(&mut with_state, &current);
    assert_eq!(with_state.get("tracestate"), Some("a=1,b=2"));
    assert_eq!(with_state.keys(), vec!["traceparent".to_string(), "tracestate".to_string()]);

    let mut without_state = HeaderCarrier::new();
    let current = PropagatedContext { context: c, trace_state: TraceState::new() };
    inject_opentelemetry_context_into_request(&mut without_state, &current);
    assert_eq!(without_state.get("tracestate"), None);
    assert_eq!(without_state.len(), 1);

    let mut invalid = HeaderCarrier::new();
    let current = PropagatedContext { context: ctx(0, 1, 1), trace_state: parse_tracestate("a=1") };
    inject_opentelemetry_context_into_request(&mut invalid, &current);
    assert_eq!(invalid.len(), 0);
}

#[test]
fn non_text_values_are_not_returned() {
    let mut carrier = HeaderCarrier::new();
    carrier.set("x-utf8", "caf\u{e9}".to_string());
    assert_eq!(carrier.len(), 1);
    assert_eq!(carrier.get("x-utf8"), None);
    assert_eq!(HttpHeaderProvider::get(&carrier, "X-UTF8"), None);
    assert_eq!(carrier.keys(), vec!["x-utf8".to_string()]);
}

#[test]
fn extractor_lists_every_name_in_order() {
    let mut carrier = HeaderCarrier::new();
    carrier.set("B", "1".to_string());
    carrier.set("a", "2".to_string());
    carrier.set("b", "3".to_string());
    carrier.set("C", "4".to_string());
    let extractor = RequestExtractor::new(&carrier);
    assert_eq!(
        extractor.keys(),
        vec!["b".to_string(), "a".to_string(), "c".to_string()]
    );
    assert_eq!(extractor.keys(), HttpHeaderProvider::keys(&carrier));
}
