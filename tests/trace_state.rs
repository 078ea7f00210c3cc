use observability::carrier::HeaderCarrier;
use observability::http_injector::{inject_context, inject_state, RequestExtractor};
use observability::trace_context::TraceContext;
use observability::trace_state::{format_tracestate, parse_tracestate, TraceState};

#[test]
fn parse_drops_bad_members_and_repeated_keys() {
    let st = parse_tracestate("a=1, b=2,,bad,c=3=4, a=5 ,X=1,d= 6\t");
    assert_eq!(st.len(), 3);
    assert_eq!(st.get(&"a".to_string()), Some(&"1".to_string()));
    assert_eq!(st.get(&"d".to_string()), Some(&" 6".to_string()));
    assert_eq!(st.get(&"c".to_string()), None);
    assert_eq!(format_tracestate(&st), "a=1,b=2,d= 6");
}

#[test]
fn parse_keeps_at_most_thirty_two_members() {
    let text: Vec<String> = (0..40).map(|i| format!("k{i}=v{i}")).collect();
    let st = parse_tracestate(&text.join(","));
    assert_eq!(st.len(), 32);
    assert_eq!(st.get(&"k31".to_string()), Some(&"v31".to_string()));
    assert_eq!(st.get(&"k32".to_string()), None);
}

#[test]
fn empty_state_is_not_written() {
    let mut carrier = HeaderCarrier::new();
    inject_state(&TraceState::new(), &mut carrier);
    assert_eq!(carrier.len(), 0);
    assert_eq!(format_tracestate(&parse_tracestate("")), "");
}

#[test]
fn state_travels_with_context() {
    let c = TraceContext { trace_id: 3, span_id: 4, trace_flags: 1 };
    let mut carrier = HeaderCarrier::new();
    inject_context(&c, &mut carrier);
    inject_state(&parse_tracestate("vendor=abc,other@tenant=x"), &mut carrier);
    assert_eq!(carrier.get("TraceState"), Some("vendor=abc,other@tenant=x"));
    let got = RequestExtractor::new(&carrier).extract_with_state().unwrap();
    assert_eq!(got.context, c);
    assert_eq!(format_tracestate(&got.trace_state), "vendor=abc,other@tenant=x");

    let mut only_state = HeaderCarrier::new();
    only_state.set("tracestate", "vendor=abc".to_string());
    assert!(RequestExtractor::new(&only_state).extract_with_state().is_none());
}
