//! The W3C `traceparent` value: `{version}-{trace_id}-{span_id}-{trace_flags}`.

use vstd::prelude::*;
use vstd::string::StrSliceExecFns;

use crate::hex::{
    all_lower_hex, hex_fixed, hex_value, lemma_hex_fixed_shape, lemma_hex_round_trip,
    lemma_hex_value_bound, lemma_pow16_32, parse_lower_hex, push_hex,
};

verus! {

/// Identifiers and flags that a trace context carries across a process boundary.
#[derive(Clone, Copy, Debug, PartialEq, Eq, Structural)]
pub struct TraceContext {
    pub trace_id: u128,
    pub span_id: u64,
    pub trace_flags: u8,
}

/// Bit of `trace_flags` that marks a sampled trace.
pub const SAMPLED: u8 = 1;

/// Number of characters of a version-00 `traceparent` value.
pub const TRACEPARENT_LEN: usize = 55;

impl TraceContext {
    /// A context is valid when neither identifier is all zeros.
    pub open spec fn is_valid(self) -> bool {
        self.trace_id != 0 && self.span_id != 0
    }

    pub fn is_sampled(&self) -> (r: bool)
        ensures
            r == (self.trace_flags & SAMPLED != 0),
    {
        self.trace_flags & SAMPLED != 0
    }
}

/// The `traceparent` text that encodes `c`, written with version `00`.
pub open spec fn traceparent_text(c: TraceContext) -> Seq<char> {
    seq!['0', '0', '-'] + hex_fixed(c.trace_id as nat, 32) + seq!['-'] + hex_fixed(
        c.span_id as nat,
        16,
    ) + seq!['-'] + hex_fixed(c.trace_flags as nat, 2)
}

pub open spec fn version_field(s: Seq<char>) -> Seq<char> {
    s.subrange(0, 2)
}

pub open spec fn trace_id_field(s: Seq<char>) -> Seq<char> {
    s.subrange(3, 35)
}

pub open spec fn span_id_field(s: Seq<char>) -> Seq<char> {
    s.subrange(36, 52)
}

pub open spec fn flags_field(s: Seq<char>) -> Seq<char> {
    s.subrange(53, 55)
}

/// Four dash-separated lowercase hexadecimal fields of 2, 32, 16 and 2 digits,
/// a version other than `ff`, and identifiers that are not all zeros.
pub open spec fn is_valid_traceparent(s: Seq<char>) -> bool {
    &&& s.len() == 55
    &&& s[2] == '-' && s[35] == '-' && s[52] == '-'
    &&& all_lower_hex(version_field(s))
    &&& all_lower_hex(trace_id_field(s))
    &&& all_lower_hex(span_id_field(s))
    &&& all_lower_hex(flags_field(s))
    &&& hex_value(version_field(s)) != 255
    &&& hex_value(trace_id_field(s)) != 0
    &&& hex_value(span_id_field(s)) != 0
}

/// The context that a valid `traceparent` text names.
pub open spec fn decoded_traceparent(s: Seq<char>) -> TraceContext {
    TraceContext {
        trace_id: hex_value(trace_id_field(s)) as u128,
        span_id: hex_value(span_id_field(s)) as u64,
        trace_flags: hex_value(flags_field(s)) as u8,
    }
}

/// What extraction makes of a `traceparent` text: the context it names, or
/// none when the text is malformed.
pub open spec fn traceparent_decode(s: Seq<char>) -> Option<TraceContext> {
    if is_valid_traceparent(s) {
        Some(decoded_traceparent(s))
    } else {
        None
    }
}

/// Relies on std's `FromIterator<&char>` for `String`: the characters, in order.
#[verifier::external_body]
pub(crate) fn string_from_chars(v: &Vec<char>) -> (r: String)
    ensures
        r@ == v@,
{
    v.iter().collect()
}

/// Encodes `c` as a `traceparent` value.
pub fn format_traceparent(c: &TraceContext) -> (r: String)
    ensures
        r@ == traceparent_text(*c),
{
    let mut out: Vec<char> = Vec::new();
    out.push('0');
    out.push('0');
    out.push('-');
    push_hex(&mut out, c.trace_id, 32);
    out.push('-');
    push_hex(&mut out, c.span_id as u128, 16);
    out.push('-');
    push_hex(&mut out, c.trace_flags as u128, 2);
    assert(out@ =~= traceparent_text(*c));
    string_from_chars(&out)
}

/// Decodes a `traceparent` value; a malformed one gives `None`.
pub fn parse_traceparent(s: &str) -> (r: Option<TraceContext>)
    ensures
        r == traceparent_decode(s@),
{
    let n = s.unicode_len();
    if n != TRACEPARENT_LEN {
        return None;
    }
    if s.get_char(2) != '-' || s.get_char(35) != '-' || s.get_char(52) != '-' {
        return None;
    }
    let version = match parse_lower_hex(s, 0, 2) {
        Some(v) => v,
        None => return None,
    };
    let trace_id = match parse_lower_hex(s, 3, 32) {
        Some(v) => v,
        None => return None,
    };
    let span_id = match parse_lower_hex(s, 36, 16) {
        Some(v) => v,
        None => return None,
    };
    let flags = match parse_lower_hex(s, 53, 2) {
        Some(v) => v,
        None => return None,
    };
    if version == 255 || trace_id == 0 || span_id == 0 {
        return None;
    }
    proof {
        lemma_pow16_32();
        lemma_hex_value_bound(span_id_field(s@));
        lemma_hex_value_bound(flags_field(s@));
    }
    Some(TraceContext { trace_id, span_id: span_id as u64, trace_flags: flags as u8 })
}

/// Encoding a valid context and decoding the text gives the same context back:
/// identifiers and flags are preserved exactly.
pub proof fn lemma_traceparent_round_trip(c: TraceContext)
    requires
        c.is_valid(),
    ensures
        is_valid_traceparent(traceparent_text(c)),
        traceparent_decode(traceparent_text(c)) == Some(c),
{
    let t = traceparent_text(c);
    let a = hex_fixed(c.trace_id as nat, 32);
    let b = hex_fixed(c.span_id as nat, 16);
    let f = hex_fixed(c.trace_flags as nat, 2);
    lemma_hex_fixed_shape(c.trace_id as nat, 32);
    lemma_hex_fixed_shape(c.span_id as nat, 16);
    lemma_hex_fixed_shape(c.trace_flags as nat, 2);
    lemma_pow16_32();
    lemma_hex_round_trip(c.trace_id as nat, 32);
    lemma_hex_round_trip(c.span_id as nat, 16);
    lemma_hex_round_trip(c.trace_flags as nat, 2);
    assert(trace_id_field(t) =~= a);
    assert(span_id_field(t) =~= b);
    assert(flags_field(t) =~= f);
    assert(version_field(t) =~= seq!['0', '0']);
    assert(hex_value(seq!['0', '0']) == 0) by {
        assert(seq!['0', '0'].drop_last() =~= seq!['0']);
        assert(seq!['0'].drop_last() =~= Seq::<char>::empty());
        assert(hex_value(Seq::<char>::empty()) == 0);
        assert(hex_value(seq!['0']) == 0);
    }
    assert(all_lower_hex(version_field(t)));
}

} // verus!
