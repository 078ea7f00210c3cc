//! The W3C `tracestate` value: comma-separated `key=value` members.
//!
//! Parsing is best-effort: a member that is malformed is dropped on its own,
//! a key seen before is dropped, and at most 32 members are kept.

use vstd::prelude::*;
use vstd::string::StrSliceExecFns;

use crate::carrier::valid_header_value;
use crate::trace_context::string_from_chars;

verus! {

/// Most members that a trace state keeps.
pub const MAX_MEMBERS: usize = 32;

pub open spec fn is_key_char(c: char) -> bool {
    ('a' <= c && c <= 'z') || ('0' <= c && c <= '9') || c == '_' || c == '-' || c == '*' || c == '/'
        || c == '@'
}

/// A member key: 1 to 256 characters of lower-case letters, digits and `_-*/@`,
/// starting with a letter or a digit.
pub open spec fn valid_key(k: Seq<char>) -> bool {
    &&& 1 <= k.len() <= 256
    &&& ('a' <= k[0] && k[0] <= 'z') || ('0' <= k[0] && k[0] <= '9')
    &&& forall|i: int| 0 <= i < k.len() ==> is_key_char(#[trigger] k[i])
}

pub open spec fn is_value_char(c: char) -> bool {
    ' ' <= c && c <= '~' && c != ',' && c != '='
}

/// A member value: 1 to 256 printable ASCII characters other than `,` and `=`,
/// not ending in a space.
pub open spec fn valid_value(v: Seq<char>) -> bool {
    &&& 1 <= v.len() <= 256
    &&& v.last() != ' '
    &&& forall|i: int| 0 <= i < v.len() ==> is_value_char(#[trigger] v[i])
}

/// `s` cut at every comma.
pub open spec fn members(s: Seq<char>) -> Seq<Seq<char>>
    decreases s.len(),
{
    if s.len() == 0 {
        seq![Seq::empty()]
    } else if s.last() == ',' {
        members(s.drop_last()).push(Seq::empty())
    } else {
        let m = members(s.drop_last());
        m.update(m.len() - 1, m.last().push(s.last()))
    }
}

/// `m` without the spaces and tabs at either end.
pub open spec fn trim(m: Seq<char>) -> Seq<char>
    decreases m.len(),
{
    if m.len() > 0 && (m[0] == ' ' || m[0] == '\t') {
        trim(m.skip(1))
    } else if m.len() > 0 && (m.last() == ' ' || m.last() == '\t') {
        trim(m.drop_last())
    } else {
        m
    }
}

/// Where the `=` of a well-formed member stands.
pub open spec fn splits_at(t: Seq<char>, i: int) -> bool {
    0 <= i < t.len() && t[i] == '=' && valid_key(t.take(i)) && valid_value(t.skip(i + 1))
}

/// The key and value of a member, or `None` when it is malformed.
pub open spec fn member_entry(m: Seq<char>) -> Option<(Seq<char>, Seq<char>)> {
    let t = trim(m);
    if exists|i: int| splits_at(t, i) {
        let i = choose|i: int| splits_at(t, i);
        Some((t.take(i), t.skip(i + 1)))
    } else {
        None
    }
}

pub open spec fn has_key(e: Seq<(Seq<char>, Seq<char>)>, k: Seq<char>) -> bool {
    exists|i: int| 0 <= i < e.len() && (#[trigger] e[i]).0 == k
}

/// The entries that members `ms` give, in order: malformed members and
/// repeated keys dropped, at most [`MAX_MEMBERS`] kept.
pub open spec fn state_entries(ms: Seq<Seq<char>>) -> Seq<(Seq<char>, Seq<char>)>
    decreases ms.len(),
{
    if ms.len() == 0 {
        Seq::empty()
    } else {
        let e = state_entries(ms.drop_last());
        match member_entry(ms.last()) {
            Some(kv) => if !has_key(e, kv.0) && e.len() < 32 {
                e.push(kv)
            } else {
                e
            },
            None => e,
        }
    }
}

/// Every key and value of `e` is well formed.
pub open spec fn entries_valid(e: Seq<(Seq<char>, Seq<char>)>) -> bool {
    forall|i: int| 0 <= i < e.len() ==> valid_key((#[trigger] e[i]).0) && valid_value(e[i].1)
}

pub open spec fn pairs_view(v: Seq<(String, String)>) -> Seq<(Seq<char>, Seq<char>)> {
    v.map_values(|e: (String, String)| (e.0@, e.1@))
}

/// The vendor entries of a trace context, in order; keys and values well formed.
pub struct TraceState {
    entries: Vec<(String, String)>,
}

impl TraceState {
    pub closed spec fn view(&self) -> Seq<(Seq<char>, Seq<char>)> {
        pairs_view(self.entries@)
    }

    #[verifier::type_invariant]
    spec fn inv(self) -> bool {
        entries_valid(self.view())
    }

    pub fn new() -> (r: Self)
        ensures
            r.view() == Seq::<(Seq<char>, Seq<char>)>::empty(),
    {
        let entries: Vec<(String, String)> = Vec::new();
        assert(pairs_view(entries@) =~= Seq::<(Seq<char>, Seq<char>)>::empty());
        TraceState { entries }
    }

    pub fn len(&self) -> (r: usize)
        ensures
            r == self.view().len(),
            entries_valid(self.view()),
    {
        proof {
            use_type_invariant(self);
        }
        self.entries.len()
    }

    /// The value stored for `key`.
    pub fn get(&self, key: &String) -> (r: Option<&String>)
        ensures
            r is None <==> !has_key(self.view(), key@),
            r matches Some(v) ==> exists|i: int|
                0 <= i < self.view().len() && (#[trigger] self.view()[i]) == (key@, v@),
    {
        let mut i: usize = 0;
        while i < self.entries.len()
            invariant
                i <= self.entries@.len(),
                self.view().len() == self.entries@.len(),
                forall|j: int| 0 <= j < i ==> (#[trigger] self.view()[j]).0 != key@,
            decreases self.entries@.len() - i,
        {
            assert(self.view()[i as int] == (self.entries@[i as int].0@, self.entries@[i as int].1@));
            if self.entries[i].0 == *key {
                return Some(&self.entries[i].1);
            }
            i = i + 1;
        }
        None
    }
}

fn is_space(c: char) -> (r: bool)
    ensures
        r == (c == ' ' || c == '\t'),
{
    c == ' ' || c == '\t'
}

fn is_key_char_exec(c: char) -> (r: bool)
    ensures
        r == is_key_char(c),
{
    ('a' <= c && c <= 'z') || ('0' <= c && c <= '9') || c == '_' || c == '-' || c == '*' || c == '/'
        || c == '@'
}

/// The characters of `m` from `lo` up to `hi`.
fn slice_chars(m: &Vec<char>, lo: usize, hi: usize) -> (r: Vec<char>)
    requires
        lo <= hi <= m@.len(),
    ensures
        r@ == m@.subrange(lo as int, hi as int),
{
    let mut r: Vec<char> = Vec::new();
    let mut i: usize = lo;
    while i < hi
        invariant
            lo <= i <= hi <= m@.len(),
            r@ == m@.subrange(lo as int, i as int),
        decreases hi - i,
    {
        r.push(m[i]);
        i = i + 1;
        assert(r@ =~= m@.subrange(lo as int, i as int));
    }
    r
}

fn key_ok(k: &Vec<char>) -> (r: bool)
    ensures
        r == valid_key(k@),
{
    let n = k.len();
    if n < 1 || n > 256 {
        return false;
    }
    let c0 = k[0];
    if !(('a' <= c0 && c0 <= 'z') || ('0' <= c0 && c0 <= '9')) {
        return false;
    }
    let mut i: usize = 0;
    while i < n
        invariant
            n == k@.len(),
            i <= n,
            forall|j: int| 0 <= j < i ==> is_key_char(#[trigger] k@[j]),
        decreases n - i,
    {
        if !is_key_char_exec(k[i]) {
            return false;
        }
        i = i + 1;
    }
    true
}

fn value_ok(v: &Vec<char>) -> (r: bool)
    ensures
        r == valid_value(v@),
{
    let n = v.len();
    if n < 1 || n > 256 || v[n - 1] == ' ' {
        return false;
    }
    let mut i: usize = 0;
    while i < n
        invariant
            n == v@.len(),
            i <= n,
            forall|j: int| 0 <= j < i ==> is_value_char(#[trigger] v@[j]),
        decreases n - i,
    {
        let c = v[i];
        if !(' ' <= c && c <= '~' && c != ',' && c != '=') {
            return false;
        }
        i = i + 1;
    }
    true
}

/// `m` without the spaces and tabs at either end.
fn trim_chars(m: &Vec<char>) -> (r: Vec<char>)
    ensures
        r@ == trim(m@),
{
    let mut lo: usize = 0;
    let mut hi: usize = m.len();
    assert(m@.subrange(0, hi as int) =~= m@);
    while lo < hi && is_space(m[lo])
        invariant
            lo <= hi == m@.len(),
            trim(m@) == trim(m@.subrange(lo as int, hi as int)),
        decreases hi - lo,
    {
        assert(m@.subrange(lo as int, hi as int).skip(1) =~= m@.subrange(lo + 1, hi as int));
        lo = lo + 1;
    }
    while lo < hi && is_space(m[hi - 1])
        invariant
            lo <= hi <= m@.len(),
            lo < hi ==> !(m@[lo as int] == ' ' || m@[lo as int] == '\t'),
            trim(m@) == trim(m@.subrange(lo as int, hi as int)),
        decreases hi - lo,
    {
        assert(m@.subrange(lo as int, hi as int).drop_last() =~= m@.subrange(lo as int, hi - 1));
        hi = hi - 1;
    }
    slice_chars(m, lo, hi)
}

/// The key and value of one member, or `None` when it is malformed.
fn parse_member(m: &Vec<char>) -> (r: Option<(Vec<char>, Vec<char>)>)
    ensures
        match r {
            Some(kv) => member_entry(m@) == Some((kv.0@, kv.1@)),
            None => member_entry(m@) is None,
        },
{
    let t = trim_chars(m);
    let n = t.len();
    let mut i: usize = 0;
    while i < n && t[i] != '='
        invariant
            n == t@.len(),
            i <= n,
            forall|j: int| 0 <= j < i ==> t@[j] != '=',
        decreases n - i,
    {
        i = i + 1;
    }
    if i == n {
        assert forall|j: int| !splits_at(t@, j) by {
            if 0 <= j < t@.len() {
                assert(t@[j] != '=');
            }
        }
        return None;
    }
    let key = slice_chars(&t, 0, i);
    let value = slice_chars(&t, i + 1, n);
    assert(key@ =~= t@.take(i as int));
    assert(value@ =~= t@.skip(i + 1));
    if key_ok(&key) && value_ok(&value) {
        proof {
            assert(splits_at(t@, i as int));
            assert forall|j: int| splits_at(t@, j) implies j == i by {
                if j < i {
                    assert(t@[j] != '=');
                } else if j > i {
                    assert(t@.skip(j + 1) == t@.skip(j + 1));
                    assert(t@.take(j)[i as int] == '=');
                    assert(!is_key_char(t@.take(j)[i as int]));
                }
            }
        }
        Some((key, value))
    } else {
        assert forall|j: int| !splits_at(t@, j) by {
            if j < i && 0 <= j {
                assert(t@[j] != '=');
            } else if j > i && j < t@.len() {
                assert(t@.take(j)[i as int] == '=');
                assert(!is_key_char(t@.take(j)[i as int]));
            }
        }
        None
    }
}

/// `s` cut at every comma.
fn split_members(s: &str) -> (r: Vec<Vec<char>>)
    ensures
        r@.map_values(|v: Vec<char>| v@) == members(s@),
{
    let n = s.unicode_len();
    let mut done: Vec<Vec<char>> = Vec::new();
    let mut cur: Vec<char> = Vec::new();
    let mut i: usize = 0;
    while i < n
        invariant
            n == s@.len(),
            i <= n,
            members(s@.take(i as int)) == done@.map_values(|v: Vec<char>| v@).push(cur@),
        decreases n - i,
    {
        let c = s.get_char(i);
        let ghost before = s@.take(i as int);
        assert(s@.take(i + 1).drop_last() =~= before);
        if c == ',' {
            let mut fresh: Vec<char> = Vec::new();
            std::mem::swap(&mut fresh, &mut cur);
            done.push(fresh);
            assert(done@.map_values(|v: Vec<char>| v@).push(cur@) =~= members(before).push(
                Seq::empty(),
            ));
        } else {
            cur.push(c);
            assert(done@.map_values(|v: Vec<char>| v@).push(cur@) =~= members(before).update(
                members(before).len() - 1,
                members(before).last().push(c),
            ));
        }
        i = i + 1;
    }
    assert(s@.take(n as int) =~= s@);
    done.push(cur);
    assert(done@.map_values(|v: Vec<char>| v@) =~= members(s@));
    done
}

/// The `tracestate` text of entries `e`: `key=value` members joined by commas.
pub open spec fn state_text(e: Seq<(Seq<char>, Seq<char>)>) -> Seq<char>
    decreases e.len(),
{
    if e.len() == 0 {
        Seq::empty()
    } else if e.len() == 1 {
        e[0].0 + seq!['='] + e[0].1
    } else {
        state_text(e.drop_last()) + seq![','] + e.last().0 + seq!['='] + e.last().1
    }
}

fn push_all(out: &mut Vec<char>, s: &str)
    ensures
        final(out)@ == old(out)@ + s@,
{
    let n = s.unicode_len();
    let ghost start = out@;
    let mut i: usize = 0;
    while i < n
        invariant
            n == s@.len(),
            i <= n,
            out@ == start + s@.take(i as int),
        decreases n - i,
    {
        out.push(s.get_char(i));
        i = i + 1;
        assert(out@ =~= start + s@.take(i as int));
    }
    assert(s@.take(i as int) =~= s@);
}

/// Encodes `state` as a `tracestate` value.
pub fn format_tracestate(state: &TraceState) -> (r: String)
    ensures
        r@ == state_text(state.view()),
{
    let mut out: Vec<char> = Vec::new();
    let mut i: usize = 0;
    while i < state.entries.len()
        invariant
            i <= state.entries@.len(),
            state.view().len() == state.entries@.len(),
            out@ == state_text(state.view().take(i as int)),
        decreases state.entries@.len() - i,
    {
        let ghost e = state.view().take(i + 1);
        assert(e.drop_last() =~= state.view().take(i as int));
        assert(state.view()[i as int] == (state.entries@[i as int].0@, state.entries@[i as int].1@));
        if i > 0 {
            out.push(',');
        }
        push_all(&mut out, state.entries[i].0.as_str());
        out.push('=');
        push_all(&mut out, state.entries[i].1.as_str());
        proof {
            if i == 0 {
                assert(state.view().take(i as int) =~= Seq::<(Seq<char>, Seq<char>)>::empty());
                assert(out@ =~= state_text(e));
            } else {
                assert(out@ =~= state_text(e));
            }
        }
        i = i + 1;
    }
    assert(state.view().take(i as int) =~= state.view());
    string_from_chars(&out)
}

/// Whether some entry of `entries` has key `key`.
fn has_entry(entries: &Vec<(String, String)>, key: &String) -> (r: bool)
    ensures
        r == has_key(pairs_view(entries@), key@),
{
    let ghost v = pairs_view(entries@);
    let mut i: usize = 0;
    while i < entries.len()
        invariant
            i <= entries@.len(),
            v == pairs_view(entries@),
            forall|j: int| 0 <= j < i ==> (#[trigger] v[j]).0 != key@,
        decreases entries@.len() - i,
    {
        if entries[i].0 == *key {
            assert(v[i as int].0 == key@);
            return true;
        }
        i = i + 1;
    }
    false
}

proof fn lemma_member_entry_valid(m: Seq<char>)
    ensures
        member_entry(m) matches Some(kv) ==> valid_key(kv.0) && valid_value(kv.1),
{
}

pub proof fn lemma_state_entries_valid(ms: Seq<Seq<char>>)
    ensures
        entries_valid(state_entries(ms)),
    decreases ms.len(),
{
    if ms.len() > 0 {
        lemma_state_entries_valid(ms.drop_last());
        lemma_member_entry_valid(ms.last());
    }
}

proof fn lemma_concat_header_value(a: Seq<char>, b: Seq<char>)
    requires
        valid_header_value(a),
        valid_header_value(b),
    ensures
        valid_header_value(a + b),
{
    assert forall|i: int| 0 <= i < (a + b).len() implies (#[trigger] (a + b)[i] == '\t' || ((a + b)[i] as u32
        >= 32 && (a + b)[i] as u32 != 127)) by {
        if i < a.len() {
            assert((a + b)[i] == a[i]);
        } else {
            assert((a + b)[i] == b[i - a.len()]);
        }
    }
}

proof fn lemma_member_header_value(k: Seq<char>, v: Seq<char>)
    requires
        valid_key(k),
        valid_value(v),
    ensures
        valid_header_value(k + seq!['='] + v),
{
    assert(valid_header_value(k));
    assert(valid_header_value(v));
    assert(valid_header_value(seq!['=']));
    lemma_concat_header_value(k, seq!['=']);
    lemma_concat_header_value(k + seq!['='], v);
}

/// The `tracestate` text of well-formed entries may stand in a header value.
pub proof fn lemma_state_text_header_value(e: Seq<(Seq<char>, Seq<char>)>)
    requires
        entries_valid(e),
    ensures
        valid_header_value(state_text(e)),
    decreases e.len(),
{
    if e.len() == 1 {
        lemma_member_header_value(e[0].0, e[0].1);
    } else if e.len() > 1 {
        let p = e.drop_last();
        assert(entries_valid(p)) by {
            assert forall|i: int| 0 <= i < p.len() implies valid_key((#[trigger] p[i]).0) && valid_value(
                p[i].1,
            ) by {
                assert(p[i] == e[i]);
            }
        }
        lemma_state_text_header_value(p);
        assert(valid_key(e[e.len() - 1].0) && valid_value(e[e.len() - 1].1));
        lemma_member_header_value(e.last().0, e.last().1);
        assert(valid_header_value(seq![',']));
        lemma_concat_header_value(state_text(p), seq![',']);
        lemma_concat_header_value(state_text(p) + seq![','], e.last().0 + seq!['='] + e.last().1);
        assert(state_text(e) =~= state_text(p) + seq![','] + (e.last().0 + seq!['='] + e.last().1));
    }
}

/// Parses a `tracestate` value, keeping the well-formed members in order.
pub fn parse_tracestate(s: &str) -> (r: TraceState)
    ensures
        r.view() == state_entries(members(s@)),
{
    let ms = split_members(s);
    let ghost mv = ms@.map_values(|v: Vec<char>| v@);
    let mut entries: Vec<(String, String)> = Vec::new();
    let mut j: usize = 0;
    assert(pairs_view(entries@) =~= state_entries(mv.take(0)));
    while j < ms.len()
        invariant
            j <= ms@.len(),
            mv == ms@.map_values(|v: Vec<char>| v@),
            pairs_view(entries@) == state_entries(mv.take(j as int)),
        decreases ms@.len() - j,
    {
        assert(mv.take(j + 1).drop_last() =~= mv.take(j as int));
        assert(mv.take(j + 1).last() == ms@[j as int]@);
        match parse_member(&ms[j]) {
            Some((k, v)) => {
                let key = string_from_chars(&k);
                let value = string_from_chars(&v);
                if entries.len() < MAX_MEMBERS && !has_entry(&entries, &key) {
                    let ghost prev = pairs_view(entries@);
                    entries.push((key, value));
                    assert(pairs_view(entries@) =~= prev.push((k@, v@)));
                }
            },
            None => {},
        }
        j = j + 1;
    }
    assert(mv.take(ms@.len() as int) =~= mv);
    proof {
        lemma_state_entries_valid(mv);
    }
    TraceState { entries }
}

} // verus!
