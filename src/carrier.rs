//! A header carrier: string-keyed, string-valued, with HTTP's
//! case-insensitive names.

use vstd::prelude::*;
use vstd::string::StrSliceExecFns;

verus! {

/// `c` with ASCII upper case mapped to lower case.
pub open spec fn lower_char(c: char) -> char {
    if 'A' <= c && c <= 'Z' {
        ((c as int) + 32) as char
    } else {
        c
    }
}

/// `s` with ASCII upper case mapped to lower case.
pub open spec fn lower(s: Seq<char>) -> Seq<char> {
    s.map_values(|c: char| lower_char(c))
}

/// A token character of an HTTP header name.
pub open spec fn is_token_char(c: char) -> bool {
    ||| ('0' <= c && c <= '9')
    ||| ('a' <= c && c <= 'z')
    ||| ('A' <= c && c <= 'Z')
    ||| c == '!' || c == '#' || c == '$' || c == '%' || c == '&' || c == '\''
    ||| c == '*' || c == '+' || c == '-' || c == '.' || c == '^' || c == '_'
    ||| c == '`' || c == '|' || c == '~'
}

/// A legal header name: one to 65535 token characters.
pub open spec fn valid_header_name(s: Seq<char>) -> bool {
    &&& 1 <= s.len() <= 65535
    &&& forall|i: int| 0 <= i < s.len() ==> is_token_char(#[trigger] s[i])
}

/// A legal header value: no control character but the tab, and no DEL.
pub open spec fn valid_header_value(s: Seq<char>) -> bool {
    forall|i: int|
        0 <= i < s.len() ==> (#[trigger] s[i] == '\t' || (s[i] as u32 >= 32 && s[i] as u32 != 127))
}

/// Relies on http's `HeaderName::from_str`: it accepts exactly the legal
/// names, and the name it makes is the input in lower case.
#[verifier::external_body]
fn parse_header_name(key: &str) -> (r: Option<String>)
    ensures
        r.is_some() == valid_header_name(key@),
        r.is_some() ==> r.unwrap()@ == lower(key@),
{
    key.parse::<http::HeaderName>().ok().map(|n| n.as_str().to_string())
}

/// Relies on http's `HeaderValue::from_str`: it accepts exactly the legal values.
#[verifier::external_body]
fn is_header_value(value: &str) -> (r: bool)
    ensures
        r == valid_header_value(value@),
{
    http::HeaderValue::from_str(value).is_ok()
}

/// The value stored under the normalised name `name`, searching from the back.
pub open spec fn entry_lookup(entries: Seq<(Seq<char>, Seq<char>)>, name: Seq<char>) -> Option<
    Seq<char>,
>
    decreases entries.len(),
{
    if entries.len() == 0 {
        None
    } else if entries.last().0 == name {
        Some(entries.last().1)
    } else {
        entry_lookup(entries.drop_last(), name)
    }
}

pub open spec fn opt_str_view(r: Option<&str>) -> Option<Seq<char>> {
    match r {
        Some(v) => Some(v@),
        None => None,
    }
}

pub open spec fn distinct_names(v: Seq<(Seq<char>, Seq<char>)>) -> bool {
    forall|i: int, j: int| 0 <= i < j < v.len() ==> #[trigger] v[i].0 != #[trigger] v[j].0
}

/// With distinct names, the lookup finds the one entry of that name.
pub proof fn lemma_lookup_distinct(v: Seq<(Seq<char>, Seq<char>)>, name: Seq<char>)
    requires
        distinct_names(v),
    ensures
        forall|i: int| 0 <= i < v.len() && #[trigger] v[i].0 == name ==> entry_lookup(v, name) == Some(v[i].1),
        (forall|i: int| 0 <= i < v.len() ==> #[trigger] v[i].0 != name) ==> entry_lookup(v, name) is None,
    decreases v.len(),
{
    if v.len() > 0 {
        let p = v.drop_last();
        assert(distinct_names(p)) by {
            assert forall|i: int, j: int| 0 <= i < j < p.len() implies #[trigger] p[i].0 != #[trigger] p[j].0 by {
                assert(p[i] == v[i] && p[j] == v[j]);
            }
        }
        lemma_lookup_distinct(p, name);
        assert forall|i: int| 0 <= i < v.len() && #[trigger] v[i].0 == name implies entry_lookup(v, name) == Some(v[i].1) by {
            if i < v.len() - 1 {
                assert(p[i] == v[i]);
                assert(v[i].0 != v[v.len() - 1].0);
            }
        }
        if forall|i: int| 0 <= i < v.len() ==> #[trigger] v[i].0 != name {
            assert(v.last().0 != name);
            assert forall|i: int| 0 <= i < p.len() implies #[trigger] p[i].0 != name by {
                assert(p[i] == v[i]);
            }
        }
    }
}

proof fn lemma_lower_char(c: char)
    ensures
        lower_char(lower_char(c)) == lower_char(c),
        is_token_char(c) ==> is_token_char(lower_char(c)),
{
}

pub proof fn lemma_lower_idempotent(s: Seq<char>)
    ensures
        lower(lower(s)) == lower(s),
        valid_header_name(s) ==> valid_header_name(lower(s)),
{
    assert forall|i: int| 0 <= i < s.len() implies #[trigger] lower(lower(s))[i] == lower(s)[i] by {
        lemma_lower_char(s[i]);
    }
    assert(lower(lower(s)) =~= lower(s));
    if valid_header_name(s) {
        assert forall|i: int| 0 <= i < lower(s).len() implies is_token_char(#[trigger] lower(s)[i]) by {
            lemma_lower_char(s[i]);
        }
    }
}

/// `c` with ASCII upper case mapped to lower case.
pub fn to_lower_char(c: char) -> (r: char)
    ensures
        r == lower_char(c),
{
    if 'A' <= c && c <= 'Z' {
        ((c as u32 as u8) + 32) as char
    } else {
        c
    }
}

/// Whether `stored` equals `query` with its ASCII letters in lower case.
pub fn eq_lowered(stored: &str, query: &str) -> (r: bool)
    ensures
        r == (stored@ == lower(query@)),
{
    let n = stored.unicode_len();
    if n != query.unicode_len() {
        return false;
    }
    let mut i: usize = 0;
    while i < n
        invariant
            n == stored@.len() == query@.len(),
            i <= n,
            forall|j: int| 0 <= j < i ==> stored@[j] == #[trigger] lower(query@)[j],
        decreases n - i,
    {
        if stored.get_char(i) != to_lower_char(query.get_char(i)) {
            assert(stored@[i as int] != lower(query@)[i as int]);
            return false;
        }
        i = i + 1;
    }
    assert(stored@ =~= lower(query@));
    true
}

/// Header text: visible ASCII characters and tabs only.
pub open spec fn visible_text(v: Seq<char>) -> bool {
    forall|i: int| 0 <= i < v.len() ==> (#[trigger] v[i] == '\t' || (' ' <= v[i] && v[i] <= '~'))
}

/// A stored value as text: `None` when it holds anything but visible ASCII.
pub open spec fn as_text(o: Option<Seq<char>>) -> Option<Seq<char>> {
    match o {
        Some(v) => if visible_text(v) {
            Some(v)
        } else {
            None
        },
        None => None,
    }
}

/// Whether every character of `s` is visible ASCII or a tab.
pub fn is_visible_text(s: &str) -> (r: bool)
    ensures
        r == visible_text(s@),
{
    let n = s.unicode_len();
    let mut i: usize = 0;
    while i < n
        invariant
            n == s@.len(),
            i <= n,
            forall|j: int| 0 <= j < i ==> (#[trigger] s@[j] == '\t' || (' ' <= s@[j] && s@[j] <= '~')),
        decreases n - i,
    {
        let c = s.get_char(i);
        if !(c == '\t' || (' ' <= c && c <= '~')) {
            return false;
        }
        i = i + 1;
    }
    true
}

/// Read access to a header-like collection with case-insensitive names.
pub trait HttpHeaderProvider {
    /// The names present, in the collection's own order.
    spec fn names(&self) -> Seq<Seq<char>>;

    /// The value for `key`, whatever the case of its letters, when it is text.
    spec fn header(&self, key: Seq<char>) -> Option<Seq<char>>;

    fn get(&self, key: &str) -> (r: Option<&str>)
        ensures
            opt_str_view(r) == self.header(key@),
    ;

    /// All names present, in order.
    fn keys(&self) -> (r: Vec<String>)
        ensures
            r@.map_values(|s: String| s@) == self.names(),
            forall|k: Seq<char>|
                #[trigger] self.header(k) is Some ==> exists|i: int|
                    0 <= i < self.names().len() && lower(self.names()[i]) == lower(k),
    ;
}

/// Headers of one request, names stored in lower case, each name once.
pub struct HeaderCarrier {
    entries: Vec<(String, String)>,
}

impl HeaderCarrier {
    /// The stored (name, value) pairs, in order of first insertion.
    pub closed spec fn view(&self) -> Seq<(Seq<char>, Seq<char>)> {
        self.entries@.map_values(|e: (String, String)| (e.0@, e.1@))
    }

    /// Names are legal, lower case and distinct; values are legal.
    pub open spec fn wf(&self) -> bool {
        &&& forall|i: int|
            0 <= i < self.view().len() ==> {
                &&& valid_header_name(#[trigger] self.view()[i].0)
                &&& lower(self.view()[i].0) == self.view()[i].0
                &&& valid_header_value(self.view()[i].1)
            }
        &&& distinct_names(self.view())
    }

    #[verifier::type_invariant]
    spec fn inv(self) -> bool {
        self.wf()
    }

    /// The value for `key`, whatever the case of its letters.
    pub open spec fn lookup(&self, key: Seq<char>) -> Option<Seq<char>> {
        entry_lookup(self.view(), lower(key))
    }

    pub fn new() -> (r: Self)
        ensures
            r.wf(),
            r.view() == Seq::<(Seq<char>, Seq<char>)>::empty(),
    {
        let r = HeaderCarrier { entries: Vec::new() };
        assert(r.view() =~= Seq::<(Seq<char>, Seq<char>)>::empty());
        r
    }

    /// Position of the entry named `key`, whatever the case of its letters.
    fn position(&self, key: &str) -> (r: Option<usize>)
        ensures
            r matches Some(i) ==> i < self.view().len() && self.view()[i as int].0 == lower(key@),
            r is None ==> forall|i: int| 0 <= i < self.view().len() ==> #[trigger] self.view()[i].0 != lower(key@),
    {
        let mut i: usize = 0;
        while i < self.entries.len()
            invariant
                i <= self.view().len(),
                self.view().len() == self.entries@.len(),
                forall|j: int| 0 <= j < i ==> #[trigger] self.view()[j].0 != lower(key@),
            decreases self.entries@.len() - i,
        {
            assert(self.view()[i as int].0 == self.entries@[i as int].0@);
            if eq_lowered(self.entries[i].0.as_str(), key) {
                return Some(i);
            }
            i = i + 1;
        }
        None
    }

    /// The stored names, in order of first insertion.
    pub open spec fn names(&self) -> Seq<Seq<char>> {
        self.view().map_values(|e: (Seq<char>, Seq<char>)| e.0)
    }

    /// The value for `key`, whatever the case of its letters; `None` when
    /// absent or when it is not visible ASCII text.
    pub fn get(&self, key: &str) -> (r: Option<&str>)
        ensures
            self.wf(),
            opt_str_view(r) == as_text(self.lookup(key@)),
    {
        proof {
            use_type_invariant(self);
            lemma_lookup_distinct(self.view(), lower(key@));
        }
        match self.position(key) {
            Some(i) => {
                assert(self.view()[i as int].1 == self.entries@[i as int].1@);
                let v = self.entries[i].1.as_str();
                if is_visible_text(v) {
                    Some(v)
                } else {
                    None
                }
            },
            None => None,
        }
    }

    /// The stored names, in lower case, in order of first insertion.
    pub fn keys(&self) -> (r: Vec<String>)
        ensures
            r@.map_values(|s: String| s@) == self.names(),
            r@.len() == self.view().len(),
            forall|i: int| 0 <= i < r@.len() ==> (#[trigger] r@[i])@ == self.view()[i].0,
    {
        let mut r: Vec<String> = Vec::new();
        let mut i: usize = 0;
        while i < self.entries.len()
            invariant
                i <= self.view().len(),
                self.view().len() == self.entries@.len(),
                r@.len() == i,
                forall|j: int| 0 <= j < i ==> (#[trigger] r@[j])@ == self.view()[j].0,
            decreases self.entries@.len() - i,
        {
            assert(self.view()[i as int].0 == self.entries@[i as int].0@);
            r.push(self.entries[i].0.clone());
            i = i + 1;
        }
        assert(r@.map_values(|s: String| s@) =~= self.names());
        r
    }

    /// Inserts or replaces the value for `key`. An illegal name or value is
    /// dropped and leaves the carrier unchanged.
    pub fn set(&mut self, key: &str, value: String)
        ensures
            final(self).wf(),
            valid_header_name(key@) && valid_header_value(value@) ==> forall|k: Seq<char>|
                #[trigger] final(self).lookup(k) == if lower(k) == lower(key@) {
                    Some(value@)
                } else {
                    old(self).lookup(k)
                },
            !(valid_header_name(key@) && valid_header_value(value@)) ==> final(self).view()
                == old(self).view(),
    {
        proof {
            use_type_invariant(&*self);
        }
        let name = match parse_header_name(key) {
            Some(n) => n,
            None => return,
        };
        if !is_header_value(value.as_str()) {
            return;
        }
        let ghost old_view = self.view();
        proof {
            lemma_lower_idempotent(key@);
        }
        let found = self.position(key);
        let mut entries: Vec<(String, String)> = Vec::new();
        std::mem::swap(&mut entries, &mut self.entries);
        match found {
            Some(i) => {
                entries.set(i, (name, value));
            },
            None => {
                entries.push((name, value));
            },
        }
        let ghost v = entries@.map_values(|e: (String, String)| (e.0@, e.1@));
        proof {
            match found {
                Some(i) => {
                    assert(v =~= old_view.update(i as int, (lower(key@), value@)));
                },
                None => {
                    assert(v =~= old_view.push((lower(key@), value@)));
                },
            }
        }
        assert(distinct_names(v));
        proof {
            assert forall|k: Seq<char>| #[trigger] entry_lookup(v, lower(k)) == if lower(k) == lower(key@) {
                Some(value@)
            } else {
                entry_lookup(old_view, lower(k))
            } by {
                lemma_lookup_distinct(v, lower(k));
                lemma_lookup_distinct(old_view, lower(k));
                if lower(k) != lower(key@) {
                    if exists|j: int| 0 <= j < old_view.len() && #[trigger] old_view[j].0 == lower(k) {
                        let j = choose|j: int| 0 <= j < old_view.len() && #[trigger] old_view[j].0 == lower(k);
                        assert(v[j] == old_view[j]);
                    } else {
                        assert forall|j: int| 0 <= j < v.len() implies #[trigger] v[j].0 != lower(k) by {
                            if j < old_view.len() && v[j] == old_view[j] {
                            }
                        }
                    }
                } else {
                    let w: int = match found {
                        Some(i) => i as int,
                        None => old_view.len() as int,
                    };
                    assert(v[w].0 == lower(k) && v[w].1 == value@);
                }
            }
        }
        self.entries = entries;
    }

    pub fn len(&self) -> (r: usize)
        ensures
            r == self.view().len(),
    {
        self.entries.len()
    }
}

/// Header names are matched without regard to the case of their letters:
/// two names that differ only in case find the same value.
pub proof fn lemma_lookup_ignores_case(c: HeaderCarrier, k1: Seq<char>, k2: Seq<char>)
    requires
        lower(k1) == lower(k2),
    ensures
        c.lookup(k1) == c.lookup(k2),
{
}

impl HttpHeaderProvider for HeaderCarrier {
    open spec fn names(&self) -> Seq<Seq<char>> {
        HeaderCarrier::names(self)
    }

    open spec fn header(&self, key: Seq<char>) -> Option<Seq<char>> {
        as_text(self.lookup(key))
    }

    fn get(&self, key: &str) -> (r: Option<&str>) {
        HeaderCarrier::get(self, key)
    }

    fn keys(&self) -> (r: Vec<String>) {
        proof {
            use_type_invariant(self);
        }
        let r = HeaderCarrier::keys(self);
        proof {
            let names = HeaderCarrier::names(self);
            assert forall|k: Seq<char>| #[trigger] self.header(k) is Some implies exists|i: int|
                0 <= i < names.len() && lower(names[i]) == lower(k) by {
                lemma_lookup_distinct(self.view(), lower(k));
                let i = choose|i: int| 0 <= i < self.view().len() && #[trigger] self.view()[i].0 == lower(k);
                assert(names[i] == self.view()[i].0);
            }
        }
        r
    }
}

} // verus!
