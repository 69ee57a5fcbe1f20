//! Header names written on the fields of a single-response struct:
//! `#[header = "X-Request-Id"]`.

use vstd::prelude::*;
use crate::attr::{ident_is, is_ident, Attr, AttrExpr, AttrLit, AttrMeta};

verus! {

/// Whether `c` may stand in a header name: a token character of HTTP.
pub open spec fn is_header_char(c: char) -> bool {
    ||| ('0' <= c && c <= '9')
    ||| ('a' <= c && c <= 'z')
    ||| ('A' <= c && c <= 'Z')
    ||| c == '!' || c == '#' || c == '$' || c == '%' || c == '&' || c == '\''
    ||| c == '*' || c == '+' || c == '-' || c == '.' || c == '^' || c == '_'
    ||| c == '`' || c == '|' || c == '~'
}

/// `c` in lower case, when it is an upper-case ASCII letter.
pub open spec fn ascii_lower(c: char) -> char {
    if 'A' <= c && c <= 'Z' {
        ((c as u32) + 32) as char
    } else {
        c
    }
}

/// The normalized form of a header name, if `http` accepts it: a name of 1
/// to 65535 token characters is accepted and written in lower case; any
/// other is refused.
pub open spec fn header_name_of(raw: Seq<char>) -> Option<Seq<char>> {
    if 1 <= raw.len() <= 65535 && forall|i: int| 0 <= i < raw.len() ==> is_header_char(#[trigger] raw[i]) {
        Some(raw.map_values(|c: char| ascii_lower(c)))
    } else {
        None
    }
}

/// `http::HeaderName::from_bytes` followed by `as_str`: the name in lower
/// case when `http` accepts it (1 to 65535 bytes, each a token character),
/// or nothing when it refuses it.
#[verifier::external_body]
pub(crate) fn normalize_header_name(raw: &str) -> (name: Option<String>)
    ensures
        match name {
            Some(n) => header_name_of(raw@) == Some(n@),
            None => header_name_of(raw@) is None,
        },
{
    match http::HeaderName::from_bytes(raw.as_bytes()) {
        Ok(h) => Some(h.as_str().to_string()),
        Err(_) => None,
    }
}

/// The header names taken so far by the fields of a struct: each normalized
/// name with the name as it was written.
pub struct HeaderNames {
    entries: Vec<(String, String)>,
}

/// The written name that `key` was taken under, if it was.
pub open spec fn names_lookup(entries: Seq<(Seq<char>, Seq<char>)>, key: Seq<char>) -> Option<Seq<char>>
    decreases entries.len(),
{
    if entries.len() == 0 {
        None
    } else if entries[0].0 == key {
        Some(entries[0].1)
    } else {
        names_lookup(entries.drop_first(), key)
    }
}

proof fn lemma_lookup_push(entries: Seq<(Seq<char>, Seq<char>)>, key: Seq<char>, e: (Seq<char>, Seq<char>))
    ensures
        names_lookup(entries.push(e), key) == match names_lookup(entries, key) {
            Some(v) => Some(v),
            None => if e.0 == key { Some(e.1) } else { None },
        },
    decreases entries.len(),
{
    if entries.len() > 0 {
        assert(entries.push(e)[0] == entries[0]);
        assert(entries.push(e).drop_first() =~= entries.drop_first().push(e));
        lemma_lookup_push(entries.drop_first(), key, e);
    } else {
        assert(entries.push(e).drop_first() =~= Seq::<(Seq<char>, Seq<char>)>::empty());
        reveal_with_fuel(names_lookup, 2);
    }
}

/// Whether no header is taken twice.
pub open spec fn names_distinct(entries: Seq<(Seq<char>, Seq<char>)>) -> bool {
    forall|i: int, j: int| 0 <= i < j < entries.len() ==> entries[i].0 != entries[j].0
}

proof fn lemma_lookup_none(entries: Seq<(Seq<char>, Seq<char>)>, key: Seq<char>)
    requires
        names_lookup(entries, key) is None,
    ensures
        forall|i: int| 0 <= i < entries.len() ==> (#[trigger] entries[i]).0 != key,
    decreases entries.len(),
{
    if entries.len() > 0 {
        lemma_lookup_none(entries.drop_first(), key);
        assert forall|i: int| 0 <= i < entries.len() implies (#[trigger] entries[i]).0 != key by {
            if i > 0 {
                assert(entries[i] == entries.drop_first()[i - 1]);
            }
        }
    }
}

impl View for HeaderNames {
    type V = Seq<(Seq<char>, Seq<char>)>;

    closed spec fn view(&self) -> Seq<(Seq<char>, Seq<char>)> {
        self.entries@.map_values(|e: (String, String)| (e.0@, e.1@))
    }
}

impl HeaderNames {
    /// Each header is taken once.
    #[verifier::type_invariant]
    spec fn taken_once(self) -> bool {
        names_distinct(self@)
    }

    /// No header taken yet.
    pub fn new() -> (h: Self)
        ensures
            h@ == Seq::<(Seq<char>, Seq<char>)>::empty(),
    {
        let h = HeaderNames { entries: Vec::new() };
        assert(h@ =~= Seq::<(Seq<char>, Seq<char>)>::empty());
        h
    }

    /// The written name under which `key` was taken, if it was.
    pub fn get(&self, key: &String) -> (v: Option<String>)
        ensures
            match v {
                Some(s) => names_lookup(self@, key@) == Some(s@),
                None => names_lookup(self@, key@) is None,
            },
    {
        let mut i: usize = 0;
        assert(self@.skip(0) =~= self@);
        while i < self.entries.len()
            invariant
                i <= self.entries.len(),
                names_lookup(self@, key@) == names_lookup(self@.skip(i as int), key@),
            decreases self.entries.len() - i,
        {
            assert(self@.skip(i as int)[0] == (self.entries@[i as int].0@, self.entries@[i as int].1@));
            assert(self@.skip(i as int).drop_first() =~= self@.skip(i + 1));
            if self.entries[i].0 == *key {
                return Some(self.entries[i].1.clone());
            }
            i = i + 1;
        }
        assert(self@.skip(i as int) =~= Seq::<(Seq<char>, Seq<char>)>::empty());
        None
    }

    /// Records that `key`, not taken yet, is taken under the written name
    /// `raw`; every header stays taken once.
    pub fn insert(&mut self, key: String, raw: String)
        requires
            names_lookup(old(self)@, key@) is None,
        ensures
            final(self)@ == old(self)@.push((key@, raw@)),
            names_distinct(final(self)@),
    {
        proof {
            use_type_invariant(&*self);
            lemma_lookup_none(self@, key@);
        }
        let ghost before = self@;
        let ghost k = key@;
        let ghost w = raw@;
        let mut entries: Vec<(String, String)> = Vec::new();
        std::mem::swap(&mut entries, &mut self.entries);
        entries.push((key, raw));
        let ghost after = entries@.map_values(|e: (String, String)| (e.0@, e.1@));
        assert(after =~= before.push((k, w)));
        self.entries = entries;
        assert(self@ =~= before.push((k, w)));
    }
}

/// Why a `#[header = ...]` attribute (the one at the given position among the
/// field's attributes) is refused.
#[derive(Clone, Debug, PartialEq, Eq)]
pub enum HeaderAttrError {
    /// The field already has a `header` attribute.
    MoreThanOne(usize),
    /// It is not written `#[header = ...]`.
    NotNameValue(usize),
    /// Its value is not a string literal.
    NotStrLiteral(usize),
    /// `http` does not accept the name.
    InvalidHeaderName(usize),
    /// Another field already took the same header; the name it was written as.
    Duplicate(usize, String),
}

/// The view of an error: its position and, for a duplicate, the name the
/// other field wrote.
pub open spec fn header_error_view(e: HeaderAttrError) -> (int, int, Seq<char>) {
    match e {
        HeaderAttrError::MoreThanOne(i) => (0, i as int, Seq::empty()),
        HeaderAttrError::NotNameValue(i) => (1, i as int, Seq::empty()),
        HeaderAttrError::NotStrLiteral(i) => (2, i as int, Seq::empty()),
        HeaderAttrError::InvalidHeaderName(i) => (3, i as int, Seq::empty()),
        HeaderAttrError::Duplicate(i, raw) => (4, i as int, raw@),
    }
}

/// What reading one attribute does to the scan state: the header found so
/// far, the names taken so far, and the errors so far.
pub open spec fn header_step(
    st: (Option<Seq<char>>, Seq<(Seq<char>, Seq<char>)>, Seq<(int, int, Seq<char>)>),
    a: Attr,
    idx: int,
) -> (Option<Seq<char>>, Seq<(Seq<char>, Seq<char>)>, Seq<(int, int, Seq<char>)>) {
    let (found, names, errors) = st;
    if !ident_is(a.ident, "header"@) {
        st
    } else if found is Some {
        (found, names, errors.push((0, idx, Seq::empty())))
    } else {
        match a.meta {
            AttrMeta::NameValue(AttrExpr::Lit(AttrLit::Str(raw))) => match header_name_of(raw@) {
                None => (found, names, errors.push((3, idx, Seq::empty()))),
                Some(name) => match names_lookup(names, name) {
                    None => (Some(name), names.push((name, raw@)), errors),
                    Some(existing) => (found, names, errors.push((4, idx, existing))),
                },
            },
            AttrMeta::NameValue(_) => (found, names, errors.push((2, idx, Seq::empty()))),
            _ => (found, names, errors.push((1, idx, Seq::empty()))),
        }
    }
}

/// The scan of a field's attributes for its header name.
pub open spec fn header_scan(attrs: Seq<Attr>, names: Seq<(Seq<char>, Seq<char>)>) -> (
    Option<Seq<char>>,
    Seq<(Seq<char>, Seq<char>)>,
    Seq<(int, int, Seq<char>)>,
)
    decreases attrs.len(),
{
    if attrs.len() == 0 {
        (None, names, Seq::empty())
    } else {
        header_step(header_scan(attrs.drop_last(), names), attrs.last(), attrs.len() - 1)
    }
}

/// Scanning a field's attributes keeps every name taken before, and a name
/// it finds was not taken before and is taken after.
pub proof fn lemma_header_scan_fresh(attrs: Seq<Attr>, names: Seq<(Seq<char>, Seq<char>)>)
    ensures
        forall|x: Seq<char>| #[trigger] names_lookup(names, x) is Some ==> names_lookup(header_scan(attrs, names).1, x) is Some,
        header_scan(attrs, names).0 matches Some(n) ==> names_lookup(names, n) is None && names_lookup(header_scan(attrs, names).1, n) is Some,
    decreases attrs.len(),
{
    if attrs.len() > 0 {
        let prev = header_scan(attrs.drop_last(), names);
        lemma_header_scan_fresh(attrs.drop_last(), names);
        let a = attrs.last();
        if ident_is(a.ident, "header"@) && prev.0 is None {
            if let AttrMeta::NameValue(AttrExpr::Lit(AttrLit::Str(raw))) = a.meta {
                if let Some(name) = header_name_of(raw@) {
                    if names_lookup(prev.1, name) is None {
                        assert forall|x: Seq<char>| #[trigger] names_lookup(prev.1, x) is Some implies
                            names_lookup(prev.1.push((name, raw@)), x) is Some by {
                            lemma_lookup_push(prev.1, x, (name, raw@));
                        }
                        lemma_lookup_push(prev.1, name, (name, raw@));
                    }
                }
            }
        }
    }
}

/// The normalized header name of a field, from its `#[header = "..."]`
/// attribute. `header_names` holds the names that earlier fields took; a name
/// that is accepted is added to it. All refusals are reported.
pub fn extract_header_name(attrs: &Vec<Attr>, header_names: &mut HeaderNames) -> (r: Result<Option<String>, Vec<HeaderAttrError>>)
    requires
        attrs.len() < usize::MAX,
    ensures
        final(header_names)@ == header_scan(attrs@, old(header_names)@).1,
        match r {
            Ok(found) => header_scan(attrs@, old(header_names)@).2.len() == 0
                && match found {
                    Some(n) => header_scan(attrs@, old(header_names)@).0 == Some(n@),
                    None => header_scan(attrs@, old(header_names)@).0 is None,
                },
            Err(errors) => header_scan(attrs@, old(header_names)@).2.len() > 0
                && errors@.map_values(|e: HeaderAttrError| header_error_view(e)) == header_scan(attrs@, old(header_names)@).2,
        },
{
    let ghost start = header_names@;
    let mut errors: Vec<HeaderAttrError> = Vec::new();
    let mut found: Option<String> = None;
    let mut i: usize = 0;
    while i < attrs.len()
        invariant
            i <= attrs.len(),
            ({
                let st = header_scan(attrs@.take(i as int), start);
                &&& match found {
                    Some(n) => st.0 == Some(n@),
                    None => st.0 is None,
                }
                &&& header_names@ == st.1
                &&& errors@.map_values(|e: HeaderAttrError| header_error_view(e)) == st.2
            }),
        decreases attrs.len() - i,
    {
        let a = &attrs[i];
        assert(attrs@.take(i + 1).drop_last() =~= attrs@.take(i as int));
        let ghost before = errors@;
        if is_ident(&a.ident, "header") {
            if found.is_some() {
                errors.push(HeaderAttrError::MoreThanOne(i));
            } else {
                match &a.meta {
                    AttrMeta::NameValue(AttrExpr::Lit(AttrLit::Str(raw))) => {
                        match normalize_header_name(raw.as_str()) {
                            None => {
                                errors.push(HeaderAttrError::InvalidHeaderName(i));
                            },
                            Some(name) => {
                                match header_names.get(&name) {
                                    None => {
                                        proof {
                                            lemma_lookup_push(header_names@, name@, (name@, raw@));
                                        }
                                        header_names.insert(name.clone(), raw.clone());
                                        found = Some(name);
                                    },
                                    Some(existing) => {
                                        errors.push(HeaderAttrError::Duplicate(i, existing));
                                    },
                                }
                            },
                        }
                    },
                    AttrMeta::NameValue(_) => {
                        errors.push(HeaderAttrError::NotStrLiteral(i));
                    },
                    _ => {
                        errors.push(HeaderAttrError::NotNameValue(i));
                    },
                }
            }
        }
        assert(errors@.map_values(|e: HeaderAttrError| header_error_view(e)) =~= header_scan(attrs@.take(i + 1), start).2);
        i = i + 1;
    }
    assert(attrs@.take(attrs.len() as int) =~= attrs@);
    if errors.len() > 0 {
        Err(errors)
    } else {
        Ok(found)
    }
}

} // verus!
