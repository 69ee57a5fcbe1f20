//! Descriptions taken from doc comments (`#[doc = "..."]` attributes).

use vstd::prelude::*;
use crate::attr::{is_ident, ident_is, Attr, AttrExpr, AttrLit, AttrMeta};
use crate::text::{push_char, push_str, trim, trimmed};

verus! {

/// The text of a doc attribute, if `a` is one.
pub open spec fn doc_text(a: Attr) -> Option<Seq<char>> {
    if ident_is(a.ident, "doc"@) {
        match a.meta {
            AttrMeta::NameValue(AttrExpr::Lit(AttrLit::Str(d))) => Some(d@),
            _ => None,
        }
    } else {
        None
    }
}

/// The description made of the doc attributes among `attrs`: each one's
/// text trimmed, joined by line breaks.
pub open spec fn description_of(attrs: Seq<Attr>) -> Seq<char>
    decreases attrs.len(),
{
    if attrs.len() == 0 {
        Seq::empty()
    } else {
        let before = description_of(attrs.drop_last());
        match doc_text(attrs.last()) {
            Some(d) => if before.len() == 0 {
                trimmed(d)
            } else {
                before.push('\n') + trimmed(d)
            },
            None => before,
        }
    }
}

fn doc_text_of(a: &Attr) -> (d: Option<&String>)
    ensures
        match d {
            Some(s) => doc_text(*a) == Some(s@),
            None => doc_text(*a) is None,
        },
{
    if !is_ident(&a.ident, "doc") {
        return None;
    }
    match &a.meta {
        AttrMeta::NameValue(AttrExpr::Lit(AttrLit::Str(d))) => Some(d),
        _ => None,
    }
}

/// The description written in the doc comments among `attrs`: the text of
/// each doc attribute, trimmed, one per line.
pub fn extract_description(attrs: &Vec<Attr>) -> (docs: String)
    ensures
        docs@ == description_of(attrs@),
{
    let mut docs = String::new();
    let mut i: usize = 0;
    while i < attrs.len()
        invariant
            i <= attrs.len(),
            docs@ == description_of(attrs@.take(i as int)),
        decreases attrs.len() - i,
    {
        let a = &attrs[i];
        assert(attrs@.take(i + 1).drop_last() =~= attrs@.take(i as int));
        match doc_text_of(a) {
            Some(d) => {
                let t = trim(d.as_str());
                if docs.unicode_len() != 0 {
                    push_char(&mut docs, '\n');
                }
                push_str(&mut docs, t);
            },
            None => {},
        }
        i = i + 1;
    }
    assert(attrs@.take(attrs.len() as int) =~= attrs@);
    docs
}

/// Whether `"\n\n"` starts at position `i` of `s`.
pub open spec fn blank_line_at(s: Seq<char>, i: int) -> bool {
    0 <= i && i + 1 < s.len() && s[i] == '\n' && s[i + 1] == '\n'
}

/// The summary and description of a doc text: the text up to the first blank
/// line and the text after it, or the whole text and nothing when there is no
/// blank line.
pub open spec fn summary_and_description(docs: Seq<char>) -> (Seq<char>, Seq<char>) {
    if exists|i: int| blank_line_at(docs, i) {
        let i = choose|i: int| blank_line_at(docs, i) && forall|k: int| 0 <= k < i ==> !blank_line_at(docs, k);
        (docs.subrange(0, i), docs.subrange(i + 2, docs.len() as int))
    } else {
        (docs, Seq::empty())
    }
}

/// The summary never holds a blank line; with no blank line in the text the
/// summary is the whole text and the description is empty; otherwise the
/// summary, a blank line and the description make up the text again.
pub proof fn lemma_summary_split(docs: Seq<char>)
    ensures
        forall|k: int| !blank_line_at(summary_and_description(docs).0, k),
        (forall|k: int| !blank_line_at(docs, k)) ==> summary_and_description(docs) == (docs, Seq::<char>::empty()),
        (exists|k: int| blank_line_at(docs, k)) ==> summary_and_description(docs).0 + seq!['\n', '\n'] + summary_and_description(docs).1 == docs,
{
    if exists|i: int| blank_line_at(docs, i) {
        let w = choose|i: int| blank_line_at(docs, i);
        lemma_first_blank_line(docs, w);
        let i = choose|i: int| blank_line_at(docs, i) && forall|k: int| 0 <= k < i ==> !blank_line_at(docs, k);
        let summary = docs.subrange(0, i);
        assert forall|k: int| !blank_line_at(summary, k) by {
            if blank_line_at(summary, k) {
                assert(summary[k] == docs[k] && summary[k + 1] == docs[k + 1]);
                assert(blank_line_at(docs, k));
            }
        }
        assert(summary + seq!['\n', '\n'] + docs.subrange(i + 2, docs.len() as int) =~= docs);
    }
}

/// A text with a blank line has a first one.
proof fn lemma_first_blank_line(docs: Seq<char>, w: int)
    requires
        blank_line_at(docs, w),
    ensures
        exists|i: int| blank_line_at(docs, i) && forall|k: int| 0 <= k < i ==> !blank_line_at(docs, k),
    decreases w,
{
    if exists|k: int| 0 <= k < w && blank_line_at(docs, k) {
        let k = choose|k: int| 0 <= k < w && blank_line_at(docs, k);
        lemma_first_blank_line(docs, k);
    } else {
        assert(forall|k: int| 0 <= k < w ==> !blank_line_at(docs, k));
    }
}

/// Splits a doc text at its first blank line into summary and description.
pub fn split_summary(docs: &str) -> (parts: (String, String))
    ensures
        parts.0@ == summary_and_description(docs@).0,
        parts.1@ == summary_and_description(docs@).1,
        forall|k: int| !blank_line_at(parts.0@, k),
        (forall|k: int| !blank_line_at(docs@, k)) ==> parts.0@ == docs@ && parts.1@.len() == 0,
        (exists|k: int| blank_line_at(docs@, k)) ==> parts.0@ + seq!['\n', '\n'] + parts.1@ == docs@,
{
    proof {
        lemma_summary_split(docs@);
    }
    let n = docs.unicode_len();
    let mut i: usize = 0;
    while i < n && i + 1 < n
        invariant
            n == docs@.len(),
            i <= n,
            forall|k: int| 0 <= k < i ==> !blank_line_at(docs@, k),
        decreases n - i,
    {
        if docs.get_char(i) == '\n' && docs.get_char(i + 1) == '\n' {
            assert(blank_line_at(docs@, i as int));
            let ghost first = choose|j: int| blank_line_at(docs@, j) && forall|k: int| 0 <= k < j ==> !blank_line_at(docs@, k);
            assert(first == i) by {
                if first < i {
                    assert(!blank_line_at(docs@, first));
                } else if first > i {
                    assert(!blank_line_at(docs@, i as int));
                }
            }
            let summary = String::from_str(docs.substring_char(0, i));
            let description = String::from_str(docs.substring_char(i + 2, n));
            proof {
                lemma_summary_split(docs@);
            }
            return (summary, description);
        }
        i = i + 1;
    }
    assert forall|k: int| !blank_line_at(docs@, k) by {
        if blank_line_at(docs@, k) {
            assert(k < i);
        }
    }
    (String::from_str(docs), String::new())
}

/// The summary and description of an operation, from its doc comments.
pub fn extract_summary_and_description(attrs: &Vec<Attr>) -> (parts: (String, String))
    ensures
        description_of(attrs@).len() == 0 ==> parts.0@.len() == 0 && parts.1@.len() == 0,
        description_of(attrs@).len() > 0 ==> {
            &&& parts.0@ == summary_and_description(description_of(attrs@)).0
            &&& parts.1@ == summary_and_description(description_of(attrs@)).1
        },
{
    let docs = extract_description(attrs);
    if docs.unicode_len() == 0 {
        return (String::new(), String::new());
    }
    split_summary(docs.as_str())
}

/// The attributes that are not doc attributes, in order.
pub open spec fn without_docs(attrs: Seq<Attr>) -> Seq<Attr>
    decreases attrs.len(),
{
    if attrs.len() == 0 {
        Seq::empty()
    } else {
        let before = without_docs(attrs.drop_last());
        if ident_is(attrs.last().ident, "doc"@) {
            before
        } else {
            before.push(attrs.last())
        }
    }
}

/// Removing the doc attributes leaves no doc attribute and keeps every
/// other attribute, in order: the kept ones are exactly the others.
pub proof fn lemma_without_docs(attrs: Seq<Attr>)
    ensures
        forall|i: int| 0 <= i < without_docs(attrs).len() ==> !ident_is((#[trigger] without_docs(attrs)[i]).ident, "doc"@),
        without_docs(attrs).len() <= attrs.len(),
        (forall|i: int| 0 <= i < attrs.len() ==> !ident_is((#[trigger] attrs[i]).ident, "doc"@)) ==> without_docs(attrs) == attrs,
    decreases attrs.len(),
{
    if attrs.len() > 0 {
        let front = attrs.drop_last();
        lemma_without_docs(front);
        let w = without_docs(attrs);
        let wf = without_docs(front);
        assert forall|i: int| 0 <= i < w.len() implies !ident_is((#[trigger] w[i]).ident, "doc"@) by {
            if i < wf.len() {
                assert(w[i] == wf[i]);
            }
        }
        if forall|i: int| 0 <= i < attrs.len() ==> !ident_is((#[trigger] attrs[i]).ident, "doc"@) {
            assert forall|i: int| 0 <= i < front.len() implies !ident_is((#[trigger] front[i]).ident, "doc"@) by {
                assert(front[i] == attrs[i]);
            }
            assert(!ident_is(attrs[attrs.len() - 1].ident, "doc"@));
            assert(front.push(attrs.last()) =~= attrs);
        }
    }
}

/// Removes the doc attributes, keeping the others in order.
pub fn remove_description(attrs: &mut Vec<Attr>)
    ensures
        final(attrs)@ == without_docs(old(attrs)@),
{
    let ghost orig = attrs@;
    let mut rest: Vec<Attr> = Vec::new();
    std::mem::swap(&mut rest, attrs);
    let n = rest.len();
    let mut kept: Vec<Attr> = Vec::new();
    let mut i: usize = 0;
    while i < n
        invariant
            n == orig.len(),
            i <= n,
            rest@ == orig.skip(i as int),
            kept@ == without_docs(orig.take(i as int)),
        decreases n - i,
    {
        let a = rest.remove(0);
        assert(a == orig[i as int]);
        assert(orig.take(i + 1).drop_last() =~= orig.take(i as int));
        assert(orig.take(i + 1).last() == orig[i as int]);
        if !is_ident(&a.ident, "doc") {
            kept.push(a);
        }
        i = i + 1;
        assert(rest@ =~= orig.skip(i as int));
    }
    assert(orig.take(n as int) =~= orig);
    *attrs = kept;
}

} // verus!
