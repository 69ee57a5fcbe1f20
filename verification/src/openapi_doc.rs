//! The pieces of an OpenAPI document that requests and responses describe
//! themselves with: media types, headers, responses, parameters and request
//! bodies; and how the responses of several sources are merged.

use vstd::prelude::*;
use std::collections::BTreeMap;
use crate::ordered_map::{extended, lemma_extended_keeps_added, lemma_extended_names, names_of, unique_names, OrderedMap};
use crate::schema::SchemaRef;

verus! {

/// An OpenAPI link object, carried through as `openapiv3` gives it.
#[verifier::external_type_specification]
#[verifier::external_body]
pub struct ExLink(openapiv3::Link);

/// A JSON value of a specification extension, carried through as
/// `serde_json` gives it.
#[verifier::external_type_specification]
#[verifier::external_body]
pub struct ExJsonValue(serde_json::Value);

/// An object in place, or a reference to one in the components.
pub enum RefOr<T> {
    Reference(String),
    Item(T),
}

/// A media type of a body: the schema of its content.
pub struct MediaTypeDoc {
    pub schema: Option<SchemaRef>,
}

/// A header of a response.
pub struct HeaderDoc {
    pub description: Option<String>,
    pub required: bool,
    pub schema: SchemaRef,
}

/// A response: its description, headers, content by media type, links and
/// extensions, each map in the order its names were first inserted.
pub struct ResponseDoc {
    pub description: String,
    pub headers: OrderedMap<HeaderDoc>,
    pub content: OrderedMap<MediaTypeDoc>,
    pub links: OrderedMap<RefOr<openapiv3::Link>>,
    pub extensions: OrderedMap<serde_json::Value>,
}

/// A response as the document shows it.
pub struct ResponseView {
    pub description: Seq<char>,
    pub headers: Seq<(Seq<char>, HeaderDoc)>,
    pub content: Seq<(Seq<char>, MediaTypeDoc)>,
    pub links: Seq<(Seq<char>, RefOr<openapiv3::Link>)>,
    pub extensions: Seq<(Seq<char>, serde_json::Value)>,
}

impl ResponseDoc {
    /// Every map of the response holds each name once.
    pub open spec fn wf(&self) -> bool {
        &&& self.headers.wf()
        &&& self.content.wf()
        &&& self.links.wf()
        &&& self.extensions.wf()
    }

    pub open spec fn view_doc(&self) -> ResponseView {
        ResponseView {
            description: self.description@,
            headers: self.headers.entries(),
            content: self.content.entries(),
            links: self.links.entries(),
            extensions: self.extensions.entries(),
        }
    }

    /// A response with this description and nothing else.
    pub fn new(description: String) -> (r: Self)
        ensures
            r.wf(),
            r.view_doc().description == description@,
            r.view_doc().headers.len() == 0,
            r.view_doc().content.len() == 0,
            r.view_doc().links.len() == 0,
            r.view_doc().extensions.len() == 0,
    {
        let headers = OrderedMap::new();
        let content = OrderedMap::new();
        let links = OrderedMap::new();
        let extensions = OrderedMap::new();
        ResponseDoc { description, headers, content, links, extensions }
    }
}

/// A response with the headers, content, links and extensions of `n` added
/// to those of `o`; the description stays that of `o`.
pub open spec fn merged_view(o: ResponseView, n: ResponseView) -> ResponseView {
    ResponseView {
        description: o.description,
        headers: extended(o.headers, n.headers),
        content: extended(o.content, n.content),
        links: extended(o.links, n.links),
        extensions: extended(o.extensions, n.extensions),
    }
}

/// The responses by status after merging `new` into `old`: a status of
/// both gets the merged response, any other keeps the one it has.
pub open spec fn merged_responses(old: Map<u16, ResponseView>, new: Map<u16, ResponseView>) -> Map<u16, ResponseView> {
    Map::new(
        |k: u16| old.contains_key(k) || new.contains_key(k),
        |k: u16| if new.contains_key(k) {
            if old.contains_key(k) {
                merged_view(old[k], new[k])
            } else {
                new[k]
            }
        } else {
            old[k]
        },
    )
}

/// Merging keeps every status of both sides and adds no other; merging in
/// nothing changes nothing, and merging into nothing gives what was merged in.
pub proof fn lemma_merged_statuses(old: Map<u16, ResponseView>, new: Map<u16, ResponseView>)
    ensures
        merged_responses(old, new).dom() == old.dom().union(new.dom()),
        merged_responses(old, Map::empty()) == old,
        merged_responses(Map::empty(), new) == new,
{
    assert(merged_responses(old, new).dom() =~= old.dom().union(new.dom()));
    assert(merged_responses(old, Map::empty()) =~= old);
    assert(merged_responses(Map::empty(), new) =~= new);
}

/// A merged response keeps its description; each of its headers, content,
/// links and extensions keeps the names it had, in place, and gains those of
/// the response merged in, whose entries it then holds name for name.
pub proof fn lemma_merged_view_names(o: ResponseView, n: ResponseView)
    requires
        unique_names(n.headers),
        unique_names(n.content),
        unique_names(n.links),
        unique_names(n.extensions),
    ensures
        merged_view(o, n).description == o.description,
        names_of(merged_view(o, n).headers) == names_of(o.headers).union(names_of(n.headers)),
        names_of(merged_view(o, n).content) == names_of(o.content).union(names_of(n.content)),
        names_of(merged_view(o, n).links) == names_of(o.links).union(names_of(n.links)),
        names_of(merged_view(o, n).extensions) == names_of(o.extensions).union(names_of(n.extensions)),
        forall|i: int| 0 <= i < o.headers.len() ==> (#[trigger] merged_view(o, n).headers[i]).0 == o.headers[i].0,
        forall|i: int| 0 <= i < o.content.len() ==> (#[trigger] merged_view(o, n).content[i]).0 == o.content[i].0,
        forall|j: int| 0 <= j < n.headers.len() ==> merged_view(o, n).headers.contains(#[trigger] n.headers[j]),
        forall|j: int| 0 <= j < n.content.len() ==> merged_view(o, n).content.contains(#[trigger] n.content[j]),
        forall|j: int| 0 <= j < n.links.len() ==> merged_view(o, n).links.contains(#[trigger] n.links[j]),
        forall|j: int| 0 <= j < n.extensions.len() ==> merged_view(o, n).extensions.contains(#[trigger] n.extensions[j]),
{
    lemma_extended_names(o.headers, n.headers);
    lemma_extended_names(o.content, n.content);
    lemma_extended_names(o.links, n.links);
    lemma_extended_names(o.extensions, n.extensions);
    lemma_extended_keeps_added(o.headers, n.headers);
    lemma_extended_keeps_added(o.content, n.content);
    lemma_extended_keeps_added(o.links, n.links);
    lemma_extended_keeps_added(o.extensions, n.extensions);
}

/// The responses by status, as the document shows them.
pub open spec fn response_views(m: Map<u16, ResponseDoc>) -> Map<u16, ResponseView> {
    m.map_values(|r: ResponseDoc| r.view_doc())
}

/// Every response holds each name once in each of its maps.
pub open spec fn responses_wf(m: Map<u16, ResponseDoc>) -> bool {
    forall|k: u16| m.contains_key(k) ==> (#[trigger] m[k]).wf()
}

fn merge_into(o: &mut ResponseDoc, n: ResponseDoc)
    requires
        old(o).wf(),
    ensures
        final(o).wf(),
        final(o).view_doc() == merged_view(old(o).view_doc(), n.view_doc()),
{
    let ResponseDoc { description: _, headers, content, links, extensions } = n;
    o.headers.extend(headers);
    o.content.extend(content);
    o.links.extend(links);
    o.extensions.extend(extensions);
}

/// Merges the responses of `new` into `existing`: a status that only `new`
/// has is added; for a status that both have, the headers, content, links
/// and extensions of the new response are added to the existing one, a
/// name that is already there getting the new value in place.
pub fn merge_responses(existing: &mut BTreeMap<u16, ResponseDoc>, new: BTreeMap<u16, ResponseDoc>)
    requires
        responses_wf(old(existing)@),
        responses_wf(new@),
    ensures
        responses_wf(final(existing)@),
        response_views(final(existing)@) == merged_responses(response_views(old(existing)@), response_views(new@)),
{
    let ghost old0 = response_views(existing@);
    let ghost new0 = new@;
    let mut keys: Vec<u16> = Vec::new();
    for k in it: new.keys()
        invariant
            it.seq().unref().to_set() == new0.dom(),
            it.seq().unref().no_duplicates(),
            keys@ == it.seq().unref().take(it.index()),
            it.index() == it.seq().len() ==> keys@.to_set() == new0.dom() && keys@.no_duplicates(),
    {
        keys.push(*k);
        assert(keys@ =~= it.seq().unref().take(it.index() + 1));
        assert(it.seq().unref().take(it.seq().len() as int) =~= it.seq().unref());
    }
    assert(keys@.to_set() == new0.dom());
    assert(keys@.no_duplicates());
    let mut rest = new;
    let mut i: usize = 0;
    while i < keys.len()
        invariant
            i <= keys.len(),
            keys@.to_set() == new0.dom(),
            keys@.no_duplicates(),
            responses_wf(new0),
            responses_wf(existing@),
            rest@ == new0.remove_keys(keys@.take(i as int).to_set()),
            response_views(existing@) == merged_responses(old0, response_views(new0).restrict(keys@.take(i as int).to_set())),
        decreases keys.len() - i,
    {
        let k = keys[i];
        let ghost done = keys@.take(i as int).to_set();
        assert(keys@.take(i + 1).to_set() == done.insert(k)) by {
            assert(keys@.take(i + 1) =~= keys@.take(i as int).push(k));
            keys@.take(i as int).lemma_push_to_set_commute(k);
        }
        assert(!done.contains(k)) by {
            if done.contains(k) {
                let j = choose|j: int| 0 <= j < i && keys@.take(i as int)[j] == k;
                assert(keys@[j] == keys@[i as int]);
            }
        }
        assert(new0.contains_key(k)) by {
            assert(keys@.contains(k)) by {
                assert(keys@[i as int] == k);
            }
        }
        let taken = rest.remove(&k);
        let n = match taken {
            Some(n) => n,
            None => {
                assert(false);
                return;
            },
        };
        assert(n == new0[k]);
        let ghost before = existing@;
        let ghost nv = response_views(new0);
        let ghost target = merged_responses(old0, nv.restrict(done.insert(k)));
        let ghost prior = merged_responses(old0, nv.restrict(done));
        assert(!nv.restrict(done).contains_key(k));
        assert(nv.restrict(done.insert(k)).contains_key(k));
        let found = existing.remove(&k);
        match found {
            Some(o) => {
                let mut o = o;
                assert(o == before[k]);
                assert(response_views(before).contains_key(k));
                assert(prior.contains_key(k));
                assert(old0.contains_key(k));
                assert(prior[k] == old0[k]);
                assert(o.view_doc() == old0[k]);
                merge_into(&mut o, n);
                existing.insert(k, o);
                assert(response_views(existing@)[k] == target[k]);
            },
            None => {
                assert(!response_views(before).contains_key(k));
                assert(!old0.contains_key(k));
                existing.insert(k, n);
                assert(response_views(existing@)[k] == target[k]);
            },
        }
        proof {
            let ghost after = response_views(existing@);
            assert(after.contains_key(k) && target.contains_key(k) && after[k] == target[k]);
            assert forall|j: u16| #[trigger] after.dom().contains(j) == target.dom().contains(j) by {
                if j != k {
                    assert(existing@.contains_key(j) == before.contains_key(j));
                    assert(response_views(existing@).contains_key(j) == response_views(before).contains_key(j));
                    assert(nv.restrict(done.insert(k)).contains_key(j) == nv.restrict(done).contains_key(j));
                    assert(target.contains_key(j) == prior.contains_key(j));
                }
            }
            assert forall|j: u16| #[trigger] after.dom().contains(j) implies after[j] == target[j] by {
                if j != k {
                    assert(existing@[j] == before[j]);
                    assert(nv.restrict(done.insert(k)).contains_key(j) == nv.restrict(done).contains_key(j));
                    assert(target[j] == prior[j]);
                }
            }
            assert(response_views(existing@) =~= target);
            assert(rest@ =~= new0.remove_keys(done.insert(k)));
        }
        i = i + 1;
    }
    proof {
        assert(keys@.take(keys@.len() as int) =~= keys@);
        assert(response_views(new0).restrict(keys@.to_set()) =~= response_views(new0));
    }
}

} // verus!
