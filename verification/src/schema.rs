//! OpenAPI schemas of Rust types: a model of the schema objects, the
//! registry of named schemas that references point into, and the
//! `ToSchema` trait with its implementations for standard types.

use vstd::prelude::*;
use std::collections::{BTreeMap, BTreeSet};
use crate::text::{decimal, dotted, push_decimal, push_str, replace_path_separators};

verus! {

/// The `format` of a schema: absent, or a named format.
pub enum Format {
    Empty,
    Named(String),
}

/// A schema, or a reference to a named one.
pub enum SchemaRef {
    /// `#/components/schemas/{key}`
    Reference(String),
    Item(Box<Schema>),
}

/// The properties of an object schema.
pub struct ObjectType {
    pub properties: Vec<(String, SchemaRef)>,
    pub required: Vec<String>,
    pub additional_properties: Option<Box<SchemaRef>>,
}

/// What kind of value a schema describes.
pub enum SchemaKind {
    Boolean,
    Integer { format: Format, minimum: Option<i64>, maximum: Option<i64> },
    Number { format: Format },
    Str { format: Format, min_length: Option<usize>, max_length: Option<usize>, enumeration: Vec<String> },
    Array { items: Box<SchemaRef>, min_items: Option<usize>, max_items: Option<usize>, unique_items: bool },
    Object(ObjectType),
    OneOf(Vec<SchemaRef>),
    /// Any value, with an optional type, format and a schema it must not match.
    Any { typ: Option<String>, format: Option<String>, not: Option<Box<SchemaRef>> },
}

/// A schema object.
pub struct Schema {
    pub title: Option<String>,
    pub description: Option<String>,
    pub nullable: bool,
    pub kind: SchemaKind,
}

/// The reference to the schema registered under `key`.
pub open spec fn reference_path(key: Seq<char>) -> Seq<char> {
    "#/components/schemas/"@ + key
}

/// Every reference lies under `#/components/schemas/`, and different keys
/// give different references.
pub proof fn lemma_reference_paths(a: Seq<char>, b: Seq<char>)
    ensures
        reference_path(a).subrange(0, 21) == "#/components/schemas/"@,
        reference_path(a).subrange(21, reference_path(a).len() as int) == a,
        a != b ==> reference_path(a) != reference_path(b),
{
    reveal_strlit("#/components/schemas/");
    let p = "#/components/schemas/"@;
    assert(reference_path(a).subrange(0, 21) =~= p);
    assert(reference_path(a).subrange(21, reference_path(a).len() as int) =~= a);
    assert(reference_path(b).subrange(21, reference_path(b).len() as int) =~= b);
}

/// The reference text to the schema registered under `key`.
pub fn reference_to(key: &String) -> (r: String)
    ensures
        r@ == reference_path(key@),
{
    let mut r = String::from_str("#/components/schemas/");
    push_str(&mut r, key.as_str());
    proof {
        reveal_strlit("#/components/schemas/");
    }
    r
}

/// The named schemas of a document, and the keys of the schemas being built
/// (outermost first) while a type's schema refers to itself.
pub struct SchemaRegistry {
    schemas: Vec<(String, Schema)>,
    in_progress: Vec<String>,
}

impl SchemaRegistry {
    /// The keys registered, in the order they were registered.
    pub closed spec fn keys(&self) -> Seq<Seq<char>> {
        self.schemas@.map_values(|e: (String, Schema)| e.0@)
    }

    /// The keys of the schemas being built, outermost first.
    pub closed spec fn progress(&self) -> Seq<Seq<char>> {
        self.in_progress@.map_values(|k: String| k@)
    }

    /// The schema registered at position `i`.
    pub closed spec fn schema_at(&self, i: int) -> Schema {
        self.schemas@[i].1
    }

    /// Keys are registered once, built once at a time, and a key being built
    /// is not registered.
    pub open spec fn wf(&self) -> bool {
        &&& self.keys().no_duplicates()
        &&& self.progress().no_duplicates()
        &&& forall|k: Seq<char>| self.progress().contains(k) ==> !self.keys().contains(k)
    }

    /// An empty registry.
    pub fn new() -> (r: Self)
        ensures
            r.wf(),
            r.keys() == Seq::<Seq<char>>::empty(),
            r.progress() == Seq::<Seq<char>>::empty(),
    {
        let r = SchemaRegistry { schemas: Vec::new(), in_progress: Vec::new() };
        assert(r.keys() =~= Seq::<Seq<char>>::empty());
        assert(r.progress() =~= Seq::<Seq<char>>::empty());
        r
    }

    /// Whether a schema is registered under `key`.
    pub fn contains(&self, key: &String) -> (b: bool)
        ensures
            b == self.keys().contains(key@),
    {
        let mut i: usize = 0;
        while i < self.schemas.len()
            invariant
                i <= self.schemas.len(),
                forall|k: int| 0 <= k < i ==> self.keys()[k] != key@,
            decreases self.schemas.len() - i,
        {
            if self.schemas[i].0 == *key {
                assert(self.keys()[i as int] == key@);
                return true;
            }
            i = i + 1;
        }
        false
    }

    /// Whether the schema of `key` is being built.
    pub fn is_in_progress(&self, key: &String) -> (b: bool)
        ensures
            b == self.progress().contains(key@),
    {
        let mut i: usize = 0;
        while i < self.in_progress.len()
            invariant
                i <= self.in_progress.len(),
                forall|k: int| 0 <= k < i ==> self.progress()[k] != key@,
            decreases self.in_progress.len() - i,
        {
            if self.in_progress[i] == *key {
                assert(self.progress()[i as int] == key@);
                return true;
            }
            i = i + 1;
        }
        false
    }

    /// Marks the schema of `key` as being built.
    pub fn begin(&mut self, key: String)
        requires
            old(self).wf(),
            !old(self).keys().contains(key@),
            !old(self).progress().contains(key@),
        ensures
            final(self).wf(),
            final(self).keys() == old(self).keys(),
            final(self).progress() == old(self).progress().push(key@),
            forall|i: int| 0 <= i < final(self).keys().len() ==> final(self).schema_at(i) == old(self).schema_at(i),
    {
        let ghost k = key@;
        self.in_progress.push(key);
        assert(self.progress() =~= old(self).progress().push(k));
        assert(self.keys() =~= old(self).keys());
    }

    /// Registers the schema of the key most recently marked as being built.
    pub fn finish(&mut self, schema: Schema)
        requires
            old(self).wf(),
            old(self).progress().len() > 0,
        ensures
            final(self).wf(),
            final(self).keys() == old(self).keys().push(old(self).progress().last()),
            final(self).schema_at(old(self).keys().len() as int) == schema,
            final(self).progress() == old(self).progress().drop_last(),
            forall|i: int| 0 <= i < old(self).keys().len() ==> final(self).schema_at(i) == old(self).schema_at(i),
    {
        let key = self.in_progress.pop().unwrap();
        let ghost k = key@;
        self.schemas.push((key, schema));
        assert(self.progress() =~= old(self).progress().drop_last());
        assert(self.keys() =~= old(self).keys().push(k));
        assert(old(self).progress().contains(k)) by {
            assert(old(self).progress()[old(self).progress().len() - 1] == k);
        }
        assert forall|x: Seq<char>| self.progress().contains(x) implies !self.keys().contains(x) by {
            if self.progress().contains(x) {
                let i = choose|i: int| 0 <= i < self.progress().len() && self.progress()[i] == x;
                assert(old(self).progress()[i] == x);
                assert(old(self).progress().contains(x));
                if x == k {
                    assert(old(self).progress()[old(self).progress().len() - 1] == k);
                    assert(i != old(self).progress().len() - 1);
                }
                if self.keys().contains(x) {
                    let j = choose|j: int| 0 <= j < self.keys().len() && self.keys()[j] == x;
                    if j < old(self).keys().len() {
                        assert(old(self).keys()[j] == x);
                    }
                }
            }
        }
    }

    /// The registered schemas, in the order they were registered.
    pub fn into_schemas(self) -> (s: Vec<(String, Schema)>)
        ensures
            s@.map_values(|e: (String, Schema)| e.0@) == self.keys(),
            forall|i: int| 0 <= i < s@.len() ==> #[trigger] s@[i].1 == self.schema_at(i),
    {
        self.schemas
    }
}

/// How a registry may change while a schema is built: registered schemas stay,
/// more may be added, and the schemas being built are the same after.
pub open spec fn registry_grows(before: SchemaRegistry, after: SchemaRegistry) -> bool {
    &&& after.wf()
    &&& after.progress() == before.progress()
    &&& after.keys().len() >= before.keys().len()
    &&& after.keys().subrange(0, before.keys().len() as int) == before.keys()
    &&& forall|i: int| 0 <= i < before.keys().len() ==> after.schema_at(i) == before.schema_at(i)
}

/// How a registry changes when the schema of `key` starts being built:
/// nothing else changes, and `key` is the innermost schema being built.
pub open spec fn began(before: SchemaRegistry, after: SchemaRegistry, key: Seq<char>) -> bool {
    &&& after.wf()
    &&& after.keys() == before.keys()
    &&& after.progress() == before.progress().push(key)
    &&& forall|i: int| 0 <= i < after.keys().len() ==> after.schema_at(i) == before.schema_at(i)
}

/// Whether `r` is a reference to the schema registered under `key`.
pub open spec fn refers_to(r: SchemaRef, key: Seq<char>) -> bool {
    r matches SchemaRef::Reference(path) && path@ == reference_path(key)
}

/// Whether a reference can be followed in a registry: to a registered
/// schema, or to one being built.
pub open spec fn resolves(r: SchemaRef, reg: SchemaRegistry) -> bool {
    match r {
        SchemaRef::Reference(path) => exists|k: Seq<char>|
            path@ == reference_path(k) && (reg.keys().contains(k) || reg.progress().contains(k)),
        SchemaRef::Item(_) => true,
    }
}

/// The key of a type's schema from the name the compiler gives the type:
/// the path with `::` written as `.`.
pub fn key_from_type_name(name: &str) -> (k: String)
    ensures
        k@ == dotted(name@),
{
    replace_path_separators(name)
}

/// A well-formed registry grows from itself.
pub proof fn lemma_grows_reflexive(r: SchemaRegistry)
    requires
        r.wf(),
    ensures
        registry_grows(r, r),
{
    assert(r.keys().subrange(0, r.keys().len() as int) =~= r.keys());
}

/// A reference that resolves in a registry still resolves after it grows.
pub proof fn lemma_resolves_kept(r: SchemaRef, a: SchemaRegistry, b: SchemaRegistry)
    requires
        resolves(r, a),
        registry_grows(a, b),
    ensures
        resolves(r, b),
{
    if let SchemaRef::Reference(path) = r {
        let k = choose|k: Seq<char>| path@ == reference_path(k) && (a.keys().contains(k) || a.progress().contains(k));
        if a.keys().contains(k) {
            let i = choose|i: int| 0 <= i < a.keys().len() && a.keys()[i] == k;
            assert(b.keys().subrange(0, a.keys().len() as int)[i] == k);
            assert(b.keys()[i] == k);
        }
        assert(path@ == reference_path(k) && (b.keys().contains(k) || b.progress().contains(k)));
    }
}

/// Growth of a registry is transitive: what one step keeps, two steps keep.
pub proof fn lemma_grows_transitive(a: SchemaRegistry, b: SchemaRegistry, c: SchemaRegistry)
    requires
        registry_grows(a, b),
        registry_grows(b, c),
    ensures
        registry_grows(a, c),
{
    assert(c.keys().subrange(0, a.keys().len() as int) =~= b.keys().subrange(0, a.keys().len() as int));
}

/// A type with an OpenAPI schema.
pub trait ToSchema {
    spec fn key_spec() -> Seq<char>;

    spec fn title_spec() -> Seq<char>;

    spec fn required_spec() -> bool;

    /// Whether a property of this type must be present.
    fn required() -> (b: bool)
        ensures
            b == Self::required_spec(),
    ;

    /// The key this type's schema is registered under: the type's path with
    /// `.` for `::`.
    fn key() -> (k: String)
        ensures
            k@ == Self::key_spec(),
    ;

    fn title() -> (t: String)
        ensures
            t@ == Self::title_spec(),
    ;

    /// Whether `s` is this type's schema, as built from a registry in state
    /// `reg`.
    spec fn is_schema(reg: SchemaRegistry, s: Schema) -> bool;

    /// This type's schema; the schemas it refers to are registered on the way.
    fn schema(reg: &mut SchemaRegistry) -> (s: Schema)
        requires
            old(reg).wf(),
        ensures
            registry_grows(*old(reg), *final(reg)),
            Self::is_schema(*old(reg), s),
    ;

    /// A reference to this type's schema, registering it first if it is
    /// neither registered nor being built. The reference always resolves.
    fn schema_ref(reg: &mut SchemaRegistry) -> (r: SchemaRef)
        requires
            old(reg).wf(),
        ensures
            registry_grows(*old(reg), *final(reg)),
            resolves(r, *final(reg)),
            refers_to(r, Self::key_spec()),
            final(reg).keys().contains(Self::key_spec()) || final(reg).progress().contains(Self::key_spec()),
            old(reg).keys().contains(Self::key_spec()) ==> *final(reg) == *old(reg),
            old(reg).progress().contains(Self::key_spec()) ==> *final(reg) == *old(reg),
            !old(reg).keys().contains(Self::key_spec()) && !old(reg).progress().contains(Self::key_spec()) ==> {
                &&& final(reg).keys().last() == Self::key_spec()
                &&& exists|started: SchemaRegistry| #[trigger] began(*old(reg), started, Self::key_spec())
                    && Self::is_schema(started, final(reg).schema_at(final(reg).keys().len() - 1))
            },
    {
        let key = Self::key();
        let reference = reference_to(&key);
        assert(reg.keys().subrange(0, reg.keys().len() as int) =~= reg.keys());
        if !reg.contains(&key) {
            if reg.is_in_progress(&key) {
                return SchemaRef::Reference(reference);
            }
            let ghost before = *reg;
            reg.begin(key);
            let ghost started = *reg;
            let schema = Self::schema(reg);
            let ghost built = *reg;
            reg.finish(schema);
            proof {
                assert(began(before, started, key@));
                assert(reg.keys().len() == built.keys().len() + 1);
                assert(reg.schema_at(reg.keys().len() - 1) == schema);
                assert(built.progress().last() == key@);
                assert(built.keys().subrange(0, started.keys().len() as int) == started.keys());
                assert(reg.keys().subrange(0, before.keys().len() as int) =~= before.keys()) by {
                    assert(built.keys().subrange(0, before.keys().len() as int) =~= before.keys());
                }
                assert(reg.keys()[built.keys().len() as int] == key@);
                assert(reg.keys().contains(key@));
                assert(reg.progress() =~= before.progress());
                assert(forall|i: int| 0 <= i < before.keys().len() ==> reg.schema_at(i) == before.schema_at(i));
            }
        }
        SchemaRef::Reference(reference)
    }

    /// A boxed reference to this type's schema.
    fn schema_ref_box(reg: &mut SchemaRegistry) -> (r: Box<SchemaRef>)
        requires
            old(reg).wf(),
        ensures
            registry_grows(*old(reg), *final(reg)),
            resolves(*r, *final(reg)),
            refers_to(*r, Self::key_spec()),
    {
        Box::new(Self::schema_ref(reg))
    }
}

} // verus!
