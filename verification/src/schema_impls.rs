//! `ToSchema` for standard types: booleans, characters, integers, strings,
//! lists, sets, maps with string keys, arrays, optional values, durations,
//! times and JSON values.

use vstd::prelude::*;
use std::collections::{BTreeMap, BTreeSet, HashMap, HashSet, VecDeque};
use crate::schema::{lemma_grows_transitive, lemma_resolves_kept, refers_to, registry_grows, resolves, SchemaRef, Format, ObjectType, Schema, SchemaKind, SchemaRegistry, ToSchema};
use crate::text::{decimal, push_decimal, push_str};

verus! {

/// Whether a schema carries exactly this title and no description, and is
/// not nullable.
pub open spec fn plain_titled(s: Schema, title: Seq<char>) -> bool {
    &&& s.title matches Some(t) && t@ == title
    &&& s.description is None
    &&& !s.nullable
}

/// Whether a format is the named format `name`.
pub open spec fn format_is(f: Format, name: Seq<char>) -> bool {
    f matches Format::Named(n) && n@ == name
}

fn text(s: &str) -> (t: String)
    ensures
        t@ == s@,
{
    String::from_str(s)
}

/// `prefix` + `inner` + `>`.
fn wrapped(prefix: &str, inner: String) -> (t: String)
    ensures
        t@ == prefix@ + inner@ + seq!['>'],
{
    let mut t = String::from_str(prefix);
    push_str(&mut t, inner.as_str());
    push_str(&mut t, ">");
    proof {
        reveal_strlit(">");
    }
    assert(t@ =~= prefix@ + inner@ + seq!['>']);
    t
}

/// A titled schema of the given kind.
pub fn titled_schema(title: String, kind: SchemaKind) -> (s: Schema)
    ensures
        s.title == Some(title),
        s.description is None,
        !s.nullable,
        s.kind == kind,
{
    Schema { title: Some(title), description: None, nullable: false, kind }
}

/// An integer schema with a format and an optional minimum.
pub fn integer_schema(title: &str, format: &str, minimum: Option<i64>) -> (s: Schema)
    ensures
        plain_titled(s, title@),
        s.kind matches SchemaKind::Integer { format: f, minimum: m, maximum: None }
            && format_is(f, format@) && m == minimum,
{
    titled_schema(text(title), SchemaKind::Integer { format: Format::Named(text(format)), minimum, maximum: None })
}

impl ToSchema for bool {
    open spec fn key_spec() -> Seq<char> { "bool"@ }
    open spec fn title_spec() -> Seq<char> { "bool"@ }
    open spec fn required_spec() -> bool { true }
    fn required() -> (b: bool) { true }
    fn key() -> (k: String) { text("bool") }
    fn title() -> (t: String) { text("bool") }

    open spec fn is_schema(reg: SchemaRegistry, s: Schema) -> bool {
        &&& plain_titled(s, "bool"@)
        &&& s.kind is Boolean
    }

    fn schema(reg: &mut SchemaRegistry) -> (s: Schema)
        ensures
            plain_titled(s, "bool"@),
            s.kind is Boolean,
    {
        assert(reg.keys().subrange(0, reg.keys().len() as int) =~= reg.keys());
        titled_schema(text("bool"), SchemaKind::Boolean)
    }
}

impl ToSchema for char {
    open spec fn key_spec() -> Seq<char> { "char"@ }
    open spec fn title_spec() -> Seq<char> { "char"@ }
    open spec fn required_spec() -> bool { true }
    fn required() -> (b: bool) { true }
    fn key() -> (k: String) { text("char") }
    fn title() -> (t: String) { text("char") }

    open spec fn is_schema(reg: SchemaRegistry, s: Schema) -> bool {
        &&& plain_titled(s, "char"@)
        &&& s.kind matches SchemaKind::Str { format: Format::Empty, min_length: Some(1), max_length: Some(1), enumeration } && enumeration@.len() == 0
    }

    fn schema(reg: &mut SchemaRegistry) -> (s: Schema)
        ensures
            plain_titled(s, "char"@),
            s.kind matches SchemaKind::Str { format: Format::Empty, min_length: Some(1), max_length: Some(1), enumeration } && enumeration@.len() == 0,
    {
        assert(reg.keys().subrange(0, reg.keys().len() as int) =~= reg.keys());
        titled_schema(text("char"), SchemaKind::Str { format: Format::Empty, min_length: Some(1), max_length: Some(1), enumeration: Vec::new() })
    }
}

impl ToSchema for String {
    open spec fn key_spec() -> Seq<char> { "alloc.string.String"@ }
    open spec fn title_spec() -> Seq<char> { "String"@ }
    open spec fn required_spec() -> bool { true }
    fn required() -> (b: bool) { true }
    fn key() -> (k: String) { text("alloc.string.String") }
    fn title() -> (t: String) { text("String") }

    open spec fn is_schema(reg: SchemaRegistry, s: Schema) -> bool {
        &&& plain_titled(s, "String"@)
        &&& s.kind matches SchemaKind::Str { format: Format::Empty, min_length: None, max_length: None, enumeration } && enumeration@.len() == 0
    }

    fn schema(reg: &mut SchemaRegistry) -> (s: Schema)
        ensures
            plain_titled(s, "String"@),
            s.kind matches SchemaKind::Str { format: Format::Empty, min_length: None, max_length: None, enumeration } && enumeration@.len() == 0,
    {
        assert(reg.keys().subrange(0, reg.keys().len() as int) =~= reg.keys());
        titled_schema(text("String"), SchemaKind::Str { format: Format::Empty, min_length: None, max_length: None, enumeration: Vec::new() })
    }
}

impl ToSchema for i8 {
    open spec fn key_spec() -> Seq<char> { "i8"@ }
    open spec fn title_spec() -> Seq<char> { "i8"@ }
    open spec fn required_spec() -> bool { true }
    fn required() -> (b: bool) { true }
    fn key() -> (k: String) { text("i8") }
    fn title() -> (t: String) { text("i8") }

    open spec fn is_schema(reg: SchemaRegistry, s: Schema) -> bool {
        &&& plain_titled(s, "i8"@)
        &&& s.kind matches SchemaKind::Integer { format, minimum: None, maximum: None } && format_is(format, "int8"@)
    }

    fn schema(reg: &mut SchemaRegistry) -> (s: Schema)
        ensures
            plain_titled(s, "i8"@),
            s.kind matches SchemaKind::Integer { format, minimum: None, maximum: None } && format_is(format, "int8"@),
    {
        assert(reg.keys().subrange(0, reg.keys().len() as int) =~= reg.keys());
        integer_schema("i8", "int8", None)
    }
}

impl ToSchema for i16 {
    open spec fn key_spec() -> Seq<char> { "i16"@ }
    open spec fn title_spec() -> Seq<char> { "i16"@ }
    open spec fn required_spec() -> bool { true }
    fn required() -> (b: bool) { true }
    fn key() -> (k: String) { text("i16") }
    fn title() -> (t: String) { text("i16") }

    open spec fn is_schema(reg: SchemaRegistry, s: Schema) -> bool {
        &&& plain_titled(s, "i16"@)
        &&& s.kind matches SchemaKind::Integer { format, minimum: None, maximum: None } && format_is(format, "int16"@)
    }

    fn schema(reg: &mut SchemaRegistry) -> (s: Schema)
        ensures
            plain_titled(s, "i16"@),
            s.kind matches SchemaKind::Integer { format, minimum: None, maximum: None } && format_is(format, "int16"@),
    {
        assert(reg.keys().subrange(0, reg.keys().len() as int) =~= reg.keys());
        integer_schema("i16", "int16", None)
    }
}

impl ToSchema for i32 {
    open spec fn key_spec() -> Seq<char> { "i32"@ }
    open spec fn title_spec() -> Seq<char> { "i32"@ }
    open spec fn required_spec() -> bool { true }
    fn required() -> (b: bool) { true }
    fn key() -> (k: String) { text("i32") }
    fn title() -> (t: String) { text("i32") }

    open spec fn is_schema(reg: SchemaRegistry, s: Schema) -> bool {
        &&& plain_titled(s, "i32"@)
        &&& s.kind matches SchemaKind::Integer { format, minimum: None, maximum: None } && format_is(format, "int32"@)
    }

    fn schema(reg: &mut SchemaRegistry) -> (s: Schema)
        ensures
            plain_titled(s, "i32"@),
            s.kind matches SchemaKind::Integer { format, minimum: None, maximum: None } && format_is(format, "int32"@),
    {
        assert(reg.keys().subrange(0, reg.keys().len() as int) =~= reg.keys());
        integer_schema("i32", "int32", None)
    }
}

impl ToSchema for i64 {
    open spec fn key_spec() -> Seq<char> { "i64"@ }
    open spec fn title_spec() -> Seq<char> { "i64"@ }
    open spec fn required_spec() -> bool { true }
    fn required() -> (b: bool) { true }
    fn key() -> (k: String) { text("i64") }
    fn title() -> (t: String) { text("i64") }

    open spec fn is_schema(reg: SchemaRegistry, s: Schema) -> bool {
        &&& plain_titled(s, "i64"@)
        &&& s.kind matches SchemaKind::Integer { format, minimum: None, maximum: None } && format_is(format, "int64"@)
    }

    fn schema(reg: &mut SchemaRegistry) -> (s: Schema)
        ensures
            plain_titled(s, "i64"@),
            s.kind matches SchemaKind::Integer { format, minimum: None, maximum: None } && format_is(format, "int64"@),
    {
        assert(reg.keys().subrange(0, reg.keys().len() as int) =~= reg.keys());
        integer_schema("i64", "int64", None)
    }
}

impl ToSchema for i128 {
    open spec fn key_spec() -> Seq<char> { "i128"@ }
    open spec fn title_spec() -> Seq<char> { "i128"@ }
    open spec fn required_spec() -> bool { true }
    fn required() -> (b: bool) { true }
    fn key() -> (k: String) { text("i128") }
    fn title() -> (t: String) { text("i128") }

    open spec fn is_schema(reg: SchemaRegistry, s: Schema) -> bool {
        &&& plain_titled(s, "i128"@)
        &&& s.kind matches SchemaKind::Integer { format, minimum: None, maximum: None } && format_is(format, "int128"@)
    }

    fn schema(reg: &mut SchemaRegistry) -> (s: Schema)
        ensures
            plain_titled(s, "i128"@),
            s.kind matches SchemaKind::Integer { format, minimum: None, maximum: None } && format_is(format, "int128"@),
    {
        assert(reg.keys().subrange(0, reg.keys().len() as int) =~= reg.keys());
        integer_schema("i128", "int128", None)
    }
}

impl ToSchema for isize {
    open spec fn key_spec() -> Seq<char> { "isize"@ }
    open spec fn title_spec() -> Seq<char> { "isize"@ }
    open spec fn required_spec() -> bool { true }
    fn required() -> (b: bool) { true }
    fn key() -> (k: String) { text("isize") }
    fn title() -> (t: String) { text("isize") }

    open spec fn is_schema(reg: SchemaRegistry, s: Schema) -> bool {
        &&& plain_titled(s, "isize"@)
        &&& s.kind matches SchemaKind::Integer { format, minimum: None, maximum: None } && format_is(format, "int"@)
    }

    fn schema(reg: &mut SchemaRegistry) -> (s: Schema)
        ensures
            plain_titled(s, "isize"@),
            s.kind matches SchemaKind::Integer { format, minimum: None, maximum: None } && format_is(format, "int"@),
    {
        assert(reg.keys().subrange(0, reg.keys().len() as int) =~= reg.keys());
        integer_schema("isize", "int", None)
    }
}

impl ToSchema for u8 {
    open spec fn key_spec() -> Seq<char> { "u8"@ }
    open spec fn title_spec() -> Seq<char> { "u8"@ }
    open spec fn required_spec() -> bool { true }
    fn required() -> (b: bool) { true }
    fn key() -> (k: String) { text("u8") }
    fn title() -> (t: String) { text("u8") }

    open spec fn is_schema(reg: SchemaRegistry, s: Schema) -> bool {
        &&& plain_titled(s, "u8"@)
        &&& s.kind matches SchemaKind::Integer { format, minimum: Some(0), maximum: None } && format_is(format, "uint8"@)
    }

    fn schema(reg: &mut SchemaRegistry) -> (s: Schema)
        ensures
            plain_titled(s, "u8"@),
            s.kind matches SchemaKind::Integer { format, minimum: Some(0), maximum: None } && format_is(format, "uint8"@),
    {
        assert(reg.keys().subrange(0, reg.keys().len() as int) =~= reg.keys());
        integer_schema("u8", "uint8", Some(0))
    }
}

impl ToSchema for u16 {
    open spec fn key_spec() -> Seq<char> { "u16"@ }
    open spec fn title_spec() -> Seq<char> { "u16"@ }
    open spec fn required_spec() -> bool { true }
    fn required() -> (b: bool) { true }
    fn key() -> (k: String) { text("u16") }
    fn title() -> (t: String) { text("u16") }

    open spec fn is_schema(reg: SchemaRegistry, s: Schema) -> bool {
        &&& plain_titled(s, "u16"@)
        &&& s.kind matches SchemaKind::Integer { format, minimum: Some(0), maximum: None } && format_is(format, "uint16"@)
    }

    fn schema(reg: &mut SchemaRegistry) -> (s: Schema)
        ensures
            plain_titled(s, "u16"@),
            s.kind matches SchemaKind::Integer { format, minimum: Some(0), maximum: None } && format_is(format, "uint16"@),
    {
        assert(reg.keys().subrange(0, reg.keys().len() as int) =~= reg.keys());
        integer_schema("u16", "uint16", Some(0))
    }
}

impl ToSchema for u32 {
    open spec fn key_spec() -> Seq<char> { "u32"@ }
    open spec fn title_spec() -> Seq<char> { "u32"@ }
    open spec fn required_spec() -> bool { true }
    fn required() -> (b: bool) { true }
    fn key() -> (k: String) { text("u32") }
    fn title() -> (t: String) { text("u32") }

    open spec fn is_schema(reg: SchemaRegistry, s: Schema) -> bool {
        &&& plain_titled(s, "u32"@)
        &&& s.kind matches SchemaKind::Integer { format, minimum: Some(0), maximum: None } && format_is(format, "uint32"@)
    }

    fn schema(reg: &mut SchemaRegistry) -> (s: Schema)
        ensures
            plain_titled(s, "u32"@),
            s.kind matches SchemaKind::Integer { format, minimum: Some(0), maximum: None } && format_is(format, "uint32"@),
    {
        assert(reg.keys().subrange(0, reg.keys().len() as int) =~= reg.keys());
        integer_schema("u32", "uint32", Some(0))
    }
}

impl ToSchema for u64 {
    open spec fn key_spec() -> Seq<char> { "u64"@ }
    open spec fn title_spec() -> Seq<char> { "u64"@ }
    open spec fn required_spec() -> bool { true }
    fn required() -> (b: bool) { true }
    fn key() -> (k: String) { text("u64") }
    fn title() -> (t: String) { text("u64") }

    open spec fn is_schema(reg: SchemaRegistry, s: Schema) -> bool {
        &&& plain_titled(s, "u64"@)
        &&& s.kind matches SchemaKind::Integer { format, minimum: Some(0), maximum: None } && format_is(format, "uint64"@)
    }

    fn schema(reg: &mut SchemaRegistry) -> (s: Schema)
        ensures
            plain_titled(s, "u64"@),
            s.kind matches SchemaKind::Integer { format, minimum: Some(0), maximum: None } && format_is(format, "uint64"@),
    {
        assert(reg.keys().subrange(0, reg.keys().len() as int) =~= reg.keys());
        integer_schema("u64", "uint64", Some(0))
    }
}

impl ToSchema for u128 {
    open spec fn key_spec() -> Seq<char> { "u128"@ }
    open spec fn title_spec() -> Seq<char> { "u128"@ }
    open spec fn required_spec() -> bool { true }
    fn required() -> (b: bool) { true }
    fn key() -> (k: String) { text("u128") }
    fn title() -> (t: String) { text("u128") }

    open spec fn is_schema(reg: SchemaRegistry, s: Schema) -> bool {
        &&& plain_titled(s, "u128"@)
        &&& s.kind matches SchemaKind::Integer { format, minimum: Some(0), maximum: None } && format_is(format, "uint128"@)
    }

    fn schema(reg: &mut SchemaRegistry) -> (s: Schema)
        ensures
            plain_titled(s, "u128"@),
            s.kind matches SchemaKind::Integer { format, minimum: Some(0), maximum: None } && format_is(format, "uint128"@),
    {
        assert(reg.keys().subrange(0, reg.keys().len() as int) =~= reg.keys());
        integer_schema("u128", "uint128", Some(0))
    }
}

impl ToSchema for usize {
    open spec fn key_spec() -> Seq<char> { "usize"@ }
    open spec fn title_spec() -> Seq<char> { "usize"@ }
    open spec fn required_spec() -> bool { true }
    fn required() -> (b: bool) { true }
    fn key() -> (k: String) { text("usize") }
    fn title() -> (t: String) { text("usize") }

    open spec fn is_schema(reg: SchemaRegistry, s: Schema) -> bool {
        &&& plain_titled(s, "usize"@)
        &&& s.kind matches SchemaKind::Integer { format, minimum: Some(0), maximum: None } && format_is(format, "uint"@)
    }

    fn schema(reg: &mut SchemaRegistry) -> (s: Schema)
        ensures
            plain_titled(s, "usize"@),
            s.kind matches SchemaKind::Integer { format, minimum: Some(0), maximum: None } && format_is(format, "uint"@),
    {
        assert(reg.keys().subrange(0, reg.keys().len() as int) =~= reg.keys());
        integer_schema("usize", "uint", Some(0))
    }
}

impl<T: ToSchema> ToSchema for Vec<T> {
    open spec fn key_spec() -> Seq<char> { "alloc.vec.Vec<"@ + T::key_spec() + seq!['>'] }
    open spec fn title_spec() -> Seq<char> { "List<"@ + T::title_spec() + seq!['>'] }
    open spec fn required_spec() -> bool { true }
    fn required() -> (b: bool) { true }
    fn key() -> (k: String) { wrapped("alloc.vec.Vec<", T::key()) }
    fn title() -> (t: String) { wrapped("List<", T::title()) }

    open spec fn is_schema(reg: SchemaRegistry, s: Schema) -> bool {
        &&& plain_titled(s, Self::title_spec())
        &&& s.kind matches SchemaKind::Array { items, min_items: None, max_items: None, unique_items: false }
            && refers_to(*items, T::key_spec())
    }

    fn schema(reg: &mut SchemaRegistry) -> (s: Schema)
        ensures
            plain_titled(s, Self::title_spec()),
            s.kind matches SchemaKind::Array { items, min_items: None, max_items: None, unique_items: false }
                && refers_to(*items, T::key_spec()),
            s.kind matches SchemaKind::Array { items, .. } && resolves(*items, *final(reg)),
    {
        let items = T::schema_ref_box(reg);
        titled_schema(Self::title(), SchemaKind::Array { items, min_items: None, max_items: None, unique_items: false })
    }
}

impl<T: ToSchema> ToSchema for BTreeSet<T> {
    open spec fn key_spec() -> Seq<char> { "alloc.collections.btree.set.BTreeSet<"@ + T::key_spec() + seq!['>'] }
    open spec fn title_spec() -> Seq<char> { "Set<"@ + T::title_spec() + seq!['>'] }
    open spec fn required_spec() -> bool { true }
    fn required() -> (b: bool) { true }
    fn key() -> (k: String) { wrapped("alloc.collections.btree.set.BTreeSet<", T::key()) }
    fn title() -> (t: String) { wrapped("Set<", T::title()) }

    open spec fn is_schema(reg: SchemaRegistry, s: Schema) -> bool {
        &&& plain_titled(s, Self::title_spec())
        &&& s.kind matches SchemaKind::Array { items, min_items: None, max_items: None, unique_items: true }
            && refers_to(*items, T::key_spec())
    }

    fn schema(reg: &mut SchemaRegistry) -> (s: Schema)
        ensures
            plain_titled(s, Self::title_spec()),
            s.kind matches SchemaKind::Array { items, min_items: None, max_items: None, unique_items: true }
                && refers_to(*items, T::key_spec()),
            s.kind matches SchemaKind::Array { items, .. } && resolves(*items, *final(reg)),
    {
        let items = T::schema_ref_box(reg);
        titled_schema(Self::title(), SchemaKind::Array { items, min_items: None, max_items: None, unique_items: true })
    }
}

impl<T: ToSchema> ToSchema for VecDeque<T> {
    open spec fn key_spec() -> Seq<char> { "alloc.collections.vec_deque.VecDeque<"@ + T::key_spec() + seq!['>'] }
    open spec fn title_spec() -> Seq<char> { "List<"@ + T::title_spec() + seq!['>'] }
    open spec fn required_spec() -> bool { true }
    fn required() -> (b: bool) { true }
    fn key() -> (k: String) { wrapped("alloc.collections.vec_deque.VecDeque<", T::key()) }
    fn title() -> (t: String) { wrapped("List<", T::title()) }

    open spec fn is_schema(reg: SchemaRegistry, s: Schema) -> bool {
        &&& plain_titled(s, Self::title_spec())
        &&& s.kind matches SchemaKind::Array { items, min_items: None, max_items: None, unique_items: false }
            && refers_to(*items, T::key_spec())
    }

    fn schema(reg: &mut SchemaRegistry) -> (s: Schema)
        ensures
            plain_titled(s, Self::title_spec()),
            s.kind matches SchemaKind::Array { items, min_items: None, max_items: None, unique_items: false }
                && refers_to(*items, T::key_spec()),
            s.kind matches SchemaKind::Array { items, .. } && resolves(*items, *final(reg)),
    {
        let items = T::schema_ref_box(reg);
        titled_schema(Self::title(), SchemaKind::Array { items, min_items: None, max_items: None, unique_items: false })
    }
}

impl<T: ToSchema> ToSchema for HashSet<T> {
    open spec fn key_spec() -> Seq<char> { "std.collections.hash.set.HashSet<"@ + T::key_spec() + seq!['>'] }
    open spec fn title_spec() -> Seq<char> { "Set<"@ + T::title_spec() + seq!['>'] }
    open spec fn required_spec() -> bool { true }
    fn required() -> (b: bool) { true }
    fn key() -> (k: String) { wrapped("std.collections.hash.set.HashSet<", T::key()) }
    fn title() -> (t: String) { wrapped("Set<", T::title()) }

    open spec fn is_schema(reg: SchemaRegistry, s: Schema) -> bool {
        &&& plain_titled(s, Self::title_spec())
        &&& s.kind matches SchemaKind::Array { items, min_items: None, max_items: None, unique_items: true }
            && refers_to(*items, T::key_spec())
    }

    fn schema(reg: &mut SchemaRegistry) -> (s: Schema)
        ensures
            plain_titled(s, Self::title_spec()),
            s.kind matches SchemaKind::Array { items, min_items: None, max_items: None, unique_items: true }
                && refers_to(*items, T::key_spec()),
            s.kind matches SchemaKind::Array { items, .. } && resolves(*items, *final(reg)),
    {
        let items = T::schema_ref_box(reg);
        titled_schema(Self::title(), SchemaKind::Array { items, min_items: None, max_items: None, unique_items: true })
    }
}

impl<T: ToSchema> ToSchema for Option<T> {
    open spec fn key_spec() -> Seq<char> { "core.option.Option<"@ + T::key_spec() + seq!['>'] }
    open spec fn title_spec() -> Seq<char> { "Option<"@ + T::title_spec() + seq!['>'] }
    open spec fn required_spec() -> bool { false }
    fn required() -> (b: bool) { false }
    fn key() -> (k: String) { wrapped("core.option.Option<", T::key()) }
    fn title() -> (t: String) { wrapped("Option<", T::title()) }

    /// The schema of the inner type, nullable and titled `Option<...>`.
    open spec fn is_schema(reg: SchemaRegistry, s: Schema) -> bool {
        exists|inner: Schema| #[trigger] T::is_schema(reg, inner) && {
            &&& s.nullable
            &&& s.title matches Some(t) && t@ == Self::title_spec()
            &&& s.description == inner.description
            &&& s.kind == inner.kind
        }
    }

    fn schema(reg: &mut SchemaRegistry) -> (s: Schema)
        ensures
            s.nullable,
            s.title matches Some(t) && t@ == Self::title_spec(),
    {
        let mut schema = T::schema(reg);
        let ghost inner = schema;
        schema.nullable = true;
        schema.title = Some(Self::title());
        assert(T::is_schema(*old(reg), inner));
        schema
    }
}

/// The title of a map schema: `Map<String, {title}>`, `Unknown` standing in
/// for a missing title.
pub open spec fn map_title(value_title: Option<Seq<char>>) -> Seq<char> {
    "Map<String, "@ + match value_title {
        Some(t) => t,
        None => "Unknown"@,
    } + seq!['>']
}

/// Whether `s` is the schema of a map with string keys: titled by
/// `map_title`, with no properties and with additional properties that
/// resolve in `reg`.
pub open spec fn map_schema_of(s: Schema, reg: SchemaRegistry) -> bool {
    &&& s.title matches Some(t) && exists|vt: Option<Seq<char>>| t@ == map_title(vt)
    &&& s.description is None
    &&& !s.nullable
    &&& s.kind matches SchemaKind::Object(obj)
        && obj.properties@.len() == 0
        && obj.required@.len() == 0
        && (obj.additional_properties matches Some(a) && resolves(*a, reg))
}

/// The title of a schema as text, if it has one.
pub open spec fn title_view(title: Option<String>) -> Option<Seq<char>> {
    match title {
        Some(t) => Some(t@),
        None => None,
    }
}

/// Whether `s` is the schema of a map from strings to `V`, built from a
/// registry in state `reg`: titled by the title of `V`'s schema, with no
/// properties, and with additional properties that refer to `V`'s schema.
pub open spec fn is_map_schema<V: ToSchema>(reg: SchemaRegistry, s: Schema) -> bool {
    exists|value: Schema| #[trigger] V::is_schema(reg, value) && {
        &&& s.title matches Some(t) && t@ == map_title(title_view(value.title))
        &&& s.description is None
        &&& !s.nullable
        &&& s.kind matches SchemaKind::Object(obj)
            && obj.properties@.len() == 0
            && obj.required@.len() == 0
            && (obj.additional_properties matches Some(a) && refers_to(*a, V::key_spec()))
    }
}

/// The schema of a map from strings to `V`.
fn map_schema<V: ToSchema>(reg: &mut SchemaRegistry) -> (s: Schema)
    requires
        old(reg).wf(),
    ensures
        registry_grows(*old(reg), *final(reg)),
        map_schema_of(s, *final(reg)),
        is_map_schema::<V>(*old(reg), s),
{
    let ghost r0 = *reg;
    let value = V::schema(reg);
    let ghost r1 = *reg;
    let title = match value.title {
        Some(t) => wrapped("Map<String, ", t),
        None => wrapped("Map<String, ", text("Unknown")),
    };
    proof {
        reveal_strlit("Map<String, ");
        reveal_strlit("Unknown");
        assert(title@ == map_title(match value.title { Some(t) => Some(t@), None => None }));
        assert(V::is_schema(r0, value));
    }
    let additional = V::schema_ref_box(reg);
    proof {
        lemma_grows_transitive(r0, r1, *reg);
    }
    titled_schema(title, SchemaKind::Object(ObjectType {
        properties: Vec::new(),
        required: Vec::new(),
        additional_properties: Some(additional),
    }))
}

impl<V: ToSchema> ToSchema for BTreeMap<String, V> {
    open spec fn key_spec() -> Seq<char> {
        "alloc.collections.btree.map.BTreeMap<alloc.string.String, "@ + V::key_spec() + seq!['>']
    }
    open spec fn title_spec() -> Seq<char> { map_title(Some(V::title_spec())) }
    open spec fn required_spec() -> bool { true }
    fn required() -> (b: bool) { true }
    fn key() -> (k: String) { wrapped("alloc.collections.btree.map.BTreeMap<alloc.string.String, ", V::key()) }

    fn title() -> (t: String) {
        let t = wrapped("Map<String, ", V::title());
        proof {
            reveal_strlit("Map<String, ");
        }
        t
    }

    /// An object whose additional properties follow the value type; titled
    /// by the title of the value type's schema.
    open spec fn is_schema(reg: SchemaRegistry, s: Schema) -> bool {
        is_map_schema::<V>(reg, s)
    }

    fn schema(reg: &mut SchemaRegistry) -> (s: Schema)
        ensures
            map_schema_of(s, *final(reg)),
    {
        map_schema::<V>(reg)
    }
}

impl<V: ToSchema> ToSchema for HashMap<String, V> {
    open spec fn key_spec() -> Seq<char> {
        "std.collections.hash.map.HashMap<alloc.string.String, "@ + V::key_spec() + seq!['>']
    }
    open spec fn title_spec() -> Seq<char> { map_title(Some(V::title_spec())) }
    open spec fn required_spec() -> bool { true }
    fn required() -> (b: bool) { true }
    fn key() -> (k: String) { wrapped("std.collections.hash.map.HashMap<alloc.string.String, ", V::key()) }

    fn title() -> (t: String) {
        let t = wrapped("Map<String, ", V::title());
        proof {
            reveal_strlit("Map<String, ");
        }
        t
    }

    /// An object whose additional properties follow the value type; titled
    /// by the title of the value type's schema.
    open spec fn is_schema(reg: SchemaRegistry, s: Schema) -> bool {
        is_map_schema::<V>(reg, s)
    }

    fn schema(reg: &mut SchemaRegistry) -> (s: Schema)
        ensures
            map_schema_of(s, *final(reg)),
    {
        map_schema::<V>(reg)
    }
}

/// A list (`Vec`, `VecDeque`, array) is an array schema whose items may
/// repeat; a set (`BTreeSet`, `HashSet`) is one whose items are unique; in
/// each the items refer to the element type's schema.
pub proof fn lemma_lists_repeat_sets_do_not<T: ToSchema>(reg: SchemaRegistry, s: Schema)
    ensures
        <Vec<T> as ToSchema>::is_schema(reg, s) ==> (s.kind matches SchemaKind::Array { items, unique_items: false, .. }
            && refers_to(*items, T::key_spec())),
        <VecDeque<T> as ToSchema>::is_schema(reg, s) ==> (s.kind matches SchemaKind::Array { items, unique_items: false, .. }
            && refers_to(*items, T::key_spec())),
        <BTreeSet<T> as ToSchema>::is_schema(reg, s) ==> (s.kind matches SchemaKind::Array { items, unique_items: true, .. }
            && refers_to(*items, T::key_spec())),
        <HashSet<T> as ToSchema>::is_schema(reg, s) ==> (s.kind matches SchemaKind::Array { items, unique_items: true, .. }
            && refers_to(*items, T::key_spec())),
{
}

/// An array of `N` items is a list of exactly `N` items, which may repeat.
pub proof fn lemma_arrays_have_their_length<T: ToSchema, const N: usize>(reg: SchemaRegistry, s: Schema)
    ensures
        <[T; N] as ToSchema>::is_schema(reg, s) ==> (s.kind matches SchemaKind::Array { min_items: Some(lo), max_items: Some(hi), unique_items: false, .. }
            && lo == N && hi == N),
{
}

/// `prefix{n}<{inner}>`.
fn numbered(prefix: &str, n: usize, inner: String) -> (t: String)
    ensures
        t@ == prefix@ + decimal(n as nat) + seq!['<'] + inner@ + seq!['>'],
{
    let mut t = String::from_str(prefix);
    push_decimal(&mut t, n as u64);
    push_str(&mut t, "<");
    push_str(&mut t, inner.as_str());
    push_str(&mut t, ">");
    proof {
        reveal_strlit("<");
        reveal_strlit(">");
    }
    assert(t@ =~= prefix@ + decimal(n as nat) + seq!['<'] + inner@ + seq!['>']);
    t
}

/// The key of an array type: `Array{N}<{key}>`.
pub open spec fn array_key(n: usize, inner: Seq<char>) -> Seq<char> {
    "Array"@ + decimal(n as nat) + seq!['<'] + inner + seq!['>']
}

/// The title of an array type: `Array{N}<{title}>`.
pub fn array_title(n: usize, inner: String) -> (t: String)
    ensures
        t@ == array_key(n, inner@),
{
    numbered("Array", n, inner)
}

impl<T: ToSchema, const N: usize> ToSchema for [T; N] {
    open spec fn key_spec() -> Seq<char> { array_key(N, T::key_spec()) }
    open spec fn title_spec() -> Seq<char> { array_key(N, T::title_spec()) }
    open spec fn required_spec() -> bool { true }
    fn required() -> (b: bool) { true }
    fn key() -> (k: String) { array_title(N, T::key()) }
    fn title() -> (t: String) { array_title(N, T::title()) }

    /// A list of exactly `N` items.
    open spec fn is_schema(reg: SchemaRegistry, s: Schema) -> bool {
        &&& plain_titled(s, Self::title_spec())
        &&& s.kind matches SchemaKind::Array { items, min_items: Some(lo), max_items: Some(hi), unique_items: false }
            && lo == N && hi == N && refers_to(*items, T::key_spec())
    }

    fn schema(reg: &mut SchemaRegistry) -> (s: Schema)
        ensures
            plain_titled(s, Self::title_spec()),
            s.kind matches SchemaKind::Array { items, min_items: Some(lo), max_items: Some(hi), unique_items: false }
                && lo == N && hi == N && refers_to(*items, T::key_spec()),
            s.kind matches SchemaKind::Array { items, .. } && resolves(*items, *final(reg)),
    {
        let items = T::schema_ref_box(reg);
        titled_schema(Self::title(), SchemaKind::Array { items, min_items: Some(N), max_items: Some(N), unique_items: false })
    }
}

/// A system time as the seconds and nanoseconds since the Unix epoch.
#[verifier::external_type_specification]
#[verifier::external_body]
pub struct ExSystemTime(std::time::SystemTime);

/// A JSON number, carried through as `serde_json` gives it.
#[verifier::external_type_specification]
#[verifier::external_body]
pub struct ExJsonNumber(serde_json::Number);

/// Whether an object schema has exactly these two properties, in this
/// order, both required, each referring to a schema that resolves in `reg`.
pub open spec fn pair_object_ok(s: Schema, first: Seq<char>, second: Seq<char>, reg: SchemaRegistry) -> bool {
    s.kind matches SchemaKind::Object(obj)
        && obj.properties@.len() == 2
        && obj.properties@[0].0@ == first && resolves(obj.properties@[0].1, reg)
        && obj.properties@[1].0@ == second && resolves(obj.properties@[1].1, reg)
        && obj.required@.len() == 2 && obj.required@[0]@ == first && obj.required@[1]@ == second
        && obj.additional_properties is None
}

/// Whether an object schema has exactly these two properties, in this
/// order, both required, referring to the schemas registered under
/// `first_key` and `second_key`.
pub open spec fn pair_object_refs(s: Schema, first: Seq<char>, second: Seq<char>, first_key: Seq<char>, second_key: Seq<char>) -> bool {
    s.kind matches SchemaKind::Object(obj)
        && obj.properties@.len() == 2
        && obj.properties@[0].0@ == first && refers_to(obj.properties@[0].1, first_key)
        && obj.properties@[1].0@ == second && refers_to(obj.properties@[1].1, second_key)
        && obj.required@.len() == 2 && obj.required@[0]@ == first && obj.required@[1]@ == second
        && obj.additional_properties is None
}

/// An object of two required properties, in order.
fn pair_object(title: &str, first: &str, first_schema: SchemaRef, second: &str, second_schema: SchemaRef) -> (s: Schema)
    ensures
        plain_titled(s, title@),
        s.kind matches SchemaKind::Object(obj)
            && obj.properties@.len() == 2
            && obj.properties@[0].0@ == first@ && obj.properties@[0].1 == first_schema
            && obj.properties@[1].0@ == second@ && obj.properties@[1].1 == second_schema
            && obj.required@.len() == 2 && obj.required@[0]@ == first@ && obj.required@[1]@ == second@
            && obj.additional_properties is None,
{
    let mut properties: Vec<(String, SchemaRef)> = Vec::new();
    properties.push((text(first), first_schema));
    properties.push((text(second), second_schema));
    let mut required: Vec<String> = Vec::new();
    required.push(text(first));
    required.push(text(second));
    titled_schema(text(title), SchemaKind::Object(ObjectType { properties, required, additional_properties: None }))
}

impl ToSchema for core::time::Duration {
    open spec fn key_spec() -> Seq<char> { "core.time.Duration"@ }
    open spec fn title_spec() -> Seq<char> { "Duration"@ }
    open spec fn required_spec() -> bool { true }
    fn required() -> (b: bool) { true }
    fn key() -> (k: String) { text("core.time.Duration") }
    fn title() -> (t: String) { text("Duration") }

    /// An object of the whole seconds (`u64`) and the nanoseconds (`u32`).
    open spec fn is_schema(reg: SchemaRegistry, s: Schema) -> bool {
        &&& plain_titled(s, "Duration"@)
        &&& pair_object_refs(s, "secs"@, "nanos"@, <u64 as ToSchema>::key_spec(), <u32 as ToSchema>::key_spec())
    }

    fn schema(reg: &mut SchemaRegistry) -> (s: Schema)
        ensures
            plain_titled(s, "Duration"@),
            pair_object_refs(s, "secs"@, "nanos"@, <u64 as ToSchema>::key_spec(), <u32 as ToSchema>::key_spec()),
            pair_object_ok(s, "secs"@, "nanos"@, *final(reg)),
    {
        let ghost r0 = *reg;
        let secs = <u64 as ToSchema>::schema_ref(reg);
        let ghost r1 = *reg;
        let nanos = <u32 as ToSchema>::schema_ref(reg);
        proof {
            lemma_grows_transitive(r0, r1, *reg);
            lemma_resolves_kept(secs, r1, *reg);
        }
        pair_object("Duration", "secs", secs, "nanos", nanos)
    }
}

impl ToSchema for std::time::SystemTime {
    open spec fn key_spec() -> Seq<char> { "std.time.SystemTime"@ }
    open spec fn title_spec() -> Seq<char> { "SystemTime"@ }
    open spec fn required_spec() -> bool { true }
    fn required() -> (b: bool) { true }
    fn key() -> (k: String) { text("std.time.SystemTime") }
    fn title() -> (t: String) { text("SystemTime") }

    /// An object of the seconds (`i64`) and nanoseconds (`u32`) since the
    /// Unix epoch.
    open spec fn is_schema(reg: SchemaRegistry, s: Schema) -> bool {
        &&& plain_titled(s, "SystemTime"@)
        &&& pair_object_refs(s, "secs_since_epoch"@, "nanos_since_epoch"@, <i64 as ToSchema>::key_spec(), <u32 as ToSchema>::key_spec())
    }

    fn schema(reg: &mut SchemaRegistry) -> (s: Schema)
        ensures
            plain_titled(s, "SystemTime"@),
            pair_object_refs(s, "secs_since_epoch"@, "nanos_since_epoch"@, <i64 as ToSchema>::key_spec(), <u32 as ToSchema>::key_spec()),
            pair_object_ok(s, "secs_since_epoch"@, "nanos_since_epoch"@, *final(reg)),
    {
        let ghost r0 = *reg;
        let secs = <i64 as ToSchema>::schema_ref(reg);
        let ghost r1 = *reg;
        let nanos = <u32 as ToSchema>::schema_ref(reg);
        proof {
            lemma_grows_transitive(r0, r1, *reg);
            lemma_resolves_kept(secs, r1, *reg);
        }
        pair_object("SystemTime", "secs_since_epoch", secs, "nanos_since_epoch", nanos)
    }
}

impl ToSchema for serde_json::Value {
    open spec fn key_spec() -> Seq<char> { "serde_json.value.Value"@ }
    open spec fn title_spec() -> Seq<char> { "Any"@ }
    open spec fn required_spec() -> bool { true }
    fn required() -> (b: bool) { true }
    fn key() -> (k: String) { text("serde_json.value.Value") }
    fn title() -> (t: String) { text("Any") }

    open spec fn is_schema(reg: SchemaRegistry, s: Schema) -> bool {
        &&& plain_titled(s, "Any"@)
        &&& s.kind matches SchemaKind::Any { typ: None, format: None, not: None }
    }

    /// Any value.
    fn schema(reg: &mut SchemaRegistry) -> (s: Schema)
        ensures
            plain_titled(s, "Any"@),
            s.kind matches SchemaKind::Any { typ: None, format: None, not: None },
            *final(reg) == *old(reg),
    {
        proof {
            crate::schema::lemma_grows_reflexive(*reg);
        }
        titled_schema(text("Any"), SchemaKind::Any { typ: None, format: None, not: None })
    }
}

impl ToSchema for serde_json::Number {
    open spec fn key_spec() -> Seq<char> { "serde_json.number.Number"@ }
    open spec fn title_spec() -> Seq<char> { "Number"@ }
    open spec fn required_spec() -> bool { true }
    fn required() -> (b: bool) { true }
    fn key() -> (k: String) { text("serde_json.number.Number") }
    fn title() -> (t: String) { text("Number") }

    open spec fn is_schema(reg: SchemaRegistry, s: Schema) -> bool {
        &&& plain_titled(s, "Number"@)
        &&& s.kind matches SchemaKind::Number { format: Format::Empty }
    }

    /// A number of no particular format.
    fn schema(reg: &mut SchemaRegistry) -> (s: Schema)
        ensures
            plain_titled(s, "Number"@),
            s.kind matches SchemaKind::Number { format: Format::Empty },
            *final(reg) == *old(reg),
    {
        proof {
            crate::schema::lemma_grows_reflexive(*reg);
        }
        titled_schema(text("Number"), SchemaKind::Number { format: Format::Empty })
    }
}

} // verus!
