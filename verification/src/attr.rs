//! What the derive and attribute macros read of an attribute: its name, and
//! whether it is a bare path, a list of nested items, or `name = value`.

use vstd::prelude::*;

verus! {

/// A literal in an attribute.
pub enum AttrLit {
    /// A string literal, by its value.
    Str(String),
    /// An integer literal, by its decimal digits (no sign, underscores or suffix).
    Int(String),
    /// Any other literal.
    Other,
}

/// An expression in an attribute; only literals are read.
pub enum AttrExpr {
    Lit(AttrLit),
    Other,
}

/// The shape of an item nested in an attribute list.
pub enum NestedKind {
    /// `name`
    Path,
    /// `name(...)`
    List,
    /// `name = value`
    NameValue(AttrExpr),
}

/// An item nested in an attribute list, such as `rename = "x"` in
/// `#[serde(rename = "x")]`.
pub struct NestedMeta {
    /// The item's path, when it is a single identifier.
    pub ident: Option<String>,
    pub kind: NestedKind,
}

/// The shape of an attribute.
pub enum AttrMeta {
    /// `#[name]`
    Path,
    /// `#[name(...)]`, with its items when they parse as comma-separated
    /// items, `None` when they do not.
    List(Option<Vec<NestedMeta>>),
    /// `#[name = value]`
    NameValue(AttrExpr),
}

/// An attribute on an item, a field or a variant.
pub struct Attr {
    /// The attribute's path, when it is a single identifier.
    pub ident: Option<String>,
    pub meta: AttrMeta,
}

/// Whether an optional identifier is the given name.
pub open spec fn ident_is(ident: Option<String>, name: Seq<char>) -> bool {
    match ident {
        Some(i) => i@ == name,
        None => false,
    }
}

/// Whether an optional identifier is the given name.
pub fn is_ident(ident: &Option<String>, name: &str) -> (r: bool)
    ensures
        r == ident_is(*ident, name@),
{
    match ident {
        Some(i) => crate::text::same_text(i.as_str(), name),
        None => false,
    }
}

} // verus!
