//! What the `Tag` derive generates for a type: the tag's name and
//! description in the OpenAPI document.

use vstd::prelude::*;
use crate::attr::Attr;
use crate::docs::description_of;
use crate::schema_derive::{described, description_if_any};
use crate::serde_attr::opt_text;

verus! {

/// A tag of the document.
pub struct TagPlan {
    pub name: String,
    pub description: Option<String>,
}

/// The tag of a type named `ident`, renamed by `#[tag(rename = "...")]`
/// when given, described by the type's doc comments when they say anything.
pub fn plan_tag(ident: String, rename: Option<String>, attrs: &Vec<Attr>) -> (t: TagPlan)
    ensures
        t.name@ == match rename {
            Some(r) => r@,
            None => ident@,
        },
        opt_text(t.description) == described(description_of(attrs@)),
{
    let name = match rename {
        Some(r) => r,
        None => ident,
    };
    TagPlan { name, description: description_if_any(attrs) }
}

} // verus!
