//! The default value of a field in a schema, from `#[serde(default ...)]` and
//! `#[schema(default ...)]`.

use vstd::prelude::*;
use crate::serde_attr::FlagOrValue;

verus! {

/// Whether `syn` parses `text` as a path.
pub uninterp spec fn parses_as_path(text: Seq<char>) -> bool;

/// `syn::parse_str::<syn::Path>`: whether the text parses as a path, named
/// by `parses_as_path`; the grammar of paths is left unstated.
#[verifier::external_body]
pub(crate) fn is_path(text: &str) -> (ok: bool)
    ensures
        ok == parses_as_path(text@),
{
    syn::parse_str::<syn::Path>(text).is_ok()
}

/// Where the default value of a field comes from.
#[derive(Clone, Debug, PartialEq, Eq)]
pub enum DefaultExpr<P, E> {
    /// `<T as Default>::default()`
    TypeDefault,
    /// A call of the function at this path, given as `#[serde(default = "path")]`.
    CallPath(P),
    /// The expression given as `#[schema(default = expr)]`.
    Given(E),
}

/// Why no default could be made: `#[serde(default = "...")]` names no path.
#[derive(Clone, Copy, Debug, PartialEq, Eq, Structural)]
pub enum DefaultExprError {
    InvalidPath,
}

/// The default of a field: none when neither attribute asks for one; the
/// expression of `#[schema(default = ...)]` when it gives one; else the
/// function of `#[serde(default = "...")]`, which must be a path; else the
/// type's own default.
pub open spec fn default_expr_spec<E>(serde_default: FlagOrValue<Seq<char>>, schema_default: FlagOrValue<E>) -> Result<Option<DefaultExpr<Seq<char>, E>>, DefaultExprError> {
    match (serde_default, schema_default) {
        (FlagOrValue::Absent, FlagOrValue::Absent) => Ok(None),
        (_, FlagOrValue::Value(e)) => Ok(Some(DefaultExpr::Given(e))),
        (FlagOrValue::Value(v), _) => if parses_as_path(v) {
            Ok(Some(DefaultExpr::CallPath(v)))
        } else {
            Err(DefaultExprError::InvalidPath)
        },
        _ => Ok(Some(DefaultExpr::TypeDefault)),
    }
}

/// Where a field's default comes from: nowhere when neither attribute asks
/// for one; the expression `#[schema(default = ...)]` gives, whatever serde
/// says; else a call of exactly the function `#[serde(default = "...")]`
/// names, with or without a bare `#[schema(default)]` (a text that is no path
/// is refused); else the type's own default.
pub proof fn lemma_default_sources<E>(serde_default: FlagOrValue<Seq<char>>, schema_default: FlagOrValue<E>)
    ensures
        serde_default is Absent && schema_default is Absent ==> default_expr_spec(serde_default, schema_default) == Ok::<Option<DefaultExpr<Seq<char>, E>>, DefaultExprError>(None),
        schema_default matches FlagOrValue::Value(e) ==> default_expr_spec(serde_default, schema_default) == Ok::<Option<DefaultExpr<Seq<char>, E>>, DefaultExprError>(Some(DefaultExpr::Given(e))),
        serde_default matches FlagOrValue::Value(v) ==> (!(schema_default is Value) ==> default_expr_spec(serde_default, schema_default) == if parses_as_path(v) {
            Ok::<Option<DefaultExpr<Seq<char>, E>>, DefaultExprError>(Some(DefaultExpr::CallPath(v)))
        } else {
            Err::<Option<DefaultExpr<Seq<char>, E>>, DefaultExprError>(DefaultExprError::InvalidPath)
        }),
        !(schema_default is Value) && !(serde_default is Value) && !(serde_default is Absent && schema_default is Absent)
            ==> default_expr_spec(serde_default, schema_default) == Ok::<Option<DefaultExpr<Seq<char>, E>>, DefaultExprError>(Some(DefaultExpr::TypeDefault)),
{
}

/// The view of a made default: the path of a call as text.
pub open spec fn default_expr_view<E>(r: Result<Option<DefaultExpr<String, E>>, DefaultExprError>) -> Result<Option<DefaultExpr<Seq<char>, E>>, DefaultExprError> {
    match r {
        Ok(Some(DefaultExpr::TypeDefault)) => Ok(Some(DefaultExpr::TypeDefault)),
        Ok(Some(DefaultExpr::CallPath(p))) => Ok(Some(DefaultExpr::CallPath(p@))),
        Ok(Some(DefaultExpr::Given(e))) => Ok(Some(DefaultExpr::Given(e))),
        Ok(None) => Ok(None),
        Err(e) => Err(e),
    }
}

/// Decides the default value of a field from what `serde` and `schema` say.
pub fn generate_default_expr<E>(serde_default: FlagOrValue<String>, schema_default: FlagOrValue<E>) -> (r: Result<Option<DefaultExpr<String, E>>, DefaultExprError>)
    ensures
        default_expr_view(r) == default_expr_spec(crate::serde_attr::flag_text(serde_default), schema_default),
        serde_default is Absent && schema_default is Absent ==> r matches Ok(None),
        schema_default matches FlagOrValue::Value(e) ==> r matches Ok(Some(DefaultExpr::Given(g))) && g == e,
        serde_default matches FlagOrValue::Value(v) ==> (!(schema_default is Value) ==> if parses_as_path(v@) {
            r matches Ok(Some(DefaultExpr::CallPath(p))) && p@ == v@
        } else {
            r matches Err(DefaultExprError::InvalidPath)
        }),
        !(schema_default is Value) && !(serde_default is Value) && !(serde_default is Absent && schema_default is Absent)
            ==> r matches Ok(Some(DefaultExpr::TypeDefault)),
{
    match (serde_default, schema_default) {
        (FlagOrValue::Absent, FlagOrValue::Absent) => Ok(None),
        (_, FlagOrValue::Value(e)) => Ok(Some(DefaultExpr::Given(e))),
        (FlagOrValue::Value(v), _) => {
            if is_path(v.as_str()) {
                Ok(Some(DefaultExpr::CallPath(v)))
            } else {
                Err(DefaultExprError::InvalidPath)
            }
        },
        _ => Ok(Some(DefaultExpr::TypeDefault)),
    }
}

} // verus!
