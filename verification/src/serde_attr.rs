//! What the schema derives read of `#[serde(...)]` attributes: `rename`,
//! `flatten` and `default`.

use vstd::prelude::*;
use crate::attr::{ident_is, is_ident, Attr, AttrExpr, AttrLit, AttrMeta, NestedKind, NestedMeta};

verus! {

/// An option that may be absent, present as a bare flag, or given a value.
#[derive(Clone, Debug, PartialEq, Eq)]
pub enum FlagOrValue<T> {
    Absent,
    Flag,
    Value(T),
}

/// The view of an optional text.
pub open spec fn opt_text(o: Option<String>) -> Option<Seq<char>> {
    match o {
        Some(s) => Some(s@),
        None => None,
    }
}

/// The view of a flag-or-text.
pub open spec fn flag_text(f: FlagOrValue<String>) -> FlagOrValue<Seq<char>> {
    match f {
        FlagOrValue::Absent => FlagOrValue::Absent,
        FlagOrValue::Flag => FlagOrValue::Flag,
        FlagOrValue::Value(s) => FlagOrValue::Value(s@),
    }
}

/// What `#[serde(...)]` attributes say of a field or variant.
pub struct SerdeAttr {
    pub rename: Option<String>,
    pub flatten: bool,
    pub default: FlagOrValue<String>,
}

/// What one nested item of a `serde` attribute does to what was read so far.
pub open spec fn serde_item_step(
    st: (Option<Seq<char>>, bool, FlagOrValue<Seq<char>>),
    m: NestedMeta,
) -> (Option<Seq<char>>, bool, FlagOrValue<Seq<char>>) {
    let (rename, flatten, default) = st;
    if ident_is(m.ident, "rename"@) {
        match m.kind {
            NestedKind::NameValue(AttrExpr::Lit(AttrLit::Str(s))) => (Some(s@), flatten, default),
            _ => st,
        }
    } else if ident_is(m.ident, "flatten"@) {
        match m.kind {
            NestedKind::Path => (rename, true, default),
            _ => st,
        }
    } else if ident_is(m.ident, "default"@) {
        match m.kind {
            NestedKind::Path => (rename, flatten, FlagOrValue::Flag),
            NestedKind::NameValue(AttrExpr::Lit(AttrLit::Str(s))) => (rename, flatten, FlagOrValue::Value(s@)),
            _ => st,
        }
    } else {
        st
    }
}

/// What the nested items of one `serde` attribute say, in order.
pub open spec fn serde_items(
    st: (Option<Seq<char>>, bool, FlagOrValue<Seq<char>>),
    items: Seq<NestedMeta>,
) -> (Option<Seq<char>>, bool, FlagOrValue<Seq<char>>)
    decreases items.len(),
{
    if items.len() == 0 {
        st
    } else {
        serde_item_step(serde_items(st, items.drop_last()), items.last())
    }
}

/// What one attribute does to what was read so far: only `#[serde(...)]`
/// with parseable items is read.
pub open spec fn serde_attr_step(
    st: (Option<Seq<char>>, bool, FlagOrValue<Seq<char>>),
    a: Attr,
) -> (Option<Seq<char>>, bool, FlagOrValue<Seq<char>>) {
    if ident_is(a.ident, "serde"@) {
        match a.meta {
            AttrMeta::List(Some(items)) => serde_items(st, items@),
            _ => st,
        }
    } else {
        st
    }
}

/// What the `serde` attributes among `attrs` say: later items override earlier ones.
pub open spec fn serde_attrs(attrs: Seq<Attr>) -> (Option<Seq<char>>, bool, FlagOrValue<Seq<char>>)
    decreases attrs.len(),
{
    if attrs.len() == 0 {
        (None, false, FlagOrValue::Absent)
    } else {
        serde_attr_step(serde_attrs(attrs.drop_last()), attrs.last())
    }
}

fn read_items(rename: &mut Option<String>, flatten: &mut bool, default: &mut FlagOrValue<String>, items: &Vec<NestedMeta>)
    ensures
        (opt_text(*final(rename)), *final(flatten), flag_text(*final(default))) == serde_items(
            (opt_text(*old(rename)), *old(flatten), flag_text(*old(default))),
            items@,
        ),
{
    let ghost st0 = (opt_text(*rename), *flatten, flag_text(*default));
    let mut j: usize = 0;
    while j < items.len()
        invariant
            j <= items.len(),
            (opt_text(*rename), *flatten, flag_text(*default)) == serde_items(st0, items@.take(j as int)),
        decreases items.len() - j,
    {
        let m = &items[j];
        assert(items@.take(j + 1).drop_last() =~= items@.take(j as int));
        if is_ident(&m.ident, "rename") {
            match &m.kind {
                NestedKind::NameValue(AttrExpr::Lit(AttrLit::Str(s))) => {
                    *rename = Some(s.clone());
                },
                _ => {},
            }
        } else if is_ident(&m.ident, "flatten") {
            match &m.kind {
                NestedKind::Path => {
                    *flatten = true;
                },
                _ => {},
            }
        } else if is_ident(&m.ident, "default") {
            match &m.kind {
                NestedKind::Path => {
                    *default = FlagOrValue::Flag;
                },
                NestedKind::NameValue(AttrExpr::Lit(AttrLit::Str(s))) => {
                    *default = FlagOrValue::Value(s.clone());
                },
                _ => {},
            }
        }
        j = j + 1;
    }
    assert(items@.take(items.len() as int) =~= items@);
}

impl SerdeAttr {
    /// Reads `rename`, `flatten` and `default` from the `serde` attributes
    /// among `attrs`; anything else, and anything unreadable, is ignored.
    pub fn new(attrs: &Vec<Attr>) -> (s: Self)
        ensures
            (opt_text(s.rename), s.flatten, flag_text(s.default)) == serde_attrs(attrs@),
    {
        let mut rename: Option<String> = None;
        let mut flatten = false;
        let mut default: FlagOrValue<String> = FlagOrValue::Absent;
        let mut i: usize = 0;
        while i < attrs.len()
            invariant
                i <= attrs.len(),
                (opt_text(rename), flatten, flag_text(default)) == serde_attrs(attrs@.take(i as int)),
            decreases attrs.len() - i,
        {
            let a = &attrs[i];
            assert(attrs@.take(i + 1).drop_last() =~= attrs@.take(i as int));
            if is_ident(&a.ident, "serde") {
                match &a.meta {
                    AttrMeta::List(Some(items)) => {
                        read_items(&mut rename, &mut flatten, &mut default, items);
                    },
                    _ => {},
                }
            }
            i = i + 1;
        }
        assert(attrs@.take(attrs.len() as int) =~= attrs@);
        SerdeAttr { rename, flatten, default }
    }
}

/// What the `rename` items of `serde` attributes say, or the position of the
/// first `serde` attribute whose items do not parse.
pub open spec fn serde_rename_of(attrs: Seq<Attr>) -> Result<Option<Seq<char>>, int>
    decreases attrs.len(),
{
    if attrs.len() == 0 {
        Ok(None)
    } else {
        match serde_rename_of(attrs.drop_last()) {
            Err(i) => Err(i),
            Ok(rename) => {
                let a = attrs.last();
                if ident_is(a.ident, "serde"@) {
                    match a.meta {
                        AttrMeta::List(None) => Err(attrs.len() - 1),
                        AttrMeta::List(Some(items)) => Ok(rename_items(rename, items@)),
                        _ => Ok(rename),
                    }
                } else {
                    Ok(rename)
                }
            },
        }
    }
}

/// The last string `rename = "..."` among nested items, after `rename`.
pub open spec fn rename_items(rename: Option<Seq<char>>, items: Seq<NestedMeta>) -> Option<Seq<char>>
    decreases items.len(),
{
    if items.len() == 0 {
        rename
    } else {
        let before = rename_items(rename, items.drop_last());
        let m = items.last();
        if ident_is(m.ident, "rename"@) {
            match m.kind {
                NestedKind::NameValue(AttrExpr::Lit(AttrLit::Str(s))) => Some(s@),
                _ => before,
            }
        } else {
            before
        }
    }
}

/// The name a multipart field is sent under, from `#[serde(rename = "...")]`;
/// a `serde` attribute whose items do not parse is refused (by its position).
pub fn serde_rename(attrs: &Vec<Attr>) -> (r: Result<Option<String>, usize>)
    ensures
        match r {
            Ok(rename) => serde_rename_of(attrs@) == Ok::<Option<Seq<char>>, int>(opt_text(rename)),
            Err(i) => serde_rename_of(attrs@) == Err::<Option<Seq<char>>, int>(i as int),
        },
{
    let mut rename: Option<String> = None;
    let mut i: usize = 0;
    while i < attrs.len()
        invariant
            i <= attrs.len(),
            serde_rename_of(attrs@.take(i as int)) == Ok::<Option<Seq<char>>, int>(opt_text(rename)),
        decreases attrs.len() - i,
    {
        let a = &attrs[i];
        assert(attrs@.take(i + 1).drop_last() =~= attrs@.take(i as int));
        if is_ident(&a.ident, "serde") {
            match &a.meta {
                AttrMeta::List(None) => {
                    proof {
                        lemma_rename_error_sticks(attrs@, i as int);
                    }
                    return Err(i);
                },
                AttrMeta::List(Some(items)) => {
                    let ghost before = opt_text(rename);
                    let mut j: usize = 0;
                    while j < items.len()
                        invariant
                            j <= items.len(),
                            opt_text(rename) == rename_items(before, items@.take(j as int)),
                        decreases items.len() - j,
                    {
                        let m = &items[j];
                        assert(items@.take(j + 1).drop_last() =~= items@.take(j as int));
                        if is_ident(&m.ident, "rename") {
                            match &m.kind {
                                NestedKind::NameValue(AttrExpr::Lit(AttrLit::Str(s))) => {
                                    rename = Some(s.clone());
                                },
                                _ => {},
                            }
                        }
                        j = j + 1;
                    }
                    assert(items@.take(items.len() as int) =~= items@);
                },
                _ => {},
            }
        }
        i = i + 1;
    }
    assert(attrs@.take(attrs.len() as int) =~= attrs@);
    Ok(rename)
}

/// Once a prefix of the attributes is refused, the whole list is refused at
/// the same position.
proof fn lemma_rename_error_sticks(attrs: Seq<Attr>, i: int)
    requires
        0 <= i < attrs.len(),
        serde_rename_of(attrs.take(i)) is Ok,
        ident_is(attrs[i].ident, "serde"@),
        attrs[i].meta matches AttrMeta::List(None),
    ensures
        serde_rename_of(attrs) == Err::<Option<Seq<char>>, int>(i),
    decreases attrs.len() - i,
{
    if attrs.len() == i + 1 {
        assert(attrs.drop_last() =~= attrs.take(i));
    } else {
        assert(attrs.drop_last().take(i) =~= attrs.take(i));
        assert(attrs.drop_last()[i] == attrs[i]);
        lemma_rename_error_sticks(attrs.drop_last(), i);
    }
}

} // verus!
