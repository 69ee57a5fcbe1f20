use std::collections::{BTreeMap, BTreeSet, HashMap, HashSet, VecDeque};
use std::time::{Duration, SystemTime};

use predawn::attr::{Attr, AttrExpr, AttrLit, AttrMeta, NestedKind, NestedMeta};
use predawn::default_expr::DefaultExpr;
use predawn::schema::{key_from_type_name, reference_to, Schema, SchemaKind, SchemaRef, SchemaRegistry, ToSchema};
use predawn::schema_derive::{
    compose_title, plan_field, plan_fields, plan_parameter, plan_parameters, plan_schema, plan_title, plan_variant,
    title_template, FieldPlan, GenericParam, ParameterFieldPlan, SchemaAttr, SchemaField, SchemaPlan,
    SchemaPlanError, TitleSlot, VariantInfo, VariantPlan,
};
use predawn::serde_attr::FlagOrValue;
use predawn::shape::{SchemaFields, SchemaProperties};

#[test]
fn aaa() {
    assert_eq!(<[i32; 4] as ToSchema>::title(), "Array4<i32>");
    assert_eq!(<[i32; 5] as ToSchema>::title(), "Array5<i32>");
}

#[test]
fn keys_come_from_type_paths() {
    assert_eq!(key_from_type_name("alloc::string::String"), "alloc.string.String");
    assert_eq!(key_from_type_name("a::b::C<d::E>"), "a.b.C<d.E>");
    assert_eq!(key_from_type_name("u8"), "u8");
    assert_eq!(reference_to(&"x.Y".to_string()), "#/components/schemas/x.Y");
}

#[test]
fn titles_and_keys_of_standard_types() {
    assert_eq!(<String as ToSchema>::key(), "alloc.string.String");
    assert_eq!(<String as ToSchema>::title(), "String");
    assert_eq!(<Vec<u8> as ToSchema>::key(), "alloc.vec.Vec<u8>");
    assert_eq!(<Vec<String> as ToSchema>::title(), "List<String>");
    assert_eq!(<BTreeSet<i64> as ToSchema>::title(), "Set<i64>");
    assert_eq!(<Option<bool> as ToSchema>::title(), "Option<bool>");
    assert_eq!(<BTreeMap<String, u32> as ToSchema>::title(), "Map<String, u32>");
    assert_eq!(<[u8; 16] as ToSchema>::key(), "Array16<u8>");
    assert_eq!(<Duration as ToSchema>::title(), "Duration");
    assert_eq!(<SystemTime as ToSchema>::key(), "std.time.SystemTime");
    assert_eq!(<serde_json::Value as ToSchema>::title(), "Any");
    assert_eq!(<serde_json::Number as ToSchema>::title(), "Number");
}

#[test]
fn optional_types_are_not_required() {
    assert!(<u8 as ToSchema>::required());
    assert!(!<Option<u8> as ToSchema>::required());
    let mut reg = SchemaRegistry::new();
    let s = <Option<u8> as ToSchema>::schema(&mut reg);
    assert!(s.nullable);
    assert_eq!(s.title.as_deref(), Some("Option<u8>"));
}

#[test]
fn integer_schemas() {
    let mut reg = SchemaRegistry::new();
    let s = <u16 as ToSchema>::schema(&mut reg);
    assert_eq!(s.title.as_deref(), Some("u16"));
    assert!(matches!(s.kind, SchemaKind::Integer { minimum: Some(0), maximum: None, .. }));
}

fn keys(reg: SchemaRegistry) -> Vec<String> {
    reg.into_schemas().into_iter().map(|(k, _)| k).collect()
}

#[test]
fn references_register_schemas_once() {
    let mut reg = SchemaRegistry::new();
    let r = <Vec<String> as ToSchema>::schema_ref(&mut reg);
    assert!(matches!(r, SchemaRef::Reference(ref p) if p == "#/components/schemas/alloc.vec.Vec<alloc.string.String>"));
    let again = <Vec<String> as ToSchema>::schema_ref(&mut reg);
    assert!(matches!(again, SchemaRef::Reference(ref p) if p == "#/components/schemas/alloc.vec.Vec<alloc.string.String>"));
    assert!(reg.contains(&"alloc.string.String".to_string()));
    assert_eq!(keys(reg), vec!["alloc.string.String".to_string(), "alloc.vec.Vec<alloc.string.String>".to_string()]);
}

#[test]
fn duration_and_system_time_are_objects() {
    let mut reg = SchemaRegistry::new();
    let s = <Duration as ToSchema>::schema(&mut reg);
    match s.kind {
        SchemaKind::Object(obj) => {
            assert_eq!(obj.properties.iter().map(|(k, _)| k.as_str()).collect::<Vec<_>>(), vec!["secs", "nanos"]);
            assert_eq!(obj.required, vec!["secs".to_string(), "nanos".to_string()]);
        }
        _ => panic!("expected an object"),
    }
    let s = <SystemTime as ToSchema>::schema(&mut reg);
    assert_eq!(s.title.as_deref(), Some("SystemTime"));
    assert_eq!(keys(reg), vec!["u64".to_string(), "u32".to_string(), "i64".to_string()]);
}

#[test]
fn map_schemas_have_additional_properties() {
    let mut reg = SchemaRegistry::new();
    let s = <BTreeMap<String, bool> as ToSchema>::schema(&mut reg);
    assert_eq!(s.title.as_deref(), Some("Map<String, bool>"));
    assert!(matches!(s.kind, SchemaKind::Object(ref o) if o.additional_properties.is_some() && o.properties.is_empty()));
}

#[test]
fn registry_tracks_schemas_being_built() {
    let mut reg = SchemaRegistry::new();
    reg.begin("a.B".to_string());
    assert!(reg.is_in_progress(&"a.B".to_string()));
    assert!(!reg.contains(&"a.B".to_string()));
    reg.finish(Schema { title: None, description: None, nullable: false, kind: SchemaKind::Boolean });
    assert!(!reg.is_in_progress(&"a.B".to_string()));
    assert!(reg.contains(&"a.B".to_string()));
}

fn doc(text: &str) -> Attr {
    Attr {
        ident: Some("doc".to_string()),
        meta: AttrMeta::NameValue(AttrExpr::Lit(AttrLit::Str(text.to_string()))),
    }
}

fn serde_items(items: Vec<NestedMeta>) -> Attr {
    Attr { ident: Some("serde".to_string()), meta: AttrMeta::List(Some(items)) }
}

fn serde_str(name: &str, value: &str) -> NestedMeta {
    NestedMeta {
        ident: Some(name.to_string()),
        kind: NestedKind::NameValue(AttrExpr::Lit(AttrLit::Str(value.to_string()))),
    }
}

fn serde_flag(name: &str) -> NestedMeta {
    NestedMeta { ident: Some(name.to_string()), kind: NestedKind::Path }
}

fn no_schema_attr() -> SchemaAttr<&'static str> {
    SchemaAttr { rename: None, flatten: false, default: FlagOrValue::Absent }
}

fn field(name: &str, attrs: Vec<Attr>, schema: SchemaAttr<&'static str>, ty: &'static str) -> SchemaField<&'static str, &'static str> {
    SchemaField { ident: Some(name.to_string()), attrs, schema, ty }
}

#[test]
fn fields_are_named_by_schema_then_serde_then_ident() {
    let p = plan_field(field("user_id", vec![], no_schema_attr(), "u64")).ok().unwrap();
    assert!(matches!(p, FieldPlan::Property(ref q) if q.name == "user_id" && !q.inline && q.required_if_type_requires));
    let p = plan_field(field("user_id", vec![serde_items(vec![serde_str("rename", "userId")])], no_schema_attr(), "u64"))
        .ok()
        .unwrap();
    assert!(matches!(p, FieldPlan::Property(ref q) if q.name == "userId"));
    let renamed = SchemaAttr { rename: Some("uid".to_string()), flatten: false, default: FlagOrValue::Absent };
    let p = plan_field(field("user_id", vec![serde_items(vec![serde_str("rename", "userId")])], renamed, "u64"))
        .ok()
        .unwrap();
    assert!(matches!(p, FieldPlan::Property(ref q) if q.name == "uid" && q.ty == "u64"));
}

#[test]
fn described_or_defaulted_fields_are_inline() {
    let p = plan_field(field("age", vec![doc(" Years. ")], no_schema_attr(), "u8")).ok().unwrap();
    assert!(matches!(p, FieldPlan::Property(ref q)
        if q.inline && q.required_if_type_requires && q.description.as_deref() == Some("Years.")));
    let p = plan_field(field("age", vec![serde_items(vec![serde_flag("default")])], no_schema_attr(), "u8")).ok().unwrap();
    assert!(matches!(p, FieldPlan::Property(ref q)
        if q.inline && !q.required_if_type_requires && q.default == Some(DefaultExpr::TypeDefault)));
    let given = SchemaAttr { rename: None, flatten: false, default: FlagOrValue::Value("18") };
    let p = plan_field(field("age", vec![], given, "u8")).ok().unwrap();
    assert!(matches!(p, FieldPlan::Property(ref q) if q.default == Some(DefaultExpr::Given("18"))));
}

#[test]
fn flattened_fields_merge() {
    let p = plan_field(field("extra", vec![serde_items(vec![serde_flag("flatten")])], no_schema_attr(), "Extra")).ok().unwrap();
    assert!(matches!(p, FieldPlan::Flatten("Extra")));
    let flat = SchemaAttr { rename: None, flatten: true, default: FlagOrValue::Absent };
    let p = plan_field(field("extra", vec![serde_items(vec![serde_str("default", "not a path!")])], flat, "Extra")).ok().unwrap();
    assert!(matches!(p, FieldPlan::Flatten("Extra")));
}

#[test]
fn bad_default_paths_are_reported_per_field() {
    let bad = || field("x", vec![serde_items(vec![serde_str("default", "1 +")])], no_schema_attr(), "u8");
    assert!(plan_field(bad()).is_err());
    let errors = plan_fields(vec![field("a", vec![], no_schema_attr(), "u8"), bad(), bad()]).err().unwrap();
    assert_eq!(errors, vec![1, 2]);
    let ok = plan_fields(vec![field("a", vec![], no_schema_attr(), "u8")]).ok().unwrap();
    assert_eq!(ok.len(), 1);
}

#[test]
fn parameters_are_required_by_their_type() {
    let p = plan_parameter(field("page", vec![serde_items(vec![serde_flag("default")])], no_schema_attr(), "u32")).ok().unwrap();
    assert!(matches!(p, ParameterFieldPlan::Parameter(ref q) if q.name == "page" && q.inline));
    let p = plan_parameter(field("q", vec![doc("Query.")], no_schema_attr(), "String")).ok().unwrap();
    assert!(matches!(p, ParameterFieldPlan::Parameter(ref q) if !q.inline && q.description.as_deref() == Some("Query.")));
    let flat = SchemaAttr { rename: None, flatten: true, default: FlagOrValue::Absent };
    assert!(matches!(plan_parameter(field("rest", vec![], flat, "Paging")).ok().unwrap(), ParameterFieldPlan::Flatten("Paging")));
    let errors = plan_parameters(vec![field("x", vec![serde_items(vec![serde_str("default", "?")])], no_schema_attr(), "u8")])
        .err()
        .unwrap();
    assert_eq!(errors, vec![0]);
}

#[test]
fn titles_of_generic_types() {
    assert_eq!(compose_title("Page", &vec![]), "Page");
    assert_eq!(compose_title("Page", &vec!["User".to_string()]), "Page<User>");
    assert_eq!(compose_title("Pair", &vec!["A".to_string(), "B".to_string(), "3".to_string()]), "Pair<A, B, 3>");
    assert_eq!(title_template("Pair", 0), "Pair");
    assert_eq!(title_template("Pair", 2), "Pair<{}, {}>");
    let slots = plan_title::<&str, &str>(vec![GenericParam::Lifetime, GenericParam::Type("T"), GenericParam::Const("N")]);
    assert_eq!(slots.len(), 2);
    assert!(matches!(slots[0], TitleSlot::TypeTitle("T")));
    assert!(matches!(slots[1], TitleSlot::ConstValue("N")));
}

fn info(name: &str) -> VariantInfo<&'static str> {
    VariantInfo { ident: name.to_string(), schema: no_schema_attr() }
}

#[test]
fn variants_of_one_of_enums() {
    let unit = plan_variant::<&str, &str>((info("Idle"), vec![doc("Doing nothing.")], SchemaFields::Unit)).ok().unwrap();
    assert!(matches!(unit, VariantPlan::Unit { ref name, ref description } if name == "Idle" && description.as_deref() == Some("Doing nothing.")));
    let unnamed = plan_variant::<&str, &str>((
        info("Text"),
        vec![serde_items(vec![serde_str("rename", "text")])],
        SchemaFields::Unnamed(field("0", vec![], no_schema_attr(), "String")),
    ))
    .ok()
    .unwrap();
    assert!(matches!(unnamed, VariantPlan::Unnamed { ref name, ty: "String", .. } if name == "text"));
    let named = plan_variant::<&str, &str>((
        info("Point"),
        vec![],
        SchemaFields::Named(vec![field("x", vec![], no_schema_attr(), "i32"), field("y", vec![], no_schema_attr(), "i32")]),
    ))
    .ok()
    .unwrap();
    assert!(matches!(named, VariantPlan::Named { ref fields, .. } if fields.len() == 2));
}

#[test]
fn schema_plans() {
    let object = plan_schema::<&str, &str, &str>(
        "User".to_string(),
        &vec![doc("A user.")],
        vec![GenericParam::Type("T")],
        SchemaProperties::NamedStruct(vec![field("id", vec![], no_schema_attr(), "u64")]),
    )
    .ok()
    .unwrap();
    match object {
        SchemaPlan::Object { title, description, properties } => {
            assert_eq!(title.name, "User");
            assert_eq!(title.slots.len(), 1);
            assert_eq!(description.as_deref(), Some("A user."));
            assert_eq!(properties.len(), 1);
        }
        _ => panic!("expected an object"),
    }

    let strings = plan_schema::<&str, &str, &str>(
        "Color".to_string(),
        &vec![],
        vec![],
        SchemaProperties::OnlyUnitEnum(vec![
            (info("Red"), vec![]),
            (VariantInfo { ident: "Green".to_string(), schema: SchemaAttr { rename: Some("green".to_string()), flatten: false, default: FlagOrValue::Absent } }, vec![]),
            (info("Blue"), vec![serde_items(vec![serde_str("rename", "BLUE")])]),
        ]),
    )
    .ok()
    .unwrap();
    assert!(matches!(strings, SchemaPlan::StringEnum { ref title, ref enumeration, description: None }
        if title == "Color" && enumeration == &vec!["Red".to_string(), "green".to_string(), "BLUE".to_string()]));

    let bad = || field("x", vec![serde_items(vec![serde_str("default", "1 +")])], no_schema_attr(), "u8");
    let errors = plan_schema::<&str, &str, &str>(
        "Shape".to_string(),
        &vec![],
        vec![],
        SchemaProperties::NormalEnum(vec![
            (info("A"), vec![], SchemaFields::Named(vec![bad()])),
            (info("B"), vec![], SchemaFields::Unit),
            (info("C"), vec![], SchemaFields::Named(vec![field("ok", vec![], no_schema_attr(), "u8"), bad()])),
        ]),
    )
    .err()
    .unwrap();
    assert_eq!(errors, vec![SchemaPlanError::VariantFieldDefault(0, 0), SchemaPlanError::VariantFieldDefault(2, 1)]);

    let errors = plan_schema::<&str, &str, &str>(
        "S".to_string(),
        &vec![],
        vec![],
        SchemaProperties::NamedStruct(vec![bad()]),
    )
    .err()
    .unwrap();
    assert_eq!(errors, vec![SchemaPlanError::FieldDefault(0)]);
}

#[test]
fn keys_of_standard_types_are_their_type_paths() {
    assert_eq!(<i128 as ToSchema>::key(), "i128");
    assert_eq!(<u128 as ToSchema>::key(), "u128");
    assert_eq!(<BTreeSet<u8> as ToSchema>::key(), "alloc.collections.btree.set.BTreeSet<u8>");
    assert_eq!(<VecDeque<u8> as ToSchema>::key(), "alloc.collections.vec_deque.VecDeque<u8>");
    assert_eq!(<HashSet<u8> as ToSchema>::key(), "std.collections.hash.set.HashSet<u8>");
    assert_eq!(<Option<bool> as ToSchema>::key(), "core.option.Option<bool>");
    assert_eq!(
        <BTreeMap<String, u8> as ToSchema>::key(),
        "alloc.collections.btree.map.BTreeMap<alloc.string.String, u8>"
    );
    assert_eq!(<HashMap<String, u8> as ToSchema>::key(), "std.collections.hash.map.HashMap<alloc.string.String, u8>");
    assert_eq!(<Duration as ToSchema>::key(), "core.time.Duration");
    assert_eq!(<serde_json::Value as ToSchema>::key(), "serde_json.value.Value");
    assert_eq!(<serde_json::Number as ToSchema>::key(), "serde_json.number.Number");
}

#[test]
fn other_collections() {
    let mut reg = SchemaRegistry::new();
    let s = <VecDeque<u8> as ToSchema>::schema(&mut reg);
    assert_eq!(s.title.as_deref(), Some("List<u8>"));
    assert!(matches!(s.kind, SchemaKind::Array { unique_items: false, .. }));
    let s = <HashSet<u8> as ToSchema>::schema(&mut reg);
    assert_eq!(s.title.as_deref(), Some("Set<u8>"));
    assert!(matches!(s.kind, SchemaKind::Array { unique_items: true, .. }));
    let s = <HashMap<String, bool> as ToSchema>::schema(&mut reg);
    assert_eq!(s.title.as_deref(), Some("Map<String, bool>"));
    let s = <i128 as ToSchema>::schema(&mut reg);
    assert!(matches!(s.kind, SchemaKind::Integer { minimum: None, .. }));
    let s = <u128 as ToSchema>::schema(&mut reg);
    assert!(matches!(s.kind, SchemaKind::Integer { minimum: Some(0), .. }));
    assert_eq!(keys(reg), vec!["u8".to_string(), "bool".to_string()]);
}

#[test]
fn keys_never_hold_path_separators() {
    for name in ["a:::b", "::", ":", "a::::b", "x:y::z", ":::::"] {
        let key = key_from_type_name(name);
        assert!(!key.contains("::"), "{key}");
    }
    assert_eq!(key_from_type_name("a:::b"), "a.:b");
}

#[test]
fn references_to_schemas_being_built_change_nothing() {
    let mut reg = SchemaRegistry::new();
    reg.begin("alloc.vec.Vec<u8>".to_string());
    let r = <Vec<u8> as ToSchema>::schema_ref(&mut reg);
    assert!(matches!(r, SchemaRef::Reference(ref p) if p == "#/components/schemas/alloc.vec.Vec<u8>"));
    assert!(!reg.contains(&"u8".to_string()));
    assert!(reg.is_in_progress(&"alloc.vec.Vec<u8>".to_string()));
}

#[test]
fn optional_schemas_keep_the_inner_kind() {
    let mut reg = SchemaRegistry::new();
    let s = <Option<u32> as ToSchema>::schema(&mut reg);
    assert!(s.nullable);
    assert_eq!(s.description, None);
    assert!(matches!(s.kind, SchemaKind::Integer { minimum: Some(0), maximum: None, .. }));
    let r = <Vec<bool> as ToSchema>::schema_ref(&mut reg);
    assert!(matches!(r, SchemaRef::Reference(_)));
    assert_eq!(keys(reg), vec!["bool".to_string(), "alloc.vec.Vec<bool>".to_string()]);
}
