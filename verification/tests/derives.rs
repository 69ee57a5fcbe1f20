use std::collections::BTreeSet;

use predawn::attr::{is_ident, Attr, AttrExpr, AttrLit, AttrMeta, NestedKind, NestedMeta};
use predawn::controller::{
    handler_security, mount_paths, plan_controller, plan_handler, plan_routes, ControllerAttr, ControllerError, FirstParam,
    HandlerAttr, HandlerError, HandlerSig, ImplFn, RoutePath,
};
use predawn::default_expr::{generate_default_expr, DefaultExpr, DefaultExprError};
use predawn::docs::{extract_description, extract_summary_and_description, remove_description, split_summary};
use predawn::header_attr::{extract_header_name, HeaderAttrError, HeaderNames};
use predawn::media_derives::{
    plan_multi_request_media_type, plan_multi_response_media_type, plan_multipart, MediaEnumError,
    MultipartError, MultipartField,
};
use predawn::method::{all_methods, Method};
use predawn::multi_response::{plan_multi_response, MultiResponseError};
use predawn::security_scheme::{
    generate_api_key, generate_http, generate_security_scheme, ApiKeyAttr, ApiKeyLocation, AuthScheme,
    HttpAttr, SchemeAttr, SchemeKind, SecuritySchemeError,
};
use predawn::serde_attr::{serde_rename, FlagOrValue, SerdeAttr};
use predawn::shape::{
    extract_named_struct_fields, extract_schema_properties, extract_single_unnamed_field, extract_variants,
    Data, Fields, SchemaProperties, SchemaShapeError, ShapeError, Variant,
};
use predawn::single_response::{plan_single_response, Member, ResponseField, SingleResponseError, SingleResponsePlan};
use predawn::status_attr::{
    extract_status_code, extract_status_code_value, parse_u16_digits, StatusAttrError, StatusValueError,
};
use predawn::tag::plan_tag;

fn doc(text: &str) -> Attr {
    Attr {
        ident: Some("doc".to_string()),
        meta: AttrMeta::NameValue(AttrExpr::Lit(AttrLit::Str(text.to_string()))),
    }
}

fn name_value_str(attr: &str, value: &str) -> Attr {
    Attr {
        ident: Some(attr.to_string()),
        meta: AttrMeta::NameValue(AttrExpr::Lit(AttrLit::Str(value.to_string()))),
    }
}

fn status(digits: &str) -> Attr {
    Attr {
        ident: Some("status".to_string()),
        meta: AttrMeta::NameValue(AttrExpr::Lit(AttrLit::Int(digits.to_string()))),
    }
}

fn nested_str(name: &str, value: &str) -> NestedMeta {
    NestedMeta {
        ident: Some(name.to_string()),
        kind: NestedKind::NameValue(AttrExpr::Lit(AttrLit::Str(value.to_string()))),
    }
}

fn nested_flag(name: &str) -> NestedMeta {
    NestedMeta { ident: Some(name.to_string()), kind: NestedKind::Path }
}

fn serde(items: Vec<NestedMeta>) -> Attr {
    Attr { ident: Some("serde".to_string()), meta: AttrMeta::List(Some(items)) }
}

#[test]
fn identifiers_are_compared_by_text() {
    assert!(is_ident(&Some("doc".to_string()), "doc"));
    assert!(!is_ident(&Some("docs".to_string()), "doc"));
    assert!(!is_ident(&None, "doc"));
}

#[test]
fn descriptions_join_trimmed_doc_lines() {
    let attrs = vec![doc(" First line. "), name_value_str("other", "x"), doc("  second"), doc("")];
    assert_eq!(extract_description(&attrs), "First line.\nsecond\n");
    assert_eq!(extract_description(&vec![]), "");
    assert_eq!(extract_description(&vec![doc("   ")]), "");
}

#[test]
fn summary_is_split_at_the_first_blank_line() {
    assert_eq!(split_summary("Sum\n\nDesc\n\nMore"), ("Sum".to_string(), "Desc\n\nMore".to_string()));
    assert_eq!(split_summary("Only a summary"), ("Only a summary".to_string(), String::new()));
    let attrs = vec![doc("Get a user."), doc(""), doc("Looks the user up by id.")];
    assert_eq!(
        extract_summary_and_description(&attrs),
        ("Get a user.".to_string(), "Looks the user up by id.".to_string())
    );
    assert_eq!(extract_summary_and_description(&vec![]), (String::new(), String::new()));
}

#[test]
fn doc_attributes_are_removed() {
    let mut attrs = vec![doc("a"), name_value_str("header", "x"), doc("b"), status("200")];
    remove_description(&mut attrs);
    assert_eq!(attrs.len(), 2);
    assert!(is_ident(&attrs[0].ident, "header"));
    assert!(is_ident(&attrs[1].ident, "status"));
}

#[test]
fn status_values() {
    assert_eq!(parse_u16_digits("404"), Some(404));
    assert_eq!(parse_u16_digits("65535"), Some(65535));
    assert_eq!(parse_u16_digits("65536"), None);
    assert_eq!(parse_u16_digits(""), None);
    assert_eq!(extract_status_code_value(None), Ok(200));
    assert_eq!(extract_status_code_value(Some("201")), Ok(201));
    assert_eq!(extract_status_code_value(Some("70000")), Err(StatusValueError::NotU16));
    assert_eq!(extract_status_code_value(Some("42")), Err(StatusValueError::InvalidStatusCode));
}

#[test]
fn status_attributes_take_distinct_codes() {
    let mut codes = BTreeSet::new();
    assert_eq!(extract_status_code(&vec![doc("x"), status("200")], &mut codes), Ok(Some(200)));
    assert_eq!(extract_status_code(&vec![status("200")], &mut codes), Err(vec![StatusAttrError::DuplicateStatusCode(0)]));
    assert_eq!(extract_status_code(&vec![], &mut codes), Ok(None));
    assert_eq!(
        extract_status_code(&vec![status("201"), status("202")], &mut codes),
        Err(vec![StatusAttrError::MoreThanOne(1)])
    );
    assert_eq!(
        extract_status_code(&vec![name_value_str("status", "x"), status("99999"), status("50")], &mut codes),
        Err(vec![
            StatusAttrError::NotIntLiteral(0),
            StatusAttrError::NotU16(1),
            StatusAttrError::InvalidStatusCode(2),
        ])
    );
    let bare = Attr { ident: Some("status".to_string()), meta: AttrMeta::Path };
    assert_eq!(extract_status_code(&vec![bare], &mut codes), Err(vec![StatusAttrError::NotNameValue(0)]));
    assert_eq!(codes.into_iter().collect::<Vec<_>>(), vec![200, 201]);
}

#[test]
fn header_names_are_normalized() {
    let mut names = HeaderNames::new();
    assert_eq!(
        extract_header_name(&vec![name_value_str("header", "X-Request-Id")], &mut names),
        Ok(Some("x-request-id".to_string()))
    );
    assert!(extract_header_name(&vec![name_value_str("header", "bad header")], &mut names).is_err());
}

#[test]
fn header_attributes() {
    let mut names = HeaderNames::new();
    assert_eq!(
        extract_header_name(&vec![name_value_str("header", "X-Token")], &mut names),
        Ok(Some("x-token".to_string()))
    );
    assert_eq!(names.get(&"x-token".to_string()), Some("X-Token".to_string()));
    assert_eq!(
        extract_header_name(&vec![name_value_str("header", "x-TOKEN")], &mut names),
        Err(vec![HeaderAttrError::Duplicate(0, "X-Token".to_string())])
    );
    assert_eq!(extract_header_name(&vec![doc("no header")], &mut names), Ok(None));
    assert_eq!(
        extract_header_name(&vec![name_value_str("header", "a b")], &mut names),
        Err(vec![HeaderAttrError::InvalidHeaderName(0)])
    );
    assert_eq!(
        extract_header_name(
            &vec![name_value_str("header", "x-a"), name_value_str("header", "x-b"), status("1")],
            &mut names
        ),
        Err(vec![HeaderAttrError::MoreThanOne(1)])
    );
    let int_value = Attr {
        ident: Some("header".to_string()),
        meta: AttrMeta::NameValue(AttrExpr::Lit(AttrLit::Int("1".to_string()))),
    };
    let list = Attr { ident: Some("header".to_string()), meta: AttrMeta::List(None) };
    assert_eq!(
        extract_header_name(&vec![int_value, list], &mut HeaderNames::new()),
        Err(vec![HeaderAttrError::NotStrLiteral(0), HeaderAttrError::NotNameValue(1)])
    );
}

#[test]
fn serde_attributes_later_items_win() {
    let attrs = vec![
        serde(vec![nested_str("rename", "first"), nested_flag("flatten")]),
        doc("x"),
        serde(vec![nested_str("rename", "second"), nested_str("default", "make")]),
    ];
    let s = SerdeAttr::new(&attrs);
    assert_eq!(s.rename.as_deref(), Some("second"));
    assert!(s.flatten);
    assert_eq!(s.default, FlagOrValue::Value("make".to_string()));
    let s = SerdeAttr::new(&vec![serde(vec![nested_flag("default")])]);
    assert_eq!(s.rename, None);
    assert!(!s.flatten);
    assert_eq!(s.default, FlagOrValue::Flag);
    let unreadable = Attr { ident: Some("serde".to_string()), meta: AttrMeta::List(None) };
    let s = SerdeAttr::new(&vec![unreadable]);
    assert_eq!(s.default, FlagOrValue::Absent);
}

#[test]
fn serde_rename_refuses_unparsable_items() {
    assert_eq!(serde_rename(&vec![serde(vec![nested_str("rename", "file")])]), Ok(Some("file".to_string())));
    assert_eq!(serde_rename(&vec![]), Ok(None));
    let unreadable = Attr { ident: Some("serde".to_string()), meta: AttrMeta::List(None) };
    assert_eq!(serde_rename(&vec![doc("d"), unreadable]), Err(1));
}

#[test]
fn default_expressions() {
    assert_eq!(generate_default_expr::<u8>(FlagOrValue::Absent, FlagOrValue::Absent), Ok(None));
    assert_eq!(generate_default_expr::<u8>(FlagOrValue::Flag, FlagOrValue::Absent), Ok(Some(DefaultExpr::TypeDefault)));
    assert_eq!(generate_default_expr::<u8>(FlagOrValue::Absent, FlagOrValue::Flag), Ok(Some(DefaultExpr::TypeDefault)));
    assert_eq!(
        generate_default_expr::<u8>(FlagOrValue::Value("crate::make".to_string()), FlagOrValue::Flag),
        Ok(Some(DefaultExpr::CallPath("crate::make".to_string())))
    );
    assert_eq!(
        generate_default_expr::<u8>(FlagOrValue::Value("crate::make".to_string()), FlagOrValue::Value(7)),
        Ok(Some(DefaultExpr::Given(7)))
    );
    assert_eq!(
        generate_default_expr::<u8>(FlagOrValue::Value("1 +".to_string()), FlagOrValue::Absent),
        Err(DefaultExprError::InvalidPath)
    );
}

fn unit_variant(name: &'static str, attrs: Vec<Attr>) -> Variant<&'static str, &'static str> {
    Variant { info: name, attrs, fields: Fields::Unit }
}

#[test]
fn shapes_of_derive_inputs() {
    assert_eq!(extract_variants::<u8, u8>(Data::Union).err(), Some(ShapeError::NotEnum));
    assert_eq!(extract_variants::<u8, u8>(Data::Enum(vec![])).err(), Some(ShapeError::NoVariants));
    assert_eq!(extract_variants(Data::Enum(vec![unit_variant("A", vec![])])).map(|v| v.len()).ok(), Some(1));
    assert_eq!(extract_named_struct_fields::<u8, u8>(Data::Struct(Fields::Named(vec![1, 2]))), Ok(vec![1, 2]));
    assert_eq!(extract_named_struct_fields::<u8, u8>(Data::Struct(Fields::Named(vec![]))), Err(ShapeError::NoFields));
    assert_eq!(extract_named_struct_fields::<u8, u8>(Data::Struct(Fields::Unit)), Err(ShapeError::NotNamedStruct));
    assert_eq!(extract_named_struct_fields::<u8, u8>(Data::Union), Err(ShapeError::NotStruct));
    assert_eq!(extract_single_unnamed_field(Fields::Unnamed(vec![5u8])), Ok(5));
    assert_eq!(extract_single_unnamed_field::<u8>(Fields::Unnamed(vec![])), Err(ShapeError::MissingField));
    assert_eq!(extract_single_unnamed_field(Fields::Unnamed(vec![1u8, 2, 3])), Err(ShapeError::ExtraFields(2)));
    assert_eq!(extract_single_unnamed_field(Fields::Named(vec![1u8])), Err(ShapeError::NotUnnamed));
}

#[test]
fn schema_properties_of_shapes() {
    let only_units = extract_schema_properties(Data::Enum(vec![unit_variant("A", vec![]), unit_variant("B", vec![])]));
    assert!(matches!(only_units, Ok(SchemaProperties::OnlyUnitEnum(ref vs)) if vs.len() == 2));
    let documented = extract_schema_properties(Data::Enum(vec![unit_variant("A", vec![doc("the a")])]));
    assert!(matches!(documented, Ok(SchemaProperties::NormalEnum(ref vs)) if vs.len() == 1));
    let bad = extract_schema_properties(Data::Enum(vec![
        Variant { info: "A", attrs: vec![], fields: Fields::Named(vec![]) },
        Variant { info: "B", attrs: vec![], fields: Fields::Unnamed(vec!["x", "y"]) },
    ]));
    assert_eq!(
        bad.err(),
        Some(vec![SchemaShapeError::EmptyNamedVariant(0), SchemaShapeError::UnnamedVariantNotOne(1)])
    );
    assert_eq!(
        extract_schema_properties::<&str, &str>(Data::Struct(Fields::Unit)).err(),
        Some(vec![SchemaShapeError::UnitStruct])
    );
    assert_eq!(
        extract_schema_properties::<&str, &str>(Data::Struct(Fields::Unnamed(vec!["x"]))).err(),
        Some(vec![SchemaShapeError::UnnamedStruct])
    );
    assert_eq!(
        extract_schema_properties::<&str, &str>(Data::Union).err(),
        Some(vec![SchemaShapeError::Union])
    );
    assert_eq!(
        extract_schema_properties::<&str, &str>(Data::Enum(vec![])).err(),
        Some(vec![SchemaShapeError::NoVariants])
    );
}

#[test]
fn methods_in_upper_case() {
    assert_eq!(Method::Get.as_uppercase(), "GET");
    assert_eq!(Method::Patch.to_string(), "PATCH");
    let all = all_methods();
    assert_eq!(all.len(), 9);
    assert_eq!(all[0], Method::Get);
    assert_eq!(all[8], Method::Trace);
}

#[test]
fn auth_scheme_names() {
    assert_eq!(AuthScheme::Basic.as_str(), "Basic");
    assert_eq!(AuthScheme::Dpop.as_str(), "DPoP");
    assert_eq!(AuthScheme::Gnap.as_str(), "GNAP");
    assert_eq!(AuthScheme::Hoba.as_str(), "HOBA");
    assert_eq!(AuthScheme::Mutual.as_str(), "Mutual");
    assert_eq!(ApiKeyLocation::Cookie.as_str(), "Cookie");
}

fn api_key(location: ApiKeyLocation, name: &str) -> ApiKeyAttr {
    ApiKeyAttr { rename: None, location, name: name.to_string() }
}

#[test]
fn api_key_schemes() {
    let d = generate_api_key("Auth", "desc".to_string(), api_key(ApiKeyLocation::Header, "X-Api-Key")).ok().unwrap();
    assert_eq!(d.name, "Auth");
    assert!(matches!(d.kind, SchemeKind::ApiKey { location: ApiKeyLocation::Header, ref name } if name == "x-api-key"));
    let q = generate_api_key("Auth", String::new(), api_key(ApiKeyLocation::Query, "Token Id")).ok().unwrap();
    assert!(matches!(q.kind, SchemeKind::ApiKey { ref name, .. } if name == "Token Id"));
    assert!(generate_api_key("Auth", String::new(), api_key(ApiKeyLocation::Header, "bad name")).is_err());
}

#[test]
fn http_schemes() {
    let d = generate_http(
        "Jwt",
        String::new(),
        HttpAttr { rename: Some("bearer".to_string()), scheme: AuthScheme::Bearer, bearer_format: Some(String::new()) },
    );
    assert_eq!(d.name, "bearer");
    assert!(matches!(d.kind, SchemeKind::Http { scheme: AuthScheme::Bearer, bearer_format: None }));
}

#[test]
fn security_scheme_declarations() {
    let only_http: SchemeAttr<ApiKeyAttr, &str> = SchemeAttr::Missing;
    let http = SchemeAttr::Found {
        attrs: 1,
        value: HttpAttr { rename: None, scheme: AuthScheme::Basic, bearer_format: None },
    };
    let d = generate_security_scheme("Basic", "d".to_string(), only_http, http).ok().unwrap();
    assert_eq!(d.name, "Basic");
    assert_eq!(d.description, "d");

    let both = generate_security_scheme::<&str>(
        "Both",
        String::new(),
        SchemeAttr::Found { attrs: 1, value: api_key(ApiKeyLocation::Query, "k") },
        SchemeAttr::Found { attrs: 2, value: HttpAttr { rename: None, scheme: AuthScheme::Basic, bearer_format: None } },
    );
    let errors = both.err().unwrap();
    assert_eq!(errors.len(), 2);
    assert!(errors.iter().all(|e| matches!(e, SecuritySchemeError::AlreadyDefined)));

    let none = generate_security_scheme::<&str>("None", String::new(), SchemeAttr::Missing, SchemeAttr::Missing);
    let errors = none.err().unwrap();
    assert_eq!(errors.len(), 1);
    assert!(matches!(errors[0], SecuritySchemeError::Missing));

    let invalid = generate_security_scheme::<&str>("Bad", String::new(), SchemeAttr::Invalid("unreadable"), SchemeAttr::Missing);
    let errors = invalid.err().unwrap();
    assert!(matches!(errors[0], SecuritySchemeError::Attr("unreadable")));
    assert!(matches!(errors[1], SecuritySchemeError::Missing));

    let bad_header = generate_security_scheme::<&str>(
        "Bad",
        String::new(),
        SchemeAttr::Found { attrs: 1, value: api_key(ApiKeyLocation::Header, "a b") },
        SchemeAttr::Missing,
    );
    let errors = bad_header.err().unwrap();
    assert!(matches!(errors[0], SecuritySchemeError::InvalidHeaderName));
    assert!(matches!(errors[1], SecuritySchemeError::Missing));
}

#[test]
fn routes_cover_every_combination() {
    let routes = plan_routes(2, 2, &vec![Method::Get, Method::Post]);
    assert_eq!(routes.len(), 8);
    assert_eq!(routes[0], (0, 0, Method::Get));
    assert_eq!(routes[1], (0, 0, Method::Post));
    assert_eq!(routes[2], (0, 1, Method::Get));
    assert_eq!(routes[7], (1, 1, Method::Post));
    assert!(plan_routes(0, 3, &vec![Method::Get]).is_empty());
}

#[test]
fn mount_paths_default_to_the_root() {
    let paths = mount_paths::<&str>(vec![]);
    assert_eq!(paths.len(), 1);
    assert!(matches!(paths[0], RoutePath::Root));
    let paths = mount_paths(vec!["/a", "/b"]);
    assert!(matches!(paths[..], [RoutePath::Given("/a"), RoutePath::Given("/b")]));
}

fn handler_attr(paths: Vec<&'static str>, methods: Vec<Method>) -> HandlerAttr<&'static str, u8, u8, u8> {
    HandlerAttr { paths, methods, middleware: None, tags: vec![1], security: vec![] }
}

fn ref_self() -> FirstParam {
    FirstParam::Receiver { by_ref: true, mutable: false, typed: false }
}

#[test]
fn handlers_are_planned() {
    let sig = HandlerSig { is_async: true, first: ref_self(), args: vec!["Head", "Body"] };
    let docs = vec![doc("Hello."), doc(""), doc("Says hello.")];
    let plan = plan_handler(1, &docs, sig, handler_attr(vec![], vec![])).ok().unwrap();
    assert_eq!(plan.methods.len(), 9);
    assert_eq!(plan.routes.len(), 9);
    assert!(matches!(plan.paths[..], [RoutePath::Root]));
    assert_eq!(plan.head_args, vec!["Head"]);
    assert_eq!(plan.last_arg, Some("Body"));
    assert_eq!(plan.summary, "Hello.");
    assert_eq!(plan.description, "Says hello.");
    assert_eq!(plan.tags, vec![1]);
    assert!(!plan.own_security);

    let not_async = HandlerSig { is_async: false, first: ref_self(), args: Vec::<&str>::new() };
    assert_eq!(plan_handler(1, &vec![], not_async, handler_attr(vec![], vec![])).err(), Some(HandlerError::NotAsync));
    let by_value = HandlerSig {
        is_async: true,
        first: FirstParam::Receiver { by_ref: false, mutable: false, typed: false },
        args: Vec::<&str>::new(),
    };
    assert_eq!(
        plan_handler(1, &vec![], by_value, handler_attr(vec![], vec![])).err(),
        Some(HandlerError::FirstNotRefSelf)
    );
    let no_args = HandlerSig { is_async: true, first: ref_self(), args: Vec::<&str>::new() };
    let plan = plan_handler(2, &vec![], no_args, handler_attr(vec!["/x"], vec![Method::Get])).ok().unwrap();
    assert_eq!(plan.routes, vec![(0, 0, Method::Get), (1, 0, Method::Get)]);
    assert_eq!(plan.last_arg, None);
    assert_eq!(plan.summary, "");
}

#[test]
fn controllers_collect_every_refusal() {
    let attr: ControllerAttr<&str, u8, u8, u8> = ControllerAttr { paths: vec![], middleware: None, tags: vec![], security: vec![] };
    let items: Vec<ImplFn<&str, u8, u8, u8, &str, &str>> = vec![
        ImplFn::Other,
        ImplFn::BadAttr("unreadable"),
        ImplFn::Handler {
            docs: vec![],
            sig: HandlerSig { is_async: false, first: ref_self(), args: vec![] },
            attr: handler_attr(vec![], vec![]),
        },
    ];
    let errors = plan_controller(false, attr, items).err().unwrap();
    assert_eq!(errors.len(), 2);
    assert!(matches!(errors[0], ControllerError::Attr(1, "unreadable")));
    assert!(matches!(errors[1], ControllerError::Handler(2, HandlerError::NotAsync)));

    let attr: ControllerAttr<&str, u8, u8, u8> = ControllerAttr { paths: vec!["/api"], middleware: None, tags: vec![], security: vec![] };
    let items: Vec<ImplFn<&str, u8, u8, u8, &str, &str>> = vec![ImplFn::Handler {
        docs: vec![],
        sig: HandlerSig { is_async: true, first: ref_self(), args: vec![] },
        attr: handler_attr(vec!["/a", "/b"], vec![Method::Post]),
    }];
    let (c, plans) = plan_controller(false, attr, items).ok().unwrap();
    assert!(matches!(c.paths[..], [RoutePath::Given("/api")]));
    assert_eq!(plans.len(), 1);
    assert_eq!(plans[0].routes, vec![(0, 0, Method::Post), (0, 1, Method::Post)]);

    let attr: ControllerAttr<&str, u8, u8, u8> = ControllerAttr { paths: vec![], middleware: None, tags: vec![], security: vec![] };
    let trait_impl = plan_controller::<&str, u8, u8, u8, &str, &str>(true, attr, vec![]);
    assert!(matches!(trait_impl.err().unwrap()[..], [ControllerError::TraitImpl]));
}

fn response_field(ident: Option<&str>, attrs: Vec<Attr>, ty: &'static str) -> ResponseField<&'static str> {
    ResponseField { ident: ident.map(|s| s.to_string()), attrs, ty }
}

#[test]
fn single_response_with_headers_and_body() {
    let fields = vec![
        response_field(Some("token"), vec![name_value_str("header", "X-Token"), doc("The token.")], "String"),
        response_field(Some("body"), vec![], "Json"),
    ];
    let plan = plan_single_response::<u8, _>(&vec![doc("Created.")], Some("201"), Data::Struct(Fields::Named(fields)))
        .ok()
        .unwrap();
    match plan {
        SingleResponsePlan::BodyAndHeaders { status, description, headers, body, body_ty } => {
            assert_eq!(status, 201);
            assert_eq!(description, "Created.");
            assert_eq!(headers.len(), 1);
            assert_eq!(headers[0].name, "x-token");
            assert_eq!(headers[0].description.as_deref(), Some("The token."));
            assert!(matches!(headers[0].member, Member::Named(ref n) if n == "token"));
            assert!(matches!(body, Member::Named(ref n) if n == "body"));
            assert_eq!(body_ty, "Json");
        }
        _ => panic!("expected a body and headers"),
    }
}

#[test]
fn single_response_shapes() {
    let unit = plan_single_response::<u8, &str>(&vec![], None, Data::Struct(Fields::Unit)).ok().unwrap();
    assert!(matches!(unit, SingleResponsePlan::Unit { status: 200 }));
    let only_body = plan_single_response::<u8, _>(
        &vec![],
        None,
        Data::Struct(Fields::Unnamed(vec![response_field(None, vec![], "String")])),
    )
    .ok()
    .unwrap();
    assert!(matches!(only_body, SingleResponsePlan::OnlyBody { status: 200, body: Member::Index(0), body_ty: "String", .. }));
    let only_headers = plan_single_response::<u8, _>(
        &vec![],
        None,
        Data::Struct(Fields::Unnamed(vec![
            response_field(None, vec![name_value_str("header", "a")], "u8"),
            response_field(None, vec![name_value_str("header", "b")], "u8"),
        ])),
    )
    .ok()
    .unwrap();
    match only_headers {
        SingleResponsePlan::OnlyHeaders { headers, .. } => {
            assert_eq!(headers.iter().map(|h| h.name.as_str()).collect::<Vec<_>>(), vec!["a", "b"]);
            assert!(matches!(headers[1].member, Member::Index(1)));
        }
        _ => panic!("expected headers only"),
    }
}

#[test]
fn single_response_refusals() {
    let bad_status = plan_single_response::<u8, &str>(&vec![], Some("1000"), Data::Struct(Fields::Unit));
    assert!(matches!(bad_status.err().unwrap()[..], [SingleResponseError::Status(StatusValueError::InvalidStatusCode)]));
    let not_struct = plan_single_response::<u8, &str>(&vec![], None, Data::Union);
    assert!(matches!(not_struct.err().unwrap()[..], [SingleResponseError::NotStruct]));
    let fields = vec![
        response_field(Some("a"), vec![], "u8"),
        response_field(Some("b"), vec![name_value_str("header", "x-dup")], "u8"),
        response_field(Some("c"), vec![name_value_str("header", "X-Dup")], "u8"),
    ];
    let errors = plan_single_response::<u8, _>(&vec![], None, Data::Struct(Fields::Named(fields))).err().unwrap();
    assert_eq!(errors.len(), 2);
    assert!(matches!(errors[0], SingleResponseError::MissingHeader(0)));
    assert!(matches!(errors[1], SingleResponseError::Header(2, HeaderAttrError::Duplicate(0, ref raw)) if raw == "x-dup"));
}

fn response_variant(name: &'static str, attrs: Vec<Attr>, fields: Fields<&'static str>) -> Variant<&'static str, &'static str> {
    Variant { info: name, attrs, fields }
}

#[test]
fn multi_responses_take_distinct_statuses() {
    let variants = vec![
        response_variant("Ok", vec![status("200")], Fields::Unnamed(vec!["OkBody"])),
        response_variant("NotFound", vec![status("404")], Fields::Unnamed(vec!["Missing"])),
    ];
    let (error, plans) = plan_multi_response(Some("E"), Data::Enum(variants)).ok().unwrap();
    assert_eq!(error, "E");
    assert_eq!(plans.iter().map(|p| (p.variant, p.status, p.ty)).collect::<Vec<_>>(), vec![("Ok", 200, "OkBody"), ("NotFound", 404, "Missing")]);

    let variants = vec![
        response_variant("A", vec![status("200")], Fields::Unnamed(vec!["A"])),
        response_variant("B", vec![status("200")], Fields::Unnamed(vec!["B"])),
        response_variant("C", vec![], Fields::Unnamed(vec!["C"])),
        response_variant("D", vec![status("201")], Fields::Unit),
    ];
    let errors = plan_multi_response(Some("E"), Data::Enum(variants)).err().unwrap();
    assert_eq!(
        errors,
        vec![
            MultiResponseError::Status(1, StatusAttrError::DuplicateStatusCode(0)),
            MultiResponseError::MissingStatus(2),
            MultiResponseError::Field(3, ShapeError::NotUnnamed),
        ]
    );
    assert_eq!(
        plan_multi_response::<&str, &str, &str>(None, Data::Union).err(),
        Some(vec![MultiResponseError::MissingErrorType])
    );
    assert_eq!(
        plan_multi_response::<&str, &str, &str>(Some("E"), Data::Union).err(),
        Some(vec![MultiResponseError::Shape(ShapeError::NotEnum)])
    );
}

#[test]
fn media_type_enums() {
    let variants = vec![
        response_variant("Text", vec![], Fields::Unnamed(vec!["String"])),
        response_variant("Bytes", vec![], Fields::Unnamed(vec!["Vec<u8>"])),
    ];
    let (e, types) = plan_multi_request_media_type(Some("E"), Data::Enum(variants)).ok().unwrap();
    assert_eq!(e, "E");
    assert_eq!(types, vec![("Text", "String"), ("Bytes", "Vec<u8>")]);

    let variants = vec![response_variant("Text", vec![], Fields::Unnamed(vec!["String"]))];
    let (_, status, types) = plan_multi_response_media_type(Some("E"), Some("202"), Data::Enum(variants)).ok().unwrap();
    assert_eq!(status, 202);
    assert_eq!(types.len(), 1);

    let variants = vec![
        response_variant("A", vec![], Fields::Unnamed(vec![])),
        response_variant("B", vec![], Fields::Unnamed(vec!["x"])),
        response_variant("C", vec![], Fields::Named(vec!["y"])),
    ];
    assert_eq!(
        plan_multi_request_media_type(Some("E"), Data::Enum(variants)).err(),
        Some(vec![MediaEnumError::Field(0, ShapeError::MissingField), MediaEnumError::Field(2, ShapeError::NotUnnamed)])
    );
    assert_eq!(
        plan_multi_response_media_type::<&str, &str, &str>(Some("E"), Some("70000"), Data::Union).err(),
        Some(vec![MediaEnumError::Status(StatusValueError::NotU16)])
    );
    assert_eq!(
        plan_multi_response_media_type::<&str, &str, &str>(None, None, Data::Union).err(),
        Some(vec![MediaEnumError::MissingErrorType])
    );
}

#[test]
fn multipart_parts_are_named_by_serde_rename() {
    let fields = vec![
        MultipartField { ident: Some("avatar".to_string()), attrs: vec![serde(vec![nested_str("rename", "file")])], ty: "Upload" },
        MultipartField { ident: Some("name".to_string()), attrs: vec![], ty: "String" },
    ];
    let plan = plan_multipart::<u8, _>(&vec![doc("A form.")], Data::Struct(Fields::Named(fields))).ok().unwrap();
    assert_eq!(plan.description.as_deref(), Some("A form."));
    assert_eq!(
        plan.fields.iter().map(|f| (f.ident.as_str(), f.part.as_str(), f.ty)).collect::<Vec<_>>(),
        vec![("avatar", "file", "Upload"), ("name", "name", "String")]
    );
    let unreadable = Attr { ident: Some("serde".to_string()), meta: AttrMeta::List(None) };
    let fields = vec![MultipartField { ident: Some("x".to_string()), attrs: vec![doc("d"), unreadable], ty: "u8" }];
    assert_eq!(
        plan_multipart::<u8, _>(&vec![], Data::Struct(Fields::Named(fields))).err(),
        Some(vec![MultipartError::Serde(0, 1)])
    );
    assert_eq!(
        plan_multipart::<u8, &str>(&vec![], Data::Struct(Fields::Unit)).err(),
        Some(vec![MultipartError::Shape(ShapeError::NotNamedStruct)])
    );
}

#[test]
fn tags_are_named_and_described() {
    let t = plan_tag("Users".to_string(), None, &vec![doc("User operations.")]);
    assert_eq!(t.name, "Users");
    assert_eq!(t.description.as_deref(), Some("User operations."));
    let t = plan_tag("Users".to_string(), Some("people".to_string()), &vec![]);
    assert_eq!(t.name, "people");
    assert_eq!(t.description, None);
}

#[test]
fn controllers_without_paths_are_mounted_at_the_root() {
    let attr: ControllerAttr<&str, u8, u8, u8> = ControllerAttr { paths: vec![], middleware: None, tags: vec![], security: vec![] };
    let items: Vec<ImplFn<&str, u8, u8, u8, &str, &str>> = vec![ImplFn::Handler {
        docs: vec![],
        sig: HandlerSig { is_async: true, first: ref_self(), args: vec![] },
        attr: handler_attr(vec!["/a"], vec![Method::Get]),
    }];
    let (c, plans) = plan_controller(false, attr, items).ok().unwrap();
    assert!(matches!(c.paths[..], [RoutePath::Root]));
    assert_eq!(plans[0].routes, vec![(0, 0, Method::Get)]);
}

#[test]
fn header_names_are_tokens_of_bounded_length() {
    let header = |raw: &str| {
        let mut names = HeaderNames::new();
        extract_header_name(&vec![name_value_str("header", raw)], &mut names)
    };
    assert_eq!(header("X-A_b.c~!#$%&'*+^`|9"), Ok(Some("x-a_b.c~!#$%&'*+^`|9".to_string())));
    assert!(header("").is_err());
    assert!(header("x:y").is_err());
    assert!(header("é").is_err());
    let longest = "A".repeat(65535);
    assert_eq!(header(&longest), Ok(Some("a".repeat(65535))));
    assert!(header(&"a".repeat(65536)).is_err());
}

#[test]
fn handlers_without_paths_are_mounted_at_the_root() {
    let plan = plan_handler(1, &vec![], HandlerSig::<&str> { is_async: true, first: ref_self(), args: vec![] }, handler_attr(vec![], vec![Method::Get])).ok().unwrap();
    assert!(matches!(plan.paths[..], [RoutePath::Root]));
    assert_eq!(plan.routes, vec![(0, 0, Method::Get)]);
}

#[test]
fn handler_security_replaces_the_controllers() {
    let own = vec![1u8, 2];
    let controller = vec![3u8];
    let none: Vec<u8> = vec![];
    assert_eq!(handler_security(&own, &controller), Some(&own));
    assert_eq!(handler_security(&none, &controller), Some(&controller));
    assert_eq!(handler_security(&none, &none), None);
}
