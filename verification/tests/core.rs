use std::collections::{BTreeMap, BTreeSet};

use predawn::api_doc::{
    optional_parameters, single_content, single_responses, ApiRequest, ApiRequestHead, ApiResponse,
    BodyLimit, MultiRequestMediaType, MultiResponseMediaType, ParameterDoc, ParameterLocation, SingleResponse, ViaRequest,
    DEFAULT_BODY_LIMIT,
};
use predawn::either::Either;
use predawn::extract::{body_bytes, body_string, BodyRead};
use predawn::multi_response::MultiResponse;
use predawn::error_stack::{unwrap_step, wrapped_error_stack, ErrorExt, ErrorStack, UnwrapStep};
use predawn::location::Location;
use predawn::media_type::{
    assert_response_media_type, check_bytes_content_type, check_multipart_content_type,
    check_text_content_type, has_media_type, MediaType, RequestMediaType,
};
use predawn::openapi_doc::{merge_responses, HeaderDoc, MediaTypeDoc, ResponseDoc};
use predawn::ordered_map::OrderedMap;
use predawn::request::{take_request_parts, ConvertRequestError};
use predawn::response_error::{
    error_responses, LengthLimitError, ReadBytesError, ReadStringError, ResponseError,
};
use predawn::schema::{SchemaRef, SchemaRegistry};
use predawn::status::reason_text;
use predawn::status_attr::{extract_status_code_value, StatusValueError};

#[test]
fn location_renders_file_line_column() {
    let loc = Location::new("src/main.rs", 12, 7);
    assert_eq!(loc.file(), "src/main.rs");
    assert_eq!(loc.line(), 12);
    assert_eq!(loc.column(), 7);
    assert_eq!(loc.to_string(), "src/main.rs:12:7");
}

#[test]
fn locations_compare_by_fields() {
    let a = Location::new("a.rs", 1, 2);
    let b = Location::new("a.rs", 1, 2);
    let c = Location::new("a.rs", 1, 3);
    assert_eq!(a, b);
    assert_ne!(a, c);
}

#[test]
fn error_stack_numbers_each_line() {
    let loc = Location::new("lib.rs", 3, 9);
    let mut stack = ErrorStack::new();
    stack.push("outer failed", &loc);
    stack.push_without_location("root cause");
    stack.push("third", &loc);
    assert_eq!(stack.len(), 3);
    let lines = stack.finish();
    assert_eq!(
        lines,
        vec![
            "0: outer failed, at lib.rs:3:9".to_string(),
            "1: root cause".to_string(),
            "2: third, at lib.rs:3:9".to_string(),
        ]
    );
}

#[test]
fn empty_error_stack_has_no_lines() {
    let stack = ErrorStack::new();
    assert_eq!(stack.len(), 0);
    assert!(stack.finish().is_empty());
}

#[test]
fn status_codes_are_checked() {
    assert_eq!(extract_status_code_value(Some("200")), Ok(200));
    assert_eq!(extract_status_code_value(Some("100")), Ok(100));
    assert_eq!(extract_status_code_value(Some("999")), Ok(999));
    assert_eq!(extract_status_code_value(Some("99")), Err(StatusValueError::InvalidStatusCode));
    assert_eq!(extract_status_code_value(Some("1000")), Err(StatusValueError::InvalidStatusCode));
}

#[test]
fn reason_phrases() {
    assert_eq!(reason_text(404), "Not Found");
    assert_eq!(reason_text(413), "Payload Too Large");
    assert_eq!(reason_text(400), "Bad Request");
    assert_eq!(reason_text(599), "");
}

fn limit_error(limit: usize) -> LengthLimitError {
    LengthLimitError { location: Location::new("body.rs", 10, 5), limit }
}

#[test]
fn length_limit_error_message_and_status() {
    let e = limit_error(1024);
    assert_eq!(e.message(), "length limit exceeded, limit is `1024`");
    assert_eq!(e.as_status(), 413);
    assert_eq!(e.error_stack(), vec!["0: length limit exceeded, limit is `1024`, at body.rs:10:5".to_string()]);
}

#[test]
fn length_limit_error_response_is_plain_text() {
    let r = limit_error(7).as_response();
    assert_eq!(r.status, 413);
    assert_eq!(r.content_type, "text/plain; charset=utf-8");
    assert_eq!(r.body, "length limit exceeded, limit is `7`");
}

#[test]
fn read_bytes_error_chains_to_its_source() {
    let e = ReadBytesError::LengthLimitError {
        location: Location::new("read.rs", 1, 1),
        source: limit_error(5),
    };
    assert_eq!(e.as_status(), 413);
    assert_eq!(
        e.error_stack(),
        vec![
            "0: length limit exceeded, limit is `5`, at read.rs:1:1".to_string(),
            "1: length limit exceeded, limit is `5`, at body.rs:10:5".to_string(),
        ]
    );
    let u = ReadBytesError::UnknownBodyError {
        location: Location::new("read.rs", 2, 2),
        source: "connection reset".to_string(),
    };
    assert_eq!(u.as_status(), 400);
    assert_eq!(
        u.error_stack(),
        vec![
            "0: failed to read bytes from request body, at read.rs:2:2".to_string(),
            "1: connection reset".to_string(),
        ]
    );
}

#[test]
fn status_codes_of_error_types() {
    let mut codes = BTreeSet::new();
    LengthLimitError::status_codes(&mut codes);
    assert_eq!(codes.into_iter().collect::<Vec<_>>(), vec![413]);

    let mut codes = BTreeSet::new();
    ReadBytesError::status_codes(&mut codes);
    assert_eq!(codes.into_iter().collect::<Vec<_>>(), vec![400, 413]);

    let mut codes = BTreeSet::new();
    ReadStringError::status_codes(&mut codes);
    assert_eq!(codes.into_iter().collect::<Vec<_>>(), vec![400, 413]);
}

#[test]
fn an_error_status_is_among_its_type_codes() {
    let e = ReadBytesError::LengthLimitError {
        location: Location::new("read.rs", 1, 1),
        source: limit_error(5),
    };
    let mut codes = BTreeSet::new();
    ReadBytesError::status_codes(&mut codes);
    assert!(codes.contains(&e.as_status()));
}

#[test]
fn either_forwards_to_the_error_it_holds() {
    let left: Either<LengthLimitError, ReadBytesError> = Either::Left(limit_error(3));
    assert_eq!(left.as_status(), 413);
    assert_eq!(left.message(), "length limit exceeded, limit is `3`");
    let right: Either<LengthLimitError, ReadBytesError> = Either::Right(ReadBytesError::UnknownBodyError {
        location: Location::new("x.rs", 4, 4),
        source: "eof".to_string(),
    });
    assert_eq!(right.as_status(), 400);
    let mut codes = BTreeSet::new();
    Either::<LengthLimitError, ReadBytesError>::status_codes(&mut codes);
    assert_eq!(codes.into_iter().collect::<Vec<_>>(), vec![400, 413]);
}

#[test]
fn error_responses_are_described_by_reason() {
    let mut codes = BTreeSet::new();
    codes.insert(400);
    codes.insert(413);
    let mut reg = SchemaRegistry::new();
    let m = error_responses(&codes, &mut reg);
    assert_eq!(m.keys().copied().collect::<Vec<_>>(), vec![400, 413]);
    assert_eq!(m[&400].description, "Bad Request");
    assert_eq!(m[&413].description, "Payload Too Large");
    let content = m[&413].content.names();
    assert_eq!(content.len(), 1);
    assert_eq!(content[0], "text/plain; charset=utf-8");
}

#[test]
fn responses_of_an_error_type() {
    let mut reg = SchemaRegistry::new();
    let m = ReadStringError::responses(&mut reg);
    assert_eq!(m.keys().copied().collect::<Vec<_>>(), vec![400, 413]);
    assert_eq!(m[&400].description, "Bad Request");
}

#[test]
fn text_content_types() {
    assert!(check_text_content_type("text/plain; charset=utf-8"));
    assert!(check_text_content_type("text/plain;charset=UTF-8"));
    assert!(!check_text_content_type("text/plain"));
    assert!(!check_text_content_type("text/html; charset=utf-8"));
    assert!(!check_text_content_type("not a media type"));
    assert!(String::check_content_type("text/plain; charset=utf-8"));
    assert_eq!(<String as MediaType>::media_type(), "text/plain; charset=utf-8");
}

#[test]
fn byte_content_types() {
    assert!(check_bytes_content_type("application/octet-stream"));
    assert!(!check_bytes_content_type("application/json"));
    assert!(<Vec<u8> as RequestMediaType>::check_content_type("application/octet-stream"));
    assert_eq!(<Vec<u8> as MediaType>::media_type(), "application/octet-stream");
}

#[test]
fn multipart_content_types() {
    assert!(check_multipart_content_type("multipart/form-data; boundary=abc"));
    assert!(!check_multipart_content_type("multipart/mixed"));
}

#[test]
fn media_type_suffixes_and_parameters() {
    assert!(has_media_type("image/svg+xml", "image", "png", "xml", None));
    assert!(!has_media_type("image/svg+xml", "text", "svg", "xml", None));
    assert!(has_media_type("application/json", "application", "json", "json", None));
    assert!(!has_media_type("application/json", "application", "octet-stream", "octet-stream", None));
    assert!(has_media_type("text/plain; charset=utf-8", "text", "plain", "plain", Some(("charset", "utf-8"))));
    assert!(!has_media_type("text/plain; charset=latin1", "text", "plain", "plain", Some(("charset", "utf-8"))));
    assert!(!has_media_type("", "text", "plain", "plain", None));
}

#[test]
fn response_media_types_are_checked_at_compile_time() {
    assert_response_media_type::<String>();
    assert_response_media_type::<Vec<u8>>();
}

fn header(required: bool) -> HeaderDoc {
    HeaderDoc { description: None, required, schema: SchemaRef::Reference("#/components/schemas/u8".to_string()) }
}

fn response(description: &str, headers: &[&str], content: &[&str]) -> ResponseDoc {
    let mut r = ResponseDoc::new(description.to_string());
    for h in headers {
        r.headers.insert(h.to_string(), header(true));
    }
    for c in content {
        r.content.insert(c.to_string(), MediaTypeDoc { schema: None });
    }
    r
}

#[test]
fn merge_adds_new_statuses_and_merges_shared_ones() {
    let mut existing = BTreeMap::new();
    existing.insert(200, response("OK", &["x-a"], &["text/plain"]));
    existing.insert(404, response("Not Found", &[], &[]));
    let mut new = BTreeMap::new();
    new.insert(200, response("other", &["x-b", "x-a"], &["application/json"]));
    new.insert(500, response("Internal Server Error", &[], &[]));
    merge_responses(&mut existing, new);
    assert_eq!(existing.keys().copied().collect::<Vec<_>>(), vec![200, 404, 500]);
    let ok = &existing[&200];
    assert_eq!(ok.description, "OK");
    assert_eq!(ok.headers.names(), vec!["x-a".to_string(), "x-b".to_string()]);
    assert_eq!(ok.content.names(), vec!["text/plain".to_string(), "application/json".to_string()]);
    assert_eq!(existing[&404].description, "Not Found");
    assert_eq!(existing[&500].description, "Internal Server Error");
}

#[test]
fn merge_into_nothing_is_the_new_responses() {
    let mut existing = BTreeMap::new();
    let mut new = BTreeMap::new();
    new.insert(201, response("Created", &["location"], &[]));
    merge_responses(&mut existing, new);
    assert_eq!(existing.keys().copied().collect::<Vec<_>>(), vec![201]);
    assert_eq!(existing[&201].headers.names(), vec!["location".to_string()]);
}

#[test]
fn merging_in_nothing_changes_nothing() {
    let mut existing = BTreeMap::new();
    existing.insert(200, response("OK", &["x-a"], &["text/plain"]));
    merge_responses(&mut existing, BTreeMap::new());
    assert_eq!(existing.keys().copied().collect::<Vec<_>>(), vec![200]);
    assert_eq!(existing[&200].description, "OK");
    assert_eq!(existing[&200].headers.names(), vec!["x-a".to_string()]);
    assert_eq!(existing[&200].content.names(), vec!["text/plain".to_string()]);
}

#[test]
fn extending_keeps_old_names_in_place_and_new_values_win() {
    let mut m: OrderedMap<u8> = OrderedMap::new();
    m.insert("a".to_string(), 1);
    m.insert("b".to_string(), 2);
    let mut more: OrderedMap<u8> = OrderedMap::new();
    more.insert("c".to_string(), 3);
    more.insert("a".to_string(), 4);
    m.extend(more);
    assert_eq!(m.into_entries(), vec![("a".to_string(), 4), ("b".to_string(), 2), ("c".to_string(), 3)]);
}

#[test]
fn ordered_map_replaces_in_place() {
    let mut m: OrderedMap<u8> = OrderedMap::new();
    m.insert("b".to_string(), 1);
    m.insert("a".to_string(), 2);
    m.insert("b".to_string(), 3);
    assert_eq!(m.len(), 2);
    assert_eq!(m.into_entries(), vec![("b".to_string(), 3), ("a".to_string(), 2)]);
}

#[test]
fn default_body_limit_is_two_mebibytes() {
    assert_eq!(DEFAULT_BODY_LIMIT, 2 * 1024 * 1024);
    assert_eq!(BodyLimit::initial(), BodyLimit(2097152));
    assert_eq!(BodyLimit(10).limit(), 10);
}

fn parameter(name: &str, required: bool) -> ParameterDoc {
    ParameterDoc {
        location: ParameterLocation::Query,
        name: name.to_string(),
        description: Some("d".to_string()),
        required,
        schema: SchemaRef::Reference("#/components/schemas/u8".to_string()),
    }
}

#[test]
fn optional_parameters_are_not_required() {
    let ps = optional_parameters(Some(vec![parameter("a", true), parameter("b", false)])).unwrap();
    assert_eq!(ps.len(), 2);
    assert!(ps.iter().all(|p| !p.required));
    assert_eq!(ps[0].name, "a");
    assert_eq!(ps[1].name, "b");
    assert_eq!(ps[0].description.as_deref(), Some("d"));
    assert!(optional_parameters(None).is_none());
}

#[test]
fn head_extractors_without_parameters() {
    let mut reg = SchemaRegistry::new();
    assert!(<BodyLimit as ApiRequestHead>::parameters(&mut reg).is_none());
    assert!(<Option<BodyLimit> as ApiRequestHead>::parameters(&mut reg).is_none());
    assert!(<Result<BodyLimit, ()> as ApiRequestHead>::parameters(&mut reg).is_none());
}

#[test]
fn body_extractors_declare_their_body() {
    let mut reg = SchemaRegistry::new();
    let body = <String as ApiRequest<ViaRequest>>::request_body(&mut reg).unwrap();
    assert!(body.required);
    assert_eq!(body.content.names(), vec!["text/plain; charset=utf-8".to_string()]);
    assert!(<String as ApiRequest<ViaRequest>>::parameters(&mut reg).is_none());
    let optional = <Option<Vec<u8>> as ApiRequest<ViaRequest>>::request_body(&mut reg).unwrap();
    assert!(!optional.required);
    assert_eq!(optional.content.names(), vec!["application/octet-stream".to_string()]);
}

#[test]
fn single_content_has_the_media_type() {
    let mut reg = SchemaRegistry::new();
    let c = single_content::<Vec<u8>>(&mut reg);
    assert_eq!(c.names(), vec!["application/octet-stream".to_string()]);
    let c = <Vec<u8> as MultiRequestMediaType>::content(&mut reg);
    assert_eq!(c.len(), 1);
}

#[test]
fn single_responses_answer_with_their_status() {
    let mut reg = SchemaRegistry::new();
    assert_eq!(<String as SingleResponse>::status_code(), 200);
    let m = single_responses::<String>(&mut reg);
    assert_eq!(m.keys().copied().collect::<Vec<_>>(), vec![200]);
    assert_eq!(m[&200].content.names(), vec!["text/plain; charset=utf-8".to_string()]);
    let unit = <() as ApiResponse>::responses(&mut reg).unwrap();
    assert_eq!(unit.keys().copied().collect::<Vec<_>>(), vec![200]);
    assert_eq!(unit[&200].content.len(), 0);
    let result = <Result<Vec<u8>, ()> as ApiResponse>::responses(&mut reg).unwrap();
    assert_eq!(result[&200].content.names(), vec!["application/octet-stream".to_string()]);
}

#[test]
fn request_parts_are_taken_in_order() {
    let loc = Location::new("req.rs", 1, 1);
    let ok = take_request_parts(Some(5), Some("l"), Some("r"), Some("u"), loc).ok().unwrap();
    assert_eq!(ok.body_limit, BodyLimit(5));
    assert_eq!((ok.local_addr, ok.remote_addr, ok.original_uri), ("l", "r", "u"));
    let e = take_request_parts::<&str, &str, &str>(None, None, None, None, loc).err().unwrap();
    assert!(matches!(e, ConvertRequestError::NotFoundBodyLimit { .. }));
    assert_eq!(e.message(), "not found `body limit` in request extensions");
    let e = take_request_parts::<&str, &str, &str>(Some(1), Some("l"), None, None, loc).err().unwrap();
    assert!(matches!(e, ConvertRequestError::NotFoundRemoteAddr { .. }));
    assert_eq!(e.error_stack(), vec!["0: not found `remote address` in request extensions, at req.rs:1:1".to_string()]);
    let e = take_request_parts::<&str, &str, &str>(Some(1), None, Some("r"), Some("u"), loc).err().unwrap();
    assert!(matches!(e, ConvertRequestError::NotFoundLocalAddr { .. }));
    let e = take_request_parts::<&str, &str, &str>(Some(1), Some("l"), Some("r"), None, loc).err().unwrap();
    assert!(matches!(e, ConvertRequestError::NotFoundOriginalUri { .. }));
}

#[test]
fn bodies_are_read_within_the_limit() {
    let inner = Location::new("limit.rs", 1, 1);
    let outer = Location::new("body.rs", 2, 2);
    let ok = body_bytes(BodyLimit(4), BodyRead::Collected(vec![104, 105]), inner.clone(), outer.clone());
    assert!(matches!(ok, Ok(ref b) if b == &vec![104u8, 105]));
    let long = body_bytes(BodyLimit(4), BodyRead::TooLong, inner.clone(), outer.clone());
    assert!(matches!(long, Err(ReadBytesError::LengthLimitError { ref source, .. }) if source.limit == 4));
    let failed = body_bytes(BodyLimit(4), BodyRead::Failed("reset".to_string()), inner, outer);
    assert!(matches!(failed, Err(ReadBytesError::UnknownBodyError { ref source, .. }) if source == "reset"));
}

#[test]
fn bodies_are_decoded_as_utf8() {
    let at = Location::new("body.rs", 3, 3);
    assert!(matches!(body_string(Ok("héllo".as_bytes().to_vec()), at.clone()), Ok(ref s) if s == "héllo"));
    let bad = body_string(Ok(vec![0xff, 0xfe]), at.clone());
    assert!(matches!(bad, Err(ReadStringError::InvalidUtf8 { ref source, .. }) if source.contains("utf-8")));
    let unread = ReadBytesError::UnknownBodyError { location: at.clone(), source: "reset".to_string() };
    assert!(matches!(body_string(Err(unread), at), Err(ReadStringError::ReadBytes { .. })));
}

#[test]
fn single_status_types_answer_with_that_status() {
    let mut reg = SchemaRegistry::new();
    let m = <String as MultiResponse>::responses(&mut reg);
    assert_eq!(m.keys().copied().collect::<Vec<_>>(), vec![200]);
    assert_eq!(m[&200].content.names(), vec!["text/plain; charset=utf-8".to_string()]);
    let m = <() as MultiResponse>::responses(&mut reg);
    assert_eq!(m.keys().copied().collect::<Vec<_>>(), vec![200]);
    assert!(m[&200].content.names().is_empty());
}

#[test]
fn locations_are_equal_exactly_when_their_parts_are() {
    let a = Location::new("src/a.rs", 3, 7);
    assert_eq!(a.file(), "src/a.rs");
    assert_eq!(a.line(), 3);
    assert_eq!(a.column(), 7);
    let owned = String::from("src/a.rs");
    let leaked: &'static str = Box::leak(owned.into_boxed_str());
    assert!(a == Location::new(leaked, 3, 7));
    assert!(a != Location::new("src/b.rs", 3, 7));
    assert!(a != Location::new("src/a.rs", 4, 7));
    assert!(a != Location::new("src/a.rs", 3, 8));
}

#[test]
fn boxed_errors_unwrap_step_by_step() {
    assert_eq!(unwrap_step(false, false), UnwrapStep::Wrap);
    assert_eq!(unwrap_step(true, true), UnwrapStep::Descend);
    assert_eq!(unwrap_step(true, false), UnwrapStep::Adopt);
    let lines = wrapped_error_stack("boom", &Location::new("f.rs", 1, 2));
    assert_eq!(lines, vec!["0: boom, at: f.rs:1:2".to_string()]);
}

#[test]
fn body_types_have_one_media_type_referring_to_their_schema() {
    let mut reg = SchemaRegistry::new();
    let c = <String as MultiRequestMediaType>::content(&mut reg);
    let e = c.into_entries();
    assert_eq!(e.len(), 1);
    assert_eq!(e[0].0, "text/plain; charset=utf-8");
    assert!(matches!(e[0].1.schema, Some(SchemaRef::Reference(ref p)) if p == "#/components/schemas/alloc.string.String"));
    let c = <Vec<u8> as MultiResponseMediaType>::content(&mut reg);
    let e = c.into_entries();
    assert_eq!(e[0].0, "application/octet-stream");
    assert!(matches!(e[0].1.schema, Some(SchemaRef::Reference(ref p)) if p == "#/components/schemas/alloc.vec.Vec<u8>"));
    let b = <String as ApiRequest<ViaRequest>>::request_body(&mut reg).unwrap();
    assert!(b.required);
    assert_eq!(b.content.names(), vec!["text/plain; charset=utf-8".to_string()]);
}

#[test]
fn the_unit_response_is_empty() {
    let mut reg = SchemaRegistry::new();
    let m = <() as ApiResponse>::responses(&mut reg).unwrap();
    let r = &m[&200];
    assert_eq!(r.description, "");
    assert!(r.headers.names().is_empty() && r.content.names().is_empty());
    let m = <Vec<u8> as ApiResponse>::responses(&mut reg).unwrap();
    assert_eq!(m[&200].content.names(), vec!["application/octet-stream".to_string()]);
}
