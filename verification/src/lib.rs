//! Verified core of a web framework in the spirit of Spring Boot: error
//! stacks and source locations, status codes of response errors, media-type
//! matching, OpenAPI schema naming, and the decisions that the framework's
//! derive and attribute macros take on the items they are given.

pub mod text;
pub mod location;
pub mod error_stack;
pub mod status;
pub mod response_error;
pub mod either;
pub mod media_type;
pub mod attr;
pub mod docs;
pub mod status_attr;
pub mod header_attr;
pub mod serde_attr;
pub mod default_expr;
pub mod shape;
pub mod method;
pub mod security_scheme;
pub mod controller;
pub mod schema;
pub mod schema_impls;
pub mod ordered_map;
pub mod schema_derive;
pub mod single_response;
pub mod multi_response;
pub mod media_derives;
pub mod openapi_doc;
pub mod api_doc;
pub mod request_content;
pub mod response_content;
pub mod tag;
pub mod request;
pub mod extract;
