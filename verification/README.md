# predawn

The logic of a small web framework with built-in OpenAPI support, verified
with Verus.

- `src/` is the verified library: OpenAPI schemas and the registry that
  collects them (`schema`, `schema_impls`), the plans that the framework's
  derives and attribute macros follow (`schema_derive`, `shape`,
  `single_response`, `multi_response`, `media_derives`, `controller`,
  `security_scheme`, `tag`), the reading of attributes and doc comments
  (`attr`, `docs`, `serde_attr`, `status_attr`, `header_attr`,
  `default_expr`), responses and their merging (`openapi_doc`, `api_doc`,
  `request_content`, `response_content`, `response_error`, `either`), request parts and bodies (`request`,
  `extract`), and error stacks with locations (`error_stack`, `location`).
  Calls into `http`, `mime` and `syn` stand behind a few trusted wrappers,
  each with its contract in its doc comment; values of `openapiv3` and
  `serde_json` (links, JSON values and numbers) are carried through as
  declared outside types.
- `tests/` runs the library on concrete values.
- `app/` is the unverified rest: the procedural macros' token handling,
  the conversions to `openapiv3` and `http` types, and body reading.
