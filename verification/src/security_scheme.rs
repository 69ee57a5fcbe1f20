//! The `SecurityScheme` derive: an API key (`#[api_key(...)]`) or an HTTP
//! authentication scheme (`#[http(...)]`), declared once per type.

use vstd::prelude::*;
use crate::header_attr::{header_name_of, normalize_header_name};
use crate::serde_attr::opt_text;

verus! {

/// An HTTP authentication scheme.
#[derive(Copy, Clone, Debug, PartialEq, Eq, Structural)]
pub enum AuthScheme {
    Basic,
    Bearer,
    Digest,
    Dpop,
    Gnap,
    Hoba,
    Mutual,
}

/// The registered name of an authentication scheme.
pub open spec fn auth_scheme_name(s: AuthScheme) -> Seq<char> {
    match s {
        AuthScheme::Basic => "Basic"@,
        AuthScheme::Bearer => "Bearer"@,
        AuthScheme::Digest => "Digest"@,
        AuthScheme::Dpop => "DPoP"@,
        AuthScheme::Gnap => "GNAP"@,
        AuthScheme::Hoba => "HOBA"@,
        AuthScheme::Mutual => "Mutual"@,
    }
}

impl AuthScheme {
    /// The registered name of this scheme.
    pub fn as_str(&self) -> (s: &'static str)
        ensures
            s@ == auth_scheme_name(*self),
    {
        match self {
            AuthScheme::Basic => "Basic",
            AuthScheme::Bearer => "Bearer",
            AuthScheme::Digest => "Digest",
            AuthScheme::Dpop => "DPoP",
            AuthScheme::Gnap => "GNAP",
            AuthScheme::Hoba => "HOBA",
            AuthScheme::Mutual => "Mutual",
        }
    }
}

/// Where an API key is sent.
#[derive(Copy, Clone, Debug, PartialEq, Eq, Structural)]
pub enum ApiKeyLocation {
    Query,
    Header,
    Cookie,
}

/// The name of an API key location in the OpenAPI document.
pub open spec fn api_key_location_name(l: ApiKeyLocation) -> Seq<char> {
    match l {
        ApiKeyLocation::Query => "Query"@,
        ApiKeyLocation::Header => "Header"@,
        ApiKeyLocation::Cookie => "Cookie"@,
    }
}

impl ApiKeyLocation {
    pub fn as_str(&self) -> (s: &'static str)
        ensures
            s@ == api_key_location_name(*self),
    {
        match self {
            ApiKeyLocation::Query => "Query",
            ApiKeyLocation::Header => "Header",
            ApiKeyLocation::Cookie => "Cookie",
        }
    }
}

/// What `#[api_key(rename = "...", in = header, name = "...")]` says.
pub struct ApiKeyAttr {
    pub rename: Option<String>,
    pub location: ApiKeyLocation,
    pub name: String,
}

/// What `#[http(rename = "...", scheme = bearer, bearer_format = "...")]` says.
pub struct HttpAttr {
    pub rename: Option<String>,
    pub scheme: AuthScheme,
    pub bearer_format: Option<String>,
}

/// What the derive found of one kind of attribute: the attribute (with the
/// number of attributes it was read from), none, or an error reading it.
pub enum SchemeAttr<T, E> {
    Found { attrs: usize, value: T },
    Missing,
    Invalid(E),
}

/// The security scheme a type declares.
pub enum SchemeKind {
    ApiKey { location: ApiKeyLocation, name: String },
    Http { scheme: AuthScheme, bearer_format: Option<String> },
}

/// The security scheme a type declares, under the name it is registered by.
pub struct SecuritySchemeDef {
    pub name: String,
    pub kind: SchemeKind,
    pub description: String,
}

/// Why the `SecurityScheme` derive refuses a type.
pub enum SecuritySchemeError<E> {
    /// An attribute could not be read.
    Attr(E),
    /// The API key is sent in a header whose name `http` does not accept.
    InvalidHeaderName,
    /// A `#[http(...)]` attribute on a type already declared by `#[api_key(...)]`.
    AlreadyDefined,
    /// Neither `#[api_key(...)]` nor `#[http(...)]` is present.
    Missing,
}

/// The name a scheme is registered by: the `rename`, else the type's name.
pub open spec fn scheme_name(rename: Option<Seq<char>>, ident: Seq<char>) -> Seq<char> {
    match rename {
        Some(r) => r,
        None => ident,
    }
}

/// The name of an API key as it is sent: a header name normalized as `http`
/// does it, any other name as written.
pub open spec fn api_key_name(location: ApiKeyLocation, name: Seq<char>) -> Option<Seq<char>> {
    match location {
        ApiKeyLocation::Header => header_name_of(name),
        _ => Some(name),
    }
}

fn registered_name(rename: Option<String>, ident: &str) -> (n: String)
    ensures
        n@ == scheme_name(opt_text(rename), ident@),
        rename matches Some(r) ==> n == r,
{
    match rename {
        Some(r) => r,
        None => String::from_str(ident),
    }
}

/// The definition of an API key scheme.
pub fn generate_api_key(ident: &str, description: String, api_key: ApiKeyAttr) -> (r: Result<SecuritySchemeDef, ()>)
    ensures
        match r {
            Ok(d) => {
                &&& api_key_name(api_key.location, api_key.name@) is Some
                &&& d.name@ == scheme_name(opt_text(api_key.rename), ident@)
                &&& d.kind matches SchemeKind::ApiKey { location, name }
                    && location == api_key.location
                    && Some(name@) == api_key_name(api_key.location, api_key.name@)
                &&& d.description == description
            },
            Err(_) => api_key_name(api_key.location, api_key.name@) is None,
        },
        r matches Ok(d) ==> (api_key.rename matches Some(n) ==> d.name == n),
        r matches Ok(d) ==> (api_key.rename is None ==> d.name@ == ident@),
        api_key.location != ApiKeyLocation::Header ==> (r matches Ok(d)
            && d.kind == (SchemeKind::ApiKey { location: api_key.location, name: api_key.name })),
{
    let ApiKeyAttr { rename, location, name } = api_key;
    let name = match location {
        ApiKeyLocation::Header => match normalize_header_name(name.as_str()) {
            Some(n) => n,
            None => {
                return Err(());
            },
        },
        _ => name,
    };
    Ok(SecuritySchemeDef {
        name: registered_name(rename, ident),
        kind: SchemeKind::ApiKey { location, name },
        description,
    })
}

/// The bearer format declared: a given, non-empty one, else none.
pub open spec fn declared_bearer_format(f: Option<Seq<char>>) -> Option<Seq<char>> {
    match f {
        Some(s) => if s.len() > 0 { Some(s) } else { None },
        None => None,
    }
}

/// A declared bearer format is kept as written when it is not empty; an
/// empty one, or none, declares no format.
pub proof fn lemma_bearer_format_kept(f: Seq<char>)
    ensures
        f.len() > 0 ==> declared_bearer_format(Some(f)) == Some(f),
        f.len() == 0 ==> declared_bearer_format(Some(f)) is None,
        declared_bearer_format(None) is None,
{
}

/// A scheme is registered under its `rename` when one is given, else under
/// the type's name.
pub proof fn lemma_scheme_name(rename: Seq<char>, ident: Seq<char>)
    ensures
        scheme_name(Some(rename), ident) == rename,
        scheme_name(None, ident) == ident,
{
}

/// The definition of an HTTP authentication scheme.
pub fn generate_http(ident: &str, description: String, http: HttpAttr) -> (d: SecuritySchemeDef)
    ensures
        d.name@ == scheme_name(opt_text(http.rename), ident@),
        d.kind matches SchemeKind::Http { scheme, bearer_format }
            && scheme == http.scheme
            && opt_text(bearer_format) == declared_bearer_format(opt_text(http.bearer_format)),
        d.description == description,
        http.rename matches Some(r) ==> d.name == r,
        http.rename is None ==> d.name@ == ident@,
        http.bearer_format matches Some(f) ==> (f@.len() > 0 ==> d.kind == (SchemeKind::Http { scheme: http.scheme, bearer_format: Some(f) })),
        http.bearer_format matches Some(f) ==> (f@.len() == 0 ==> d.kind == (SchemeKind::Http { scheme: http.scheme, bearer_format: None })),
        http.bearer_format is None ==> d.kind == (SchemeKind::Http { scheme: http.scheme, bearer_format: None }),
{
    let HttpAttr { rename, scheme, bearer_format } = http;
    let bearer_format = match bearer_format {
        Some(f) => if f.unicode_len() != 0 {
            Some(f)
        } else {
            None
        },
        None => None,
    };
    SecuritySchemeDef {
        name: registered_name(rename, ident),
        kind: SchemeKind::Http { scheme, bearer_format },
        description,
    }
}

/// Whether the API key attribute, if found, declares the scheme.
pub open spec fn api_key_defines<E>(api_key: SchemeAttr<ApiKeyAttr, E>) -> bool {
    api_key matches SchemeAttr::Found { value, .. } && api_key_name(value.location, value.name@) is Some
}

/// The errors of the derive, in order: those of the API key attribute, then
/// those of the HTTP attribute (one per attribute it was read from when the
/// API key already declared the scheme), then a missing declaration.
pub open spec fn security_errors<E>(api_key: SchemeAttr<ApiKeyAttr, E>, http: SchemeAttr<HttpAttr, E>) -> Seq<SecuritySchemeError<E>> {
    let first = match api_key {
        SchemeAttr::Found { value, .. } => if api_key_name(value.location, value.name@) is None {
            seq![SecuritySchemeError::InvalidHeaderName]
        } else {
            Seq::empty()
        },
        SchemeAttr::Missing => Seq::empty(),
        SchemeAttr::Invalid(e) => seq![SecuritySchemeError::Attr(e)],
    };
    let second = match http {
        SchemeAttr::Found { attrs, .. } => if api_key_defines(api_key) {
            Seq::new(attrs as nat, |i: int| SecuritySchemeError::AlreadyDefined)
        } else {
            Seq::empty()
        },
        SchemeAttr::Missing => Seq::empty(),
        SchemeAttr::Invalid(e) => seq![SecuritySchemeError::Attr(e)],
    };
    let defined = api_key_defines(api_key) || http is Found;
    first + second + if defined { Seq::empty() } else { seq![SecuritySchemeError::Missing] }
}

/// What the derive declares for a type, or why it refuses it: an API key
/// attribute is read first; an HTTP attribute beside it is refused (once per
/// attribute it was read from); a type with neither is refused.
pub fn generate_security_scheme<E>(
    ident: &str,
    description: String,
    api_key: SchemeAttr<ApiKeyAttr, E>,
    http: SchemeAttr<HttpAttr, E>,
) -> (r: Result<SecuritySchemeDef, Vec<SecuritySchemeError<E>>>)
    ensures
        match r {
            Ok(d) => {
                &&& security_errors(api_key, http).len() == 0
                &&& d.description == description
                &&& match api_key {
                    SchemeAttr::Found { value, .. } => {
                        &&& d.name@ == scheme_name(opt_text(value.rename), ident@)
                        &&& d.kind matches SchemeKind::ApiKey { location, name }
                            && location == value.location
                            && Some(name@) == api_key_name(value.location, value.name@)
                    },
                    _ => http matches SchemeAttr::Found { value, .. } && {
                        &&& d.name@ == scheme_name(opt_text(value.rename), ident@)
                        &&& d.kind matches SchemeKind::Http { scheme, bearer_format }
                            && scheme == value.scheme
                            && opt_text(bearer_format) == declared_bearer_format(opt_text(value.bearer_format))
                    },
                }
            },
            Err(errors) => errors@ == security_errors(api_key, http) && errors@.len() > 0,
        },
{
    let ghost a0 = api_key;
    let ghost h0 = http;
    let mut errors: Vec<SecuritySchemeError<E>> = Vec::new();
    let mut result: Option<SecuritySchemeDef> = None;
    match api_key {
        SchemeAttr::Found { value, .. } => {
            match generate_api_key(ident, description.clone(), value) {
                Ok(def) => {
                    result = Some(def);
                },
                Err(_) => {
                    errors.push(SecuritySchemeError::InvalidHeaderName);
                },
            }
        },
        SchemeAttr::Missing => {},
        SchemeAttr::Invalid(e) => {
            errors.push(SecuritySchemeError::Attr(e));
        },
    }
    let ghost first = errors@;
    assert(result is Some <==> api_key_defines(a0));
    match http {
        SchemeAttr::Found { attrs, value } => {
            if result.is_some() {
                let mut k: usize = 0;
                while k < attrs
                    invariant
                        k <= attrs,
                        errors@ == first + Seq::new(k as nat, |i: int| SecuritySchemeError::<E>::AlreadyDefined),
                    decreases attrs - k,
                {
                    errors.push(SecuritySchemeError::AlreadyDefined);
                    k = k + 1;
                    assert(errors@ =~= first + Seq::new(k as nat, |i: int| SecuritySchemeError::<E>::AlreadyDefined));
                }
            } else {
                result = Some(generate_http(ident, description, value));
            }
        },
        SchemeAttr::Missing => {},
        SchemeAttr::Invalid(e) => {
            errors.push(SecuritySchemeError::Attr(e));
        },
    }
    if result.is_none() {
        errors.push(SecuritySchemeError::Missing);
    }
    proof {
        assert(errors@ =~= security_errors(a0, h0));
    }
    if errors.len() > 0 {
        return Err(errors);
    }
    match result {
        Some(def) => Ok(def),
        None => Err(errors),
    }
}

} // verus!
