//! The HTTP methods a handler can answer.

use vstd::prelude::*;

verus! {

/// An HTTP method.
#[derive(Copy, Clone, Debug, PartialEq, Eq, Structural)]
pub enum Method {
    Get,
    Post,
    Put,
    Delete,
    Head,
    Options,
    Connect,
    Patch,
    Trace,
}

/// The name of a method in upper case, as `http::Method` names its constants.
pub open spec fn uppercase_name(m: Method) -> Seq<char> {
    match m {
        Method::Get => "GET"@,
        Method::Post => "POST"@,
        Method::Put => "PUT"@,
        Method::Delete => "DELETE"@,
        Method::Head => "HEAD"@,
        Method::Options => "OPTIONS"@,
        Method::Connect => "CONNECT"@,
        Method::Patch => "PATCH"@,
        Method::Trace => "TRACE"@,
    }
}

/// Every method, in the order a handler without `methods` registers them.
pub open spec fn every_method() -> Seq<Method> {
    seq![
        Method::Get,
        Method::Post,
        Method::Put,
        Method::Delete,
        Method::Head,
        Method::Options,
        Method::Connect,
        Method::Patch,
        Method::Trace,
    ]
}

/// A handler without `methods` answers every method, each once, and
/// different methods have different names.
pub proof fn lemma_every_method(m: Method, n: Method)
    ensures
        every_method().len() == 9,
        every_method().contains(m),
        every_method().no_duplicates(),
        m != n ==> uppercase_name(m) != uppercase_name(n),
{
    reveal_strlit("GET");
    reveal_strlit("POST");
    reveal_strlit("PUT");
    reveal_strlit("DELETE");
    reveal_strlit("HEAD");
    reveal_strlit("OPTIONS");
    reveal_strlit("CONNECT");
    reveal_strlit("PATCH");
    reveal_strlit("TRACE");
    let e = every_method();
    match m {
        Method::Get => assert(e[0] == m),
        Method::Post => assert(e[1] == m),
        Method::Put => assert(e[2] == m),
        Method::Delete => assert(e[3] == m),
        Method::Head => assert(e[4] == m),
        Method::Options => assert(e[5] == m),
        Method::Connect => assert(e[6] == m),
        Method::Patch => assert(e[7] == m),
        Method::Trace => assert(e[8] == m),
    }
    if m != n {
        let a = uppercase_name(m);
        let b = uppercase_name(n);
        if a == b {
            assert(a.len() == b.len());
            assert(a[0] == b[0] && a[1] == b[1]);
        }
    }
}

impl Method {
    /// The name of this method in upper case.
    pub fn as_uppercase(&self) -> (s: &'static str)
        ensures
            s@ == uppercase_name(*self),
    {
        match self {
            Method::Get => "GET",
            Method::Post => "POST",
            Method::Put => "PUT",
            Method::Delete => "DELETE",
            Method::Head => "HEAD",
            Method::Options => "OPTIONS",
            Method::Connect => "CONNECT",
            Method::Patch => "PATCH",
            Method::Trace => "TRACE",
        }
    }

    /// The name of this method in upper case, as a new string.
    pub fn to_string(&self) -> (s: String)
        ensures
            s@ == uppercase_name(*self),
    {
        String::from_str(self.as_uppercase())
    }
}

/// Every method.
pub fn all_methods() -> (ms: Vec<Method>)
    ensures
        ms@ == every_method(),
{
    let mut ms = Vec::new();
    ms.push(Method::Get);
    ms.push(Method::Post);
    ms.push(Method::Put);
    ms.push(Method::Delete);
    ms.push(Method::Head);
    ms.push(Method::Options);
    ms.push(Method::Connect);
    ms.push(Method::Patch);
    ms.push(Method::Trace);
    assert(ms@ =~= every_method());
    ms
}

} // verus!
