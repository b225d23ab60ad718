//! The request methods that the service tells apart.

use crate::octets::bytes_of;
use vstd::prelude::*;
use vstd::string::*;

verus! {

/// A request method.
#[derive(Clone, Copy, Debug, PartialEq, Eq, Structural)]
pub enum Method {
    Options,
    Get,
    Post,
    Put,
    Delete,
    Head,
    Trace,
    Connect,
    Patch,
}

impl Method {
    /// The method's name as it stands in a request line: capital letters,
    /// and told apart letter by letter.
    pub open spec fn token(self) -> Seq<u8> {
        match self {
            Method::Options => bytes_of("OPTIONS"),
            Method::Get => bytes_of("GET"),
            Method::Post => bytes_of("POST"),
            Method::Put => bytes_of("PUT"),
            Method::Delete => bytes_of("DELETE"),
            Method::Head => bytes_of("HEAD"),
            Method::Trace => bytes_of("TRACE"),
            Method::Connect => bytes_of("CONNECT"),
            Method::Patch => bytes_of("PATCH"),
        }
    }

    /// The method's name.
    pub fn as_str(&self) -> (name: &'static str)
        ensures
            bytes_of(name) == self.token(),
    {
        match self {
            Method::Options => "OPTIONS",
            Method::Get => "GET",
            Method::Post => "POST",
            Method::Put => "PUT",
            Method::Delete => "DELETE",
            Method::Head => "HEAD",
            Method::Trace => "TRACE",
            Method::Connect => "CONNECT",
            Method::Patch => "PATCH",
        }
    }

    /// Whether `token` is this method's name.
    pub fn is_named(&self, token: &[u8]) -> (named: bool)
        ensures
            named == (token@ == self.token()),
    {
        crate::octets::bytes_eq(token, self.as_str().as_bytes())
    }
}

/// The tokens of a list of methods, in the list's order.
pub open spec fn tokens(methods: Seq<Method>) -> Seq<Seq<u8>> {
    Seq::new(methods.len(), |i: int| methods[i].token())
}

/// What each method's name is, byte by byte.
pub proof fn lemma_token_bytes()
    ensures
        Method::Options.token() == seq![79u8, 80u8, 84u8, 73u8, 79u8, 78u8, 83u8],
        Method::Get.token() == seq![71u8, 69u8, 84u8],
        Method::Post.token() == seq![80u8, 79u8, 83u8, 84u8],
        Method::Put.token() == seq![80u8, 85u8, 84u8],
        Method::Delete.token() == seq![68u8, 69u8, 76u8, 69u8, 84u8, 69u8],
        Method::Head.token() == seq![72u8, 69u8, 65u8, 68u8],
        Method::Trace.token() == seq![84u8, 82u8, 65u8, 67u8, 69u8],
        Method::Connect.token() == seq![67u8, 79u8, 78u8, 78u8, 69u8, 67u8, 84u8],
        Method::Patch.token() == seq![80u8, 65u8, 84u8, 67u8, 72u8],
{
    broadcast use is_ascii_spec_bytes;

    reveal_strlit("OPTIONS");
    reveal_strlit("GET");
    reveal_strlit("POST");
    reveal_strlit("PUT");
    reveal_strlit("DELETE");
    reveal_strlit("HEAD");
    reveal_strlit("TRACE");
    reveal_strlit("CONNECT");
    reveal_strlit("PATCH");
    assert(is_ascii("OPTIONS") && is_ascii("GET") && is_ascii("POST") && is_ascii("PUT"));
    assert(is_ascii("DELETE") && is_ascii("HEAD") && is_ascii("TRACE") && is_ascii("CONNECT"));
    assert(is_ascii("PATCH"));
    assert(Method::Options.token() =~= seq![79u8, 80u8, 84u8, 73u8, 79u8, 78u8, 83u8]);
    assert(Method::Get.token() =~= seq![71u8, 69u8, 84u8]);
    assert(Method::Post.token() =~= seq![80u8, 79u8, 83u8, 84u8]);
    assert(Method::Put.token() =~= seq![80u8, 85u8, 84u8]);
    assert(Method::Delete.token() =~= seq![68u8, 69u8, 76u8, 69u8, 84u8, 69u8]);
    assert(Method::Head.token() =~= seq![72u8, 69u8, 65u8, 68u8]);
    assert(Method::Trace.token() =~= seq![84u8, 82u8, 65u8, 67u8, 69u8]);
    assert(Method::Connect.token() =~= seq![67u8, 79u8, 78u8, 78u8, 69u8, 67u8, 84u8]);
    assert(Method::Patch.token() =~= seq![80u8, 65u8, 84u8, 67u8, 72u8]);
}

/// No two methods share a name.
pub proof fn lemma_token_names_one_method(a: Method, b: Method)
    requires
        a.token() == b.token(),
    ensures
        a == b,
{
    lemma_token_bytes();
    if a != b {
        let s = a.token();
        let t = b.token();
        assert(s.len() != t.len() || s[0] != t[0] || s[1] != t[1]);
    }
}

} // verus!
