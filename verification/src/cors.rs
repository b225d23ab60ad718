//! The cross-origin policy of the service, and what it adds to a response.
//!
//! A policy allows one origin, a set of methods and a set of request headers.
//! It names the one origin that may read a response, but not to a request
//! that says it comes from elsewhere. To a preflight request, that is a
//! request with the method `OPTIONS`, it lists the methods and headers that
//! it allows, unless the request asks for an origin, a method or a header
//! that it does not allow.

use crate::header::{
    all_canonical, canonical, canonical_name, is_field_value, lemma_joined_is_value,
    lemma_name_is_value, value_accepted,
};
use crate::message::{Request, RequestView, Response, ResponseView};
use crate::method::{lemma_token_bytes, tokens, Method};
use crate::octets::{
    bytes_eq, bytes_of, comma_joined, lemma_head_len_is, list_members, lowered, push_all,
    stretch_is, trim_stretch, COMMA,
};
use vstd::prelude::*;
use vstd::string::*;

verus! {

/// Why a policy could not be made.
#[derive(Clone, Copy, Debug, PartialEq, Eq, Structural)]
pub enum PolicyError {
    /// The origin cannot be sent as a header value.
    InvalidOrigin,
    /// One of the allowed headers is no header name.
    InvalidHeaderName,
}

/// A cross-origin policy.
#[derive(Debug, PartialEq, Eq)]
pub struct CorsPolicy {
    origin: Vec<u8>,
    methods: Vec<Method>,
    headers: Vec<Vec<u8>>,
}

/// A policy as mathematical values: the one allowed origin, the allowed
/// methods, and the allowed request headers by their canonical names.
pub struct CorsPolicyView {
    pub origin: Seq<u8>,
    pub methods: Seq<Method>,
    pub headers: Seq<Seq<u8>>,
}

/// The views of a list of byte strings, in the list's order.
pub open spec fn byte_views(list: Seq<Vec<u8>>) -> Seq<Seq<u8>> {
    Seq::new(list.len(), |i: int| list[i]@)
}

/// The bytes of a list of texts, in the list's order.
pub open spec fn text_bytes(list: Seq<&str>) -> Seq<Seq<u8>> {
    Seq::new(list.len(), |i: int| bytes_of(list[i]))
}

/// The canonical forms of `names`, in their order; none where one of them is
/// no header name.
pub open spec fn canonical_all(names: Seq<Seq<u8>>) -> Option<Seq<Seq<u8>>> {
    if forall|i: int| 0 <= i < names.len() ==> canonical(#[trigger] names[i]) is Some {
        Some(Seq::new(names.len(), |i: int| canonical(names[i])->0))
    } else {
        None
    }
}

/// `items` joined by commas as the value of a header; no value where there
/// are no items.
pub open spec fn listed(items: Seq<Seq<u8>>) -> Option<Seq<u8>> {
    if items.len() == 0 {
        None
    } else {
        Some(comma_joined(items))
    }
}

/// Whether `request` is a preflight request.
pub open spec fn is_preflight(request: RequestView) -> bool {
    request.method == Method::Options.token()
}

impl CorsPolicyView {
    /// The policy of a service for one frontend: that origin, the methods
    /// `GET` and `POST`, and the request header `Content-Type`.
    pub open spec fn for_frontend(origin: Seq<u8>) -> CorsPolicyView {
        CorsPolicyView {
            origin,
            methods: seq![Method::Get, Method::Post],
            headers: seq![bytes_of("content-type")],
        }
    }

    /// Whether the policy has nothing against the origin that a request
    /// names: the request names none, or the allowed one.
    pub open spec fn admits_origin(self, origin: Option<Seq<u8>>) -> bool {
        match origin {
            Some(o) => o == self.origin,
            None => true,
        }
    }

    /// Whether the policy has nothing against the method that a preflight
    /// request asks for: it asks for none, or for an allowed one by its
    /// exact name.
    pub open spec fn admits_method(self, requested: Option<Seq<u8>>) -> bool {
        match requested {
            Some(token) => tokens(self.methods).contains(token),
            None => true,
        }
    }

    /// Whether the policy allows the request header `name`, whatever the
    /// case of its letters. The empty name stands for an empty place in a
    /// list and is let through.
    pub open spec fn admits_name(self, name: Seq<u8>) -> bool {
        name.len() == 0 || self.headers.contains(lowered(name))
    }

    /// Whether the policy allows every header that the comma-separated list
    /// `value` names.
    pub open spec fn admits_names(self, value: Seq<u8>) -> bool {
        forall|i: int|
            0 <= i < list_members(value).len() ==> self.admits_name(
                #[trigger] list_members(value)[i],
            )
    }

    /// Whether the policy has nothing against the headers that a preflight
    /// request asks for: it asks for none, or only for allowed ones.
    pub open spec fn admits_headers(self, requested: Option<Seq<u8>>) -> bool {
        match requested {
            Some(value) => self.admits_names(value),
            None => true,
        }
    }

    /// Whether the policy grants what `request` asks for: its origin, the
    /// method and the headers.
    pub open spec fn grants(self, request: RequestView) -> bool {
        &&& self.admits_origin(request.origin)
        &&& self.admits_method(request.request_method)
        &&& self.admits_headers(request.request_headers)
    }

    /// The `Access-Control-Allow-Origin` header of the response to `request`.
    pub open spec fn allow_origin(self, request: RequestView) -> Option<Seq<u8>> {
        if self.admits_origin(request.origin) {
            Some(self.origin)
        } else {
            None
        }
    }

    /// The `Access-Control-Allow-Methods` header of the response to `request`.
    pub open spec fn allow_methods(self, request: RequestView) -> Option<Seq<u8>> {
        if is_preflight(request) && self.grants(request) {
            listed(tokens(self.methods))
        } else {
            None
        }
    }

    /// The `Access-Control-Allow-Headers` header of the response to `request`.
    pub open spec fn allow_headers(self, request: RequestView) -> Option<Seq<u8>> {
        if is_preflight(request) && self.grants(request) {
            listed(self.headers)
        } else {
            None
        }
    }

    /// `response` with the cross-origin headers that the policy gives to the
    /// response to `request`, in place of any that it had.
    pub open spec fn applied(self, request: RequestView, response: ResponseView) -> ResponseView {
        ResponseView {
            allow_origin: self.allow_origin(request),
            allow_methods: self.allow_methods(request),
            allow_headers: self.allow_headers(request),
            ..response
        }
    }
}

impl View for CorsPolicy {
    type V = CorsPolicyView;

    closed spec fn view(&self) -> CorsPolicyView {
        CorsPolicyView {
            origin: self.origin@,
            methods: self.methods@,
            headers: byte_views(self.headers@),
        }
    }
}

impl CorsPolicy {
    #[verifier::type_invariant]
    spec fn valid(&self) -> bool {
        &&& is_field_value(self.origin@)
        &&& all_canonical(byte_views(self.headers@))
    }

    /// A policy that allows the origin `origin`, the methods `methods` and
    /// the request headers `headers`. The origin has to be something that can
    /// be sent as a header value, and each header a header name; a header is
    /// kept by its canonical name.
    pub fn new(origin: &str, methods: Vec<Method>, headers: &[&str]) -> (made: Result<
        CorsPolicy,
        PolicyError,
    >)
        ensures
            match made {
                Ok(policy) => {
                    &&& is_field_value(bytes_of(origin))
                    &&& canonical_all(text_bytes(headers@)) == Some(policy@.headers)
                    &&& policy@.origin == bytes_of(origin)
                    &&& policy@.methods == methods@
                },
                Err(PolicyError::InvalidOrigin) => !is_field_value(bytes_of(origin)),
                Err(PolicyError::InvalidHeaderName) => {
                    &&& is_field_value(bytes_of(origin))
                    &&& canonical_all(text_bytes(headers@)) is None
                },
            },
    {
        if !value_accepted(origin) {
            return Err(PolicyError::InvalidOrigin);
        }
        let ghost wanted = text_bytes(headers@);
        let mut names: Vec<Vec<u8>> = Vec::new();
        let mut i: usize = 0;
        while i < headers.len()
            invariant
                i <= headers.len(),
                is_field_value(bytes_of(origin)),
                wanted == text_bytes(headers@),
                names@.len() == i,
                forall|j: int| 0 <= j < i ==> canonical(wanted[j]) == Some(#[trigger] names@[j]@),
            decreases headers.len() - i,
        {
            match canonical_name(headers[i]) {
                Some(name) => names.push(name),
                None => {
                    assert(canonical(wanted[i as int]) is None);
                    assert(canonical_all(wanted) is None);
                    return Err(PolicyError::InvalidHeaderName);
                },
            }
            i += 1;
        }
        proof {
            let kept = byte_views(names@);
            assert forall|j: int| 0 <= j < wanted.len() implies canonical(
                #[trigger] wanted[j],
            ) is Some by {
                assert(canonical(wanted[j]) == Some(names@[j]@));
            }
            assert(canonical_all(wanted)->0 =~= kept);
            assert forall|j: int| 0 <= j < kept.len() implies canonical(#[trigger] kept[j])
                == Some(kept[j]) by {
                assert(canonical(wanted[j]) == Some(names@[j]@));
                crate::header::lemma_canonical_is_fixed(wanted[j]);
            }
        }
        Ok(CorsPolicy { origin: origin.as_bytes_vec(), methods, headers: names })
    }

    /// The policy of a service for the frontend at `origin`: that origin, the
    /// methods `GET` and `POST`, and the request header `Content-Type`.
    pub fn for_frontend(origin: &str) -> (made: Result<CorsPolicy, PolicyError>)
        ensures
            match made {
                Ok(policy) => {
                    &&& is_field_value(bytes_of(origin))
                    &&& policy@ == CorsPolicyView::for_frontend(bytes_of(origin))
                },
                Err(error) => {
                    &&& error == PolicyError::InvalidOrigin
                    &&& !is_field_value(bytes_of(origin))
                },
            },
    {
        let mut methods: Vec<Method> = Vec::new();
        methods.push(Method::Get);
        methods.push(Method::Post);
        let headers: [&str; 1] = ["Content-Type"];
        proof {
            lemma_content_type_name();
            let wanted = text_bytes(headers@);
            assert(wanted[0] == bytes_of("Content-Type"));
            assert(canonical_all(wanted)->0 =~= seq![bytes_of("content-type")]);
        }
        let made = CorsPolicy::new(origin, methods, headers.as_slice());
        proof {
            if made is Ok {
                assert(made->Ok_0@.methods =~= seq![Method::Get, Method::Post]);
            }
        }
        made
    }

    /// The origin that the policy allows.
    pub fn origin(&self) -> (origin: &[u8])
        ensures
            origin@ == self@.origin,
            is_field_value(origin@),
    {
        proof {
            use_type_invariant(self);
        }
        self.origin.as_slice()
    }

    /// The methods that the policy allows.
    pub fn methods(&self) -> (methods: &[Method])
        ensures
            methods@ == self@.methods,
    {
        self.methods.as_slice()
    }

    /// The request headers that the policy allows, by their canonical names.
    pub fn headers(&self) -> (headers: &[Vec<u8>])
        ensures
            byte_views(headers@) == self@.headers,
            all_canonical(self@.headers),
    {
        proof {
            use_type_invariant(self);
        }
        self.headers.as_slice()
    }

    fn admits_origin(&self, origin: &Option<Vec<u8>>) -> (admitted: bool)
        ensures
            admitted == self@.admits_origin(crate::message::maybe(*origin)),
    {
        match origin {
            Some(o) => bytes_eq(o.as_slice(), self.origin.as_slice()),
            None => true,
        }
    }

    fn allows_method(&self, token: &[u8]) -> (allowed: bool)
        ensures
            allowed == tokens(self@.methods).contains(token@),
    {
        let ghost names = tokens(self@.methods);
        let mut i: usize = 0;
        while i < self.methods.len()
            invariant
                i <= self.methods.len(),
                names == tokens(self@.methods),
                forall|j: int| 0 <= j < i ==> names[j] != token@,
            decreases self.methods.len() - i,
        {
            if self.methods[i].is_named(token) {
                assert(names[i as int] == token@);
                return true;
            }
            i += 1;
        }
        false
    }

    fn admits_method(&self, requested: &Option<Vec<u8>>) -> (admitted: bool)
        ensures
            admitted == self@.admits_method(crate::message::maybe(*requested)),
    {
        match requested {
            Some(token) => self.allows_method(token.as_slice()),
            None => true,
        }
    }

    /// Whether the policy allows the header named by the stretch `from..to`
    /// of `value`.
    fn admits_stretch(&self, value: &[u8], from: usize, to: usize) -> (admitted: bool)
        requires
            from <= to <= value.len(),
        ensures
            admitted == self@.admits_name(value@.subrange(from as int, to as int)),
    {
        if from == to {
            return true;
        }
        let ghost name = lowered(value@.subrange(from as int, to as int));
        let mut i: usize = 0;
        while i < self.headers.len()
            invariant
                i <= self.headers.len(),
                from < to <= value.len(),
                name == lowered(value@.subrange(from as int, to as int)),
                forall|j: int| 0 <= j < i ==> self@.headers[j] != name,
            decreases self.headers.len() - i,
        {
            if stretch_is(value, from, to, self.headers[i].as_slice()) {
                assert(self@.headers[i as int] == name);
                return true;
            }
            i += 1;
        }
        false
    }

    fn admits_names(&self, value: &[u8]) -> (admitted: bool)
        ensures
            admitted == self@.admits_names(value@),
    {
        let ghost members = list_members(value@);
        let ghost mut done: Seq<Seq<u8>> = Seq::empty();
        let mut start: usize = 0;
        assert(value@.skip(0) =~= value@);
        assert(members =~= done + members);
        loop
            invariant
                start <= value.len(),
                members == list_members(value@),
                members == done + list_members(value@.skip(start as int)),
                forall|j: int| 0 <= j < done.len() ==> self@.admits_name(#[trigger] done[j]),
            decreases value.len() - start,
        {
            let ghost rest = value@.skip(start as int);
            let mut end: usize = start;
            while end < value.len() && value[end] != COMMA
                invariant
                    start <= end <= value.len(),
                    forall|j: int| start <= j < end ==> value@[j] != COMMA,
                decreases value.len() - end,
            {
                end += 1;
            }
            proof {
                assert forall|j: int| 0 <= j < end - start implies rest[j] != COMMA by {
                    assert(rest[j] == value@[start + j]);
                }
                lemma_head_len_is(rest, end - start);
                assert(rest.take(end - start) =~= value@.subrange(start as int, end as int));
                assert(end == value.len() ==> rest =~= value@.subrange(start as int, end as int));
            }
            let bounds = trim_stretch(value, start, end);
            let ghost member = value@.subrange(bounds.0 as int, bounds.1 as int);
            assert(list_members(rest)[0] == member);
            assert(members[done.len() as int] == member);
            if !self.admits_stretch(value, bounds.0, bounds.1) {
                return false;
            }
            if end == value.len() {
                assert(members =~= done.push(member));
                return true;
            }
            proof {
                assert(rest.skip(end - start + 1) =~= value@.skip(end as int + 1));
                assert(members =~= done.push(member) + list_members(value@.skip(end as int + 1)));
                done = done.push(member);
            }
            start = end + 1;
        }
    }

    fn admits_headers(&self, requested: &Option<Vec<u8>>) -> (admitted: bool)
        ensures
            admitted == self@.admits_headers(crate::message::maybe(*requested)),
    {
        match requested {
            Some(value) => self.admits_names(value.as_slice()),
            None => true,
        }
    }

    /// Whether the policy grants what `request` asks for: its origin, the
    /// method and the headers.
    pub fn grants(&self, request: &Request) -> (granted: bool)
        ensures
            granted == self@.grants(request@),
    {
        self.admits_origin(&request.origin) && self.admits_method(&request.request_method)
            && self.admits_headers(&request.request_headers)
    }

    fn listed_methods(&self) -> (value: Option<Vec<u8>>)
        ensures
            crate::message::maybe(value) == listed(tokens(self@.methods)),
            value matches Some(v) ==> is_field_value(v@),
    {
        if self.methods.len() == 0 {
            return None;
        }
        let ghost names = tokens(self@.methods);
        let mut out: Vec<u8> = Vec::new();
        let mut i: usize = 0;
        while i < self.methods.len()
            invariant
                i <= self.methods.len(),
                names == tokens(self@.methods),
                out@ == comma_joined(names.take(i as int)),
            decreases self.methods.len() - i,
        {
            if i > 0 {
                out.push(COMMA);
            }
            push_all(&mut out, self.methods[i].as_str().as_bytes());
            proof {
                let now = names.take(i as int + 1);
                assert(now.drop_last() =~= names.take(i as int));
                assert(now.last() == self@.methods[i as int].token());
                assert(out@ =~= comma_joined(now));
            }
            i += 1;
        }
        proof {
            assert(names.take(self.methods.len() as int) =~= names);
            assert forall|j: int| 0 <= j < names.len() implies is_field_value(
                #[trigger] names[j],
            ) by {
                lemma_token_is_value(self@.methods[j]);
            }
            lemma_joined_is_value(names);
        }
        Some(out)
    }

    fn listed_headers(&self) -> (value: Option<Vec<u8>>)
        ensures
            crate::message::maybe(value) == listed(self@.headers),
            value matches Some(v) ==> is_field_value(v@),
    {
        if self.headers.len() == 0 {
            return None;
        }
        let ghost names = self@.headers;
        let mut out: Vec<u8> = Vec::new();
        let mut i: usize = 0;
        while i < self.headers.len()
            invariant
                i <= self.headers.len(),
                names == self@.headers,
                out@ == comma_joined(names.take(i as int)),
            decreases self.headers.len() - i,
        {
            if i > 0 {
                out.push(COMMA);
            }
            push_all(&mut out, self.headers[i].as_slice());
            proof {
                let now = names.take(i as int + 1);
                assert(now.drop_last() =~= names.take(i as int));
                assert(now.last() == self.headers@[i as int]@);
                assert(out@ =~= comma_joined(now));
            }
            i += 1;
        }
        proof {
            use_type_invariant(self);
            assert(names.take(self.headers.len() as int) =~= names);
            assert forall|j: int| 0 <= j < names.len() implies is_field_value(
                #[trigger] names[j],
            ) by {
                assert(canonical(names[j]) == Some(names[j]));
                lemma_name_is_value(names[j]);
            }
            lemma_joined_is_value(names);
        }
        Some(out)
    }

    /// Gives `response`, the response to `request`, the cross-origin headers
    /// that the policy owes it, in place of any that it had. The rest of the
    /// response stays as it is, and every header value put in can be sent.
    pub fn apply(&self, request: &Request, response: &mut Response)
        ensures
            final(response)@ == self@.applied(request@, old(response)@),
            final(response)@.sendable(),
    {
        proof {
            use_type_invariant(self);
        }
        let preflight = Method::Options.is_named(request.method.as_slice());
        response.allow_origin = if self.admits_origin(&request.origin) {
            Some(self.origin.clone())
        } else {
            None
        };
        if preflight && self.grants(request) {
            response.allow_methods = self.listed_methods();
            response.allow_headers = self.listed_headers();
        } else {
            response.allow_methods = None;
            response.allow_headers = None;
        }
    }
}

/// A method's name can be sent as a header value.
pub proof fn lemma_token_is_value(method: Method)
    ensures
        is_field_value(method.token()),
{
    lemma_token_bytes();
}

/// `Content-Type` is a header name, with the canonical form `content-type`.
pub proof fn lemma_content_type_name()
    ensures
        canonical(bytes_of("Content-Type")) == Some(bytes_of("content-type")),
{
    broadcast use is_ascii_spec_bytes;

    reveal_strlit("Content-Type");
    reveal_strlit("content-type");
    assert(is_ascii("Content-Type"));
    assert(is_ascii("content-type"));
    assert(lowered(bytes_of("Content-Type")) =~= bytes_of("content-type"));
}

} // verus!
