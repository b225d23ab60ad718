//! What holds of the service for every request and every policy.

use crate::cors::{is_preflight, listed, CorsPolicyView};
use crate::json::{lemma_plain_text, number_text, people_text, person_text, person_texts};
use crate::message::{ContentType, RequestView};
use crate::method::{lemma_token_bytes, lemma_token_names_one_method, tokens, Method};
use crate::octets::{bytes_of, comma_joined, law_members_lowered, list_members, lowered, COMMA};
use crate::person::listed_people;
use crate::routes::{is_served, lemma_paths_differ, lemma_service_resolution};
use crate::server::answer;
use vstd::prelude::*;
use vstd::string::*;

verus! {

/// The document that lists the people of the service.
pub open spec fn people_document() -> Seq<u8> {
    bytes_of(
        "[{\"name\":\"Person A\",\"age\":36,\"favourite_food\":\"Pizza\"},{\"name\":\"Person B\",\"age\":5,\"favourite_food\":\"Broccoli\"},{\"name\":\"Person C\",\"age\":100,\"favourite_food\":null}]",
    )
}

/// The JSON object of the first person.
proof fn lemma_first_person()
    ensures
        person_text(listed_people()[0]) == bytes_of(
            "{\"name\":\"Person A\",\"age\":36,\"favourite_food\":\"Pizza\"}",
        ),
{
    broadcast use is_ascii_spec_bytes;

    reveal_strlit("Person A");
    reveal_strlit("Pizza");
    reveal_strlit("{\"name\":");
    reveal_strlit(",\"age\":");
    reveal_strlit(",\"favourite_food\":");
    reveal_strlit("}");
    reveal_strlit("{\"name\":\"Person A\",\"age\":36,\"favourite_food\":\"Pizza\"}");
    assert(is_ascii("Person A") && is_ascii("Pizza"));
    assert(is_ascii("{\"name\":") && is_ascii(",\"age\":") && is_ascii(",\"favourite_food\":"));
    assert(is_ascii("}"));
    assert(is_ascii("{\"name\":\"Person A\",\"age\":36,\"favourite_food\":\"Pizza\"}"));
    lemma_plain_text(bytes_of("Person A"));
    lemma_plain_text(bytes_of("Pizza"));
    assert(number_text(3) =~= seq![51u8]);
    assert(number_text(36) =~= seq![51u8, 54u8]);
    assert(person_text(listed_people()[0]) =~= bytes_of(
        "{\"name\":\"Person A\",\"age\":36,\"favourite_food\":\"Pizza\"}",
    ));
}

/// The JSON object of the second person.
proof fn lemma_second_person()
    ensures
        person_text(listed_people()[1]) == bytes_of(
            "{\"name\":\"Person B\",\"age\":5,\"favourite_food\":\"Broccoli\"}",
        ),
{
    broadcast use is_ascii_spec_bytes;

    reveal_strlit("Person B");
    reveal_strlit("Broccoli");
    reveal_strlit("{\"name\":");
    reveal_strlit(",\"age\":");
    reveal_strlit(",\"favourite_food\":");
    reveal_strlit("}");
    reveal_strlit("{\"name\":\"Person B\",\"age\":5,\"favourite_food\":\"Broccoli\"}");
    assert(is_ascii("Person B") && is_ascii("Broccoli"));
    assert(is_ascii("{\"name\":") && is_ascii(",\"age\":") && is_ascii(",\"favourite_food\":"));
    assert(is_ascii("}"));
    assert(is_ascii("{\"name\":\"Person B\",\"age\":5,\"favourite_food\":\"Broccoli\"}"));
    lemma_plain_text(bytes_of("Person B"));
    lemma_plain_text(bytes_of("Broccoli"));
    assert(number_text(5) =~= seq![53u8]);
    assert(person_text(listed_people()[1]) =~= bytes_of(
        "{\"name\":\"Person B\",\"age\":5,\"favourite_food\":\"Broccoli\"}",
    ));
}

/// The JSON object of the third person.
proof fn lemma_third_person()
    ensures
        person_text(listed_people()[2]) == bytes_of(
            "{\"name\":\"Person C\",\"age\":100,\"favourite_food\":null}",
        ),
{
    broadcast use is_ascii_spec_bytes;

    reveal_strlit("Person C");
    reveal_strlit("null");
    reveal_strlit("{\"name\":");
    reveal_strlit(",\"age\":");
    reveal_strlit(",\"favourite_food\":");
    reveal_strlit("}");
    reveal_strlit("{\"name\":\"Person C\",\"age\":100,\"favourite_food\":null}");
    assert(is_ascii("Person C") && is_ascii("null"));
    assert(is_ascii("{\"name\":") && is_ascii(",\"age\":") && is_ascii(",\"favourite_food\":"));
    assert(is_ascii("}"));
    assert(is_ascii("{\"name\":\"Person C\",\"age\":100,\"favourite_food\":null}"));
    lemma_plain_text(bytes_of("Person C"));
    assert(number_text(1) =~= seq![49u8]);
    assert(number_text(10) =~= seq![49u8, 48u8]);
    assert(number_text(100) =~= seq![49u8, 48u8, 48u8]);
    assert(person_text(listed_people()[2]) =~= bytes_of(
        "{\"name\":\"Person C\",\"age\":100,\"favourite_food\":null}",
    ));
}

/// The document that lists the people is the JSON array of the three people,
/// in their order.
pub proof fn law_people_document()
    ensures
        people_text(listed_people()) == people_document(),
{
    let texts = person_texts(listed_people());
    let first = bytes_of("{\"name\":\"Person A\",\"age\":36,\"favourite_food\":\"Pizza\"}");
    let second = bytes_of(
        "{\"name\":\"Person B\",\"age\":5,\"favourite_food\":\"Broccoli\"}",
    );
    let third = bytes_of("{\"name\":\"Person C\",\"age\":100,\"favourite_food\":null}");
    assert(texts =~= seq![first, second, third]) by {
        lemma_first_person();
        lemma_second_person();
        lemma_third_person();
    }
    assert(comma_joined(texts) == first + seq![COMMA] + second + seq![COMMA] + third) by {
        assert(texts.drop_last() =~= seq![first, second]);
        assert(texts.drop_last().drop_last() =~= seq![first]);
        assert(comma_joined(seq![first]) == first);
        assert(comma_joined(seq![first, second]) == first + seq![COMMA] + second);
    }
    lemma_document_parts();
}

/// The document that lists the people, put together from its parts.
proof fn lemma_document_parts()
    ensures
        bytes_of("[") + (bytes_of(
            "{\"name\":\"Person A\",\"age\":36,\"favourite_food\":\"Pizza\"}",
        ) + seq![COMMA] + bytes_of(
            "{\"name\":\"Person B\",\"age\":5,\"favourite_food\":\"Broccoli\"}",
        ) + seq![COMMA] + bytes_of(
            "{\"name\":\"Person C\",\"age\":100,\"favourite_food\":null}",
        )) + bytes_of("]") == people_document(),
{
    broadcast use is_ascii_spec_bytes;

    let first = bytes_of("{\"name\":\"Person A\",\"age\":36,\"favourite_food\":\"Pizza\"}");
    let second = bytes_of(
        "{\"name\":\"Person B\",\"age\":5,\"favourite_food\":\"Broccoli\"}",
    );
    let third = bytes_of("{\"name\":\"Person C\",\"age\":100,\"favourite_food\":null}");
    reveal_strlit("[");
    reveal_strlit("]");
    reveal_strlit("{\"name\":\"Person A\",\"age\":36,\"favourite_food\":\"Pizza\"}");
    reveal_strlit("{\"name\":\"Person B\",\"age\":5,\"favourite_food\":\"Broccoli\"}");
    reveal_strlit("{\"name\":\"Person C\",\"age\":100,\"favourite_food\":null}");
    reveal_strlit(
        "[{\"name\":\"Person A\",\"age\":36,\"favourite_food\":\"Pizza\"},{\"name\":\"Person B\",\"age\":5,\"favourite_food\":\"Broccoli\"},{\"name\":\"Person C\",\"age\":100,\"favourite_food\":null}]",
    );
    assert(is_ascii("[") && is_ascii("]"));
    assert(is_ascii("{\"name\":\"Person A\",\"age\":36,\"favourite_food\":\"Pizza\"}"));
    assert(is_ascii("{\"name\":\"Person B\",\"age\":5,\"favourite_food\":\"Broccoli\"}"));
    assert(is_ascii("{\"name\":\"Person C\",\"age\":100,\"favourite_food\":null}"));
    assert(is_ascii(
        "[{\"name\":\"Person A\",\"age\":36,\"favourite_food\":\"Pizza\"},{\"name\":\"Person B\",\"age\":5,\"favourite_food\":\"Broccoli\"},{\"name\":\"Person C\",\"age\":100,\"favourite_food\":null}]",
    ));
    assert(bytes_of("[") + (first + seq![COMMA] + second + seq![COMMA] + third) + bytes_of("]")
        =~= people_document());
}

/// `GET` is not `OPTIONS`: a request with the method `GET` is no preflight
/// request.
pub proof fn lemma_get_is_no_preflight()
    ensures
        Method::Get.token() != Method::Options.token(),
{
    if Method::Get.token() == Method::Options.token() {
        lemma_token_names_one_method(Method::Get, Method::Options);
    }
}

/// A request with the method `GET` and the path `/` gets the status 200 and
/// the greeting as plain text, whatever else it holds and whatever the policy.
pub proof fn law_root(policy: CorsPolicyView, request: RequestView)
    requires
        request.method == Method::Get.token(),
        request.path == bytes_of("/"),
    ensures
        answer(policy, request).status == 200,
        answer(policy, request).content_type == Some(ContentType::Text),
        answer(policy, request).body == bytes_of("Hello, World!"),
{
    lemma_get_is_no_preflight();
    lemma_paths_differ();
    lemma_service_resolution(request.method, request.path);
}

/// A request with the method `GET` and the path `/world` gets the status 200
/// and the sentence of that route as plain text, whatever else it holds and
/// whatever the policy.
pub proof fn law_world(policy: CorsPolicyView, request: RequestView)
    requires
        request.method == Method::Get.token(),
        request.path == bytes_of("/world"),
    ensures
        answer(policy, request).status == 200,
        answer(policy, request).content_type == Some(ContentType::Text),
        answer(policy, request).body == bytes_of(
            "hello, this is the world and the bird is the word",
        ),
{
    lemma_get_is_no_preflight();
    lemma_paths_differ();
    lemma_service_resolution(request.method, request.path);
}

/// A request with the method `GET` and the path `/people` gets the status
/// 200 and, as JSON, the document that lists the three people in their
/// order, whatever else it holds and whatever the policy.
pub proof fn law_people(policy: CorsPolicyView, request: RequestView)
    requires
        request.method == Method::Get.token(),
        request.path == bytes_of("/people"),
    ensures
        answer(policy, request).status == 200,
        answer(policy, request).content_type == Some(ContentType::Json),
        answer(policy, request).body == people_document(),
{
    lemma_get_is_no_preflight();
    lemma_paths_differ();
    lemma_service_resolution(request.method, request.path);
    law_people_document();
}

/// Two requests for the list of people get the same status, kind of body and
/// body, whatever else differs between them and between the policies.
pub proof fn law_people_unchanging(
    policy: CorsPolicyView,
    request: RequestView,
    other_policy: CorsPolicyView,
    other_request: RequestView,
)
    requires
        request.method == Method::Get.token(),
        request.path == bytes_of("/people"),
        other_request.method == Method::Get.token(),
        other_request.path == bytes_of("/people"),
    ensures
        answer(policy, request).status == answer(other_policy, other_request).status,
        answer(policy, request).content_type == answer(other_policy, other_request).content_type,
        answer(policy, request).body == answer(other_policy, other_request).body,
{
    law_people(policy, request);
    law_people(other_policy, other_request);
}

/// A request that is no preflight request and whose path is none of the
/// service's gets the status 404 and no body.
pub proof fn law_unknown_path(policy: CorsPolicyView, request: RequestView)
    requires
        !is_preflight(request),
        !is_served(request.path),
    ensures
        answer(policy, request).status == 404,
        answer(policy, request).content_type is None,
        answer(policy, request).body == Seq::<u8>::empty(),
{
    lemma_service_resolution(request.method, request.path);
}

/// A request for one of the service's paths with a method other than `GET`
/// and `OPTIONS` gets the status 405 and no body.
pub proof fn law_other_method(policy: CorsPolicyView, request: RequestView)
    requires
        !is_preflight(request),
        request.method != Method::Get.token(),
        is_served(request.path),
    ensures
        answer(policy, request).status == 405,
        answer(policy, request).content_type is None,
        answer(policy, request).body == Seq::<u8>::empty(),
{
    lemma_service_resolution(request.method, request.path);
}

/// A preflight request gets the status 200 and no body, whatever its path.
pub proof fn law_preflight_reply(policy: CorsPolicyView, request: RequestView)
    requires
        is_preflight(request),
    ensures
        answer(policy, request).status == 200,
        answer(policy, request).content_type is None,
        answer(policy, request).body == Seq::<u8>::empty(),
{
}

/// The response to a request from the allowed origin names that origin as
/// the one that may read it.
pub proof fn law_allowed_origin(policy: CorsPolicyView, request: RequestView)
    requires
        request.origin == Some(policy.origin),
    ensures
        answer(policy, request).allow_origin == Some(policy.origin),
{
}

/// The response to a request from any other origin names no origin that may
/// read it, and lists neither methods nor headers.
pub proof fn law_foreign_origin(policy: CorsPolicyView, request: RequestView, origin: Seq<u8>)
    requires
        request.origin == Some(origin),
        origin != policy.origin,
    ensures
        answer(policy, request).allow_origin is None,
        answer(policy, request).allow_methods is None,
        answer(policy, request).allow_headers is None,
{
}

/// The response to a request that does not say where it comes from names
/// the allowed origin.
pub proof fn law_no_origin(policy: CorsPolicyView, request: RequestView)
    requires
        request.origin is None,
    ensures
        answer(policy, request).allow_origin == Some(policy.origin),
{
}

/// The response to a request that asks for a method which the policy does
/// not allow lists neither methods nor headers.
pub proof fn law_method_refused(policy: CorsPolicyView, request: RequestView, token: Seq<u8>)
    requires
        request.request_method == Some(token),
        forall|i: int| 0 <= i < policy.methods.len() ==> policy.methods[i].token() != token,
    ensures
        answer(policy, request).allow_methods is None,
        answer(policy, request).allow_headers is None,
{
    let names = tokens(policy.methods);
    if names.contains(token) {
        let i = choose|i: int| 0 <= i < names.len() && names[i] == token;
        assert(policy.methods[i].token() == token);
    }
}

/// The response to a preflight request that asks for an allowed method,
/// names no foreign origin and asks for no header that the policy does not
/// allow lists the allowed methods and the allowed headers.
pub proof fn law_method_granted(policy: CorsPolicyView, request: RequestView, method: Method)
    requires
        is_preflight(request),
        policy.admits_origin(request.origin),
        request.request_method == Some(method.token()),
        policy.methods.contains(method),
        policy.admits_headers(request.request_headers),
    ensures
        answer(policy, request).allow_origin == Some(policy.origin),
        answer(policy, request).allow_methods == Some(comma_joined(tokens(policy.methods))),
        answer(policy, request).allow_headers == listed(policy.headers),
{
    let i = choose|i: int| 0 <= i < policy.methods.len() && policy.methods[i] == method;
    assert(tokens(policy.methods)[i] == method.token());
}

/// Outside a preflight request no response lists methods or headers.
pub proof fn law_lists_only_in_preflight(policy: CorsPolicyView, request: RequestView)
    requires
        !is_preflight(request),
    ensures
        answer(policy, request).allow_methods is None,
        answer(policy, request).allow_headers is None,
{
}

/// Under the policy for one frontend a method is allowed exactly when it is
/// `GET` or `POST`, and the lists that a granted preflight request gets are
/// `GET,POST` and `content-type`.
pub proof fn law_frontend_policy(origin: Seq<u8>, method: Method)
    ensures
        tokens(CorsPolicyView::for_frontend(origin).methods).contains(method.token()) <==> (method
            == Method::Get || method == Method::Post),
        listed(tokens(CorsPolicyView::for_frontend(origin).methods)) == Some(bytes_of("GET,POST")),
        listed(CorsPolicyView::for_frontend(origin).headers) == Some(bytes_of("content-type")),
{
    broadcast use is_ascii_spec_bytes;

    let policy = CorsPolicyView::for_frontend(origin);
    let names = tokens(policy.methods);
    assert(names[0] == Method::Get.token());
    assert(names[1] == Method::Post.token());
    if names.contains(method.token()) {
        let i = choose|i: int| 0 <= i < names.len() && names[i] == method.token();
        lemma_token_names_one_method(policy.methods[i], method);
    }
    lemma_token_bytes();
    reveal_strlit("GET,POST");
    assert(is_ascii("GET,POST"));
    assert(names.drop_last() =~= seq![Method::Get.token()]);
    assert(comma_joined(names.drop_last()) == Method::Get.token());
    assert(comma_joined(names) =~= bytes_of("GET,POST"));
}

/// Under the policy for one frontend, a preflight request that names no
/// foreign origin and asks for no header that the policy does not allow gets
/// the lists `GET,POST` and `content-type` if the method that it asks for is
/// `GET` or `POST`, and no list if it is any other.
pub proof fn law_frontend_preflight(origin: Seq<u8>, request: RequestView, method: Method)
    requires
        is_preflight(request),
        CorsPolicyView::for_frontend(origin).admits_origin(request.origin),
        request.request_method == Some(method.token()),
        CorsPolicyView::for_frontend(origin).admits_headers(request.request_headers),
    ensures
        method == Method::Get || method == Method::Post ==> {
            &&& answer(CorsPolicyView::for_frontend(origin), request).allow_methods == Some(
                bytes_of("GET,POST"),
            )
            &&& answer(CorsPolicyView::for_frontend(origin), request).allow_headers == Some(
                bytes_of("content-type"),
            )
        },
        method != Method::Get && method != Method::Post ==> {
            &&& answer(CorsPolicyView::for_frontend(origin), request).allow_methods is None
            &&& answer(CorsPolicyView::for_frontend(origin), request).allow_headers is None
        },
{
    law_frontend_policy(origin, method);
}

/// The policy changes nothing of a response but its three cross-origin
/// headers: the status, the kind of body and the body depend on the method
/// and the path of the request alone.
pub proof fn law_policy_keeps_the_reply(
    policy: CorsPolicyView,
    request: RequestView,
    other_policy: CorsPolicyView,
    other_request: RequestView,
)
    requires
        request.method == other_request.method,
        request.path == other_request.path,
    ensures
        answer(policy, request).status == answer(other_policy, other_request).status,
        answer(policy, request).content_type == answer(other_policy, other_request).content_type,
        answer(policy, request).body == answer(other_policy, other_request).body,
{
}

/// The case of the letters in the list of headers that a request asks for
/// makes no difference to what the policy grants.
pub proof fn law_header_case(policy: CorsPolicyView, value: Seq<u8>)
    ensures
        policy.admits_names(lowered(value)) == policy.admits_names(value),
{
    law_members_lowered(value);
    let members = list_members(value);
    let small = list_members(lowered(value));
    assert forall|i: int| 0 <= i < members.len() implies policy.admits_name(small[i])
        == policy.admits_name(members[i]) by {
        assert(small[i] == lowered(members[i]));
        assert(lowered(lowered(members[i])) =~= lowered(members[i]));
    }
}

} // verus!
