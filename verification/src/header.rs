//! Header names and header values, as the `http` crate takes them.
//!
//! The two functions at the end of this file hand a text to the parsers of
//! `http`, which `axum` brings along, and report what they made of it. Their
//! contracts are not proved: they state what `http` does.

use crate::octets::{bytes_of, comma_joined, lowered, COMMA};
use vstd::prelude::*;

verus! {

/// Whether `b` may stand in a header value: any byte but the control
/// characters, the horizontal tab excepted.
pub open spec fn is_value_byte(b: u8) -> bool {
    b >= 32 && b != 127 || b == 9
}

/// Whether `value` can be sent as a header value.
pub open spec fn is_field_value(value: Seq<u8>) -> bool {
    forall|i: int| 0 <= i < value.len() ==> is_value_byte(#[trigger] value[i])
}

/// Whether `b` may stand in a header name: an ASCII letter or digit, or one
/// of ``! " # $ % & ' * + - . ^ _ ` | ~``.
pub open spec fn is_name_byte(b: u8) -> bool {
    33 <= b <= 39 || b == 42 || b == 43 || b == 45 || b == 46 || 48 <= b <= 57 || 65 <= b <= 90
        || 94 <= b <= 122 || b == 124 || b == 126
}

/// Whether `name` can be a header name: between 1 and 65535 bytes, each of
/// them one that may stand in a name.
pub open spec fn is_field_name(name: Seq<u8>) -> bool {
    &&& 1 <= name.len() <= 65535
    &&& forall|i: int| 0 <= i < name.len() ==> is_name_byte(#[trigger] name[i])
}

/// The form in which a header name is kept and compared: in small letters.
/// A byte string that cannot be a header name has none.
pub open spec fn canonical(name: Seq<u8>) -> Option<Seq<u8>> {
    if is_field_name(name) {
        Some(lowered(name))
    } else {
        None
    }
}

/// Whether every member of `names` is a header name in its canonical form.
pub open spec fn all_canonical(names: Seq<Seq<u8>>) -> bool {
    forall|i: int| 0 <= i < names.len() ==> canonical(#[trigger] names[i]) == Some(names[i])
}

/// The canonical form of a header name is itself canonical.
pub proof fn lemma_canonical_is_fixed(name: Seq<u8>)
    requires
        canonical(name) is Some,
    ensures
        canonical(canonical(name)->0) == canonical(name),
{
    let low = lowered(name);
    assert(is_field_name(low));
    assert(lowered(low) =~= low);
}

/// A header name can be sent as a header value, and holds no comma.
pub proof fn lemma_name_is_value(name: Seq<u8>)
    requires
        is_field_name(name),
    ensures
        is_field_value(name),
        !name.contains(COMMA),
{
    assert forall|i: int| 0 <= i < name.len() implies is_value_byte(#[trigger] name[i]) by {
        assert(is_name_byte(name[i]));
    }
    if name.contains(COMMA) {
        let i = choose|i: int| 0 <= i < name.len() && name[i] == COMMA;
        assert(is_name_byte(name[i]));
    }
}

/// A list of header values, joined by commas, is a header value.
pub proof fn lemma_joined_is_value(items: Seq<Seq<u8>>)
    requires
        forall|i: int| 0 <= i < items.len() ==> is_field_value(#[trigger] items[i]),
    ensures
        is_field_value(comma_joined(items)),
    decreases items.len(),
{
    if items.len() >= 2 {
        let front = items.drop_last();
        assert forall|i: int| 0 <= i < front.len() implies is_field_value(#[trigger] front[i]) by {
            assert(front[i] == items[i]);
        }
        lemma_joined_is_value(front);
        let joined = comma_joined(items);
        let head = comma_joined(front);
        assert(is_field_value(items.last()));
        assert forall|i: int| 0 <= i < joined.len() implies is_value_byte(#[trigger] joined[i]) by {
            if i < head.len() {
                assert(joined[i] == head[i]);
            } else if i == head.len() {
                assert(joined[i] == COMMA);
            } else {
                assert(joined[i] == items.last()[i - head.len() - 1]);
            }
        }
    } else if items.len() == 1 {
        assert(is_field_value(items[0]));
    }
}

/// Whether `http` takes the text `value` as a header value.
///
/// Parses `value` as an `http::HeaderValue`. The parser refuses a text
/// exactly when one of its bytes is a control character other than the
/// horizontal tab, and has no limit on the length.
#[verifier::external_body]
pub(crate) fn value_accepted(value: &str) -> (accepted: bool)
    ensures
        accepted == is_field_value(bytes_of(value)),
{
    value.parse::<axum::http::HeaderValue>().is_ok()
}

/// The header name that `http` makes of the text `name`, as bytes.
///
/// Parses `name` as an `http::HeaderName`. The parser refuses the empty
/// name, a name of more than 65535 bytes and a name with a byte outside its
/// table of name characters, and hands back any other name with its capital
/// letters turned into small ones.
#[verifier::external_body]
pub(crate) fn canonical_name(name: &str) -> (made: Option<Vec<u8>>)
    ensures
        match made {
            Some(bytes) => canonical(bytes_of(name)) == Some(bytes@),
            None => canonical(bytes_of(name)) is None,
        },
{
    match name.parse::<axum::http::HeaderName>() {
        Ok(header) => Some(header.as_str().as_bytes().to_vec()),
        Err(_) => None,
    }
}

} // verus!
