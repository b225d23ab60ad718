//! The JSON text of a list of people.
//!
//! The text is compact: no white space stands between its parts. A person is
//! an object with the members `name`, `age` and `favourite_food`, in that
//! order; a person without a favourite food has `null` there.

use crate::octets::{bytes_of, comma_joined, push_all, COMMA};
use crate::person::{views, Person, PersonView};
use vstd::prelude::*;
use vstd::string::*;
use vstd::utf8::encode_utf8;

verus! {

/// The byte `"`.
pub const QUOTE: u8 = 34;

/// The byte `\`.
pub const BACKSLASH: u8 = 92;

/// The digit, as a character of `0123456789abcdef`, of a number below 16.
pub open spec fn hex_digit(k: u8) -> u8 {
    if k < 10 {
        (48 + k) as u8
    } else {
        (87 + k) as u8
    }
}

/// How one byte of a text stands inside a JSON string: `"` and `\` behind a
/// backslash, the control characters as `\b`, `\t`, `\n`, `\f`, `\r` where
/// JSON has such a short form and as `\u00` with two hex digits where it has
/// none, every other byte as it is.
pub open spec fn escaped(b: u8) -> Seq<u8> {
    if b == QUOTE {
        seq![BACKSLASH, QUOTE]
    } else if b == BACKSLASH {
        seq![BACKSLASH, BACKSLASH]
    } else if b == 8 {
        seq![BACKSLASH, 98u8]
    } else if b == 9 {
        seq![BACKSLASH, 116u8]
    } else if b == 10 {
        seq![BACKSLASH, 110u8]
    } else if b == 12 {
        seq![BACKSLASH, 102u8]
    } else if b == 13 {
        seq![BACKSLASH, 114u8]
    } else if b < 32 {
        seq![BACKSLASH, 117u8, 48u8, 48u8, hex_digit(b / 16), hex_digit(b % 16)]
    } else {
        seq![b]
    }
}

/// The bytes of `s`, each as it stands inside a JSON string.
pub open spec fn escaped_all(s: Seq<u8>) -> Seq<u8>
    decreases s.len(),
{
    if s.len() == 0 {
        Seq::empty()
    } else {
        escaped_all(s.drop_last()) + escaped(s.last())
    }
}

/// The JSON string that holds `text`.
pub open spec fn string_text(text: Seq<char>) -> Seq<u8> {
    seq![QUOTE] + escaped_all(encode_utf8(text)) + seq![QUOTE]
}

/// The decimal digits of `n`, without leading zeros.
pub open spec fn number_text(n: nat) -> Seq<u8>
    decreases n,
{
    if n < 10 {
        seq![(48 + n) as u8]
    } else {
        number_text(n / 10) + seq![(48 + n % 10) as u8]
    }
}

/// The JSON value of a favourite food: a string, or `null` where there is none.
pub open spec fn food_text(food: Option<Seq<char>>) -> Seq<u8> {
    match food {
        Some(text) => string_text(text),
        None => bytes_of("null"),
    }
}

/// The JSON object of one person.
pub open spec fn person_text(person: PersonView) -> Seq<u8> {
    bytes_of("{\"name\":") + string_text(person.name) + bytes_of(",\"age\":") + number_text(
        person.age,
    ) + bytes_of(",\"favourite_food\":") + food_text(person.favourite_food) + bytes_of("}")
}

/// The JSON objects of `list`, in the list's order.
pub open spec fn person_texts(list: Seq<PersonView>) -> Seq<Seq<u8>> {
    Seq::new(list.len(), |i: int| person_text(list[i]))
}

/// The JSON array of a list of people.
pub open spec fn people_text(list: Seq<PersonView>) -> Seq<u8> {
    bytes_of("[") + comma_joined(person_texts(list)) + bytes_of("]")
}

fn hex(k: u8) -> (digit: u8)
    requires
        k < 16,
    ensures
        digit == hex_digit(k),
{
    if k < 10 {
        48 + k
    } else {
        87 + k
    }
}

fn write_escaped(out: &mut Vec<u8>, b: u8)
    ensures
        final(out)@ == old(out)@ + escaped(b),
{
    if b == QUOTE || b == BACKSLASH {
        out.push(BACKSLASH);
        out.push(b);
    } else if b == 8 || b == 9 || b == 10 || b == 12 || b == 13 {
        let letter: u8 = if b == 8 {
            98
        } else if b == 9 {
            116
        } else if b == 10 {
            110
        } else if b == 12 {
            102
        } else {
            114
        };
        out.push(BACKSLASH);
        out.push(letter);
    } else if b < 32 {
        out.push(BACKSLASH);
        out.push(117);
        out.push(48);
        out.push(48);
        out.push(hex(b / 16));
        out.push(hex(b % 16));
    } else {
        out.push(b);
    }
    assert(out@ =~= old(out)@ + escaped(b));
}

fn write_string(out: &mut Vec<u8>, text: &str)
    ensures
        final(out)@ == old(out)@ + string_text(text@),
{
    let bytes = text.as_bytes();
    out.push(QUOTE);
    let mut i: usize = 0;
    while i < bytes.len()
        invariant
            i <= bytes.len(),
            bytes@ == encode_utf8(text@),
            out@ == old(out)@ + seq![QUOTE] + escaped_all(bytes@.take(i as int)),
        decreases bytes.len() - i,
    {
        write_escaped(out, bytes[i]);
        assert(bytes@.take(i as int + 1).drop_last() =~= bytes@.take(i as int));
        assert(out@ =~= old(out)@ + seq![QUOTE] + escaped_all(bytes@.take(i as int + 1)));
        i += 1;
    }
    assert(bytes@.take(bytes.len() as int) =~= bytes@);
    out.push(QUOTE);
    assert(out@ =~= old(out)@ + string_text(text@));
}

fn write_number(out: &mut Vec<u8>, n: u32)
    ensures
        final(out)@ == old(out)@ + number_text(n as nat),
    decreases n,
{
    if n >= 10 {
        write_number(out, n / 10);
    }
    out.push(48 + (n % 10) as u8);
    assert(out@ =~= old(out)@ + number_text(n as nat));
}

fn write_person(out: &mut Vec<u8>, person: &Person)
    ensures
        final(out)@ == old(out)@ + person_text(person@),
{
    push_all(out, "{\"name\":".as_bytes());
    write_string(out, person.name.as_str());
    push_all(out, ",\"age\":".as_bytes());
    write_number(out, person.age);
    push_all(out, ",\"favourite_food\":".as_bytes());
    match &person.favourite_food {
        Some(food) => write_string(out, food.as_str()),
        None => push_all(out, "null".as_bytes()),
    }
    push_all(out, "}".as_bytes());
    assert(out@ =~= old(out)@ + person_text(person@));
}

/// The JSON string that holds `text`.
pub fn encode_string(text: &str) -> (out: Vec<u8>)
    ensures
        out@ == string_text(text@),
{
    let mut out: Vec<u8> = Vec::new();
    write_string(&mut out, text);
    out
}

/// The JSON object of `person`.
pub fn encode_person(person: &Person) -> (out: Vec<u8>)
    ensures
        out@ == person_text(person@),
{
    let mut out: Vec<u8> = Vec::new();
    write_person(&mut out, person);
    out
}

/// The JSON array of `list`: its people in the list's order, each as an
/// object.
pub fn encode_people(list: &Vec<Person>) -> (out: Vec<u8>)
    ensures
        out@ == people_text(views(list@)),
{
    let ghost texts = person_texts(views(list@));
    let mut out: Vec<u8> = Vec::new();
    push_all(&mut out, "[".as_bytes());
    let mut i: usize = 0;
    while i < list.len()
        invariant
            i <= list.len(),
            texts == person_texts(views(list@)),
            out@ == bytes_of("[") + comma_joined(texts.take(i as int)),
        decreases list.len() - i,
    {
        if i > 0 {
            out.push(COMMA);
        }
        write_person(&mut out, &list[i]);
        proof {
            let now = texts.take(i as int + 1);
            assert(now.drop_last() =~= texts.take(i as int));
            assert(now.last() == person_text(list@[i as int]@));
            assert(out@ =~= bytes_of("[") + comma_joined(now));
        }
        i += 1;
    }
    assert(texts.take(list.len() as int) =~= texts);
    push_all(&mut out, "]".as_bytes());
    out
}

/// A text without control characters, quotes and backslashes stands inside a
/// JSON string as it is.
pub proof fn lemma_plain_text(s: Seq<u8>)
    requires
        forall|i: int| 0 <= i < s.len() ==> s[i] >= 32 && s[i] != QUOTE && s[i] != BACKSLASH,
    ensures
        escaped_all(s) == s,
    decreases s.len(),
{
    if s.len() > 0 {
        lemma_plain_text(s.drop_last());
        assert(escaped(s.last()) =~= seq![s.last()]);
        assert(s.drop_last() + seq![s.last()] =~= s);
    }
}

} // verus!
