use fullstack_app::json::{encode_people, encode_person, encode_string};
use fullstack_app::person::Person;

fn person(name: &str, age: u32, food: Option<&str>) -> Person {
    Person { name: name.to_string(), age, favourite_food: food.map(|f| f.to_string()) }
}

fn text(bytes: Vec<u8>) -> String {
    String::from_utf8(bytes).unwrap()
}

#[test]
fn plain_string_is_quoted() {
    assert_eq!(text(encode_string("Pizza")), "\"Pizza\"");
    assert_eq!(text(encode_string("")), "\"\"");
    assert_eq!(text(encode_string("a b/c")), "\"a b/c\"");
}

#[test]
fn quote_and_backslash_are_escaped() {
    assert_eq!(text(encode_string("say \"hi\"")), "\"say \\\"hi\\\"\"");
    assert_eq!(text(encode_string("a\\b")), "\"a\\\\b\"");
    assert_eq!(text(encode_string("\\\"")), "\"\\\\\\\"\"");
}

#[test]
fn control_characters_with_a_short_form_use_it() {
    assert_eq!(text(encode_string("\u{8}")), "\"\\b\"");
    assert_eq!(text(encode_string("\t")), "\"\\t\"");
    assert_eq!(text(encode_string("\n")), "\"\\n\"");
    assert_eq!(text(encode_string("\u{c}")), "\"\\f\"");
    assert_eq!(text(encode_string("\r")), "\"\\r\"");
}

#[test]
fn other_control_characters_are_written_in_hex() {
    assert_eq!(text(encode_string("\u{0}")), "\"\\u0000\"");
    assert_eq!(text(encode_string("\u{1}")), "\"\\u0001\"");
    assert_eq!(text(encode_string("\u{b}")), "\"\\u000b\"");
    assert_eq!(text(encode_string("\u{e}")), "\"\\u000e\"");
    assert_eq!(text(encode_string("\u{1a}")), "\"\\u001a\"");
    assert_eq!(text(encode_string("\u{1f}")), "\"\\u001f\"");
}

#[test]
fn other_bytes_stand_as_they_are() {
    assert_eq!(text(encode_string(" ")), "\" \"");
    assert_eq!(text(encode_string("\u{7f}")), "\"\u{7f}\"");
    assert_eq!(text(encode_string("caf\u{e9}")), "\"caf\u{e9}\"");
    assert_eq!(text(encode_string("\u{2028}\u{1f355}")), "\"\u{2028}\u{1f355}\"");
}

#[test]
fn strings_are_written_as_serde_json_writes_them() {
    let mut samples: Vec<String> = vec![
        String::new(),
        "Person A".to_string(),
        "\"\\/\u{8}\u{c}\n\r\t".to_string(),
        "mixed \"quotes\" and \\ and \u{1} and \u{7f} and \u{80} and \u{ffff}".to_string(),
        "\u{1f355} pizza".to_string(),
    ];
    for code in 0u32..=0x250 {
        samples.push(char::from_u32(code).unwrap().to_string());
    }
    for sample in samples {
        assert_eq!(encode_string(&sample), serde_json::to_vec(&sample).unwrap(), "{:?}", sample);
    }
}

#[test]
fn strings_read_back_as_they_were() {
    for sample in ["", "a", "\"", "\\\\", "line\nbreak", "\u{0}\u{1f}", "tab\there", "\u{e9}\u{1f355}"] {
        let value: serde_json::Value = serde_json::from_slice(&encode_string(sample)).unwrap();
        assert_eq!(value.as_str(), Some(sample));
    }
}

#[test]
fn person_is_an_object_with_three_members_in_order() {
    assert_eq!(
        text(encode_person(&person("Person A", 36, Some("Pizza")))),
        "{\"name\":\"Person A\",\"age\":36,\"favourite_food\":\"Pizza\"}"
    );
}

#[test]
fn missing_food_is_null() {
    assert_eq!(
        text(encode_person(&person("Person C", 100, None))),
        "{\"name\":\"Person C\",\"age\":100,\"favourite_food\":null}"
    );
}

#[test]
fn empty_food_is_not_missing_food() {
    assert_eq!(
        text(encode_person(&person("", 0, Some("")))),
        "{\"name\":\"\",\"age\":0,\"favourite_food\":\"\"}"
    );
    assert_ne!(
        encode_person(&person("x", 1, Some(""))),
        encode_person(&person("x", 1, None))
    );
}

#[test]
fn ages_are_written_in_decimal() {
    for (age, digits) in [
        (0u32, "0"),
        (5, "5"),
        (9, "9"),
        (10, "10"),
        (36, "36"),
        (99, "99"),
        (100, "100"),
        (101, "101"),
        (1000, "1000"),
        (4294967295, "4294967295"),
    ] {
        assert_eq!(
            text(encode_person(&person("n", age, None))),
            format!("{{\"name\":\"n\",\"age\":{},\"favourite_food\":null}}", digits)
        );
    }
}

#[test]
fn names_and_foods_are_escaped() {
    assert_eq!(
        text(encode_person(&person("A \"B\"", 1, Some("fish\n& chips\\")))),
        "{\"name\":\"A \\\"B\\\"\",\"age\":1,\"favourite_food\":\"fish\\n& chips\\\\\"}"
    );
}

#[test]
fn people_are_an_array_in_the_lists_order() {
    assert_eq!(text(encode_people(&vec![])), "[]");
    assert_eq!(
        text(encode_people(&vec![person("a", 1, None)])),
        "[{\"name\":\"a\",\"age\":1,\"favourite_food\":null}]"
    );
    assert_eq!(
        text(encode_people(&vec![person("b", 2, Some("x")), person("a", 1, None)])),
        "[{\"name\":\"b\",\"age\":2,\"favourite_food\":\"x\"},{\"name\":\"a\",\"age\":1,\"favourite_food\":null}]"
    );
}

#[test]
fn people_read_back_as_they_were() {
    let list = vec![
        person("Zo\u{eb} \"Z\"", 4294967295, Some("cr\u{e8}me br\u{fb}l\u{e9}e")),
        person("\u{0}", 0, None),
        person("tab\t", 7, Some("")),
    ];
    let value: serde_json::Value = serde_json::from_slice(&encode_people(&list)).unwrap();
    let read = value.as_array().unwrap();
    assert_eq!(read.len(), list.len());
    for (object, person) in read.iter().zip(list.iter()) {
        let keys: Vec<&String> = object.as_object().unwrap().keys().collect();
        assert_eq!(keys.len(), 3);
        assert_eq!(object.get("name").unwrap().as_str(), Some(person.name.as_str()));
        assert_eq!(object.get("age").unwrap().as_u64(), Some(person.age as u64));
        match &person.favourite_food {
            Some(food) => {
                assert_eq!(object.get("favourite_food").unwrap().as_str(), Some(food.as_str()))
            }
            None => assert!(object.get("favourite_food").unwrap().is_null()),
        }
    }
}
