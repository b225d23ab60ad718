//! The people that the service knows of.

use vstd::prelude::*;
use vstd::string::*;

verus! {

/// One person. A person without a favourite food is not the same as one whose
/// favourite food is the empty text.
#[derive(Clone, Debug, PartialEq, Eq)]
pub struct Person {
    pub name: String,
    pub age: u32,
    pub favourite_food: Option<String>,
}

/// What a `Person` holds, as mathematical values.
pub struct PersonView {
    pub name: Seq<char>,
    pub age: nat,
    pub favourite_food: Option<Seq<char>>,
}

impl View for Person {
    type V = PersonView;

    open spec fn view(&self) -> PersonView {
        PersonView {
            name: self.name@,
            age: self.age as nat,
            favourite_food: match self.favourite_food {
                Some(food) => Some(food@),
                None => None,
            },
        }
    }
}

/// The views of a list of people, in the list's order.
pub open spec fn views(list: Seq<Person>) -> Seq<PersonView> {
    Seq::new(list.len(), |i: int| list[i]@)
}

/// The three people of the service, in the order in which they are listed.
pub open spec fn listed_people() -> Seq<PersonView> {
    seq![
        PersonView { name: "Person A"@, age: 36, favourite_food: Some("Pizza"@) },
        PersonView { name: "Person B"@, age: 5, favourite_food: Some("Broccoli"@) },
        PersonView { name: "Person C"@, age: 100, favourite_food: None },
    ]
}

/// A fresh list of the three people of the service. Every call gives the same
/// list: nothing is stored between calls.
pub fn people() -> (list: Vec<Person>)
    ensures
        views(list@) == listed_people(),
{
    let mut list: Vec<Person> = Vec::new();
    list.push(
        Person {
            name: String::from_str("Person A"),
            age: 36,
            favourite_food: Some(String::from_str("Pizza")),
        },
    );
    list.push(
        Person {
            name: String::from_str("Person B"),
            age: 5,
            favourite_food: Some(String::from_str("Broccoli")),
        },
    );
    list.push(Person { name: String::from_str("Person C"), age: 100, favourite_food: None });
    assert(views(list@) =~= listed_people());
    list
}

} // verus!
