//! A JSON value, as far as anything here looks into one.

use crate::text::same;
use vstd::prelude::*;

verus! {

/// A JSON number.
#[derive(Debug, PartialEq, Eq)]
pub enum Number {
    /// A whole number from 0 to `u64::MAX`.
    Whole(u64),
    /// A whole number below 0.
    Negative(i64),
    /// Any other number, as it is printed.
    Fraction(String),
}

/// A JSON value.
#[derive(Debug, PartialEq, Eq)]
pub enum Json {
    Null,
    Bool(bool),
    Number(Number),
    Text(String),
    Array(Vec<Json>),
    /// Member names and values. A name written twice is found at its first
    /// place.
    Object(Vec<(String, Json)>),
}

/// The value of the member `name`, if there is one.
pub open spec fn lookup(members: Seq<(String, Json)>, name: Seq<char>) -> Option<Json>
    decreases members.len(),
{
    if members.len() == 0 {
        None
    } else if members[0].0@ == name {
        Some(members[0].1)
    } else {
        lookup(members.skip(1), name)
    }
}

/// The value of the member `name`, if there is one.
pub fn find<'a>(members: &'a Vec<(String, Json)>, name: &str) -> (r: Option<&'a Json>)
    ensures
        match r {
            Some(v) => lookup(members@, name@) == Some(*v),
            None => lookup(members@, name@) is None,
        },
{
    let mut i: usize = 0;
    assert(members@.skip(0) == members@);
    while i < members.len()
        invariant
            i <= members@.len(),
            lookup(members@, name@) == lookup(members@.skip(i as int), name@),
        decreases members@.len() - i,
    {
        let ghost rest = members@.skip(i as int);
        assert(rest[0] == members@[i as int]);
        assert(rest.skip(1) == members@.skip(i as int + 1));
        if same(members[i].0.as_str(), name) {
            return Some(&members[i].1);
        }
        i += 1;
    }
    None
}

impl Json {
    /// The member `name` of an object; nothing for any other value.
    pub open spec fn member(self, name: Seq<char>) -> Option<Json> {
        match self {
            Json::Object(members) => lookup(members@, name),
            _ => None,
        }
    }

    /// The characters of a string; nothing for any other value.
    pub open spec fn text(self) -> Option<Seq<char>> {
        match self {
            Json::Text(s) => Some(s@),
            _ => None,
        }
    }

    /// The value of a whole number of `u64`'s range; nothing for any other
    /// value.
    pub open spec fn whole(self) -> Option<u64> {
        match self {
            Json::Number(Number::Whole(n)) => Some(n),
            _ => None,
        }
    }

    /// The member `name` of an object; nothing for any other value.
    pub fn get(&self, name: &str) -> (r: Option<&Json>)
        ensures
            match r {
                Some(v) => self.member(name@) == Some(*v),
                None => self.member(name@) is None,
            },
    {
        match self {
            Json::Object(members) => find(members, name),
            _ => None,
        }
    }

    /// The characters of a string; nothing for any other value.
    pub fn as_str(&self) -> (r: Option<&str>)
        ensures
            match r {
                Some(s) => self.text() == Some(s@),
                None => self.text() is None,
            },
    {
        match self {
            Json::Text(s) => Some(s.as_str()),
            _ => None,
        }
    }

    /// The value of a whole number of `u64`'s range; nothing for any other
    /// value.
    pub fn as_u64(&self) -> (r: Option<u64>)
        ensures
            r == self.whole(),
    {
        match self {
            Json::Number(Number::Whole(n)) => Some(*n),
            _ => None,
        }
    }
}

/// A member is found exactly when one has the name, and then it is the first that
/// does.
pub proof fn a_member_is_found_by_its_name(members: Seq<(String, Json)>, name: Seq<char>)
    ensures
        lookup(members, name) is None <==> forall|i: int|
            0 <= i < members.len() ==> (#[trigger] members[i]).0@ != name,
        forall|i: int|
            0 <= i < members.len() && (#[trigger] members[i]).0@ == name && (forall|j: int|
                0 <= j < i ==> (#[trigger] members[j]).0@ != name) ==> lookup(members, name)
                == Some(members[i].1),
    decreases members.len(),
{
    if members.len() > 0 {
        let rest = members.skip(1);
        a_member_is_found_by_its_name(rest, name);
        assert forall|i: int| 0 <= i < rest.len() implies rest[i] == members[i + 1] by {}
        if lookup(members, name) is None {
            assert forall|i: int| 0 <= i < members.len() implies (#[trigger] members[i]).0@
                != name by {
                if i > 0 {
                    assert(rest[i - 1].0@ != name);
                }
            }
        }
        if forall|i: int| 0 <= i < members.len() ==> (#[trigger] members[i]).0@ != name {
            assert(members[0].0@ != name);
            assert forall|i: int| 0 <= i < rest.len() implies (#[trigger] rest[i]).0@ != name by {
                assert(members[i + 1].0@ != name);
            }
        }
        assert forall|i: int|
            0 <= i < members.len() && (#[trigger] members[i]).0@ == name && (forall|j: int|
                0 <= j < i ==> (#[trigger] members[j]).0@ != name) implies lookup(members, name)
            == Some(members[i].1) by {
            if i > 0 {
                assert(members[0].0@ != name);
                assert(rest[i - 1].0@ == name);
                assert forall|j: int| 0 <= j < i - 1 implies (#[trigger] rest[j]).0@ != name by {
                    assert(members[j + 1].0@ != name);
                }
            }
        }
    }
}

/// Only an object has members, only a string has a text, and only a whole number
/// from 0 on is one.
pub proof fn a_value_is_only_what_it_is(value: Json, name: Seq<char>)
    ensures
        value matches Json::Object(members) ==> value.member(name) == lookup(members@, name),
        !(value is Object) ==> value.member(name) is None,
        value matches Json::Text(s) ==> value.text() == Some(s@),
        !(value is Text) ==> value.text() is None,
        value matches Json::Number(Number::Whole(n)) ==> value.whole() == Some(n),
        !(value is Number && value->Number_0 is Whole) ==> value.whole() is None,
{
}

} // verus!
