//! The data tree that schemas are compiled from and checked against.

use crate::number::Number;
use vstd::prelude::*;

verus! {

/// A parsed value.
#[derive(Debug, PartialEq)]
pub enum Value {
    Null,
    Bool(bool),
    Number(Number),
    String(String),
    Array(Vec<Value>),
    /// The members in the order of the document. Under a key that occurs more
    /// than once, [`Value::find`] gives the first member.
    Object(Vec<Member>),
}

/// A key of an object and the value under it.
#[derive(Debug, PartialEq)]
pub struct Member {
    pub key: String,
    pub value: Value,
}

/// The index of the first member from `from` on whose key is `key`.
pub open spec fn first_member(members: Seq<Member>, key: Seq<char>, from: int) -> Option<int>
    decreases members.len() - from,
{
    if from < 0 || from >= members.len() {
        None
    } else if members[from].key@ == key {
        Some(from)
    } else {
        first_member(members, key, from + 1)
    }
}

impl Value {
    /// The members of an object; none for any other value.
    pub open spec fn members(self) -> Seq<Member> {
        match self {
            Value::Object(members) => members@,
            _ => Seq::empty(),
        }
    }

    /// The value under `key`, where the value is an object that has the key.
    pub open spec fn member(self, key: Seq<char>) -> Option<Value> {
        match first_member(self.members(), key, 0) {
            Some(i) => Some(self.members()[i].value),
            None => None,
        }
    }

    pub fn is_number(&self) -> (number: bool)
        ensures
            number == (self is Number),
    {
        match self {
            Value::Number(_) => true,
            _ => false,
        }
    }

    pub fn as_number(&self) -> (number: Option<Number>)
        ensures
            number == (match *self {
                Value::Number(n) => Some(n),
                _ => None,
            }),
    {
        match self {
            Value::Number(n) => Some(*n),
            _ => None,
        }
    }

    pub fn as_string(&self) -> (text: Option<&String>)
        ensures
            match *self {
                Value::String(s) => text == Some(&s),
                _ => text is None,
            },
    {
        match self {
            Value::String(s) => Some(s),
            _ => None,
        }
    }

    /// Looks `key` up in an object.
    pub fn find(&self, key: &str) -> (found: Option<&Value>)
        ensures
            match self.member(key@) {
                Some(value) => found == Some(&value),
                None => found is None,
            },
    {
        match self {
            Value::Object(members) => {
                let wanted = key.to_owned();
                let mut i: usize = 0;
                while i < members.len()
                    invariant
                        i <= members.len(),
                        wanted@ == key@,
                        self.members() == members@,
                        first_member(members@, key@, 0) == first_member(members@, key@, i as int),
                    decreases members.len() - i,
                {
                    if members[i].key == wanted {
                        return Some(&members[i].value);
                    }
                    i = i + 1;
                }
                None
            },
            _ => None,
        }
    }
}

} // verus!
