//! JSON values, as far as the control channel reads and writes them.

use crate::text::same_text;
use vstd::prelude::*;

verus! {

/// A JSON value.
#[derive(Debug, PartialEq, Eq)]
pub enum JsonValue {
    Null,
    Bool(bool),
    /// A whole number from zero on.
    Unsigned(u64),
    Text(String),
    Object(Vec<JsonMember>),
    /// An array, or a number of another kind: no field of the protocol holds one.
    Other,
}

/// A member of a JSON object.
#[derive(Debug, PartialEq, Eq)]
pub struct JsonMember {
    pub key: String,
    pub value: JsonValue,
}

/// The value of the first of `members` whose key is `key`.
pub open spec fn lookup(members: Seq<JsonMember>, key: Seq<char>) -> Option<JsonValue>
    decreases members.len(),
{
    if members.len() == 0 {
        None
    } else if members[0].key@ == key {
        Some(members[0].value)
    } else {
        lookup(members.drop_first(), key)
    }
}

impl JsonValue {
    /// The member `key`, where this is an object that has one.
    pub open spec fn member(self, key: Seq<char>) -> Option<JsonValue> {
        match self {
            JsonValue::Object(members) => lookup(members@, key),
            _ => None,
        }
    }

    /// The member `key`, where this is an object that has one.
    pub fn get(&self, key: &str) -> (value: Option<&JsonValue>)
        ensures
            value is Some <==> self.member(key@) is Some,
            value matches Some(v) ==> self.member(key@) == Some(*v),
    {
        match self {
            JsonValue::Object(members) => {
                let mut i: usize = 0;
                assert(members@.skip(0) =~= members@);
                while i < members.len()
                    invariant
                        i <= members.len(),
                        *self == JsonValue::Object(*members),
                        lookup(members@, key@) == lookup(members@.skip(i as int), key@),
                    decreases members.len() - i,
                {
                    assert(members@.skip(i as int)[0] == members@[i as int]);
                    assert(members@.skip(i as int).drop_first() =~= members@.skip(i + 1));
                    if same_text(members[i].key.as_str(), key) {
                        return Some(&members[i].value);
                    }
                    i = i + 1;
                }
                None
            },
            _ => None,
        }
    }

    /// The truth value, where this is one.
    pub fn as_bool(&self) -> (value: Option<bool>)
        ensures
            value == match *self {
                JsonValue::Bool(b) => Some(b),
                _ => None,
            },
    {
        match self {
            JsonValue::Bool(b) => Some(*b),
            _ => None,
        }
    }

    /// The text, where this is one.
    pub fn as_str(&self) -> (value: Option<&str>)
        ensures
            value is Some <==> self is Text,
            value matches Some(t) ==> t@ == self->Text_0@,
    {
        match self {
            JsonValue::Text(t) => Some(t.as_str()),
            _ => None,
        }
    }
}

/// Whether `members[i]` is the first of the members called `key`, and its value is
/// `value`.
pub open spec fn found_at(
    members: Seq<JsonMember>,
    key: Seq<char>,
    value: JsonValue,
    i: int,
) -> bool {
    &&& 0 <= i < members.len()
    &&& members[i].key@ == key
    &&& members[i].value == value
    &&& forall|j: int| 0 <= j < i ==> (#[trigger] members[j]).key@ != key
}

proof fn lemma_lookup(members: Seq<JsonMember>, key: Seq<char>)
    ensures
        lookup(members, key) matches Some(v) ==> exists|i: int| found_at(members, key, v, i),
        lookup(members, key) is None ==> forall|i: int|
            0 <= i < members.len() ==> (#[trigger] members[i]).key@ != key,
    decreases members.len(),
{
    if members.len() > 0 {
        let rest = members.drop_first();
        if members[0].key@ == key {
            assert(found_at(members, key, members[0].value, 0));
        } else {
            lemma_lookup(rest, key);
            match lookup(members, key) {
                Some(v) => {
                    let i = choose|i: int| found_at(rest, key, v, i);
                    assert(members[i + 1] == rest[i]);
                    assert forall|j: int| 0 <= j < i + 1 implies (#[trigger] members[j]).key@
                        != key by {
                        if j > 0 {
                            assert(members[j] == rest[j - 1]);
                        }
                    }
                    assert(found_at(members, key, v, i + 1));
                },
                None => {
                    assert forall|i: int| 0 <= i < members.len() implies (
                    #[trigger] members[i]).key@ != key by {
                        if i > 0 {
                            assert(members[i] == rest[i - 1]);
                        }
                    }
                },
            }
        }
    }
}

/// The member of an object is the first of its name; what is no object, or has no
/// member of the name, has none.
pub proof fn law_member_is_the_first_of_its_name(
    value: JsonValue,
    key: Seq<char>,
    wanted: JsonValue,
)
    ensures
        value.member(key) == Some(wanted) <==> (value matches JsonValue::Object(members)
            && exists|i: int| found_at(members@, key, wanted, i)),
        value.member(key) is None <==> !(value matches JsonValue::Object(members) && exists|i: int|
            0 <= i < members@.len() && (#[trigger] members@[i]).key@ == key),
{
    if let JsonValue::Object(members) = value {
        lemma_lookup(members@, key);
        if exists|i: int| found_at(members@, key, wanted, i) {
            let i = choose|i: int| found_at(members@, key, wanted, i);
            assert(members@[i].key@ == key);
            let v = lookup(members@, key)->Some_0;
            let k = choose|k: int| found_at(members@, key, v, k);
            assert(i == k);
        }
        if let Some(v) = lookup(members@, key) {
            let k = choose|k: int| found_at(members@, key, v, k);
            assert(members@[k].key@ == key);
        }
    }
}

} // verus!
