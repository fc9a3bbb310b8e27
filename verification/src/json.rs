//! JSON documents as plain data, and the reader that produces them.

use vstd::prelude::*;

verus! {

/// A JSON number, by the two readings that this crate uses.
#[derive(Clone, Copy, Debug, PartialEq, Eq, Structural)]
pub struct JsonNumber {
    /// The value, where the number is a whole number from 0 to 2^64 - 1.
    pub unsigned: Option<u64>,
    /// The value as an IEEE 754 double, given by its 64 bits, where the
    /// number can be read as one. Whole numbers have this reading too.
    pub double_bits: Option<u64>,
}

/// A JSON value.
#[derive(Debug)]
pub enum Json {
    Null,
    Bool(bool),
    Number(JsonNumber),
    Text(String),
    Array(Vec<Json>),
    Object(Vec<Member>),
}

/// One `name: value` pair of a JSON object.
#[derive(Debug)]
pub struct Member {
    pub name: String,
    pub value: Json,
}

/// Index of the first member called `name`, if there is one.
pub open spec fn member_index(members: Seq<Member>, name: Seq<char>) -> Option<int>
    decreases members.len(),
{
    if members.len() == 0 {
        None
    } else if members[0].name@ == name {
        Some(0)
    } else {
        match member_index(members.drop_first(), name) {
            Some(i) => Some(i + 1),
            None => None,
        }
    }
}

impl Json {
    /// The value of the member called `name`: of the first such member where
    /// `self` is an object that has one, and nothing otherwise.
    pub open spec fn spec_member(self, name: Seq<char>) -> Option<Json> {
        match self {
            Json::Object(members) => match member_index(members@, name) {
                Some(i) => Some(members@[i].value),
                None => None,
            },
            _ => None,
        }
    }
}

proof fn lemma_member_index_absent(members: Seq<Member>, name: Seq<char>)
    requires
        forall|k: int| 0 <= k < members.len() ==> members[k].name@ != name,
    ensures
        member_index(members, name) is None,
    decreases members.len(),
{
    if members.len() > 0 {
        let rest = members.drop_first();
        assert forall|k: int| 0 <= k < rest.len() implies rest[k].name@ != name by {
            assert(rest[k] == members[k + 1]);
        }
        lemma_member_index_absent(rest, name);
    }
}

proof fn lemma_member_index_first(members: Seq<Member>, name: Seq<char>, i: int)
    requires
        0 <= i < members.len(),
        members[i].name@ == name,
        forall|k: int| 0 <= k < i ==> members[k].name@ != name,
    ensures
        member_index(members, name) == Some(i),
    decreases i,
{
    if i > 0 {
        let rest = members.drop_first();
        assert(rest[i - 1] == members[i]);
        assert forall|k: int| 0 <= k < i - 1 implies rest[k].name@ != name by {
            assert(rest[k] == members[k + 1]);
        }
        lemma_member_index_first(rest, name, i - 1);
    }
}

impl Json {
    /// The value of the member called `name`, where `self` is an object that
    /// has such a member.
    pub fn member(&self, name: &str) -> (value: Option<&Json>)
        ensures
            match value {
                Some(found) => self.spec_member(name@) == Some(*found),
                None => self.spec_member(name@) is None,
            },
    {
        match self {
            Json::Object(members) => {
                let wanted = String::from_str(name);
                let mut i: usize = 0;
                while i < members.len()
                    invariant
                        i <= members.len(),
                        *self is Object,
                        self->Object_0 == *members,
                        wanted@ == name@,
                        forall|k: int| 0 <= k < i ==> members@[k].name@ != name@,
                    decreases members.len() - i,
                {
                    if members[i].name == wanted {
                        proof {
                            lemma_member_index_first(members@, name@, i as int);
                        }
                        return Some(&members[i].value);
                    }
                    i = i + 1;
                }
                proof {
                    lemma_member_index_absent(members@, name@);
                }
                None
            },
            _ => None,
        }
    }
}

/// `serde_json::Value`, as a type whose values are only passed on.
#[verifier::external_type_specification]
#[verifier::external_body]
pub struct ExValue(serde_json::Value);

/// What comes of reading `body` with `serde_json::from_slice`: the document
/// as a `Json`, or the text of the reader's error. Nothing is said here of
/// which bytes give which document.
pub uninterp spec fn parsed_json(body: Seq<u8>) -> Result<Json, Seq<char>>;

/// Not verified. Rewrites a `serde_json::Value` as a `Json`: one arm for each
/// of its six variants, the fields moved over, the items of an array and the
/// members of an object in the order in which `serde_json` hands them out. A
/// number gives what its `as_u64` returns and the bits of what its `as_f64`
/// returns. Nothing is claimed of the result.
#[verifier::external_body]
fn json_from_value(value: serde_json::Value) -> Json {
    match value {
        serde_json::Value::Null => Json::Null,
        serde_json::Value::Bool(flag) => Json::Bool(flag),
        serde_json::Value::Number(n) => Json::Number(
            JsonNumber { unsigned: n.as_u64(), double_bits: n.as_f64().map(|d| d.to_bits()) },
        ),
        serde_json::Value::String(text) => Json::Text(text),
        serde_json::Value::Array(items) => Json::Array(items.into_iter().map(json_from_value).collect()),
        serde_json::Value::Object(map) => Json::Object(
            map.into_iter().map(|(name, v)| Member { name, value: json_from_value(v) }).collect(),
        ),
    }
}

/// Not verified. Calls `serde_json::from_slice` for a `serde_json::Value`,
/// which reads `body` as one JSON document and fails on anything else, and
/// hands back the document as a `Json`, or the error as `to_string` writes
/// it. The contract gives the outcome its name, `parsed_json`: it claims that
/// the same bytes always give the same outcome, and nothing more.
#[verifier::external_body]
pub(crate) fn parse_json(body: &[u8]) -> (document: Result<Json, String>)
    ensures
        match document {
            Ok(json) => parsed_json(body@) == Ok::<Json, Seq<char>>(json),
            Err(detail) => parsed_json(body@) == Err::<Json, Seq<char>>(detail@),
        },
{
    match serde_json::from_slice::<serde_json::Value>(body) {
        Ok(value) => Ok(json_from_value(value)),
        Err(error) => Err(error.to_string()),
    }
}

} // verus!
