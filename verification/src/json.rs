//! JSON documents as the compositors' tools print them.
use crate::text::same_text;
use vstd::prelude::*;

verus! {

/// A JSON document as a mathematical value.
pub enum JsonTree {
    Null,
    Bool(bool),
    /// A number; the integer it stands for, when an `i64` can hold it.
    Number(Option<i64>),
    Text(Seq<char>),
    Array(Seq<JsonTree>),
    /// The members of an object.
    Object(Seq<(Seq<char>, JsonTree)>),
}

/// The value of the first member with a name.
pub open spec fn member(members: Seq<(Seq<char>, JsonTree)>, name: Seq<char>) -> Option<JsonTree>
    decreases members.len(),
{
    if members.len() == 0 {
        None
    } else if members[0].0 == name {
        Some(members[0].1)
    } else {
        member(members.skip(1), name)
    }
}

impl JsonTree {
    /// The member of an object with a name. Anything but an object has no members.
    pub open spec fn get(self, name: Seq<char>) -> Option<JsonTree> {
        match self {
            JsonTree::Object(members) => member(members, name),
            _ => None,
        }
    }

    /// The member of an object with a name, or null.
    pub open spec fn at(self, name: Seq<char>) -> JsonTree {
        match self.get(name) {
            Some(tree) => tree,
            None => JsonTree::Null,
        }
    }

    /// The integer that a number stands for, if an `i64` can hold it.
    pub open spec fn as_i64(self) -> Option<i64> {
        match self {
            JsonTree::Number(n) => n,
            _ => None,
        }
    }

    /// The text of a string; the empty text for anything else.
    pub open spec fn text_or_empty(self) -> Seq<char> {
        match self {
            JsonTree::Text(text) => text,
            _ => Seq::empty(),
        }
    }
}

/// A JSON document.
#[derive(Debug, PartialEq, Eq)]
pub enum Json {
    Null,
    Bool(bool),
    /// A number; the integer it stands for, when an `i64` can hold it.
    Number(Option<i64>),
    Text(String),
    Array(Vec<Json>),
    /// The members of an object.
    Object(Vec<(String, Json)>),
}

impl Json {
    /// The document that this value holds.
    pub open spec fn tree(self) -> JsonTree
        decreases self,
    {
        match self {
            Json::Null => JsonTree::Null,
            Json::Bool(b) => JsonTree::Bool(b),
            Json::Number(n) => JsonTree::Number(n),
            Json::Text(s) => JsonTree::Text(s@),
            Json::Array(items) => JsonTree::Array(
                Seq::new(
                    items@.len(),
                    |i: int|
                        if 0 <= i < items@.len() {
                            items@[i].tree()
                        } else {
                            JsonTree::Null
                        },
                ),
            ),
            Json::Object(members) => JsonTree::Object(
                Seq::new(
                    members@.len(),
                    |i: int|
                        if 0 <= i < members@.len() {
                            (members@[i].0@, members@[i].1.tree())
                        } else {
                            (Seq::empty(), JsonTree::Null)
                        },
                ),
            ),
        }
    }
}

proof fn lemma_member_at(members: Seq<(Seq<char>, JsonTree)>, name: Seq<char>, i: int)
    requires
        0 <= i < members.len(),
        members[i].0 == name,
        forall|k: int| 0 <= k < i ==> (#[trigger] members[k]).0 != name,
    ensures
        member(members, name) == Some(members[i].1),
    decreases i,
{
    if i > 0 {
        assert(members[0].0 != name);
        assert forall|k: int| 0 <= k < i - 1 implies (#[trigger] members.skip(1)[k]).0 != name by {
            assert(members.skip(1)[k] == members[k + 1]);
        }
        lemma_member_at(members.skip(1), name, i - 1);
    }
}

proof fn lemma_no_member(members: Seq<(Seq<char>, JsonTree)>, name: Seq<char>)
    requires
        forall|k: int| 0 <= k < members.len() ==> (#[trigger] members[k]).0 != name,
    ensures
        member(members, name) is None,
    decreases members.len(),
{
    if members.len() > 0 {
        assert(members[0].0 != name);
        assert forall|k: int| 0 <= k < members.len() - 1 implies (#[trigger] members.skip(1)[k]).0
            != name by {
            assert(members.skip(1)[k] == members[k + 1]);
        }
        lemma_no_member(members.skip(1), name);
    }
}

proof fn lemma_member_smaller(members: Seq<(Seq<char>, JsonTree)>, name: Seq<char>)
    requires
        member(members, name) is Some,
    ensures
        decreases_to!(members => member(members, name)->0),
    decreases members.len(),
{
    if members[0].0 == name {
        assert(decreases_to!(members => members[0]));
        assert(decreases_to!(members[0] => members[0].1));
    } else {
        lemma_member_smaller(members.skip(1), name);
        assert(decreases_to!(members => members.skip(1)));
    }
}

/// A document is larger than what its members hold.
pub proof fn lemma_items_smaller(tree: JsonTree, name: Seq<char>)
    requires
        tree.at(name) is Array,
    ensures
        decreases_to!(tree => tree.at(name)->Array_0),
{
    lemma_member_smaller(tree->Object_0, name);
    assert(decreases_to!(tree => tree->Object_0));
    assert(decreases_to!(tree.at(name) => tree.at(name)->Array_0));
}

/// A member of an object is found by its name, whatever the other members are; of two with one name
/// the first counts.
pub proof fn lemma_member_is_found(
    front: Seq<(Seq<char>, JsonTree)>,
    name: Seq<char>,
    value: JsonTree,
    back: Seq<(Seq<char>, JsonTree)>,
)
    requires
        forall|i: int| 0 <= i < front.len() ==> (#[trigger] front[i]).0 != name,
    ensures
        JsonTree::Object(front.push((name, value)) + back).get(name) == Some(value),
        JsonTree::Object(front.push((name, value)) + back).at(name) == value,
{
    let members = front.push((name, value)) + back;
    let i = front.len() as int;
    assert(members[i].0 == name);
    assert forall|k: int| 0 <= k < i implies (#[trigger] members[k]).0 != name by {
        assert(members[k] == front[k]);
    }
    lemma_member_at(members, name, i);
}

/// What has no member with a name gives none: an object in which no member has it, and anything
/// that is no object.
pub proof fn lemma_absent_member_is_not_found(tree: JsonTree, name: Seq<char>)
    requires
        tree is Object ==> forall|i: int|
            0 <= i < tree->Object_0.len() ==> (#[trigger] tree->Object_0[i]).0 != name,
    ensures
        tree.get(name) is None,
        tree.at(name) is Null,
{
    if let JsonTree::Object(members) = tree {
        lemma_no_member(members, name);
    }
}

/// A value holds the document that it was made of: the same scalar, and item by item and member by
/// member the same list and the same object.
pub proof fn lemma_tree_is_the_value(json: Json)
    ensures
        match json {
            Json::Null => json.tree() is Null,
            Json::Bool(b) => json.tree() == JsonTree::Bool(b),
            Json::Number(n) => json.tree().as_i64() == n && json.tree() is Number,
            Json::Text(s) => json.tree().text_or_empty() == s@ && json.tree() is Text,
            Json::Array(items) => {
                &&& json.tree() is Array
                &&& json.tree()->Array_0.len() == items@.len()
                &&& forall|i: int|
                    0 <= i < items@.len() ==> #[trigger] json.tree()->Array_0[i]
                        == items@[i].tree()
            },
            Json::Object(members) => {
                &&& json.tree() is Object
                &&& json.tree()->Object_0.len() == members@.len()
                &&& forall|i: int|
                    0 <= i < members@.len() ==> #[trigger] json.tree()->Object_0[i] == (
                        members@[i].0@,
                        members@[i].1.tree(),
                    )
            },
        },
{
}

/// Only a number is an integer, and only a string is text; anything else counts as no integer and
/// as the empty text.
pub proof fn lemma_scalars_are_read(tree: JsonTree)
    ensures
        tree matches JsonTree::Number(n) ==> tree.as_i64() == n,
        !(tree is Number) ==> tree.as_i64() is None,
        tree matches JsonTree::Text(text) ==> tree.text_or_empty() == text,
        !(tree is Text) ==> tree.text_or_empty().len() == 0,
{
}

impl Json {
    /// The member of an object with a name.
    pub fn get(&self, name: &str) -> (found: Option<&Json>)
        ensures
            match found {
                Some(json) => self.tree().get(name@) == Some(json.tree()),
                None => self.tree().get(name@) is None,
            },
    {
        match self {
            Json::Object(members) => {
                let ghost all = self.tree()->Object_0;
                let mut i: usize = 0;
                while i < members.len()
                    invariant
                        *self == Json::Object(*members),
                        all == self.tree()->Object_0,
                        i <= members@.len(),
                        forall|k: int| 0 <= k < i ==> (#[trigger] all[k]).0 != name@,
                    decreases members.len() - i,
                {
                    assert(all[i as int] == (members@[i as int].0@, members@[i as int].1.tree()));
                    if same_text(members[i].0.as_str(), name) {
                        proof {
                            lemma_member_at(all, name@, i as int);
                        }
                        return Some(&members[i].1);
                    }
                    i = i + 1;
                }
                proof {
                    lemma_no_member(all, name@);
                }
                None
            },
            _ => None,
        }
    }

    /// The integer that a number stands for, if an `i64` can hold it.
    pub fn as_i64(&self) -> (value: Option<i64>)
        ensures
            value == self.tree().as_i64(),
    {
        match self {
            Json::Number(n) => *n,
            _ => None,
        }
    }

    /// The text of a string.
    pub fn as_str(&self) -> (text: Option<&str>)
        ensures
            match text {
                Some(text) => self.tree() == JsonTree::Text(text@),
                None => !(self.tree() is Text),
            },
    {
        match self {
            Json::Text(text) => Some(text.as_str()),
            _ => None,
        }
    }

    /// The items of an array.
    pub fn as_array(&self) -> (items: Option<&Vec<Json>>)
        ensures
            match items {
                Some(items) => {
                    &&& self.tree() is Array
                    &&& self.tree()->Array_0.len() == items@.len()
                    &&& forall|i: int|
                        0 <= i < items@.len() ==> #[trigger] items@[i].tree()
                            == self.tree()->Array_0[i]
                },
                None => !(self.tree() is Array),
            },
    {
        match self {
            Json::Array(items) => Some(items),
            _ => None,
        }
    }
}

/// `serde_json::Value`, of which nothing is known but what [`open_value`] tells.
#[verifier::external_type_specification]
#[verifier::external_body]
pub struct ExValue(serde_json::Value);

/// The document that a `serde_json::Value` holds.
pub uninterp spec fn value_tree(value: serde_json::Value) -> JsonTree;

/// What `serde_json::from_str` makes of a text: the document that it holds, or the words of the
/// error.
pub uninterp spec fn parsed_text(text: Seq<char>) -> Result<JsonTree, Seq<char>>;

/// One level of a `serde_json::Value`.
enum Level {
    Null,
    Bool(bool),
    Number(Option<i64>),
    Text(String),
    Array(Vec<serde_json::Value>),
    Object(Vec<(String, serde_json::Value)>),
}

impl Level {
    spec fn tree(self) -> JsonTree {
        match self {
            Level::Null => JsonTree::Null,
            Level::Bool(b) => JsonTree::Bool(b),
            Level::Number(n) => JsonTree::Number(n),
            Level::Text(s) => JsonTree::Text(s@),
            Level::Array(items) => JsonTree::Array(
                items@.map_values(|v: serde_json::Value| value_tree(v)),
            ),
            Level::Object(members) => JsonTree::Object(
                members@.map_values(|m: (String, serde_json::Value)| (m.0@, value_tree(m.1))),
            ),
        }
    }
}

/// `serde_json::from_str`, with a `serde_json::Value` as the result and the `Display` text of a
/// `serde_json::Error` as the error.
///
/// What comes back, the document or the words, is a function of the text. Which texts hold which
/// documents, and what the words are, is left unsaid.
#[verifier::external_body]
fn parse_value(text: &str) -> (parsed: Result<serde_json::Value, String>)
    ensures
        match parsed {
            Ok(value) => parsed_text(text@) == Ok::<JsonTree, Seq<char>>(value_tree(value)),
            Err(words) => parsed_text(text@) == Err::<JsonTree, Seq<char>>(words@),
        },
{
    serde_json::from_str::<serde_json::Value>(text).map_err(|e| e.to_string())
}

/// The variants of `serde_json::Value`, and `serde_json::Number::as_i64`.
///
/// A value holds one level of a document and, below it, the values of the next. Of a number, what
/// `as_i64` says of it is kept. The members of an object are kept in the order in which
/// `serde_json::Map` hands them out, which is a function of the document.
#[verifier::external_body]
fn open_value(value: serde_json::Value) -> (level: Level)
    ensures
        level.tree() == value_tree(value),
{
    match value {
        serde_json::Value::Null => Level::Null,
        serde_json::Value::Bool(b) => Level::Bool(b),
        serde_json::Value::Number(n) => Level::Number(n.as_i64()),
        serde_json::Value::String(s) => Level::Text(s),
        serde_json::Value::Array(items) => Level::Array(items),
        serde_json::Value::Object(members) => Level::Object(members.into_iter().collect()),
    }
}

/// The document that a `serde_json::Value` holds, level by level.
fn json_of(value: serde_json::Value) -> (json: Json)
    ensures
        json.tree() == value_tree(value),
    decreases value_tree(value),
{
    match open_value(value) {
        Level::Null => Json::Null,
        Level::Bool(b) => Json::Bool(b),
        Level::Number(n) => Json::Number(n),
        Level::Text(s) => Json::Text(s),
        Level::Array(items) => {
            let mut made: Vec<Json> = Vec::new();
            let ghost all = items@;
            for item in it: items
                invariant
                    it.seq() == all,
                    value_tree(value) == JsonTree::Array(
                        all.map_values(|v: serde_json::Value| value_tree(v)),
                    ),
                    made@.len() == it.index(),
                    forall|k: int|
                        0 <= k < made@.len() ==> #[trigger] made@[k].tree() == value_tree(all[k]),
            {
                let ghost k = it.index();
                assert(value_tree(value)->Array_0[k] == value_tree(item));
                made.push(json_of(item));
            }
            let json = Json::Array(made);
            assert forall|k: int| 0 <= k < all.len() implies json.tree()->Array_0[k] == value_tree(
                value,
            )->Array_0[k] by {
                assert(json->Array_0@[k].tree() == value_tree(all[k]));
            }
            assert(json.tree()->Array_0 =~= value_tree(value)->Array_0);
            json
        },
        Level::Object(members) => {
            let mut made: Vec<(String, Json)> = Vec::new();
            let ghost all = members@;
            for member in it: members
                invariant
                    it.seq() == all,
                    value_tree(value) == JsonTree::Object(
                        all.map_values(|m: (String, serde_json::Value)| (m.0@, value_tree(m.1))),
                    ),
                    made@.len() == it.index(),
                    forall|k: int|
                        0 <= k < made@.len() ==> (#[trigger] made@[k]).0@ == all[k].0@
                            && made@[k].1.tree() == value_tree(all[k].1),
            {
                let ghost k = it.index();
                assert(value_tree(value)->Object_0[k].1 == value_tree(member.1));
                let (name, inner) = member;
                made.push((name, json_of(inner)));
            }
            let json = Json::Object(made);
            assert(json.tree()->Object_0 =~= value_tree(value)->Object_0);
            json
        },
    }
}

/// Reads a JSON document out of a text, or tells in words why it holds none.
pub fn parse_json(text: &str) -> (parsed: Result<Json, String>)
    ensures
        match parsed {
            Ok(json) => parsed_text(text@) == Ok::<JsonTree, Seq<char>>(json.tree()),
            Err(words) => parsed_text(text@) == Err::<JsonTree, Seq<char>>(words@),
        },
{
    match parse_value(text) {
        Ok(value) => Ok(json_of(value)),
        Err(words) => Err(words),
    }
}

} // verus!
