//! JSON documents, as far as the software center reads them.

use crate::text::{opt_text, same, texts};
use vstd::prelude::*;

verus! {

/// A JSON value.
pub enum Json {
    Null,
    Bool(bool),
    /// A number, with its value if it is an integer in the range of `i64`, and its text.
    Number(Option<i64>, String),
    Text(String),
    Array(Vec<Json>),
    Object(Vec<JsonMember>),
}

/// A member of a JSON object.
pub struct JsonMember {
    pub key: String,
    pub value: Json,
}

/// The mathematical content of a `Json`.
pub enum JsonTree {
    Null,
    Bool(bool),
    Number(Option<i64>, Seq<char>),
    Text(Seq<char>),
    Array(Seq<JsonTree>),
    Object(Seq<MemberTree>),
}

/// The mathematical content of a `JsonMember`.
pub struct MemberTree {
    pub key: Seq<char>,
    pub value: JsonTree,
}

impl View for Json {
    type V = JsonTree;

    open spec fn view(&self) -> JsonTree {
        tree_of(*self)
    }
}

/// The content of `json`.
pub open spec fn tree_of(json: Json) -> JsonTree
    decreases json,
{
    match json {
        Json::Null => JsonTree::Null,
        Json::Bool(b) => JsonTree::Bool(b),
        Json::Number(n, text) => JsonTree::Number(n, text@),
        Json::Text(s) => JsonTree::Text(s@),
        Json::Array(items) => JsonTree::Array(
            Seq::new(
                items@.len(),
                |i: int|
                    if 0 <= i < items@.len() {
                        tree_of(items@[i])
                    } else {
                        JsonTree::Null
                    },
            ),
        ),
        Json::Object(members) => JsonTree::Object(
            Seq::new(
                members@.len(),
                |i: int|
                    if 0 <= i < members@.len() {
                        MemberTree { key: members@[i].key@, value: tree_of(members@[i].value) }
                    } else {
                        MemberTree { key: Seq::empty(), value: JsonTree::Null }
                    },
            ),
        ),
    }
}

/// `serde_json::Value`, a JSON value as the parser hands it out.
#[verifier::external_type_specification]
#[verifier::external_body]
pub struct ExValue(serde_json::Value);

/// What a `serde_json::Value` holds.
pub uninterp spec fn value_tree(value: serde_json::Value) -> JsonTree;

/// The value that `serde_json::from_str` reads from a text, or the text of its error.
pub uninterp spec fn text_json(text: Seq<char>) -> Result<JsonTree, Seq<char>>;

/// The value that `serde_json::from_slice` reads from bytes, or the text of its error.
pub uninterp spec fn bytes_json(bytes: Seq<u8>) -> Result<JsonTree, Seq<char>>;

/// The list of strings that `serde_json::from_str` reads from a text, if the text is one.
pub uninterp spec fn text_strings(text: Seq<char>) -> Option<Seq<Seq<char>>>;

/// `serde_json::from_str` for a `serde_json::Value`. What it reads, and on which texts it fails and
/// with which message, depends on the text alone.
#[verifier::external_body]
fn value_from_str(text: &str) -> (r: Result<serde_json::Value, String>)
    ensures
        match r {
            Ok(value) => text_json(text@) == Ok::<JsonTree, Seq<char>>(value_tree(value)),
            Err(message) => text_json(text@) == Err::<JsonTree, Seq<char>>(message@),
        },
{
    serde_json::from_str(text).map_err(|e| e.to_string())
}

/// `serde_json::from_slice` for a `serde_json::Value`. What it reads, and on which bytes it fails
/// and with which message, depends on the bytes alone.
#[verifier::external_body]
fn value_from_slice(bytes: &[u8]) -> (r: Result<serde_json::Value, String>)
    ensures
        match r {
            Ok(value) => bytes_json(bytes@) == Ok::<JsonTree, Seq<char>>(value_tree(value)),
            Err(message) => bytes_json(bytes@) == Err::<JsonTree, Seq<char>>(message@),
        },
{
    serde_json::from_slice(bytes).map_err(|e| e.to_string())
}

/// `serde_json::from_str` for a `Vec<String>`. What it reads, and on which texts it fails, depends
/// on the text alone.
#[verifier::external_body]
fn strings_from_str(text: &str) -> (r: Option<Vec<String>>)
    ensures
        match r {
            Some(list) => text_strings(text@) == Some(texts(list@)),
            None => text_strings(text@) is None,
        },
{
    serde_json::from_str(text).ok()
}

/// The content of a `serde_json::Value`: its variant and fields, and for a number the integer that
/// `serde_json::Number::as_i64` and the text that the number's `to_string` gives. The members of an
/// object stand in the order of the object's own iteration.
#[verifier::external_body]
fn to_json(value: &serde_json::Value) -> (r: Json)
    ensures
        r@ == value_tree(*value),
{
    match value {
        serde_json::Value::Null => Json::Null,
        serde_json::Value::Bool(b) => Json::Bool(*b),
        serde_json::Value::Number(n) => Json::Number(n.as_i64(), n.to_string()),
        serde_json::Value::String(s) => Json::Text(s.clone()),
        serde_json::Value::Array(items) => Json::Array(items.iter().map(to_json).collect()),
        serde_json::Value::Object(members) => Json::Object(
            members.iter().map(|(k, v)| JsonMember { key: k.clone(), value: to_json(v) }).collect(),
        ),
    }
}

/// Reads a JSON document from a text.
pub fn parse_text(text: &str) -> (r: Result<Json, String>)
    ensures
        match r {
            Ok(json) => text_json(text@) == Ok::<JsonTree, Seq<char>>(json@),
            Err(message) => text_json(text@) == Err::<JsonTree, Seq<char>>(message@),
        },
{
    match value_from_str(text) {
        Ok(value) => Ok(to_json(&value)),
        Err(message) => Err(message),
    }
}

/// Reads a JSON document from bytes.
pub fn parse_bytes(bytes: &[u8]) -> (r: Result<Json, String>)
    ensures
        match r {
            Ok(json) => bytes_json(bytes@) == Ok::<JsonTree, Seq<char>>(json@),
            Err(message) => bytes_json(bytes@) == Err::<JsonTree, Seq<char>>(message@),
        },
{
    match value_from_slice(bytes) {
        Ok(value) => Ok(to_json(&value)),
        Err(message) => Err(message),
    }
}

/// Reads a JSON list of strings; a text that is none gives the empty list.
pub fn parse_json_strings(text: &str) -> (r: Vec<String>)
    ensures
        texts(r@) == strings_or_none(text_strings(text@)),
{
    match strings_from_str(text) {
        Some(list) => list,
        None => {
            let list: Vec<String> = Vec::new();
            assert(texts(list@) =~= Seq::<Seq<char>>::empty());
            list
        },
    }
}

/// The strings that were read, or none if the text was no list of strings.
pub open spec fn strings_or_none(read: Option<Seq<Seq<char>>>) -> Seq<Seq<char>> {
    match read {
        Some(list) => list,
        None => Seq::empty(),
    }
}

/// The items of the array that was read, or none if the text was no array.
pub open spec fn items_or_none(read: Result<JsonTree, Seq<char>>) -> Seq<JsonTree> {
    match read {
        Ok(JsonTree::Array(items)) => items,
        _ => Seq::empty(),
    }
}

/// The items of a JSON array, or none if `read` is no array.
pub fn array_items(read: Result<Json, String>) -> (r: Vec<Json>)
    ensures
        trees(r@) == match read {
            Ok(json) => items_or_none(Ok(json@)),
            Err(message) => Seq::empty(),
        },
{
    match read {
        Ok(Json::Array(items)) => {
            assert(trees(items@) =~= items_or_none(Ok(Json::Array(items)@)));
            items
        },
        _ => {
            let items: Vec<Json> = Vec::new();
            assert(trees(items@) =~= Seq::<JsonTree>::empty());
            items
        },
    }
}

/// The contents of `items`.
pub open spec fn trees(items: Seq<Json>) -> Seq<JsonTree> {
    items.map_values(|json: Json| json@)
}

/// The first member with the given key.
pub open spec fn find_member(members: Seq<MemberTree>, key: Seq<char>) -> Option<MemberTree>
    decreases members.len(),
{
    if members.len() == 0 {
        None
    } else if members[0].key == key {
        Some(members[0])
    } else {
        find_member(members.drop_first(), key)
    }
}

/// The member of an object with the given key. A value that is no object has no members.
pub open spec fn field(json: JsonTree, key: Seq<char>) -> Option<MemberTree> {
    match json {
        JsonTree::Object(members) => find_member(members, key),
        _ => None,
    }
}

/// The text of the member with the given key, if there is one and it is a text.
pub open spec fn text_field(json: JsonTree, key: Seq<char>) -> Option<Seq<char>> {
    match field(json, key) {
        Some(member) => match member.value {
            JsonTree::Text(s) => Some(s),
            _ => None,
        },
        None => None,
    }
}

/// The text of the member with the given key, or the empty text.
pub open spec fn text_or_empty(json: JsonTree, key: Seq<char>) -> Seq<char> {
    match text_field(json, key) {
        Some(s) => s,
        None => Seq::empty(),
    }
}

/// The integer of the member with the given key, if there is one in the range of `i64`.
pub open spec fn int_field(json: JsonTree, key: Seq<char>) -> Option<i64> {
    match field(json, key) {
        Some(member) => match member.value {
            JsonTree::Number(n, _) => n,
            _ => None,
        },
        None => None,
    }
}

impl JsonMember {
    /// The content of the member.
    pub open spec fn tree(self) -> MemberTree {
        MemberTree { key: self.key@, value: self.value@ }
    }
}

impl Json {
    /// The member with the given key.
    pub fn member(&self, key: &str) -> (r: Option<&JsonMember>)
        ensures
            match r {
                Some(member) => field(self@, key@) == Some(member.tree()),
                None => field(self@, key@) is None,
            },
    {
        match self {
            Json::Object(members) => {
                let ghost all = self@->Object_0;
                let mut i: usize = 0;
                assert(all.skip(0) =~= all);
                while i < members.len()
                    invariant
                        i <= members@.len(),
                        self@ == JsonTree::Object(all),
                        all.len() == members@.len(),
                        forall|j: int| 0 <= j < all.len() ==> all[j] == members@[j].tree(),
                        find_member(all.skip(i as int), key@) == find_member(all, key@),
                    decreases members@.len() - i,
                {
                    assert(all.skip(i as int)[0] == members@[i as int].tree());
                    if same(&members[i].key, key) {
                        return Some(&members[i]);
                    }
                    assert(all.skip(i as int).drop_first() =~= all.skip(i + 1));
                    i = i + 1;
                }
                None
            },
            _ => None,
        }
    }

    /// The text of the member with the given key.
    pub fn text(&self, key: &str) -> (r: Option<String>)
        ensures
            opt_text(r) == text_field(self@, key@),
    {
        match self.member(key) {
            Some(member) => match &member.value {
                Json::Text(s) => Some(s.clone()),
                _ => None,
            },
            None => None,
        }
    }

    /// The text of the member with the given key, or the empty text.
    pub fn text_or_empty(&self, key: &str) -> (r: String)
        ensures
            r@ == text_or_empty(self@, key@),
    {
        match self.text(key) {
            Some(s) => s,
            None => String::new(),
        }
    }

    /// The integer of the member with the given key.
    pub fn integer(&self, key: &str) -> (r: Option<i64>)
        ensures
            r == int_field(self@, key@),
    {
        match self.member(key) {
            Some(member) => match &member.value {
                Json::Number(n, _) => *n,
                _ => None,
            },
            None => None,
        }
    }
}

/// The content of an array is the content of its items, in order, and that of an object the keys
/// and contents of its members, in order.
pub proof fn contents_are_kept(items: Vec<Json>, members: Vec<JsonMember>, text: String)
    ensures
        Json::Array(items)@ matches JsonTree::Array(trees) && trees.len() == items@.len() && (
        forall|i: int| 0 <= i < items@.len() ==> #[trigger] trees[i] == items@[i]@),
        Json::Object(members)@ matches JsonTree::Object(trees) && trees.len() == members@.len() && (
        forall|i: int|
            0 <= i < members@.len() ==> (#[trigger] trees[i]).key == members@[i].key@
                && trees[i].value == members@[i].value@),
        Json::Text(text)@ == JsonTree::Text(text@),
        trees(items@).len() == items@.len(),
        forall|i: int| 0 <= i < items@.len() ==> #[trigger] trees(items@)[i] == items@[i]@,
{
}

/// The field of an object with a key is the first member that has the key; there is none if no
/// member has it, or if the value is no object.
pub proof fn fields_are_first_members(members: Seq<MemberTree>, key: Seq<char>, i: int)
    requires
        0 <= i <= members.len(),
        forall|j: int| 0 <= j < i ==> (#[trigger] members[j]).key != key,
        i < members.len() ==> members[i].key == key,
    ensures
        field(JsonTree::Object(members), key) == if i < members.len() {
            Some(members[i])
        } else {
            None
        },
        forall|json: JsonTree| !(json is Object) ==> #[trigger] field(json, key) is None,
    decreases i,
{
    if i > 0 {
        let rest = members.drop_first();
        assert forall|j: int| 0 <= j < i - 1 implies (#[trigger] rest[j]).key != key by {
            assert(rest[j] == members[j + 1]);
        }
        fields_are_first_members(rest, key, i - 1);
    }
}

/// A text field is the text of the field, if it is one; where a text is asked for in any case, it
/// is the empty one otherwise. An integer field is the integer of the field, if it is one.
pub proof fn fields_have_types(json: JsonTree, key: Seq<char>, s: Seq<char>, n: i64)
    ensures
        text_field(json, key) == Some(s) <==> field(json, key) is Some && field(json, key)->0.value
            == JsonTree::Text(s),
        text_field(json, key) == Some(s) ==> text_or_empty(json, key) == s,
        text_field(json, key) is None ==> text_or_empty(json, key).len() == 0,
        int_field(json, key) == Some(n) <==> field(json, key) is Some && field(json, key)->0.value
            is Number && field(json, key)->0.value->Number_0 == Some(n),
{
}

/// A list that was read is handed out as it is, with all its items; a text that holds no list
/// gives no items.
pub proof fn lists_are_complete(read: Result<JsonTree, Seq<char>>, strings: Option<Seq<Seq<char>>>)
    ensures
        forall|items: Seq<JsonTree>|
            read == Ok::<JsonTree, Seq<char>>(JsonTree::Array(items)) ==> #[trigger] items_or_none(
                read,
            ) =~= items,
        !(read is Ok && read->Ok_0 is Array) ==> items_or_none(read).len() == 0,
        strings is Some ==> strings_or_none(strings) == strings->0,
        strings is None ==> strings_or_none(strings).len() == 0,
{
}

} // verus!
