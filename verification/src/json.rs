//! JSON values: `serde_json::Value` together with a mathematical model of what one holds.

use serde_json::Value;
use vstd::prelude::*;

verus! {

/// What a JSON value holds.
///
/// An integer is the number itself, a float is the bit pattern of its binary64 encoding, and an
/// object associates names with values, without an order of its own.
pub enum JsonView {
    Null,
    Bool(bool),
    Int(int),
    Float(u64),
    Text(Seq<char>),
    Array(Seq<JsonView>),
    Object(Map<Seq<char>, JsonView>),
}

impl JsonView {
    /// The member called `key`, where this is an object that has one.
    pub open spec fn member(self, key: Seq<char>) -> Option<JsonView> {
        match self {
            JsonView::Object(members) => if members.contains_key(key) {
                Some(members[key])
            } else {
                None
            },
            _ => None,
        }
    }

    /// The characters of a string, where this is one.
    pub open spec fn text(self) -> Option<Seq<char>> {
        match self {
            JsonView::Text(chars) => Some(chars),
            _ => None,
        }
    }

    /// The items of an array, where this is one.
    pub open spec fn items(self) -> Option<Seq<JsonView>> {
        match self {
            JsonView::Array(items) => Some(items),
            _ => None,
        }
    }

    /// The characters of the member called `key`, where there is such a member and it is a string.
    pub open spec fn member_text(self, key: Seq<char>) -> Option<Seq<char>> {
        match self.member(key) {
            Some(member) => member.text(),
            None => None,
        }
    }

    /// Whether a member can be set: true of an object, and of null, which counts as an empty one.
    pub open spec fn accepts_members(self) -> bool {
        self is Object || self is Null
    }

    /// This object with the member called `key` set to `member`.
    pub open spec fn with_member(self, key: Seq<char>, member: JsonView) -> JsonView
        recommends
            self.accepts_members(),
    {
        match self {
            JsonView::Object(members) => JsonView::Object(members.insert(key, member)),
            _ => JsonView::Object(Map::empty().insert(key, member)),
        }
    }

    /// Whether this nests arrays and objects at most `depth` levels deep.
    pub open spec fn nests_within(self, depth: nat) -> bool
        decreases depth,
    {
        match self {
            JsonView::Array(items) => depth > 0 && forall|i: int|
                0 <= i < items.len() ==> (#[trigger] items[i]).nests_within((depth - 1) as nat),
            JsonView::Object(members) => depth > 0 && forall|key: Seq<char>| #[trigger]
                members.contains_key(key) ==> members[key].nests_within((depth - 1) as nat),
            _ => true,
        }
    }
}

/// How many levels of arrays and objects `serde_json` reads.
pub const READ_DEPTH: usize = 127;

/// `serde_json::Value`, whose inside is seen only through [`content`].
#[verifier::external_type_specification]
#[verifier::external_body]
pub struct ExValue(serde_json::Value);

/// `serde_json::Error`, of which nothing is known but that it was returned.
#[verifier::external_type_specification]
#[verifier::external_body]
pub struct ExError(serde_json::Error);

/// What a `serde_json::Value`, a tree-shaped collection, holds.
pub uninterp spec fn content(value: serde_json::Value) -> JsonView;

/// The contents of several values, in order.
pub open spec fn contents(values: Seq<Value>) -> Seq<JsonView> {
    values.map_values(|value: Value| content(value))
}

/// Calls `serde_json::Value::get` with a string key: the member of that name where the value is an
/// object that has one, and nothing otherwise.
#[verifier::external_body]
pub(crate) fn get<'a>(value: &'a Value, key: &str) -> (member: Option<&'a Value>)
    ensures
        match member {
            Some(found) => content(*value).member(key@) == Some(content(*found)),
            None => content(*value).member(key@) is None,
        },
{
    value.get(key)
}

/// Assigns through `serde_json`'s `IndexMut` with a string key: the member of that name is replaced
/// or added, every other one is kept, and null becomes an object first. It panics on every other
/// kind of value.
#[verifier::external_body]
pub(crate) fn set_member(value: &mut Value, key: &str, member: Value)
    requires
        content(*old(value)).accepts_members(),
    ensures
        content(*final(value)) == content(*old(value)).with_member(key@, content(member)),
{
    value[key] = member;
}

/// Calls `serde_json::Value::as_str`: the characters where the value is a string, and nothing
/// otherwise.
#[verifier::external_body]
pub(crate) fn as_str(value: &Value) -> (text: Option<&str>)
    ensures
        match text {
            Some(chars) => content(*value) == JsonView::Text(chars@),
            None => content(*value).text() is None,
        },
{
    value.as_str()
}

/// Calls `serde_json::Value::as_array`: the items where the value is an array, and nothing
/// otherwise.
#[verifier::external_body]
pub(crate) fn as_array(value: &Value) -> (items: Option<&Vec<Value>>)
    ensures
        match items {
            Some(found) => content(*value) == JsonView::Array(contents(found@)),
            None => content(*value).items() is None,
        },
{
    value.as_array()
}

/// Calls `serde_json::Value::is_object`.
#[verifier::external_body]
pub(crate) fn is_object(value: &Value) -> (answer: bool)
    ensures
        answer == (content(*value) is Object),
{
    value.is_object()
}

/// Calls `serde_json::Value::is_null`.
#[verifier::external_body]
pub(crate) fn is_null(value: &Value) -> (answer: bool)
    ensures
        answer == (content(*value) is Null),
{
    value.is_null()
}

/// Calls `serde_json::Value`'s `clone`: a value that holds the same.
#[verifier::external_body]
pub(crate) fn duplicate(value: &Value) -> (copy: Value)
    ensures
        content(copy) == content(*value),
{
    value.clone()
}

/// Makes a `serde_json::Value::String` of the given characters.
#[verifier::external_body]
pub(crate) fn string(text: String) -> (value: Value)
    ensures
        content(value) == JsonView::Text(text@),
{
    Value::String(text)
}

/// Calls `serde_json::Value::from` with an integer: the number itself.
#[verifier::external_body]
pub(crate) fn integer(number: i64) -> (value: Value)
    ensures
        content(value) == JsonView::Int(number as int),
{
    Value::from(number)
}

/// Makes a `serde_json::Value::Array` of the given items, in order.
#[verifier::external_body]
pub(crate) fn array(items: Vec<Value>) -> (value: Value)
    ensures
        content(value) == JsonView::Array(contents(items@)),
{
    Value::Array(items)
}

/// Makes a `serde_json::Value::Object` of `serde_json::Map::new`: an object without members.
#[verifier::external_body]
pub(crate) fn empty_object() -> (value: Value)
    ensures
        content(value) == JsonView::Object(Map::empty()),
{
    Value::Object(serde_json::Map::new())
}

/// The indented text that `serde_json::to_string_pretty` writes for a list of values. The members
/// of an object come in the order of their names, so that the text depends on what the values hold
/// and on nothing else.
pub uninterp spec fn pretty_text(values: Seq<JsonView>) -> Seq<char>;

/// Calls `serde_json::to_string_pretty` on a list of values. It does not fail: the text goes to
/// memory, every name of a member is a string, and a value is written without steps that could
/// fail. What the text is on given values is not said.
#[verifier::external_body]
pub(crate) fn to_string_pretty(values: &Vec<Value>) -> (text: Result<String, serde_json::Error>)
    ensures
        text is Ok,
        text->Ok_0@ == pretty_text(contents(values@)),
{
    serde_json::to_string_pretty(values)
}

/// The compact text that a `serde_json::Value` displays as. The members of an object come in the
/// order of their names, so that the text depends on what the value holds and on nothing else.
pub uninterp spec fn compact_text(value: JsonView) -> Seq<char>;

/// What `serde_json::from_str` reads a text as, or nothing where it refuses the text.
pub uninterp spec fn parsed(text: Seq<char>) -> Option<JsonView>;

/// Calls `to_string` on a `serde_json::Value`, which gives what its `Display` writes. It does not
/// fail, for the same reasons as [`to_string_pretty`]. The text of a value is read as that value
/// again, floats included: they are written with enough digits to tell them apart, and read exactly
/// because `serde_json` is built with its feature `float_roundtrip`. This is said of values that
/// are nested no more deeply than the reader goes, because it refuses the text of others. What the
/// text is on given values is not said.
#[verifier::external_body]
pub(crate) fn to_compact(value: &Value) -> (text: String)
    ensures
        text@ == compact_text(content(*value)),
        content(*value).nests_within(READ_DEPTH as nat) ==> parsed(text@) == Some(content(*value)),
{
    value.to_string()
}

/// Calls `serde_json::from_str` for a `serde_json::Value`. What a given text is read as is not
/// said, but for texts that [`to_compact`] wrote.
#[verifier::external_body]
pub(crate) fn parse(text: &str) -> (value: Result<Value, serde_json::Error>)
    ensures
        match value {
            Ok(read) => parsed(text@) == Some(content(read)),
            Err(_) => parsed(text@) is None,
        },
{
    serde_json::from_str(text)
}

/// Adds a member to an object and hands the object on.
pub(crate) fn with_member(object: Value, key: &str, member: Value) -> (extended: Value)
    requires
        content(object).accepts_members(),
    ensures
        content(extended) == content(object).with_member(key@, content(member)),
{
    let mut extended = object;
    set_member(&mut extended, key, member);
    extended
}

/// Makes a string value of the given characters.
pub(crate) fn text(chars: &str) -> (value: Value)
    ensures
        content(value) == JsonView::Text(chars@),
{
    string(chars.to_string())
}

/// The characters of the member called `key`, where there is such a member and it is a string.
pub fn member_str<'a>(value: &'a Value, key: &str) -> (chars: Option<&'a str>)
    ensures
        match chars {
            Some(found) => content(*value).member_text(key@) == Some(found@),
            None => content(*value).member_text(key@) is None,
        },
{
    match get(value, key) {
        Some(member) => as_str(member),
        None => None,
    }
}

/// Whether a member can be set on the value: true of an object and of null.
pub fn accepts_members(value: &Value) -> (answer: bool)
    ensures
        answer == content(*value).accepts_members(),
{
    is_object(value) || is_null(value)
}

/// Duplicates a list of values.
pub(crate) fn duplicate_all(values: &Vec<Value>) -> (copies: Vec<Value>)
    ensures
        contents(copies@) == contents(values@),
{
    let mut copies: Vec<Value> = Vec::new();
    let mut at: usize = 0;
    while at < values.len()
        invariant
            at <= values.len(),
            copies.len() == at,
            forall|i: int|
                0 <= i < at ==> content(#[trigger] copies@[i]) == content(values@[i]),
        decreases values.len() - at,
    {
        copies.push(duplicate(&values[at]));
        at += 1;
    }
    assert(contents(copies@) =~= contents(values@));
    copies
}

/// The members of an object are those that it was made of, and nothing else has members.
pub proof fn law_only_objects_have_members(
    value: JsonView,
    members: Map<Seq<char>, JsonView>,
    key: Seq<char>,
)
    ensures
        members.contains_key(key) ==> JsonView::Object(members).member(key) == Some(members[key]),
        !members.contains_key(key) ==> JsonView::Object(members).member(key) is None,
        !(value is Object) ==> value.member(key) is None,
{
}

/// Setting a member gives an object that has it and is otherwise as before. It can be done to
/// objects and null, and to nothing else.
pub proof fn law_setting_a_member_changes_only_that_one(
    value: JsonView,
    key: Seq<char>,
    member: JsonView,
    other: Seq<char>,
)
    ensures
        value.accepts_members() <==> value is Object || value is Null,
        value.accepts_members() ==> {
            &&& value.with_member(key, member) is Object
            &&& value.with_member(key, member).member(key) == Some(member)
            &&& other != key ==> value.with_member(key, member).member(other) == value.member(other)
        },
{
}

/// The characters of a value are those of a string, its items those of an array, and no other kind
/// of value has any. The characters of a member are those of the member.
pub proof fn law_only_strings_have_characters_and_only_arrays_have_items(
    value: JsonView,
    chars: Seq<char>,
    items: Seq<JsonView>,
    key: Seq<char>,
)
    ensures
        value.text() == Some(chars) <==> value == JsonView::Text(chars),
        value.items() == Some(items) <==> value == JsonView::Array(items),
        value.member_text(key) == Some(chars) <==> value.member(key) == Some(
            JsonView::Text(chars),
        ),
{
}

/// The contents of several values are as many, and each is that of the value at its place.
pub proof fn law_contents_are_one_for_one(values: Seq<Value>)
    ensures
        contents(values).len() == values.len(),
        forall|i: int|
            0 <= i < values.len() ==> #[trigger] contents(values)[i] == content(values[i]),
{
}

/// An array or an object is nested one level more deeply than what it holds, and nothing else is
/// nested. The reader goes down 127 levels.
pub proof fn law_nesting_counts_levels(
    value: JsonView,
    items: Seq<JsonView>,
    members: Map<Seq<char>, JsonView>,
    depth: nat,
)
    ensures
        depth > 0 ==> {
            &&& JsonView::Array(items).nests_within(depth) <==> forall|i: int|
                0 <= i < items.len() ==> (#[trigger] items[i]).nests_within((depth - 1) as nat)
            &&& JsonView::Object(members).nests_within(depth) <==> forall|key: Seq<char>| #[trigger]
                members.contains_key(key) ==> members[key].nests_within((depth - 1) as nat)
        },
        value is Array || value is Object ==> !value.nests_within(0),
        !(value is Array || value is Object) ==> value.nests_within(depth),
        READ_DEPTH == 127,
{
    let (array, object) = (JsonView::Array(items), JsonView::Object(members));
    if depth > 0 && array.nests_within(depth) {
        assert forall|i: int| 0 <= i < items.len() implies (#[trigger] items[i]).nests_within(
            (depth - 1) as nat,
        ) by {
            assert(array->Array_0[i].nests_within((depth - 1) as nat));
        }
    }
    if depth > 0 && object.nests_within(depth) {
        assert forall|key: Seq<char>| #[trigger] members.contains_key(
            key,
        ) implies members[key].nests_within((depth - 1) as nat) by {
            assert(object->Object_0.contains_key(key));
            assert(object->Object_0[key].nests_within((depth - 1) as nat));
        }
    }
}

} // verus!
