//! JSON objects: the messages of the protocol, one per line.

use vstd::prelude::*;

verus! {

#[verifier::external_type_specification]
#[verifier::external_body]
#[verifier::reject_recursive_types(K)]
#[verifier::reject_recursive_types(V)]
pub struct ExMap<K, V>(serde_json::Map<K, V>);

#[verifier::external_type_specification]
#[verifier::external_body]
pub struct ExValue(serde_json::Value);

/// A JSON object.
pub type Object = serde_json::Map<String, serde_json::Value>;

/// What a member of an object is.
pub enum Field {
    /// `null`.
    Null,
    /// A string.
    Text(Seq<char>),
    /// A number without fraction or exponent in the range of `i64` or `u64`.
    Int(int),
    /// An array of strings.
    Texts(Seq<Seq<char>>),
    /// Anything else, by its compact text.
    Other(Seq<char>),
}

/// The members of an object by name.
pub type Fields = Map<Seq<char>, Field>;

/// What a `serde_json::Map` holds: its keys, each with what its value is.
pub uninterp spec fn fields(object: serde_json::Map<String, serde_json::Value>) -> Map<
    Seq<char>,
    Field,
>;

/// The compact text of an object that holds these members.
///
/// The map keeps its keys sorted, so the members alone determine the text.
pub uninterp spec fn object_text(fields: Map<Seq<char>, Field>) -> Seq<char>;

/// `serde_json::Map::new` makes an object without members.
#[verifier::external_body]
pub(crate) fn new_object() -> (object: Object)
    ensures
        fields(object) == Fields::empty(),
{
    serde_json::Map::new()
}

/// `serde_json::Map::contains_key` tells whether there is a member of that
/// name.
#[verifier::external_body]
pub(crate) fn contains_key(object: &Object, key: &str) -> (found: bool)
    ensures
        found == fields(*object).contains_key(key@),
{
    object.contains_key(key)
}

/// `serde_json::Map::insert` with a string sets the member to that string,
/// whether or not there was one of that name.
#[verifier::external_body]
pub(crate) fn insert_text(object: &mut Object, key: &str, value: &str)
    ensures
        fields(*final(object)) == fields(*old(object)).insert(key@, Field::Text(value@)),
{
    object.insert(key.to_string(), serde_json::Value::from(value));
}

/// `serde_json::Map::insert` with a signed number sets the member to that
/// number, whether or not there was one of that name.
#[verifier::external_body]
pub(crate) fn insert_i64(object: &mut Object, key: &str, value: i64)
    ensures
        fields(*final(object)) == fields(*old(object)).insert(key@, Field::Int(value as int)),
{
    object.insert(key.to_string(), serde_json::Value::from(value));
}

/// `serde_json::Map::insert` with an unsigned number sets the member to that
/// number, whether or not there was one of that name.
#[verifier::external_body]
pub(crate) fn insert_u64(object: &mut Object, key: &str, value: u64)
    ensures
        fields(*final(object)) == fields(*old(object)).insert(key@, Field::Int(value as int)),
{
    object.insert(key.to_string(), serde_json::Value::from(value));
}

/// `serde_json::Map::insert` with a list of strings sets the member to the
/// array of them, whether or not there was one of that name.
#[verifier::external_body]
pub(crate) fn insert_texts(object: &mut Object, key: &str, values: Vec<String>)
    ensures
        fields(*final(object)) == fields(*old(object)).insert(
            key@,
            Field::Texts(values@.map_values(|s: String| s@)),
        ),
{
    object.insert(key.to_string(), serde_json::Value::from(values));
}

/// `serde_json::Map::insert` with `Value::Null` sets the member to `null`,
/// whether or not there was one of that name.
#[verifier::external_body]
pub(crate) fn insert_null(object: &mut Object, key: &str)
    ensures
        fields(*final(object)) == fields(*old(object)).insert(key@, Field::Null),
{
    object.insert(key.to_string(), serde_json::Value::Null);
}

/// A clone of a `serde_json::Map` holds the same members.
pub assume_specification[ <serde_json::Map<String, serde_json::Value> as Clone>::clone ](
    object: &serde_json::Map<String, serde_json::Value>,
) -> (copy: serde_json::Map<String, serde_json::Value>)
    ensures
        fields(copy) == fields(*object),
;

/// `to_string` on a `serde_json::Value::Object` gives the compact text, which
/// is one line: a line feed in a string is escaped.
#[verifier::external_body]
fn object_to_string(object: Object) -> (line: String)
    ensures
        line@ == object_text(fields(object)),
        !line@.contains('\n'),
{
    serde_json::Value::Object(object).to_string()
}

/// The line for a message with these members, stamped with the clock reading
/// `stamp`, of which the low 64 bits are kept.
pub open spec fn line_text(fields: Fields, stamp: u128) -> Seq<char> {
    object_text(fields.insert("ts_ns"@, Field::Int(stamp as u64 as int)))
}

/// Stamps a message and gives its line, without the line feed that ends it.
pub fn stamped_line(object: Object, stamp: u128) -> (line: String)
    ensures
        line@ == line_text(fields(object), stamp),
        !line@.contains('\n'),
{
    let mut object = object;
    insert_u64(&mut object, "ts_ns", #[verifier::truncate] (stamp as u64));
    object_to_string(object)
}

} // verus!
