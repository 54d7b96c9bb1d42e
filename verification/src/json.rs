//! JSON objects of `serde_json`, as far as manifests need them: objects whose
//! members are strings, and objects of such objects.

use vstd::prelude::*;

verus! {

/// `serde_json::Map`. With the crate's `preserve_order` feature, which
/// this library asks for, it keeps its members in the order in which
/// their keys were first inserted.
#[verifier::external_type_specification]
#[verifier::external_body]
#[verifier::reject_recursive_types(K)]
#[verifier::reject_recursive_types(V)]
pub struct ExJsonObject<K, V>(serde_json::Map<K, V>);

/// `serde_json::Value`, any JSON value.
#[verifier::external_type_specification]
#[verifier::external_body]
pub struct ExJsonValue(serde_json::Value);

/// What one member of an object holds.
pub enum Member {
    /// A JSON string.
    Text(Seq<char>),
    /// An object all of whose members are JSON strings, in their order.
    Object(Seq<(Seq<char>, Seq<char>)>),
    /// Any other value.
    Other,
}

/// The members of an object in their order, each with its key.
pub uninterp spec fn json_members(object: serde_json::Map<String, serde_json::Value>) -> Seq<
    (Seq<char>, Member),
>;

/// The pretty-printed text of an object with the given members, none of
/// them [`Member::Other`].
pub uninterp spec fn json_pretty(members: Seq<(Seq<char>, Member)>) -> Seq<char>;

/// Whether some pair of `pairs` has the key `key`.
pub open spec fn has_key<V>(pairs: Seq<(Seq<char>, V)>, key: Seq<char>) -> bool {
    exists|i: int| 0 <= i < pairs.len() && (#[trigger] pairs[i]).0 == key
}

/// Whether no two pairs of `pairs` share a key.
pub open spec fn distinct_keys<V>(pairs: Seq<(Seq<char>, V)>) -> bool {
    forall|i: int, j: int|
        0 <= i < j < pairs.len() ==> (#[trigger] pairs[i]).0 != (#[trigger] pairs[j]).0
}

/// Each pair's value as a text member.
pub open spec fn as_text_members(pairs: Seq<(Seq<char>, Seq<char>)>) -> Seq<(Seq<char>, Member)> {
    Seq::new(pairs.len(), |i: int| (pairs[i].0, Member::Text(pairs[i].1)))
}

/// Whether every member is a string.
pub open spec fn all_text(members: Seq<(Seq<char>, Member)>) -> bool {
    forall|i: int| 0 <= i < members.len() ==> (#[trigger] members[i]).1 is Text
}

/// The key and string of each member; meaningful where [`all_text`] holds.
pub open spec fn text_pairs(members: Seq<(Seq<char>, Member)>) -> Seq<(Seq<char>, Seq<char>)> {
    Seq::new(members.len(), |i: int| (members[i].0, members[i].1->Text_0))
}

/// Whether no member is [`Member::Other`].
pub open spec fn printable(members: Seq<(Seq<char>, Member)>) -> bool {
    forall|i: int| 0 <= i < members.len() ==> !((#[trigger] members[i]).1 is Other)
}

/// The members after `key` was given the value `value`: a key that is
/// present keeps its place and gets the new value, a new key goes last.
pub open spec fn with_member(members: Seq<(Seq<char>, Member)>, key: Seq<char>, value: Member) -> Seq<
    (Seq<char>, Member),
> {
    if has_key(members, key) {
        Seq::new(
            members.len(),
            |i: int|
                if members[i].0 == key {
                    (key, value)
                } else {
                    members[i]
                },
        )
    } else {
        members.push((key, value))
    }
}

/// Calls `serde_json::Map::new`. Trusted: the new object has no members.
#[verifier::external_body]
pub(crate) fn new_object() -> (object: serde_json::Map<String, serde_json::Value>)
    ensures
        json_members(object) == Seq::<(Seq<char>, Member)>::empty(),
{
    serde_json::Map::new()
}

/// Calls `serde_json::Map::contains_key`. Trusted: it tells whether some
/// member has this key.
#[verifier::external_body]
pub(crate) fn contains_key(object: &serde_json::Map<String, serde_json::Value>, key: &str) -> (found:
    bool)
    ensures
        found == has_key(json_members(*object), key@),
{
    object.contains_key(key)
}

/// Calls `serde_json::Map::insert` with a JSON string as the value.
/// Trusted: a key that was present keeps its place and gets the new
/// value, a new key is appended; the result tells whether the key was
/// present.
#[verifier::external_body]
pub(crate) fn insert_text(
    object: &mut serde_json::Map<String, serde_json::Value>,
    key: String,
    text: String,
) -> (replaced: bool)
    ensures
        replaced == has_key(json_members(*old(object)), key@),
        json_members(*final(object)) == with_member(
            json_members(*old(object)),
            key@,
            Member::Text(text@),
        ),
{
    object.insert(key, serde_json::Value::String(text)).is_some()
}

/// Calls `serde_json::Map::insert` with an object of strings as the
/// value. Trusted: as for [`insert_text`], the value being the object
/// with its members in their order.
#[verifier::external_body]
pub(crate) fn insert_object(
    object: &mut serde_json::Map<String, serde_json::Value>,
    key: String,
    inner: serde_json::Map<String, serde_json::Value>,
) -> (replaced: bool)
    requires
        all_text(json_members(inner)),
    ensures
        replaced == has_key(json_members(*old(object)), key@),
        json_members(*final(object)) == with_member(
            json_members(*old(object)),
            key@,
            Member::Object(text_pairs(json_members(inner))),
        ),
{
    object.insert(key, serde_json::Value::Object(inner)).is_some()
}

/// Calls `<serde_json::Map as Clone>::clone`. Trusted: the copy has the
/// same members in the same order.
#[verifier::external_body]
pub(crate) fn clone_object(object: &serde_json::Map<String, serde_json::Value>) -> (copy:
    serde_json::Map<String, serde_json::Value>)
    ensures
        json_members(copy) == json_members(*object),
{
    object.clone()
}

/// Calls `serde_json::to_string_pretty` on an object of strings and of
/// objects of strings. Trusted: serialising such an object cannot fail,
/// and the text is a function of the members and their order alone,
/// named by [`json_pretty`].
#[verifier::external_body]
pub(crate) fn to_pretty(object: &serde_json::Map<String, serde_json::Value>) -> (rendered: String)
    requires
        printable(json_members(*object)),
    ensures
        rendered@ == json_pretty(json_members(*object)),
{
    serde_json::to_string_pretty(object).unwrap_or_default()
}

} // verus!
