//! JSON documents as `serde_json` holds them, and what the federation layer
//! reads from them. A document is carried through the library untouched;
//! each function here names what `serde_json` or `jsonschema` computes from
//! it.

use jsonschema::JSONSchema;
use serde_json::Value;
use vstd::prelude::*;

verus! {

/// `serde_json::Value`, held as an opaque document.
#[verifier::external_type_specification]
#[verifier::external_body]
pub struct ExValue(Value);

/// The compact serialization of a document, where it has one.
pub uninterp spec fn json_encoding(doc: Value) -> Option<Seq<u8>>;

/// The member of an object under a key; `None` for a missing key and for
/// anything but an object.
pub uninterp spec fn json_member(doc: Value, key: Seq<char>) -> Option<Value>;

/// The text of a string document; `None` for anything but a string.
pub uninterp spec fn json_text(doc: Value) -> Option<Seq<char>>;

/// The elements of an array document; `None` for anything but an array.
pub uninterp spec fn json_items(doc: Value) -> Option<Seq<Value>>;

/// The members of an object document, in the order the object holds them;
/// `None` for anything but an object.
pub uninterp spec fn json_members(doc: Value) -> Option<Seq<(Seq<char>, Value)>>;

/// The document a text parses to; the `null` document where the text is not
/// JSON.
pub uninterp spec fn json_parsed(text: Seq<char>) -> Value;

/// Whether a document compiles as a JSON Schema.
pub uninterp spec fn schema_compiles(schema: Value) -> bool;

/// Whether an instance satisfies a schema that compiles.
pub uninterp spec fn schema_accepts(schema: Value, instance: Value) -> bool;

/// The bytes a document contributes to a digest: its serialization, or
/// nothing where it has none.
pub open spec fn json_bytes(doc: Value) -> Seq<u8> {
    match json_encoding(doc) {
        Some(bytes) => bytes,
        None => Seq::empty(),
    }
}

/// `Clone` on a document yields the same document.
pub assume_specification[ <Value as Clone>::clone ](doc: &Value) -> (copy: Value)
    ensures
        copy == *doc,
;

/// `serde_json::to_vec` on a document: its compact serialization, `None`
/// where serialization fails.
#[verifier::external_body]
pub(crate) fn encode(doc: &Value) -> (bytes: Option<Vec<u8>>)
    ensures
        bytes is Some <==> json_encoding(*doc) is Some,
        bytes matches Some(b) ==> json_encoding(*doc) == Some(b@),
{
    serde_json::to_vec(doc).ok()
}

/// `Value::get` with a string key, the member copied out.
#[verifier::external_body]
pub(crate) fn member(doc: &Value, key: &str) -> (found: Option<Value>)
    ensures
        found == json_member(*doc, key@),
{
    doc.get(key).cloned()
}

/// `Value::as_str`, the text copied out.
#[verifier::external_body]
pub(crate) fn text_of(doc: &Value) -> (text: Option<String>)
    ensures
        text is Some <==> json_text(*doc) is Some,
        text matches Some(s) ==> json_text(*doc) == Some(s@),
{
    doc.as_str().map(str::to_string)
}

/// `Value::as_array`, the elements copied out in order.
#[verifier::external_body]
pub(crate) fn items_of(doc: &Value) -> (items: Option<Vec<Value>>)
    ensures
        items is Some <==> json_items(*doc) is Some,
        items matches Some(v) ==> json_items(*doc) == Some(v@),
{
    doc.as_array().cloned()
}

/// `serde_json::from_str` into a document; `Value::Null` where the text is
/// rejected.
#[verifier::external_body]
pub(crate) fn parse(text: &str) -> (doc: Value)
    ensures
        doc == json_parsed(text@),
{
    serde_json::from_str(text).unwrap_or(Value::Null)
}

/// `Value::as_object`, the members copied out in the object's order.
#[verifier::external_body]
pub(crate) fn members_of(doc: &Value) -> (members: Option<Vec<(String, Value)>>)
    ensures
        members is Some <==> json_members(*doc) is Some,
        members matches Some(v) ==> json_members(*doc) == Some(member_views(v@)),
{
    doc.as_object().map(|object| object.iter().map(|(k, v)| (k.clone(), v.clone())).collect())
}

/// How deep a schema may nest and still be checked.
pub const SCHEMA_DEPTH_LIMIT: u32 = 64;

/// The key under which a schema refers to another schema.
pub open spec fn reference_key() -> Seq<char> {
    "$ref"@
}

/// Whether a document holds no reference and nests no deeper than `depth`:
/// no object in it, at any level, has a member under [`reference_key`].
pub open spec fn reference_free(doc: Value, depth: nat) -> bool
    decreases depth,
{
    if json_members(doc) is Some {
        if depth == 0 {
            false
        } else {
            forall|i: int|
                0 <= i < json_members(doc)->0.len() ==> (#[trigger] json_members(doc)->0[i]).0
                    != reference_key() && reference_free(
                    json_members(doc)->0[i].1,
                    (depth - 1) as nat,
                )
        }
    } else if json_items(doc) is Some {
        if depth == 0 {
            false
        } else {
            forall|i: int|
                0 <= i < json_items(doc)->0.len() ==> reference_free(
                    #[trigger] json_items(doc)->0[i],
                    (depth - 1) as nat,
                )
        }
    } else {
        true
    }
}

/// Whether a schema can be checked against: it holds no reference and
/// nests no deeper than [`SCHEMA_DEPTH_LIMIT`]. Checking such a schema walks
/// a finite tree and ends.
pub open spec fn schema_is_checkable(schema: Value) -> bool {
    reference_free(schema, SCHEMA_DEPTH_LIMIT as nat)
}

/// Whether a document holds no reference and nests no deeper than `depth`.
pub fn is_reference_free(doc: &Value, depth: u32) -> (free: bool)
    ensures
        free == reference_free(*doc, depth as nat),
    decreases depth,
{
    if let Some(members) = members_of(doc) {
        if depth == 0 {
            return false;
        }
        let wanted = "$ref".to_owned();
        let ghost views = member_views(members@);
        let mut i: usize = 0;
        while i < members.len()
            invariant
                i <= members@.len(),
                depth > 0,
                wanted@ == reference_key(),
                views == member_views(members@),
                json_members(*doc) == Some(views),
                forall|k: int|
                    0 <= k < i ==> (#[trigger] views[k]).0 != reference_key() && reference_free(
                        views[k].1,
                        (depth - 1) as nat,
                    ),
            decreases members@.len() - i,
        {
            if members[i].0 == wanted {
                assert(json_members(*doc)->0[i as int].0 == reference_key());
                return false;
            }
            if !is_reference_free(&members[i].1, depth - 1) {
                assert(!reference_free(json_members(*doc)->0[i as int].1, (depth - 1) as nat));
                return false;
            }
            i = i + 1;
        }
        return true;
    }
    if let Some(items) = items_of(doc) {
        if depth == 0 {
            return false;
        }
        let mut i: usize = 0;
        while i < items.len()
            invariant
                i <= items@.len(),
                depth > 0,
                json_members(*doc) is None,
                json_items(*doc) == Some(items@),
                forall|k: int|
                    0 <= k < i ==> reference_free(#[trigger] items@[k], (depth - 1) as nat),
            decreases items@.len() - i,
        {
            if !is_reference_free(&items[i], depth - 1) {
                assert(!reference_free(json_items(*doc)->0[i as int], (depth - 1) as nat));
                return false;
            }
            i = i + 1;
        }
        return true;
    }
    true
}

/// Whether a schema can be checked against.
pub fn is_checkable(schema: &Value) -> (checkable: bool)
    ensures
        checkable == schema_is_checkable(*schema),
{
    is_reference_free(schema, SCHEMA_DEPTH_LIMIT)
}

/// What checking an instance against a schema gave.
pub enum SchemaCheck {
    /// The schema did not compile; the compiler's message.
    BadSchema(String),
    /// The instance satisfies the schema.
    Accepted,
    /// The instance violates the schema; one message per violation.
    Rejected(Vec<String>),
}

/// `JSONSchema::compile` on the schema, then `JSONSchema::validate` on the
/// instance, each error rendered as text. A schema that holds a reference
/// is left out: a reference is followed while an instance is validated, and
/// one that leads back to itself is followed without end. Claimed: which of
/// the three outcomes comes, and that a rejection carries at least one
/// message. The messages themselves are not claimed.
#[verifier::external_body]
pub(crate) fn check_against_schema(schema: &Value, instance: &Value) -> (outcome: SchemaCheck)
    requires
        schema_is_checkable(*schema),
    ensures
        outcome is BadSchema <==> !schema_compiles(*schema),
        outcome is Accepted <==> (schema_compiles(*schema) && schema_accepts(*schema, *instance)),
        outcome matches SchemaCheck::Rejected(messages) ==> messages@.len() != 0,
{
    match JSONSchema::compile(schema) {
        Err(defect) => SchemaCheck::BadSchema(defect.to_string()),
        Ok(compiled) => match compiled.validate(instance) {
            Ok(()) => SchemaCheck::Accepted,
            Err(errors) => SchemaCheck::Rejected(errors.map(|e| e.to_string()).collect()),
        },
    }
}

/// The string document with the text given.
pub uninterp spec fn json_string(text: Seq<char>) -> Value;

/// The object document with the members given, a later member replacing an
/// earlier one of the same key.
pub uninterp spec fn json_object(members: Seq<(Seq<char>, Value)>) -> Value;

pub open spec fn member_views(members: Seq<(String, Value)>) -> Seq<(Seq<char>, Value)> {
    Seq::new(members.len(), |i: int| (members[i].0@, members[i].1))
}

/// `Value::from` on a text: the string document.
#[verifier::external_body]
pub(crate) fn string_doc(text: &str) -> (doc: Value)
    ensures
        doc == json_string(text@),
{
    Value::from(text)
}

/// The members collected into a `serde_json::Map`, as an object document.
#[verifier::external_body]
pub(crate) fn object_doc(members: Vec<(String, Value)>) -> (doc: Value)
    ensures
        doc == json_object(member_views(members@)),
{
    Value::Object(members.into_iter().collect())
}

} // verus!
