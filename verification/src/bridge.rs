//! The JSON side of the `cu.*` bridge: turning a bridged call into a daemon
//! command, reading a command's action, and writing a daemon reply as text.
//!
//! A JSON value is seen by its shape: whether it is an object, the entries
//! whose values are strings (by their characters), and every entry by the
//! JSON text of its value. Values that are not objects have no entries.

use vstd::prelude::*;
use serde_json::Value;
use crate::messages::{alias_action, alias_of, bridge_params, completion_json_text};

verus! {

#[verifier::external_type_specification]
#[verifier::external_body]
pub struct ExJsonValue(serde_json::Value);

/// A JSON value as the library sees it: whether it is an object, its string
/// entries (by their characters), each entry by the JSON text of its value,
/// and the JSON text of the whole value.
pub type JsonShape = (bool, Map<Seq<char>, Seq<char>>, Map<Seq<char>, Seq<char>>, Seq<char>);

/// The JSON text `serde_json::to_string` writes for a `serde_json::Value`.
pub uninterp spec fn json_text(value: Value) -> Seq<char>;

/// Whether a `serde_json::Value` is an object (a `serde_json::Map`).
pub uninterp spec fn json_is_object(value: Value) -> bool;

/// The entries of a JSON object whose values are JSON strings, each key
/// mapped to the characters of its string; no entries for a value that is
/// not an object.
pub uninterp spec fn json_string_fields(value: Value) -> Map<Seq<char>, Seq<char>>;

/// The entries of a JSON object, each key mapped to the JSON text
/// `serde_json::to_string` writes for its value; no entries for a value that
/// is not an object.
pub uninterp spec fn json_entry_texts(value: Value) -> Map<Seq<char>, Seq<char>>;

/// The shape of the value `serde_json::from_str` reads from `text`: whether it
/// is an object, its string entries, the JSON texts of its entries, and the
/// JSON text `serde_json::to_string` writes for it; `None` where the text is
/// not JSON.
pub uninterp spec fn parsed_json(text: Seq<char>) -> Option<JsonShape>;

/// The shape of a JSON value, as [`parsed_json`] gives it for a text.
pub open spec fn shape_of(value: Value) -> JsonShape {
    (json_is_object(value), json_string_fields(value), json_entry_texts(value), json_text(value))
}

/// The shape of `null`.
pub open spec fn null_shape() -> JsonShape {
    (false, Map::empty(), Map::empty(), "null"@)
}

/// The shape of an object with no entries.
pub open spec fn empty_object_shape() -> JsonShape {
    (true, Map::empty(), Map::empty(), "{}"@)
}

/// The JSON text of an object with no entries.
pub open spec fn empty_object_text() -> Seq<char> {
    "{}"@
}

/// `value` is what the text reads as: the parsed value where `text` is JSON,
/// `null` where it is not.
pub open spec fn reads_as(text: Seq<char>, value: Value) -> bool {
    match parsed_json(text) {
        Some(shape) => shape_of(value) == shape,
        None => shape_of(value) == null_shape(),
    }
}

/// Reading `text` back, where it parses, gives a value of the same kind as
/// `value`, with the same string entries and the same keys.
pub open spec fn reads_back_as(text: Seq<char>, value: Value) -> bool {
    match parsed_json(text) {
        Some(shape) => shape.0 == json_is_object(value) && shape.1 == json_string_fields(value)
            && shape.2.dom() == json_entry_texts(value).dom(),
        None => true,
    }
}

/// Calls `serde_json::from_str` for a `serde_json::Value`; `None` where the
/// text is not JSON. The value has the shape [`parsed_json`] names; the text
/// `{}` gives an object with no entries.
#[verifier::external_body]
fn parse_json(text: &str) -> (r: Option<Value>)
    ensures
        r is Some <==> parsed_json(text@) is Some,
        r is Some ==> parsed_json(text@) == Some(shape_of(r.unwrap())),
        text@ == empty_object_text() ==> r is Some && shape_of(r.unwrap()) == empty_object_shape(),
{
    serde_json::from_str(text).ok()
}

/// Gives `serde_json::Value::Null`, which is not an object and is written
/// `null`.
#[verifier::external_body]
fn json_null() -> (r: Value)
    ensures
        shape_of(r) == null_shape(),
{
    Value::Null
}

/// Calls `serde_json::Map::new` and wraps the map as a `Value`: an object
/// with no entries, written `{}`.
#[verifier::external_body]
fn empty_json_object() -> (r: Value)
    ensures
        shape_of(r) == empty_object_shape(),
{
    Value::Object(serde_json::Map::new())
}

/// Calls `serde_json::Value::as_object_mut` and, on an object, `insert` of
/// the string `text` under `key`, which replaces an entry of that key and
/// leaves the others; whether it was an object. A value that is not an object
/// is left as it is.
#[verifier::external_body]
fn set_text_field(target: &mut Value, key: &str, text: &str) -> (r: bool)
    ensures
        r == json_is_object(*old(target)),
        r ==> json_is_object(*final(target)),
        r ==> json_string_fields(*final(target)) == json_string_fields(*old(target)).insert(
            key@,
            text@,
        ),
        r ==> json_entry_texts(*final(target)).remove(key@) == json_entry_texts(
            *old(target),
        ).remove(key@),
        r ==> json_entry_texts(*final(target)).contains_key(key@),
        !r ==> *final(target) == *old(target),
{
    match target.as_object_mut() {
        Some(object) => {
            object.insert(key.to_string(), Value::String(text.to_string()));
            true
        },
        None => false,
    }
}

/// Calls `serde_json::Value::get` with `key` and `as_str` on what it finds:
/// the entry's string when `source` is an object holding a string under `key`.
#[verifier::external_body]
fn text_field(source: &Value, key: &str) -> (r: Option<String>)
    ensures
        r is Some <==> json_string_fields(*source).contains_key(key@),
        r matches Some(t) ==> t@ == json_string_fields(*source)[key@],
{
    match source.get(key).and_then(Value::as_str) {
        Some(text) => Some(text.to_string()),
        None => None,
    }
}

/// Calls `serde_json::Value::get` with `key` and clones what it finds: the
/// entry's value when `source` is an object holding `key`.
#[verifier::external_body]
fn entry_value(source: &Value, key: &str) -> (r: Option<Value>)
    ensures
        r is Some <==> json_entry_texts(*source).contains_key(key@),
        r is Some ==> json_text(r.unwrap()) == json_entry_texts(*source)[key@],
{
    source.get(key).cloned()
}

/// Calls `serde_json::to_string`, which does not fail on a `Value` (its keys
/// are strings). Where the text parses again it reads back as a value of the
/// same kind with the same string entries and keys; numbers may come back
/// rounded, and text nested too deep for the parser does not parse.
#[verifier::external_body]
fn json_to_text(value: &Value) -> (r: Option<String>)
    ensures
        r is Some,
        r is Some ==> r.unwrap()@ == json_text(*value),
        r is Some ==> reads_back_as(r.unwrap()@, *value),
{
    serde_json::to_string(value).ok()
}

/// The JSON value of `text`, or `null` where it is not JSON.
pub fn parse_json_or_null(text: &str) -> (r: Value)
    ensures
        reads_as(text@, r),
{
    match parse_json(text) {
        Some(v) => v,
        None => json_null(),
    }
}

/// The parameters of a bridged call as the command starts from: the parsed
/// text, or an object with no entries where the text is not JSON.
pub open spec fn base_shape(text: Seq<char>) -> JsonShape {
    match parsed_json(text) {
        Some(shape) => shape,
        None => empty_object_shape(),
    }
}

/// The parameter text of a bridged call, `{}` when the script gave none.
pub open spec fn params_text(params: Seq<char>) -> Seq<char> {
    if params.len() == 0 {
        "{}"@
    } else {
        params
    }
}

/// The daemon command for a bridged call of `verb` with the parameter text
/// `params`: the parameters as parsed (`{}` when they are empty or not JSON);
/// when they are an object, every entry is kept and `action` is set to the
/// aliased verb and `id` to `js`, in place of any such entries.
pub fn bridge_command(verb: &str, params: String) -> (r: Value)
    ensures
        ({
            let base = base_shape(params_text(params@));
            &&& base.0 ==> json_is_object(r)
            &&& base.0 ==> json_string_fields(r) == base.1.insert("action"@, alias_of(verb@)).insert(
                "id"@,
                "js"@,
            )
            &&& base.0 ==> json_entry_texts(r).remove("action"@).remove("id"@) == base.2.remove(
                "action"@,
            ).remove("id"@)
            &&& base.0 ==> json_entry_texts(r).dom() == base.2.dom().insert("action"@).insert("id"@)
            &&& !base.0 ==> shape_of(r) == base
        }),
        params@.len() == 0 ==> json_is_object(r) && json_string_fields(r)
            == Map::<Seq<char>, Seq<char>>::empty().insert("action"@, alias_of(verb@)).insert(
            "id"@,
            "js"@,
        ) && json_entry_texts(r).dom() == Set::<Seq<char>>::empty().insert("action"@).insert(
            "id"@,
        ),
{
    let text = bridge_params(params);
    let mut command = match parse_json(text.as_str()) {
        Some(v) => v,
        None => empty_json_object(),
    };
    let ghost e0 = json_entry_texts(command);
    let action = alias_action(verb);
    proof {
        reveal_strlit("action");
        reveal_strlit("id");
        assert("action"@.len() == 6 && "id"@.len() == 2);
        assert("action"@ != "id"@);
    }
    if set_text_field(&mut command, "action", action.as_str()) {
        let ghost e1 = json_entry_texts(command);
        let _ = set_text_field(&mut command, "id", "js");
        proof {
            let e2 = json_entry_texts(command);
            assert(e2.remove("id"@).remove("action"@) =~= e1.remove("action"@).remove("id"@));
            assert(e2.remove("action"@).remove("id"@) =~= e2.remove("id"@).remove("action"@));
            assert(e1.remove("action"@).remove("id"@) =~= e0.remove("action"@).remove("id"@));
            assert forall|k: Seq<char>| e2.dom().contains(k) <==> e0.dom().insert("action"@).insert(
                "id"@,
            ).contains(k) by {
                if k != "id"@ && k != "action"@ {
                    assert(e2.remove("action"@).remove("id"@).dom().contains(k) == e2.dom().contains(k));
                    assert(e0.remove("action"@).remove("id"@).dom().contains(k) == e0.dom().contains(k));
                }
                if k == "action"@ {
                    assert(e1.contains_key(k));
                    assert(e1.remove("id"@).contains_key(k));
                }
            }
            assert(e2.dom() =~= e0.dom().insert("action"@).insert("id"@));
        }
    }
    command
}

/// The action a daemon command names; empty when it names none.
pub fn command_action(command: &Value) -> (r: String)
    ensures
        r@ == (if json_string_fields(*command).contains_key("action"@) {
            json_string_fields(*command)["action"@]
        } else {
            Seq::<char>::empty()
        }),
{
    match text_field(command, "action") {
        Some(action) => action,
        None => String::new(),
    }
}

/// The line a `cu.log` call keeps: the command's `msg` entry, `null` when it
/// has none.
pub fn log_entry(command: &Value) -> (r: Value)
    ensures
        json_text(r) == (if json_entry_texts(*command).contains_key("msg"@) {
            json_entry_texts(*command)["msg"@]
        } else {
            "null"@
        }),
{
    match entry_value(command, "msg") {
        Some(v) => v,
        None => json_null(),
    }
}

/// The text a bridged call hands back to the program: the JSON text
/// `serde_json::to_string` writes for the reply, which reads back as a value
/// of the same kind with the same string entries and keys.
pub fn reply_text(reply: &Value) -> (r: String)
    ensures
        r@ == json_text(*reply),
        reads_back_as(r@, *reply),
{
    completion_json_text(json_to_text(reply))
}

} // verus!
