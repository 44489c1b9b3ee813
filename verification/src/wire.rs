//! The calls into `serde_json`, and JSON values on their way in.

use vstd::prelude::*;
use vstd::string::StringExecFns;
use crate::error::{error_text, is_refusal, RpcError};
use crate::json::{member, member_index, Json, JsonNumber, JsonNumberView, JsonView, Object};
use crate::text::{decimal, decimal_text, same_text};

verus! {

/// `serde_json::Value`.
#[verifier::external_type_specification]
#[verifier::external_body]
pub struct ExSerdeJsonValue(serde_json::Value);

/// `serde_json::Number`.
#[verifier::external_type_specification]
#[verifier::external_body]
pub struct ExSerdeJsonNumber(serde_json::Number);

/// What a `serde_json::Value` holds.
pub uninterp spec fn value_json(value: serde_json::Value) -> JsonView;

/// What a `serde_json::Number` holds.
pub uninterp spec fn number_json(number: serde_json::Number) -> JsonNumberView;

/// The value that a text is the JSON of, as `serde_json::from_str` reads it, or
/// the message of the error with which it refuses the text.
pub uninterp spec fn text_json(text: Seq<char>) -> Result<JsonView, Seq<char>>;

/// The message of the error with which `serde_json::from_value` refuses a value
/// that is not a string.
pub uninterp spec fn string_refusal(json: JsonView) -> Seq<char>;

/// The message of the error with which `serde_json::from_value` refuses a value
/// that is not a `u64`.
pub uninterp spec fn u64_refusal(json: JsonView) -> Seq<char>;

/// The message of the error with which `serde_json::from_value` refuses a value
/// that is not a `usize`.
pub uninterp spec fn usize_refusal(json: JsonView) -> Seq<char>;

/// A text as `{:?}` writes it.
pub uninterp spec fn quoted_text(text: Seq<char>) -> Seq<char>;

/// A `serde_json::Value` with its outermost layer taken apart.
enum OpenedValue {
    Null,
    Bool(bool),
    Number(serde_json::Number),
    String(String),
    Array(Vec<serde_json::Value>),
    Object(Vec<(String, serde_json::Value)>),
}

/// What an opened value holds.
spec fn opened_json(opened: OpenedValue) -> JsonView {
    match opened {
        OpenedValue::Null => JsonView::Null,
        OpenedValue::Bool(b) => JsonView::Bool(b),
        OpenedValue::Number(number) => JsonView::Number(number_json(number)),
        OpenedValue::String(s) => JsonView::String(s@),
        OpenedValue::Array(items) => JsonView::Array(
            Seq::new(items@.len(), |i: int| value_json(items@[i])),
        ),
        OpenedValue::Object(entries) => JsonView::Object(
            Seq::new(entries@.len(), |i: int| (entries@[i].0@, value_json(entries@[i].1))),
        ),
    }
}

/// Calls `serde_json::from_str` for a `serde_json::Value`. What it reads,
/// and else the message of its error, is a function of the text alone; the text
/// `null` is read as the null value.
#[verifier::external_body]
pub(crate) fn parse_text(text: &str) -> (r: Result<serde_json::Value, serde_json::Error>)
    ensures
        match r {
            Ok(value) => text_json(text@) == Ok::<JsonView, Seq<char>>(value_json(value)) && (text@
                == "null"@ ==> value_json(value) == JsonView::Null),
            Err(e) => text_json(text@) == Err::<JsonView, Seq<char>>(error_text(e)) && text@
                != "null"@,
        },
{
    serde_json::from_str(text)
}

/// Takes the outermost layer of a `serde_json::Value` apart: which variant it
/// is and what that variant holds. The entries of a `serde_json::Map` come by
/// its `into_iter`, and no key comes twice.
#[verifier::external_body]
fn open_value(value: serde_json::Value) -> (r: OpenedValue)
    ensures
        value_json(value) == opened_json(r),
        r matches OpenedValue::Object(entries) ==> forall|i: int, j: int|
            0 <= i < j < entries@.len() ==> entries@[i].0@ != entries@[j].0@,
{
    match value {
        serde_json::Value::Null => OpenedValue::Null,
        serde_json::Value::Bool(b) => OpenedValue::Bool(b),
        serde_json::Value::Number(number) => OpenedValue::Number(number),
        serde_json::Value::String(s) => OpenedValue::String(s),
        serde_json::Value::Array(items) => OpenedValue::Array(items),
        serde_json::Value::Object(map) => OpenedValue::Object(map.into_iter().collect()),
    }
}

/// Calls `serde_json::Number::as_u64`: the integer that the number holds,
/// where it is one that is not negative.
#[verifier::external_body]
fn number_as_u64(number: &serde_json::Number) -> (r: Option<u64>)
    ensures
        r == match number_json(*number) {
            JsonNumberView::PosInt(n) => Some(n),
            _ => None,
        },
{
    number.as_u64()
}

/// Calls `serde_json::Number::as_i64`: the integer that the number holds,
/// where it is one that an `i64` can hold. A number is held as a negative
/// integer only where it is below zero.
#[verifier::external_body]
fn number_as_i64(number: &serde_json::Number) -> (r: Option<i64>)
    ensures
        match number_json(*number) {
            JsonNumberView::PosInt(n) => match r {
                Some(m) => m == n,
                None => n > i64::MAX,
            },
            JsonNumberView::NegInt(n) => n < 0 && r == Some(n),
            JsonNumberView::Float(_) => r is None,
        },
{
    number.as_i64()
}

/// Calls `to_string` on a `serde_json::Number` that is not an integer: the
/// text that JSON has for the number.
#[verifier::external_body]
fn number_text(number: &serde_json::Number) -> (r: String)
    requires
        number_json(*number) is Float,
    ensures
        number_json(*number) == JsonNumberView::Float(r@),
{
    number.to_string()
}

/// The number that a `serde_json::Number` holds.
pub fn import_number(number: serde_json::Number) -> (r: JsonNumber)
    ensures
        r@ == number_json(number),
        r matches JsonNumber::NegInt(n) ==> n < 0,
{
    match number_as_u64(&number) {
        Some(n) => JsonNumber::PosInt(n),
        None => match number_as_i64(&number) {
            Some(n) => JsonNumber::NegInt(n),
            None => JsonNumber::Float(number_text(&number)),
        },
    }
}

/// The value that a `serde_json::Value` holds.
pub fn import(value: serde_json::Value) -> (r: Json)
    ensures
        r@ == value_json(value),
    decreases value_json(value),
{
    match open_value(value) {
        OpenedValue::Null => Json::Null,
        OpenedValue::Bool(b) => Json::Bool(b),
        OpenedValue::Number(number) => Json::Number(import_number(number)),
        OpenedValue::String(s) => Json::String(s),
        OpenedValue::Array(items) => {
            let ghost all = items@;
            let mut values: Vec<Json> = Vec::new();
            for item in it: items
                invariant
                    value_json(value) == JsonView::Array(
                        Seq::new(all.len(), |i: int| value_json(all[i])),
                    ),
                    it.seq() == all,
                    values@.len() == it.index(),
                    forall|i: int| 0 <= i < values@.len() ==> values@[i]@ == value_json(all[i]),
            {
                let ghost at = values@.len() as int;
                assert(item == all[at]);
                assert(decreases_to!(value_json(value) => value_json(value)->Array_0[at]));
                values.push(import(item));
            }
            let r = Json::Array(values);
            assert(r@->Array_0 =~= value_json(value)->Array_0);
            r
        },
        OpenedValue::Object(entries) => {
            let ghost all = entries@;
            let mut object = Object::new();
            for entry in it: entries
                invariant
                    value_json(value) == JsonView::Object(
                        Seq::new(all.len(), |i: int| (all[i].0@, value_json(all[i].1))),
                    ),
                    forall|i: int, j: int| 0 <= i < j < all.len() ==> all[i].0@ != all[j].0@,
                    it.seq() == all,
                    object@.len() == it.index(),
                    forall|i: int|
                        0 <= i < object@.len() ==> object@[i] == (
                            all[i].0@,
                            value_json(all[i].1),
                        ),
            {
                let ghost at = object@.len() as int;
                assert(entry == all[at]);
                assert(decreases_to!(value_json(value) => value_json(value)->Object_0[at].1));
                let (name, inner) = entry;
                let imported = import(inner);
                assert forall|i: int| 0 <= i < object@.len() implies object@[i].0 != name@ by {
                    assert(all[i].0@ != all[at].0@);
                }
                object.insert(name, imported);
            }
            assert(object@ =~= value_json(value)->Object_0);
            Json::Object(object)
        },
    }
}

/// Calls `serde_json::from_value` for a `String`. It succeeds on a string and
/// on nothing else. The message of its error is a function of the value.
#[verifier::external_body]
fn string_from_value(value: serde_json::Value) -> (r: Result<String, serde_json::Error>)
    ensures
        match r {
            Ok(s) => value_json(value) == JsonView::String(s@),
            Err(e) => !(value_json(value) is String) && error_text(e) == string_refusal(
                value_json(value),
            ),
        },
{
    serde_json::from_value(value)
}

/// Calls `serde_json::from_value` for a `u64`. It succeeds on a number that is
/// held as an integer that is not negative and on nothing else. The message of
/// its error is a function of the value.
#[verifier::external_body]
fn u64_from_value(value: serde_json::Value) -> (r: Result<u64, serde_json::Error>)
    ensures
        match r {
            Ok(n) => value_json(value) == JsonView::Number(JsonNumberView::PosInt(n)),
            Err(e) => !(value_json(value) matches JsonView::Number(JsonNumberView::PosInt(_)))
                && error_text(e) == u64_refusal(value_json(value)),
        },
{
    serde_json::from_value(value)
}

/// Calls `serde_json::from_value` for a `usize`. It succeeds on a number that
/// is held as an integer that is not negative and that a `usize` can hold, and
/// on nothing else. The message of its error is a function of the value.
#[verifier::external_body]
fn usize_from_value(value: serde_json::Value) -> (r: Result<usize, serde_json::Error>)
    ensures
        match r {
            Ok(n) => json_usize(value_json(value)) == Some(n),
            Err(e) => json_usize(value_json(value)) is None && error_text(e) == usize_refusal(
                value_json(value),
            ),
        },
{
    serde_json::from_value(value)
}

/// Calls `custom` of `serde::de::Error` for a `serde_json::Error`: an error
/// that carries the message. A message may not end in a digit, since one that
/// ends in a line and a column is taken apart.
#[verifier::external_body]
fn shape_error(message: &str) -> (r: serde_json::Error)
    requires
        message@.len() > 0,
        !('0' <= message@.last() <= '9'),
    ensures
        error_text(r) == message@,
{
    <serde_json::Error as serde::de::Error>::custom(message)
}

/// Writes a text with `{:?}`: in quotes, with escapes. What is written is a
/// function of the text alone.
#[verifier::external_body]
fn quoted(text: &str) -> (r: String)
    ensures
        r@ == quoted_text(text@),
{
    format!("{:?}", text)
}

/// Reads a reply that is a string.
pub fn read_string(value: serde_json::Value) -> (r: Result<String, RpcError>)
    ensures
        match r {
            Ok(s) => value_json(value) == JsonView::String(s@),
            Err(e) => !(value_json(value) is String) && is_refusal(
                e,
                string_refusal(value_json(value)),
            ),
        },
{
    match string_from_value(value) {
        Ok(s) => Ok(s),
        Err(e) => Err(RpcError::Json(e)),
    }
}

/// Reads a reply that is a number.
pub fn read_u64(value: serde_json::Value) -> (r: Result<u64, RpcError>)
    ensures
        match r {
            Ok(n) => value_json(value) == JsonView::Number(JsonNumberView::PosInt(n)),
            Err(e) => !(value_json(value) matches JsonView::Number(JsonNumberView::PosInt(_)))
                && is_refusal(e, u64_refusal(value_json(value))),
        },
{
    match u64_from_value(value) {
        Ok(n) => Ok(n),
        Err(e) => Err(RpcError::Json(e)),
    }
}

/// The number that a JSON value is, where it is an integer that a `usize` can
/// hold.
pub open spec fn json_usize(json: JsonView) -> Option<usize> {
    match json {
        JsonView::Number(JsonNumberView::PosInt(n)) => if n <= usize::MAX {
            Some(n as usize)
        } else {
            None
        },
        _ => None,
    }
}

/// The server version that a reply states: the member `version` of an object,
/// or the only element of an array.
pub open spec fn stated_version(json: JsonView) -> Option<usize> {
    match json {
        JsonView::Object(members) => match member(members, "version"@) {
            Some(version) => json_usize(version),
            None => None,
        },
        JsonView::Array(items) => if items.len() == 1 {
            json_usize(items[0])
        } else {
            None
        },
        _ => None,
    }
}

/// How an error message speaks of a value that is neither an object nor an
/// array.
pub open spec fn found_text(json: JsonView) -> Seq<char> {
    match json {
        JsonView::Bool(true) => "boolean `true`"@,
        JsonView::Bool(false) => "boolean `false`"@,
        JsonView::Number(JsonNumberView::PosInt(n)) => "integer `"@ + decimal(n as nat) + "`"@,
        JsonView::Number(JsonNumberView::NegInt(n)) => "integer `-"@ + decimal(-n as nat) + "`"@,
        JsonView::Number(JsonNumberView::Float(text)) => "floating point `"@ + text + "`"@,
        JsonView::String(text) => "string "@ + quoted_text(text),
        _ => "null"@,
    }
}

/// The message of the error for a reply that does not state the server version.
/// It is that of a decoder for a structure `Response` with one field, `version`.
pub open spec fn version_refusal(json: JsonView) -> Seq<char> {
    match json {
        JsonView::Object(members) => match member(members, "version"@) {
            Some(version) => usize_refusal(version),
            None => "missing field `version`"@,
        },
        JsonView::Array(items) => if items.len() == 0 {
            "invalid length 0, expected struct Response with 1 element"@
        } else if json_usize(items[0]) is None {
            usize_refusal(items[0])
        } else {
            "invalid length "@ + decimal(items.len()) + ", expected fewer elements in array"@
        },
        _ => "invalid type: "@ + found_text(json) + ", expected struct Response"@,
    }
}

/// The error for a value of the wrong type.
fn type_error(found: &str) -> (r: serde_json::Error)
    ensures
        error_text(r) == "invalid type: "@ + found@ + ", expected struct Response"@,
{
    proof {
        reveal_strlit(", expected struct Response");
    }
    let message = "invalid type: ".to_owned().concat(found).concat(", expected struct Response");
    assert(message@.last() == 'e');
    shape_error(message.as_str())
}

/// Reads the version out of the members of an object.
fn version_of_entries(entries: Vec<(String, serde_json::Value)>) -> (r: Result<
    usize,
    serde_json::Error,
>)
    requires
        forall|i: int, j: int|
            0 <= i < j < entries@.len() ==> entries@[i].0@ != entries@[j].0@,
    ensures
        ({
            let json = opened_json(OpenedValue::Object(entries));
            match r {
                Ok(version) => stated_version(json) == Some(version),
                Err(e) => stated_version(json) is None && error_text(e) == version_refusal(json),
            }
        }),
{
    let ghost members = opened_json(OpenedValue::Object(entries))->Object_0;
    let mut i: usize = 0;
    while i < entries.len()
        invariant
            i <= entries@.len(),
            members == opened_json(OpenedValue::Object(entries))->Object_0,
            forall|j: int| 0 <= j < i ==> members[j].0 != "version"@,
            forall|a: int, b: int|
                0 <= a < b < entries@.len() ==> entries@[a].0@ != entries@[b].0@,
        decreases entries@.len() - i,
    {
        if same_text(entries[i].0.as_str(), "version") {
            proof {
                assert(members[i as int].0 == "version"@);
                let at = member_index(members, "version"@);
                assert(members[at].0 == entries@[at].0@);
                assert(at == i);
            }
            let mut entries = entries;
            let (_, version) = entries.swap_remove(i);
            return usize_from_value(version);
        }
        i += 1;
    }
    proof {
        reveal_strlit("missing field `version`");
        assert("missing field `version`"@.last() == '`');
    }
    Err(shape_error("missing field `version`"))
}

/// Reads the version out of the elements of an array.
fn version_of_items(items: Vec<serde_json::Value>) -> (r: Result<usize, serde_json::Error>)
    ensures
        ({
            let json = opened_json(OpenedValue::Array(items));
            match r {
                Ok(version) => stated_version(json) == Some(version),
                Err(e) => stated_version(json) is None && error_text(e) == version_refusal(json),
            }
        }),
{
    let len = items.len();
    if len == 0 {
        proof {
            reveal_strlit("invalid length 0, expected struct Response with 1 element");
            assert("invalid length 0, expected struct Response with 1 element"@.last() == 't');
        }
        return Err(shape_error("invalid length 0, expected struct Response with 1 element"));
    }
    let mut items = items;
    match usize_from_value(items.swap_remove(0)) {
        Ok(version) => if len == 1 {
            Ok(version)
        } else {
            proof {
                reveal_strlit(", expected fewer elements in array");
            }
            let count = decimal_text(len as u64);
            let message = "invalid length ".to_owned().concat(count.as_str()).concat(
                ", expected fewer elements in array",
            );
            assert(message@.last() == 'y');
            Err(shape_error(message.as_str()))
        },
        Err(e) => Err(e),
    }
}

/// Gives a number as an error message speaks of it.
fn found_number(number: serde_json::Number) -> (r: String)
    ensures
        r@ == found_text(JsonView::Number(number_json(number))),
{
    match import_number(number) {
        JsonNumber::PosInt(n) => "integer `".to_owned().concat(decimal_text(n).as_str()).concat(
            "`",
        ),
        JsonNumber::NegInt(n) => {
            let size = (-(n as i128)) as u64;
            "integer `-".to_owned().concat(decimal_text(size).as_str()).concat("`")
        },
        JsonNumber::Float(text) => "floating point `".to_owned().concat(text.as_str()).concat("`"),
    }
}

/// Reads a reply that states the server version.
pub fn read_version(value: serde_json::Value) -> (r: Result<usize, RpcError>)
    ensures
        match r {
            Ok(version) => stated_version(value_json(value)) == Some(version),
            Err(e) => stated_version(value_json(value)) is None && is_refusal(
                e,
                version_refusal(value_json(value)),
            ),
        },
{
    let read = match open_value(value) {
        OpenedValue::Null => Err(type_error("null")),
        OpenedValue::Bool(true) => Err(type_error("boolean `true`")),
        OpenedValue::Bool(false) => Err(type_error("boolean `false`")),
        OpenedValue::Number(number) => Err(type_error(found_number(number).as_str())),
        OpenedValue::String(s) => Err(
            type_error("string ".to_owned().concat(quoted(s.as_str()).as_str()).as_str()),
        ),
        OpenedValue::Array(items) => version_of_items(items),
        OpenedValue::Object(entries) => version_of_entries(entries),
    };
    match read {
        Ok(version) => Ok(version),
        Err(e) => Err(RpcError::Json(e)),
    }
}

/// A value is taken over as what it holds.
pub proof fn law_value_is_taken_over(value: serde_json::Value, r: Json)
    requires
        call_ensures(import, (value,), r),
    ensures
        r@ == value_json(value),
{
}

/// A string is read as it is, and anything else is refused.
pub proof fn law_string_is_read(
    value: serde_json::Value,
    s: Seq<char>,
    r: Result<String, RpcError>,
)
    requires
        call_ensures(read_string, (value,), r),
    ensures
        value_json(value) == JsonView::String(s) <==> (r matches Ok(text) && text@ == s),
        r matches Err(e) ==> (e matches RpcError::Json(inner) && error_text(inner)
            == string_refusal(value_json(value))),
{
}

/// A number that is not negative is read as it is, and anything else is refused.
pub proof fn law_number_is_read(value: serde_json::Value, n: u64, r: Result<u64, RpcError>)
    requires
        call_ensures(read_u64, (value,), r),
    ensures
        value_json(value) == JsonView::Number(JsonNumberView::PosInt(n)) <==> r == Ok::<
            u64,
            RpcError,
        >(n),
        r matches Err(e) ==> (e matches RpcError::Json(inner) && error_text(inner) == u64_refusal(
            value_json(value),
        )),
{
}

/// The server version is the number under `version`, whatever other members the
/// reply has.
pub proof fn law_version_is_the_member_of_that_name(
    value: serde_json::Value,
    members: Seq<(Seq<char>, JsonView)>,
    i: int,
    n: usize,
    r: Result<usize, RpcError>,
)
    requires
        value_json(value) == JsonView::Object(members),
        0 <= i < members.len(),
        members[i].0 == "version"@,
        forall|j: int| 0 <= j < members.len() && j != i ==> (#[trigger] members[j]).0 != "version"@,
        call_ensures(read_version, (value,), r),
    ensures
        members[i].1 == JsonView::Number(JsonNumberView::PosInt(n as u64)) ==> r == Ok::<
            usize,
            RpcError,
        >(n),
        r == Ok::<usize, RpcError>(n) ==> members[i].1 == JsonView::Number(
            JsonNumberView::PosInt(n as u64),
        ),
        r matches Err(e) ==> (e matches RpcError::Json(inner) && error_text(inner)
            == usize_refusal(members[i].1)),
{
    assert(member_index(members, "version"@) == i);
}

/// A reply without a member `version` is refused for that.
pub proof fn law_version_is_missed(
    value: serde_json::Value,
    members: Seq<(Seq<char>, JsonView)>,
    r: Result<usize, RpcError>,
)
    requires
        value_json(value) == JsonView::Object(members),
        forall|j: int| 0 <= j < members.len() ==> (#[trigger] members[j]).0 != "version"@,
        call_ensures(read_version, (value,), r),
    ensures
        r matches Err(RpcError::Json(inner)) && error_text(inner) == "missing field `version`"@,
{
}

/// An array states the version where the version is its only element.
pub proof fn law_version_is_the_only_element(
    value: serde_json::Value,
    items: Seq<JsonView>,
    n: usize,
    r: Result<usize, RpcError>,
)
    requires
        value_json(value) == JsonView::Array(items),
        call_ensures(read_version, (value,), r),
    ensures
        items == seq![JsonView::Number(JsonNumberView::PosInt(n as u64))] <==> r == Ok::<
            usize,
            RpcError,
        >(n),
{
    if r == Ok::<usize, RpcError>(n) {
        assert(items =~= seq![JsonView::Number(JsonNumberView::PosInt(n as u64))]);
    }
}

/// An array that is empty, or that has more than one element, is refused for its
/// length where its first element is a version.
pub proof fn law_version_array_has_one_element(
    value: serde_json::Value,
    items: Seq<JsonView>,
    n: usize,
    r: Result<usize, RpcError>,
)
    requires
        value_json(value) == JsonView::Array(items),
        items.len() == 0 || (items.len() > 1 && items[0] == JsonView::Number(
            JsonNumberView::PosInt(n as u64),
        )),
        call_ensures(read_version, (value,), r),
    ensures
        r matches Err(RpcError::Json(e)) && error_text(e) == (if items.len() == 0 {
            "invalid length 0, expected struct Response with 1 element"@
        } else {
            "invalid length "@ + decimal(items.len()) + ", expected fewer elements in array"@
        }),
{
}

/// What is neither an object nor an array states no version, and is refused as
/// what it is.
pub proof fn law_version_is_in_an_object_or_an_array(
    value: serde_json::Value,
    r: Result<usize, RpcError>,
)
    requires
        !(value_json(value) is Object),
        !(value_json(value) is Array),
        call_ensures(read_version, (value,), r),
    ensures
        r matches Err(RpcError::Json(e)) && error_text(e) == "invalid type: "@ + (
        match value_json(value) {
            JsonView::Bool(b) => if b {
                "boolean `true`"@
            } else {
                "boolean `false`"@
            },
            JsonView::Number(JsonNumberView::PosInt(n)) => "integer `"@ + decimal(n as nat) + "`"@,
            JsonView::Number(JsonNumberView::NegInt(n)) => "integer `-"@ + decimal(-n as nat)
                + "`"@,
            JsonView::Number(JsonNumberView::Float(text)) => "floating point `"@ + text + "`"@,
            JsonView::String(text) => "string "@ + quoted_text(text),
            _ => "null"@,
        }) + ", expected struct Response"@,
{
}

} // verus!
