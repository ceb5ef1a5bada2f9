//! The arguments of contract calls that come as JSON objects.

use vstd::prelude::*;

verus! {

/// A member of a JSON object, as far as call arguments are read: `null`, a
/// string, or anything else.
#[derive(Debug, Clone, PartialEq, Eq)]
pub enum JsonValue {
    Null,
    Text(String),
    Other,
}

/// What a `JsonValue` holds.
pub enum JsonKind {
    Null,
    Text(Seq<char>),
    Other,
}

impl View for JsonValue {
    type V = JsonKind;

    open spec fn view(&self) -> JsonKind {
        match self {
            JsonValue::Null => JsonKind::Null,
            JsonValue::Text(text) => JsonKind::Text(text@),
            JsonValue::Other => JsonKind::Other,
        }
    }
}

/// A member of a JSON object with its name.
#[derive(Debug, Clone, PartialEq, Eq)]
pub struct JsonField {
    pub name: String,
    pub value: JsonValue,
}

/// The names and values that a list of members holds.
pub open spec fn fields_view(fields: Seq<JsonField>) -> Seq<(Seq<char>, JsonKind)> {
    fields.map_values(|f: JsonField| (f.name@, f.value@))
}

/// The members of the JSON object that `bytes` spell, where they spell one.
pub uninterp spec fn json_object_fields(bytes: Seq<u8>) -> Option<Seq<(Seq<char>, JsonKind)>>;

/// Parses `bytes` with `serde_json::from_slice` into a `serde_json::Map` and
/// hands its members out, each value as `null`, a string or something else.
/// The call fails on anything but one JSON object; what it gives depends on
/// the bytes alone.
#[verifier::external_body]
pub(crate) fn parse_json_object(bytes: &[u8]) -> (r: Option<Vec<JsonField>>)
    ensures
        r is None ==> json_object_fields(bytes@) is None,
        r matches Some(fields) ==> json_object_fields(bytes@) == Some(fields_view(fields@)),
{
    let parsed: Result<serde_json::Map<String, serde_json::Value>, _> = serde_json::from_slice(bytes);
    let members = parsed.ok()?.into_iter();
    Some(members.map(|(name, value)| JsonField { name, value: match value {
        serde_json::Value::Null => JsonValue::Null,
        serde_json::Value::String(text) => JsonValue::Text(text),
        serde_json::Value::Bool(_) => JsonValue::Other,
        serde_json::Value::Number(_) => JsonValue::Other,
        serde_json::Value::Array(_) => JsonValue::Other,
        serde_json::Value::Object(_) => JsonValue::Other,
    } }).collect())
}

/// The value of the first member called `name`.
pub open spec fn field_value(fields: Seq<(Seq<char>, JsonKind)>, name: Seq<char>) -> Option<
    JsonKind,
>
    decreases fields.len(),
{
    if fields.len() == 0 {
        None
    } else if fields[0].0 == name {
        Some(fields[0].1)
    } else {
        field_value(fields.drop_first(), name)
    }
}

/// The value of the first member called `name`.
pub fn find_field<'a>(fields: &'a Vec<JsonField>, name: &str) -> (r: Option<&'a JsonValue>)
    ensures
        r is None ==> field_value(fields_view(fields@), name@) is None,
        r matches Some(value) ==> field_value(fields_view(fields@), name@) == Some(value@),
{
    let wanted = name.to_owned();
    let ghost all = fields_view(fields@);
    let mut i: usize = 0;
    assert(all.skip(0) =~= all);
    while i < fields.len()
        invariant
            i <= fields.len(),
            wanted@ == name@,
            all == fields_view(fields@),
            field_value(all, name@) == field_value(all.skip(i as int), name@),
        decreases fields.len() - i,
    {
        let ghost rest = all.skip(i as int);
        assert(rest[0] == all[i as int]);
        assert(rest.drop_first() =~= all.skip(i as int + 1));
        if fields[i].name == wanted {
            return Some(&fields[i].value);
        }
        i += 1;
    }
    assert(all.skip(i as int).len() == 0);
    None
}

/// The value of a decimal digit.
pub open spec fn digit_value(c: char) -> Option<nat> {
    if '0' <= c && c <= '9' {
        Some((c as u32 - '0' as u32) as nat)
    } else {
        None
    }
}

/// The number that a run of decimal digits spells; nothing for an empty run
/// or one with another character in it.
pub open spec fn digits_value(digits: Seq<char>) -> Option<nat>
    decreases digits.len(),
{
    if digits.len() == 0 {
        None
    } else if digits.len() == 1 {
        digit_value(digits[0])
    } else {
        match (digits_value(digits.drop_last()), digit_value(digits.last())) {
            (Some(high), Some(low)) => Some(high * 10 + low),
            _ => None,
        }
    }
}

/// The number that `text` spells in decimal, with or without a `+` before
/// it, where it fits 128 bits.
pub open spec fn decimal_u128(text: Seq<char>) -> Option<u128> {
    let digits = if text.len() > 0 && text[0] == '+' {
        text.skip(1)
    } else {
        text
    };
    match digits_value(digits) {
        Some(value) => if value <= u128::MAX {
            Some(value as u128)
        } else {
            None
        },
        None => None,
    }
}

/// Reads a number with `str::parse::<u128>`, which std documents to accept
/// an optional `+` and then decimal digits only, and to fail on an empty
/// text and on a number that does not fit.
#[verifier::external_body]
pub(crate) fn parse_u128(text: &str) -> (r: Option<u128>)
    ensures
        r == decimal_u128(text@),
{
    text.parse::<u128>().ok()
}

/// The number that `bytes` spell as a JSON string of decimal digits, where
/// they spell one that fits 128 bits.
pub uninterp spec fn json_u128(bytes: Seq<u8>) -> Option<u128>;

/// Reads a number with `serde_json::from_slice` as a
/// `near_sdk::json_types::U128`, which is written as a JSON string that
/// holds the number in decimal. What the call gives depends on the bytes
/// alone.
#[verifier::external_body]
pub(crate) fn parse_json_u128(bytes: &[u8]) -> (r: Option<u128>)
    ensures
        r == json_u128(bytes@),
{
    let parsed: Result<near_sdk::json_types::U128, _> = serde_json::from_slice(bytes);
    match parsed {
        Ok(number) => Some(number.0),
        Err(_) => None,
    }
}

/// The bytes of the JSON object with the one member `name`, a string that
/// holds `value`.
pub uninterp spec fn json_member_bytes(name: Seq<char>, value: Seq<char>) -> Seq<u8>;

/// Whether a text stands in a JSON string as it is: it holds no quote, no
/// backslash and no control character.
pub open spec fn is_plain(text: Seq<char>) -> bool {
    forall|i: int|
        0 <= i < text.len() ==> (#[trigger] text[i]) != '"' && text[i] != '\\' && text[i] as u32
            >= 0x20
}

/// The text of the JSON object with the one member `name`, the string
/// `value`, for texts that stand in a JSON string as they are.
pub open spec fn member_text(name: Seq<char>, value: Seq<char>) -> Seq<char> {
    seq!['{', '"'] + name + seq!['"', ':', '"'] + value + seq!['"', '}']
}

/// Writes the JSON object with the one member `name`, the string `value`,
/// with `serde_json`: a `Map` with that member, as a `Value`, printed by
/// `to_string`. What the call gives depends on the two texts alone. It
/// prints without spaces and, as the crate's table of escapes has it, leaves
/// every character as it is but the quote, the backslash and the control
/// characters.
#[verifier::external_body]
pub(crate) fn write_json_member(name: &str, value: &str) -> (bytes: Vec<u8>)
    ensures
        bytes@ == json_member_bytes(name@, value@),
        is_plain(name@) && is_plain(value@) ==> bytes@ == vstd::utf8::encode_utf8(
            member_text(name@, value@),
        ),
{
    let mut members = serde_json::Map::new();
    members.insert(name.to_string(), serde_json::Value::String(value.to_string()));
    serde_json::Value::Object(members).to_string().into_bytes()
}

} // verus!
