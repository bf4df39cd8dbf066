//! The record schemas, checked against a parsed JSON payload. A payload
//! matches a schema where every field the schema names is present with the
//! right type; fields it does not name are ignored.

use vstd::prelude::*;
use crate::models::{Annotation, Reading, ReadingValue, SensorId, SheetReading, SubValue};

verus! {

/// A JSON number, as the schemas read it: as an unsigned integer where it is
/// one, and as the JSON text of its nearest double.
pub struct JsonNumber {
    pub as_u64: Option<u64>,
    pub f64_text: String,
}

/// A parsed JSON value. An object lists its members in order, each key once.
pub enum JsonValue {
    Null,
    Bool(bool),
    Number(JsonNumber),
    Str(String),
    Array(Vec<JsonValue>),
    Object(Vec<(String, JsonValue)>),
}

/// The value of the first member named `name`.
pub open spec fn member(members: Seq<(String, JsonValue)>, name: Seq<char>) -> Option<JsonValue>
    decreases members.len(),
{
    if members.len() == 0 {
        None
    } else if members[0].0@ == name {
        Some(members[0].1)
    } else {
        member(members.drop_first(), name)
    }
}

/// The value of field `name` of an object.
pub open spec fn field(v: JsonValue, name: Seq<char>) -> Option<JsonValue> {
    match v {
        JsonValue::Object(members) => member(members@, name),
        _ => None,
    }
}

/// The text of string field `name` of an object.
pub open spec fn text_field(v: JsonValue, name: Seq<char>) -> Option<Seq<char>> {
    match field(v, name) {
        Some(JsonValue::Str(s)) => Some(s@),
        _ => None,
    }
}

/// A 32-bit unsigned integer field.
pub open spec fn u32_field(v: JsonValue, name: Seq<char>) -> Option<u32> {
    match field(v, name) {
        Some(JsonValue::Number(n)) => match n.as_u64 {
            Some(u) => if u <= u32::MAX {
                Some(u as u32)
            } else {
                None
            },
            None => None,
        },
        _ => None,
    }
}

/// The number text of a number field.
pub open spec fn number_field(v: JsonValue, name: Seq<char>) -> Option<Seq<char>> {
    match field(v, name) {
        Some(JsonValue::Number(n)) => Some(n.f64_text@),
        _ => None,
    }
}

/// `v` is a sub-value and reads as `x`.
pub open spec fn reads_as_sub_value(v: JsonValue, x: SubValue) -> bool {
    &&& text_field(v, "FQN"@) == Some(x.fqn@)
    &&& text_field(v, "DateTime"@) == Some(x.date_time@)
    &&& u32_field(v, "OpcQuality"@) == Some(x.opc_quality)
    &&& number_field(v, "Value"@) == Some(x.value@)
    &&& text_field(v, "Text"@) == Some(x.text@)
}

pub open spec fn sub_value_shaped(v: JsonValue) -> bool {
    &&& text_field(v, "FQN"@) is Some
    &&& text_field(v, "DateTime"@) is Some
    &&& u32_field(v, "OpcQuality"@) is Some
    &&& number_field(v, "Value"@) is Some
    &&& text_field(v, "Text"@) is Some
}

/// The list of sub-values of a reading body, where it is an array.
pub open spec fn sub_value_items(body: JsonValue) -> Option<Seq<JsonValue>> {
    match field(body, "value"@) {
        Some(JsonValue::Array(items)) => Some(items@),
        _ => None,
    }
}

/// `v` has the shape of a reading: a text `sensorId`, and a `value` object
/// with a text `@odata.context` and a `value` array of sub-values.
pub open spec fn reading_shaped(v: JsonValue) -> bool {
    &&& text_field(v, "sensorId"@) is Some
    &&& field(v, "value"@) matches Some(body) && {
        &&& text_field(body, "@odata.context"@) is Some
        &&& sub_value_items(body) matches Some(items) && forall|i: int|
            0 <= i < items.len() ==> sub_value_shaped(#[trigger] items[i])
    }
}

/// `v` reads as the reading `r`.
pub open spec fn reads_as_reading(v: JsonValue, r: Reading) -> bool {
    &&& text_field(v, "sensorId"@) == Some(r.sensor_id.0@)
    &&& field(v, "value"@) matches Some(body) && {
        &&& text_field(body, "@odata.context"@) == Some(r.value.context@)
        &&& sub_value_items(body) matches Some(items) && {
            &&& items.len() == r.value.sub_value@.len()
            &&& forall|i: int|
                0 <= i < items.len() ==> reads_as_sub_value(
                    #[trigger] items[i],
                    r.value.sub_value@[i],
                )
        }
    }
}

/// `v` has the shape of a sheet reading: a text `sheetId` and a text
/// `value`.
pub open spec fn sheet_reading_shaped(v: JsonValue) -> bool {
    text_field(v, "sheetId"@) is Some && text_field(v, "value"@) is Some
}

pub open spec fn reads_as_sheet_reading(v: JsonValue, s: SheetReading) -> bool {
    text_field(v, "sheetId"@) == Some(s.sheet_id.0@) && text_field(v, "value"@) == Some(s.value@)
}

/// `v` has the shape of an annotation message: a text `action`, `content`
/// and `messageType`.
pub open spec fn annotation_shaped(v: JsonValue) -> bool {
    &&& text_field(v, "action"@) is Some
    &&& text_field(v, "content"@) is Some
    &&& text_field(v, "messageType"@) is Some
}

pub open spec fn reads_as_annotation(v: JsonValue, a: Annotation) -> bool {
    &&& text_field(v, "action"@) == Some(a.action@)
    &&& text_field(v, "content"@) == Some(a.content@)
    &&& text_field(v, "messageType"@) == Some(a.message_type@)
}

/// A reading's `value` is an object and a sheet reading's is a string, so no
/// payload has both shapes.
pub proof fn lemma_reading_and_sheet_reading_disjoint(v: JsonValue)
    ensures
        !(reading_shaped(v) && sheet_reading_shaped(v)),
{
}

/// A payload without a `sensorId` never has the shape of a reading, so an
/// annotation message, which names none, is never taken for one.
pub proof fn lemma_no_sensor_id_no_reading(v: JsonValue)
    requires
        field(v, "sensorId"@) is None,
    ensures
        !reading_shaped(v),
{
}

fn find_member<'a>(members: &'a Vec<(String, JsonValue)>, name: &str) -> (r: Option<&'a JsonValue>)
    ensures
        match r {
            Some(x) => member(members@, name@) == Some(*x),
            None => member(members@, name@) is None,
        },
{
    let key = String::from_str(name);
    let mut i: usize = 0;
    assert(members@.skip(0) =~= members@);
    while i < members.len()
        invariant
            i <= members@.len(),
            key@ == name@,
            member(members@, name@) == member(members@.skip(i as int), name@),
        decreases members@.len() - i,
    {
        assert(members@.skip(i as int).drop_first() =~= members@.skip(i + 1));
        assert(members@.skip(i as int)[0] == members@[i as int]);
        if members[i].0 == key {
            return Some(&members[i].1);
        }
        i = i + 1;
    }
    None
}

fn get_field<'a>(v: &'a JsonValue, name: &str) -> (r: Option<&'a JsonValue>)
    ensures
        match r {
            Some(x) => field(*v, name@) == Some(*x),
            None => field(*v, name@) is None,
        },
{
    match v {
        JsonValue::Object(members) => find_member(members, name),
        _ => None,
    }
}

fn get_text(v: &JsonValue, name: &str) -> (r: Option<String>)
    ensures
        match r {
            Some(s) => text_field(*v, name@) == Some(s@),
            None => text_field(*v, name@) is None,
        },
{
    match get_field(v, name) {
        Some(JsonValue::Str(s)) => Some(s.clone()),
        _ => None,
    }
}

fn get_u32(v: &JsonValue, name: &str) -> (r: Option<u32>)
    ensures
        r == u32_field(*v, name@),
{
    match get_field(v, name) {
        Some(JsonValue::Number(n)) => match n.as_u64 {
            Some(u) => if u <= 4294967295 {
                Some(u as u32)
            } else {
                None
            },
            None => None,
        },
        _ => None,
    }
}

fn get_number_text(v: &JsonValue, name: &str) -> (r: Option<String>)
    ensures
        match r {
            Some(s) => number_field(*v, name@) == Some(s@),
            None => number_field(*v, name@) is None,
        },
{
    match get_field(v, name) {
        Some(JsonValue::Number(n)) => Some(n.f64_text.clone()),
        _ => None,
    }
}

fn decode_sub_value(v: &JsonValue) -> (r: Option<SubValue>)
    ensures
        r is Some <==> sub_value_shaped(*v),
        r matches Some(x) ==> reads_as_sub_value(*v, x),
{
    let fqn = get_text(v, "FQN")?;
    let date_time = get_text(v, "DateTime")?;
    let opc_quality = get_u32(v, "OpcQuality")?;
    let value = get_number_text(v, "Value")?;
    let text = get_text(v, "Text")?;
    Some(SubValue { fqn, date_time, opc_quality, value, text })
}

/// Reads `v` as a reading, where it has that shape.
pub fn decode_reading(v: &JsonValue) -> (r: Option<Reading>)
    ensures
        r is Some <==> reading_shaped(*v),
        r matches Some(x) ==> reads_as_reading(*v, x),
{
    let sensor_id = get_text(v, "sensorId")?;
    let body = get_field(v, "value")?;
    let context = get_text(body, "@odata.context")?;
    let items = match get_field(body, "value") {
        Some(JsonValue::Array(items)) => items,
        _ => {
            return None;
        },
    };
    let mut sub_value: Vec<SubValue> = Vec::new();
    let mut i: usize = 0;
    while i < items.len()
        invariant
            i <= items@.len(),
            sub_value_items(*body) == Some(items@),
            field(*v, "value"@) == Some(*body),
            text_field(*v, "sensorId"@) == Some(sensor_id@),
            text_field(*body, "@odata.context"@) == Some(context@),
            sub_value@.len() == i,
            forall|j: int| 0 <= j < i ==> sub_value_shaped(#[trigger] items@[j]),
            forall|j: int| 0 <= j < i ==> reads_as_sub_value(#[trigger] items@[j], sub_value@[j]),
        decreases items@.len() - i,
    {
        match decode_sub_value(&items[i]) {
            Some(x) => sub_value.push(x),
            None => {
                proof {
                    if reading_shaped(*v) {
                        let b = field(*v, "value"@)->0;
                        assert(b == *body);
                        let its = sub_value_items(b)->0;
                        assert(its == items@);
                        assert(sub_value_shaped(its[i as int]));
                    }
                }
                return None;
            },
        }
        i = i + 1;
    }
    let r = Reading { sensor_id: SensorId(sensor_id), value: ReadingValue { context, sub_value } };
    assert(reads_as_reading(*v, r));
    Some(r)
}

/// Reads `v` as a sheet reading, where it has that shape.
pub fn decode_sheet_reading(v: &JsonValue) -> (r: Option<SheetReading>)
    ensures
        r is Some <==> sheet_reading_shaped(*v),
        r matches Some(x) ==> reads_as_sheet_reading(*v, x),
{
    let sheet_id = get_text(v, "sheetId")?;
    let value = get_text(v, "value")?;
    Some(SheetReading { sheet_id: SensorId(sheet_id), value })
}

/// Reads `v` as an annotation message, where it has that shape.
pub fn decode_annotation(v: &JsonValue) -> (r: Option<Annotation>)
    ensures
        r is Some <==> annotation_shaped(*v),
        r matches Some(x) ==> reads_as_annotation(*v, x),
{
    let action = get_text(v, "action")?;
    let content = get_text(v, "content")?;
    let message_type = get_text(v, "messageType")?;
    Some(Annotation { action, content, message_type })
}

} // verus!
