//! The records carried over the channel and kept by the stores.

use vstd::prelude::*;
use vstd::utf8::{decode_utf8, valid_utf8};
use crate::error::StoreError;
use crate::outside::{base64_decode, base64_decoded, utf8_string};

verus! {

/// Names a telemetry source.
#[derive(Debug, PartialEq, Eq)]
pub struct SensorId(pub String);

/// The content id of a record: the hex SHA-256 digest of its canonical JSON.
#[derive(Debug, PartialEq, Eq)]
pub struct ReadingId(pub String);

/// A stored reading as one row of the durable variant.
#[derive(Debug, PartialEq, Eq)]
pub struct ReadingWrapper {
    pub sensor_id: String,
    pub reading_id: String,
    pub reading: String,
}

/// A telemetry reading.
#[derive(Debug, PartialEq, Eq)]
pub struct Reading {
    pub sensor_id: SensorId,
    pub value: ReadingValue,
}

/// The body of a reading: a context and an ordered list of sub-values.
#[derive(Debug, PartialEq, Eq)]
pub struct ReadingValue {
    pub context: String,
    pub sub_value: Vec<SubValue>,
}

/// One measurement of a reading. `value` holds the measured number as the
/// JSON number text that stands for it in the reading's canonical JSON.
#[derive(Debug, PartialEq, Eq)]
pub struct SubValue {
    pub fqn: String,
    pub date_time: String,
    pub opc_quality: u32,
    pub value: String,
    pub text: String,
}

/// A reading whose payload is base64-encoded UTF-8 text.
#[derive(Debug, PartialEq, Eq)]
pub struct SheetReading {
    pub sheet_id: SensorId,
    pub value: String,
}

/// The decoded text of a sheet reading.
#[derive(Debug, PartialEq, Eq)]
pub struct SheetReadingValue(pub String);

impl Reading {
    pub fn new() -> (r: Reading)
        ensures
            r.sensor_id.0@ == Seq::<char>::empty(),
            r.value.context@ == Seq::<char>::empty(),
            r.value.sub_value@ == Seq::<SubValue>::empty(),
    {
        Reading {
            sensor_id: SensorId(String::new()),
            value: ReadingValue { context: String::new(), sub_value: Vec::new() },
        }
    }

    pub fn with_sensor_id(self, id: SensorId) -> (r: Reading)
        ensures
            r == (Reading { sensor_id: id, ..self }),
    {
        let mut r = self;
        r.sensor_id = id;
        r
    }

    pub fn with_data(self, data: ReadingValue) -> (r: Reading)
        ensures
            r == (Reading { value: data, ..self }),
    {
        let mut r = self;
        r.value = data;
        r
    }

    pub fn get_sensor_id(&self) -> (r: &SensorId)
        ensures
            *r == self.sensor_id,
    {
        &self.sensor_id
    }

    pub fn get_data(&self) -> (r: &ReadingValue)
        ensures
            *r == self.value,
    {
        &self.value
    }
}

/// The JWT-style header of an annotation token.
#[derive(Debug, PartialEq, Eq)]
pub struct AlvariumHeader {
    pub alg: String,
    pub typ: String,
}

/// The signature carried by an annotation.
#[derive(Debug, PartialEq, Eq)]
pub struct AlvariumSignature(pub String);

/// A provenance statement about one reading, whose id is `key`.
#[derive(Debug, PartialEq, Eq)]
pub struct AlvariumAnnotation {
    pub id: String,
    pub key: String,
    pub hash: String,
    pub host: String,
    pub kind: String,
    pub signature: AlvariumSignature,
    pub is_satisfied: bool,
    pub timestamp: String,
}

/// What one annotation adds to the confidence score of its reading: no
/// scoring rule is defined yet, so every annotation adds nothing.
pub open spec fn confidence_of(a: AlvariumAnnotation) -> nat {
    0
}

impl AlvariumAnnotation {
    /// The id of the reading that this annotation is about.
    pub fn get_reading_id(&self) -> (r: ReadingId)
        ensures
            r.0@ == self.key@,
    {
        ReadingId(self.key.clone())
    }

    pub fn get_confidence_score(&self) -> (r: u64)
        ensures
            r == confidence_of(*self),
    {
        0
    }
}

/// A channel message that carries annotations: `content` is base64 of a JSON
/// list of annotations.
#[derive(Debug, PartialEq, Eq)]
pub struct Annotation {
    pub action: String,
    pub content: String,
    pub message_type: String,
}

/// A stored annotation as one row of the durable variant.
#[derive(Debug, PartialEq, Eq)]
pub struct AnnotationWrapper {
    pub reading_id: String,
    pub annotation: String,
}

/// The decoded content of an annotation message.
#[derive(Debug, PartialEq, Eq)]
pub struct AnnotationList {
    pub items: Vec<AlvariumAnnotation>,
}

impl Annotation {
    /// The confidence score of the message as a whole: no scoring rule is
    /// defined yet.
    pub fn get_confidence_score(&self) -> (r: u64)
        ensures
            r == 0,
    {
        0
    }
}

/// The text that a sheet reading's payload decodes to (base64, then UTF-8),
/// or `None` where either step fails.
pub open spec fn sheet_text_of(r: SheetReading) -> Option<Seq<char>> {
    match base64_decoded(r.value@) {
        Some(b) => if valid_utf8(b) {
            Some(decode_utf8(b))
        } else {
            None
        },
        None => None,
    }
}

impl SheetReading {
    /// Decodes the payload: base64, then UTF-8.
    pub fn get_value(&self) -> (r: Result<SheetReadingValue, StoreError>)
        ensures
            match r {
                Ok(v) => sheet_text_of(*self) == Some(v.0@),
                Err(e) => e == StoreError::DecodeError && sheet_text_of(*self) is None,
            },
    {
        match base64_decode(self.value.as_str()) {
            Some(bytes) => match utf8_string(bytes) {
                Some(text) => Ok(SheetReadingValue(text)),
                None => Err(StoreError::DecodeError),
            },
            None => Err(StoreError::DecodeError),
        }
    }
}

impl Annotation {
    /// The bytes of the base64 content: the JSON text of an annotation list.
    pub fn content_bytes(&self) -> (r: Result<Vec<u8>, StoreError>)
        ensures
            match r {
                Ok(b) => base64_decoded(self.content@) == Some(b@),
                Err(e) => e == StoreError::DecodeError && base64_decoded(self.content@) is None,
            },
    {
        match base64_decode(self.content.as_str()) {
            Some(bytes) => Ok(bytes),
            None => Err(StoreError::DecodeError),
        }
    }
}

} // verus!
