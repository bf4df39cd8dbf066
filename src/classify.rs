//! Sorting decrypted channel payloads into record kinds.

use vstd::prelude::*;
use vstd::utf8::{decode_utf8, valid_utf8};
use crate::models::{Annotation, Reading, SheetReading};
use crate::schema::{
    annotation_shaped, decode_annotation, decode_reading, decode_sheet_reading,
    lemma_reading_and_sheet_reading_disjoint, reading_shaped, reads_as_annotation,
    reads_as_reading, reads_as_sheet_reading, sheet_reading_shaped, JsonValue,
};
use crate::outside::utf8_string;

verus! {

/// One classified channel payload.
pub enum Message {
    Reading(Reading),
    SheetReading(SheetReading),
    Annotation(Annotation),
    /// UTF-8 text that matches none of the record schemas.
    Other(String),
}

/// `json` matches none of the record schemas: it is absent (the payload is
/// not JSON) or has none of their shapes.
pub open spec fn matches_no_schema(json: Option<JsonValue>) -> bool {
    match json {
        Some(v) => !reading_shaped(v) && !sheet_reading_shaped(v) && !annotation_shaped(v),
        None => true,
    }
}

/// Classifies one decrypted payload, given its parse as JSON (`None` where
/// it is not JSON). The schemas are tried in the order reading, sheet
/// reading, annotation, and the first that matches wins; text that matches
/// none is `Other`, and bytes that are not UTF-8 are dropped.
pub fn classify(payload: Vec<u8>, json: &Option<JsonValue>) -> (r: Option<Message>)
    ensures
        match *json {
            Some(v) => {
                &&& reading_shaped(v) ==> (r matches Some(Message::Reading(x)) && reads_as_reading(
                    v,
                    x,
                ))
                &&& !reading_shaped(v) && sheet_reading_shaped(v) ==> (r matches Some(
                    Message::SheetReading(x),
                ) && reads_as_sheet_reading(v, x))
                &&& !reading_shaped(v) && !sheet_reading_shaped(v) && annotation_shaped(v) ==> (r matches Some(
                    Message::Annotation(x),
                ) && reads_as_annotation(v, x))
            },
            None => true,
        },
        matches_no_schema(*json) ==> {
            &&& r is Some <==> valid_utf8(payload@)
            &&& r matches Some(m) ==> m matches Message::Other(t) && t@ == decode_utf8(payload@)
        },
{
    if let Some(v) = json {
        if let Some(reading) = decode_reading(v) {
            return Some(Message::Reading(reading));
        }
        if let Some(sheet) = decode_sheet_reading(v) {
            return Some(Message::SheetReading(sheet));
        }
        if let Some(annotation) = decode_annotation(v) {
            return Some(Message::Annotation(annotation));
        }
    }
    match utf8_string(payload) {
        Some(text) => Some(Message::Other(text)),
        None => None,
    }
}

/// A payload with the shape of a reading is classified as a reading and
/// never as a sheet reading or an annotation; one with the shape of a sheet
/// reading is never classified as a reading.
pub proof fn lemma_no_cross_classification(v: JsonValue)
    ensures
        reading_shaped(v) ==> !sheet_reading_shaped(v),
        sheet_reading_shaped(v) ==> !reading_shaped(v),
        reading_shaped(v) ==> !matches_no_schema(Some(v)),
{
    lemma_reading_and_sheet_reading_disjoint(v);
}

/// The messages drained from the channel in one pass, by kind, each list in
/// the order of arrival.
pub struct MessageReturn {
    pub readings: Vec<Reading>,
    pub sheet_readings: Vec<SheetReading>,
    pub annotations: Vec<Annotation>,
    pub other: Vec<String>,
}

impl MessageReturn {
    pub fn new() -> (r: MessageReturn)
        ensures
            r.readings@.len() == 0,
            r.sheet_readings@.len() == 0,
            r.annotations@.len() == 0,
            r.other@.len() == 0,
    {
        MessageReturn {
            readings: Vec::new(),
            sheet_readings: Vec::new(),
            annotations: Vec::new(),
            other: Vec::new(),
        }
    }

    /// Appends `m` to the list of its kind.
    pub fn add(&mut self, m: Message)
        ensures
            match m {
                Message::Reading(r) => final(self).readings@ == old(self).readings@.push(r)
                    && final(self).sheet_readings == old(self).sheet_readings
                    && final(self).annotations == old(self).annotations
                    && final(self).other == old(self).other,
                Message::SheetReading(s) => final(self).sheet_readings@ == old(
                    self,
                ).sheet_readings@.push(s) && final(self).readings == old(self).readings
                    && final(self).annotations == old(self).annotations
                    && final(self).other == old(self).other,
                Message::Annotation(a) => final(self).annotations@ == old(self).annotations@.push(a)
                    && final(self).readings == old(self).readings
                    && final(self).sheet_readings == old(self).sheet_readings
                    && final(self).other == old(self).other,
                Message::Other(t) => final(self).other@ == old(self).other@.push(t)
                    && final(self).readings == old(self).readings
                    && final(self).sheet_readings == old(self).sheet_readings
                    && final(self).annotations == old(self).annotations,
            },
    {
        match m {
            Message::Reading(r) => self.readings.push(r),
            Message::SheetReading(s) => self.sheet_readings.push(s),
            Message::Annotation(a) => self.annotations.push(a),
            Message::Other(t) => self.other.push(t),
        }
    }
}

} // verus!
