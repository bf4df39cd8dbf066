//! The canonical JSON text of each record, from which its content id is
//! derived. Fields appear in declaration order, strings are written as
//! serde_json writes them, and no whitespace is added.

use vstd::prelude::*;
use crate::models::{
    AlvariumAnnotation, Reading, ReadingId, SheetReading, SubValue,
};
use crate::outside::{json_string, json_string_of, sha256_hex, sha256_hex_of};

verus! {

/// The decimal digit `d` as text.
pub open spec fn digit_text(d: nat) -> Seq<char> {
    if d == 0 { "0"@ }
    else if d == 1 { "1"@ }
    else if d == 2 { "2"@ }
    else if d == 3 { "3"@ }
    else if d == 4 { "4"@ }
    else if d == 5 { "5"@ }
    else if d == 6 { "6"@ }
    else if d == 7 { "7"@ }
    else if d == 8 { "8"@ }
    else { "9"@ }
}

/// `n` in decimal, without leading zeros.
pub open spec fn decimal(n: nat) -> Seq<char>
    decreases n,
{
    if n < 10 {
        digit_text(n)
    } else {
        decimal(n / 10) + digit_text(n % 10)
    }
}

pub open spec fn bool_text(b: bool) -> Seq<char> {
    if b { "true"@ } else { "false"@ }
}

pub open spec fn canonical_sub_value(v: SubValue) -> Seq<char> {
    "{\"FQN\":"@ + json_string_of(v.fqn@) + ",\"DateTime\":"@ + json_string_of(v.date_time@)
        + ",\"OpcQuality\":"@ + decimal(v.opc_quality as nat) + ",\"Value\":"@ + v.value@
        + ",\"Text\":"@ + json_string_of(v.text@) + "}"@
}

/// The sub-values, comma separated.
pub open spec fn canonical_sub_values(s: Seq<SubValue>) -> Seq<char>
    decreases s.len(),
{
    if s.len() == 0 {
        Seq::empty()
    } else if s.len() == 1 {
        canonical_sub_value(s[0])
    } else {
        canonical_sub_values(s.drop_last()) + ","@ + canonical_sub_value(s.last())
    }
}

pub open spec fn canonical_reading(r: Reading) -> Seq<char> {
    "{\"sensorId\":"@ + json_string_of(r.sensor_id.0@) + ",\"value\":{\"@odata.context\":"@
        + json_string_of(r.value.context@) + ",\"value\":["@ + canonical_sub_values(
        r.value.sub_value@,
    ) + "]}}"@
}

pub open spec fn canonical_sheet_reading(r: SheetReading) -> Seq<char> {
    "{\"sheetId\":"@ + json_string_of(r.sheet_id.0@) + ",\"value\":"@ + json_string_of(r.value@)
        + "}"@
}

pub open spec fn canonical_annotation(a: AlvariumAnnotation) -> Seq<char> {
    "{\"id\":"@ + json_string_of(a.id@) + ",\"key\":"@ + json_string_of(a.key@) + ",\"hash\":"@
        + json_string_of(a.hash@) + ",\"host\":"@ + json_string_of(a.host@) + ",\"kind\":"@
        + json_string_of(a.kind@) + ",\"signature\":"@ + json_string_of(a.signature.0@)
        + ",\"isSatisfied\":"@ + bool_text(a.is_satisfied) + ",\"timestamp\":"@ + json_string_of(
        a.timestamp@,
    ) + "}"@
}

/// The content id of a reading.
pub open spec fn reading_id_of(r: Reading) -> Seq<char> {
    sha256_hex_of(canonical_reading(r))
}

/// The content id of a sheet reading.
pub open spec fn sheet_reading_id_of(r: SheetReading) -> Seq<char> {
    sha256_hex_of(canonical_sheet_reading(r))
}

fn push_digit(out: &mut String, d: u32)
    requires
        d < 10,
    ensures
        final(out)@ == old(out)@ + digit_text(d as nat),
{
    if d == 0 { out.append("0") }
    else if d == 1 { out.append("1") }
    else if d == 2 { out.append("2") }
    else if d == 3 { out.append("3") }
    else if d == 4 { out.append("4") }
    else if d == 5 { out.append("5") }
    else if d == 6 { out.append("6") }
    else if d == 7 { out.append("7") }
    else if d == 8 { out.append("8") }
    else { out.append("9") }
}

fn push_decimal(out: &mut String, n: u32)
    ensures
        final(out)@ == old(out)@ + decimal(n as nat),
    decreases n,
{
    if n < 10 {
        push_digit(out, n);
    } else {
        push_decimal(out, n / 10);
        push_digit(out, n % 10);
        assert(final(out)@ =~= old(out)@ + decimal(n as nat));
    }
}

fn push_json_string(out: &mut String, s: &String)
    ensures
        final(out)@ == old(out)@ + json_string_of(s@),
{
    let q = json_string(s.as_str());
    out.append(q.as_str());
}

fn push_sub_value(out: &mut String, v: &SubValue)
    ensures
        final(out)@ == old(out)@ + canonical_sub_value(*v),
{
    let ghost start = out@;
    out.append("{\"FQN\":");
    push_json_string(out, &v.fqn);
    out.append(",\"DateTime\":");
    push_json_string(out, &v.date_time);
    out.append(",\"OpcQuality\":");
    push_decimal(out, v.opc_quality);
    out.append(",\"Value\":");
    out.append(v.value.as_str());
    out.append(",\"Text\":");
    push_json_string(out, &v.text);
    out.append("}");
    assert(out@ =~= start + canonical_sub_value(*v));
}

fn push_sub_values(out: &mut String, s: &Vec<SubValue>)
    ensures
        final(out)@ == old(out)@ + canonical_sub_values(s@),
{
    let ghost start = out@;
    let mut i: usize = 0;
    while i < s.len()
        invariant
            i <= s@.len(),
            out@ == start + canonical_sub_values(s@.take(i as int)),
        decreases s@.len() - i,
    {
        assert(s@.take(i + 1).drop_last() =~= s@.take(i as int));
        assert(s@.take(i + 1).last() == s@[i as int]);
        if i > 0 {
            out.append(",");
        }
        push_sub_value(out, &s[i]);
        i = i + 1;
        assert(out@ =~= start + canonical_sub_values(s@.take(i as int)));
    }
    assert(s@.take(i as int) =~= s@);
}

impl Reading {
    /// The canonical JSON text of the reading.
    pub fn to_canonical_json(&self) -> (r: String)
        ensures
            r@ == canonical_reading(*self),
    {
        let mut out = String::new();
        out.append("{\"sensorId\":");
        push_json_string(&mut out, &self.sensor_id.0);
        out.append(",\"value\":{\"@odata.context\":");
        push_json_string(&mut out, &self.value.context);
        out.append(",\"value\":[");
        push_sub_values(&mut out, &self.value.sub_value);
        out.append("]}}");
        assert(out@ =~= canonical_reading(*self));
        out
    }

    /// The content id of the reading, derived from its canonical JSON.
    pub fn compute_id(&self) -> (r: ReadingId)
        ensures
            r.0@ == reading_id_of(*self),
    {
        let text = self.to_canonical_json();
        ReadingId(sha256_hex(text.as_str()))
    }
}

impl SheetReading {
    /// The canonical JSON text of the sheet reading, payload still encoded.
    pub fn to_canonical_json(&self) -> (r: String)
        ensures
            r@ == canonical_sheet_reading(*self),
    {
        let mut out = String::new();
        out.append("{\"sheetId\":");
        push_json_string(&mut out, &self.sheet_id.0);
        out.append(",\"value\":");
        push_json_string(&mut out, &self.value);
        out.append("}");
        assert(out@ =~= canonical_sheet_reading(*self));
        out
    }

    /// The content id of the sheet reading, derived from its canonical JSON.
    pub fn compute_id(&self) -> (r: ReadingId)
        ensures
            r.0@ == sheet_reading_id_of(*self),
    {
        let text = self.to_canonical_json();
        ReadingId(sha256_hex(text.as_str()))
    }
}

impl AlvariumAnnotation {
    /// The canonical JSON text of the annotation.
    pub fn to_canonical_json(&self) -> (r: String)
        ensures
            r@ == canonical_annotation(*self),
    {
        let mut out = String::new();
        out.append("{\"id\":");
        push_json_string(&mut out, &self.id);
        out.append(",\"key\":");
        push_json_string(&mut out, &self.key);
        out.append(",\"hash\":");
        push_json_string(&mut out, &self.hash);
        out.append(",\"host\":");
        push_json_string(&mut out, &self.host);
        out.append(",\"kind\":");
        push_json_string(&mut out, &self.kind);
        out.append(",\"signature\":");
        push_json_string(&mut out, &self.signature.0);
        out.append(",\"isSatisfied\":");
        if self.is_satisfied {
            out.append("true");
        } else {
            out.append("false");
        }
        out.append(",\"timestamp\":");
        push_json_string(&mut out, &self.timestamp);
        out.append("}");
        assert(out@ =~= canonical_annotation(*self));
        out
    }
}

} // verus!
