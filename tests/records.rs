use author_console::classify::{classify, Message, MessageReturn};
use author_console::schema::{decode_annotation, decode_reading, decode_sheet_reading, JsonNumber, JsonValue};
use author_console::error::StoreError;
use author_console::models::{
    AlvariumAnnotation, AlvariumSignature, Annotation, Reading, ReadingValue, SensorId,
    SheetReading, SubValue,
};

fn example_reading() -> Reading {
    Reading::new()
        .with_sensor_id(SensorId("s1".to_string()))
        .with_data(ReadingValue {
            context: "x".to_string(),
            sub_value: vec![SubValue {
                fqn: "f".to_string(),
                date_time: "t".to_string(),
                opc_quality: 0,
                value: "1.0".to_string(),
                text: "".to_string(),
            }],
        })
}

fn annotation(id: &str, key: &str) -> AlvariumAnnotation {
    AlvariumAnnotation {
        id: id.to_string(),
        key: key.to_string(),
        hash: "sha256".to_string(),
        host: "h".to_string(),
        kind: "tpm".to_string(),
        signature: AlvariumSignature("sig".to_string()),
        is_satisfied: true,
        timestamp: "2022-01-01".to_string(),
    }
}

#[test]
fn canonical_json_of_example_reading() {
    let r = example_reading();
    assert_eq!(
        r.to_canonical_json(),
        "{\"sensorId\":\"s1\",\"value\":{\"@odata.context\":\"x\",\"value\":[{\"FQN\":\"f\",\"DateTime\":\"t\",\"OpcQuality\":0,\"Value\":1.0,\"Text\":\"\"}]}}"
    );
}

#[test]
fn reading_id_is_digest_of_canonical_json() {
    let r = example_reading();
    let id = r.compute_id();
    assert_eq!(id.0, sha256::digest(r.to_canonical_json().as_str()));
    assert_eq!(id.0.len(), 64);
    assert_ne!(id.0, r.to_canonical_json());
}

#[test]
fn canonical_json_escapes_strings_and_writes_decimals() {
    let r = Reading::new()
        .with_sensor_id(SensorId("a\"b".to_string()))
        .with_data(ReadingValue {
            context: "line\nbreak".to_string(),
            sub_value: vec![
                SubValue {
                    fqn: "q\\r".to_string(),
                    date_time: "".to_string(),
                    opc_quality: 4294967295,
                    value: "-2.5".to_string(),
                    text: "\t".to_string(),
                },
                SubValue {
                    fqn: "".to_string(),
                    date_time: "".to_string(),
                    opc_quality: 192,
                    value: "0.0".to_string(),
                    text: "".to_string(),
                },
            ],
        });
    assert_eq!(
        r.to_canonical_json(),
        "{\"sensorId\":\"a\\\"b\",\"value\":{\"@odata.context\":\"line\\nbreak\",\"value\":[{\"FQN\":\"q\\\\r\",\"DateTime\":\"\",\"OpcQuality\":4294967295,\"Value\":-2.5,\"Text\":\"\\t\"},{\"FQN\":\"\",\"DateTime\":\"\",\"OpcQuality\":192,\"Value\":0.0,\"Text\":\"\"}]}}"
    );
}

#[test]
fn canonical_json_of_empty_reading() {
    let r = Reading::new();
    assert_eq!(
        r.to_canonical_json(),
        "{\"sensorId\":\"\",\"value\":{\"@odata.context\":\"\",\"value\":[]}}"
    );
}

#[test]
fn sheet_reading_json_and_id() {
    let s = SheetReading { sheet_id: SensorId("sheet".to_string()), value: "aGVsbG8=".to_string() };
    assert_eq!(s.to_canonical_json(), "{\"sheetId\":\"sheet\",\"value\":\"aGVsbG8=\"}");
    assert_eq!(s.compute_id().0, sha256::digest("{\"sheetId\":\"sheet\",\"value\":\"aGVsbG8=\"}"));
}

#[test]
fn sheet_reading_value_decodes_base64_text() {
    let s = SheetReading { sheet_id: SensorId("sheet".to_string()), value: "aGVsbG8=".to_string() };
    assert_eq!(s.get_value().unwrap().0, "hello");
}

#[test]
fn sheet_reading_value_rejects_bad_base64() {
    let s = SheetReading { sheet_id: SensorId("sheet".to_string()), value: "not base64!".to_string() };
    assert_eq!(s.get_value(), Err(StoreError::DecodeError));
}

#[test]
fn sheet_reading_value_rejects_bad_utf8() {
    let s = SheetReading { sheet_id: SensorId("sheet".to_string()), value: "/w==".to_string() };
    assert_eq!(s.get_value(), Err(StoreError::DecodeError));
}

#[test]
fn annotation_content_bytes_decode() {
    let a = Annotation {
        action: "a".to_string(),
        content: "eyJpdGVtcyI6W119".to_string(),
        message_type: "m".to_string(),
    };
    assert_eq!(a.content_bytes().unwrap(), b"{\"items\":[]}".to_vec());
    let bad = Annotation { action: "a".to_string(), content: "%%".to_string(), message_type: "m".to_string() };
    assert_eq!(bad.content_bytes(), Err(StoreError::DecodeError));
}

#[test]
fn annotation_canonical_json() {
    let a = annotation("1", "k");
    assert_eq!(
        a.to_canonical_json(),
        "{\"id\":\"1\",\"key\":\"k\",\"hash\":\"sha256\",\"host\":\"h\",\"kind\":\"tpm\",\"signature\":\"sig\",\"isSatisfied\":true,\"timestamp\":\"2022-01-01\"}"
    );
    assert_eq!(a.get_reading_id().0, "k");
    assert_eq!(a.get_confidence_score(), 0);
}

#[test]
fn reading_builders_and_getters() {
    let r = example_reading();
    assert_eq!(r.get_sensor_id().0, "s1");
    assert_eq!(r.get_data().context, "x");
    assert_eq!(r.get_data().sub_value.len(), 1);
}

fn text(s: &str) -> JsonValue {
    JsonValue::Str(s.to_string())
}

fn number(as_u64: Option<u64>, f64_text: &str) -> JsonValue {
    JsonValue::Number(JsonNumber { as_u64, f64_text: f64_text.to_string() })
}

fn object(members: Vec<(&str, JsonValue)>) -> JsonValue {
    JsonValue::Object(members.into_iter().map(|(k, v)| (k.to_string(), v)).collect())
}

fn example_sub_value_json() -> JsonValue {
    object(vec![
        ("FQN", text("f")),
        ("DateTime", text("t")),
        ("OpcQuality", number(Some(0), "0.0")),
        ("Value", number(None, "1.0")),
        ("Text", text("")),
    ])
}

fn example_reading_json() -> JsonValue {
    object(vec![
        ("sensorId", text("s1")),
        (
            "value",
            object(vec![
                ("@odata.context", text("x")),
                ("value", JsonValue::Array(vec![example_sub_value_json()])),
            ]),
        ),
    ])
}

#[test]
fn decode_reading_reads_every_field() {
    assert_eq!(decode_reading(&example_reading_json()), Some(example_reading()));
}

#[test]
fn decode_reading_rejects_wrong_shapes() {
    let missing_sensor = object(vec![("value", object(vec![]))]);
    assert_eq!(decode_reading(&missing_sensor), None);
    let string_value = object(vec![("sensorId", text("s1")), ("value", text("abc"))]);
    assert_eq!(decode_reading(&string_value), None);
    let big_quality = object(vec![
        ("sensorId", text("s1")),
        (
            "value",
            object(vec![
                ("@odata.context", text("x")),
                (
                    "value",
                    JsonValue::Array(vec![object(vec![
                        ("FQN", text("f")),
                        ("DateTime", text("t")),
                        ("OpcQuality", number(Some(4294967296), "4294967296.0")),
                        ("Value", number(None, "1.0")),
                        ("Text", text("")),
                    ])]),
                ),
            ]),
        ),
    ]);
    assert_eq!(decode_reading(&big_quality), None);
}

#[test]
fn decode_reading_ignores_unknown_fields() {
    let with_extra = object(vec![
        ("extra", JsonValue::Null),
        ("sensorId", text("s1")),
        (
            "value",
            object(vec![
                ("@odata.context", text("x")),
                ("value", JsonValue::Array(vec![example_sub_value_json()])),
                ("more", JsonValue::Bool(true)),
            ]),
        ),
    ]);
    assert_eq!(decode_reading(&with_extra), Some(example_reading()));
}

#[test]
fn decode_sheet_reading_and_annotation() {
    let sheet = object(vec![("sheetId", text("sh")), ("value", text("aGVsbG8="))]);
    assert_eq!(
        decode_sheet_reading(&sheet),
        Some(SheetReading { sheet_id: SensorId("sh".to_string()), value: "aGVsbG8=".to_string() })
    );
    let ann = object(vec![("action", text("a")), ("content", text("c")), ("messageType", text("m"))]);
    assert_eq!(
        decode_annotation(&ann),
        Some(Annotation { action: "a".to_string(), content: "c".to_string(), message_type: "m".to_string() })
    );
    assert_eq!(decode_annotation(&sheet), None);
    assert_eq!(decode_sheet_reading(&ann), None);
}

#[test]
fn classify_prefers_reading() {
    let mut json = example_reading_json();
    if let JsonValue::Object(members) = &mut json {
        members.push(("sheetId".to_string(), text("sh")));
        members.push(("action".to_string(), text("a")));
        members.push(("content".to_string(), text("c")));
        members.push(("messageType".to_string(), text("m")));
    }
    let m = classify(b"{}".to_vec(), &Some(json));
    assert!(matches!(m, Some(Message::Reading(r)) if r == example_reading()));
}

#[test]
fn classify_sheet_reading_before_annotation() {
    let json = object(vec![
        ("sheetId", text("sh")),
        ("value", text("v")),
        ("action", text("a")),
        ("content", text("c")),
        ("messageType", text("m")),
    ]);
    let m = classify(b"{}".to_vec(), &Some(json));
    assert!(matches!(m, Some(Message::SheetReading(s)) if s.sheet_id.0 == "sh"));
}

#[test]
fn classify_annotation() {
    let json = object(vec![("action", text("a")), ("content", text("c")), ("messageType", text("m"))]);
    let m = classify(b"{}".to_vec(), &Some(json));
    assert!(matches!(m, Some(Message::Annotation(a)) if a.action == "a"));
}

#[test]
fn classify_other_text_and_drops_binary() {
    let m = classify(b"hello".to_vec(), &None);
    assert!(matches!(m, Some(Message::Other(t)) if t == "hello"));
    let unmatched = object(vec![("foo", text("bar"))]);
    let m = classify(b"{\"foo\":\"bar\"}".to_vec(), &Some(unmatched));
    assert!(matches!(m, Some(Message::Other(t)) if t == "{\"foo\":\"bar\"}"));
    assert!(classify(vec![0xff, 0xfe], &None).is_none());
}

#[test]
fn message_return_sorts_by_kind() {
    let mut batch = MessageReturn::new();
    batch.add(Message::Other("x".to_string()));
    batch.add(Message::Reading(example_reading()));
    batch.add(Message::Other("y".to_string()));
    assert_eq!(batch.readings.len(), 1);
    assert_eq!(batch.other, vec!["x".to_string(), "y".to_string()]);
    assert!(batch.sheet_readings.is_empty());
    assert!(batch.annotations.is_empty());
}
