use author_console::annotation_store::AnnotationStore;
use author_console::error::StoreError;
use author_console::ingest::{
    annotation_row, ingest_annotations, ingest_readings, ingest_sheet_readings, reading_row,
    sheet_reading_row,
};
use author_console::models::{
    AlvariumAnnotation, AlvariumSignature, Reading, ReadingId, ReadingValue, SensorId,
    SheetReading, SubValue,
};
use author_console::query::{verified_annotations, verified_confidence_score, verify_reading};
use author_console::reading_store::ReadingStore;

fn reading(sensor: &str, context: &str, n_sub: usize) -> Reading {
    let mut sub_value = Vec::new();
    for i in 0..n_sub {
        sub_value.push(SubValue {
            fqn: format!("f{}", i),
            date_time: "t".to_string(),
            opc_quality: 0,
            value: "1.0".to_string(),
            text: "".to_string(),
        });
    }
    Reading::new()
        .with_sensor_id(SensorId(sensor.to_string()))
        .with_data(ReadingValue { context: context.to_string(), sub_value })
}

fn example_reading() -> Reading {
    Reading::new()
        .with_sensor_id(SensorId("s1".to_string()))
        .with_data(ReadingValue {
            context: "x".to_string(),
            sub_value: vec![SubValue {
                fqn: "f".to_string(),
                date_time: "t".to_string(),
                opc_quality: 0,
                value: "1.0".to_string(),
                text: "".to_string(),
            }],
        })
}

fn annotation(id: &str, key: &str) -> AlvariumAnnotation {
    AlvariumAnnotation {
        id: id.to_string(),
        key: key.to_string(),
        hash: "sha256".to_string(),
        host: "h".to_string(),
        kind: "tpm".to_string(),
        signature: AlvariumSignature("sig".to_string()),
        is_satisfied: false,
        timestamp: "ts".to_string(),
    }
}

fn sid(s: &str) -> SensorId {
    SensorId(s.to_string())
}

#[test]
fn insert_then_get_holds_reading_under_its_id() {
    let mut store = ReadingStore::new();
    let r = reading("s1", "ctx", 2);
    let id = r.compute_id();
    assert_eq!(store.insert_reading(&sid("s1"), r), Ok(()));
    let map = store.get(&sid("s1")).unwrap();
    assert_eq!(map.get(&id.0), Some(&reading("s1", "ctx", 2)));
    assert_eq!(map.entries().len(), 1);
}

#[test]
fn get_unknown_sensor_is_not_found() {
    let store = ReadingStore::new();
    assert!(matches!(store.get(&sid("nobody")), Err(StoreError::NotFound)));
}

#[test]
fn reinsert_with_sub_values_is_duplicate() {
    let mut store = ReadingStore::new();
    assert_eq!(store.insert_reading(&sid("s1"), reading("s1", "c", 1)), Ok(()));
    assert_eq!(store.insert_reading(&sid("s1"), reading("s1", "c", 1)), Err(StoreError::DuplicateRecord));
    assert_eq!(store.get(&sid("s1")).unwrap().entries().len(), 1);
}

#[test]
fn reinsert_without_sub_values_succeeds() {
    let mut store = ReadingStore::new();
    assert_eq!(store.insert_reading(&sid("s1"), reading("s1", "c", 0)), Ok(()));
    assert_eq!(store.insert_reading(&sid("s1"), reading("s1", "c", 0)), Ok(()));
    assert_eq!(store.get(&sid("s1")).unwrap().entries().len(), 1);
}

#[test]
fn same_reading_for_another_sensor_is_no_duplicate() {
    let mut store = ReadingStore::new();
    assert_eq!(store.insert_reading(&sid("a"), reading("s1", "c", 1)), Ok(()));
    assert_eq!(store.insert_reading(&sid("b"), reading("s1", "c", 1)), Ok(()));
}

#[test]
fn sheet_reading_duplicate_and_decode_errors() {
    let mut store = ReadingStore::new();
    let good = || SheetReading { sheet_id: sid("sh"), value: "aGVsbG8=".to_string() };
    assert_eq!(store.insert_sheet_reading(&sid("sh"), good()), Ok(()));
    assert_eq!(store.insert_sheet_reading(&sid("sh"), good()), Err(StoreError::DuplicateRecord));
    let bad = SheetReading { sheet_id: sid("sh"), value: "???".to_string() };
    assert_eq!(store.insert_sheet_reading(&sid("sh"), bad), Err(StoreError::DecodeError));
    let bad_new = SheetReading { sheet_id: sid("other"), value: "???".to_string() };
    assert_eq!(store.insert_sheet_reading(&sid("other"), bad_new), Err(StoreError::DecodeError));
}

#[test]
fn annotations_kept_in_insertion_order() {
    let mut store = AnnotationStore::new();
    let key = ReadingId("r1".to_string());
    for i in 0..3 {
        assert_eq!(store.insert(&key, annotation(&i.to_string(), "r1")), Ok(()));
    }
    let list = store.get(&key).unwrap();
    assert_eq!(list.len(), 3);
    assert_eq!(list[0].id, "0");
    assert_eq!(list[1].id, "1");
    assert_eq!(list[2].id, "2");
}

#[test]
fn identical_annotations_are_not_deduplicated() {
    let mut store = AnnotationStore::new();
    let key = ReadingId("r1".to_string());
    store.insert(&key, annotation("a", "r1")).unwrap();
    store.insert(&key, annotation("a", "r1")).unwrap();
    assert_eq!(store.get(&key).unwrap().len(), 2);
}

#[test]
fn annotation_get_and_score_of_unknown_id() {
    let store = AnnotationStore::new();
    let key = ReadingId("none".to_string());
    assert!(matches!(store.get(&key), Err(StoreError::NotFound)));
    assert_eq!(store.confidence_score(&key), Err(StoreError::NotFound));
}

#[test]
fn annotation_iter_lists_every_id() {
    let mut store = AnnotationStore::new();
    store.insert(&ReadingId("a".to_string()), annotation("1", "a")).unwrap();
    store.insert(&ReadingId("b".to_string()), annotation("2", "b")).unwrap();
    store.insert(&ReadingId("a".to_string()), annotation("3", "a")).unwrap();
    let entries = store.iter();
    assert_eq!(entries.len(), 2);
    let a = entries.iter().find(|e| e.0 == "a").unwrap();
    assert_eq!(a.1.len(), 2);
}

#[test]
fn example_ingest_query_and_score() {
    let mut readings = ReadingStore::new();
    let mut annotations = AnnotationStore::new();
    let h = example_reading().compute_id();
    assert_eq!(readings.insert_reading(&sid("s1"), example_reading()), Ok(()));
    let map = readings.get(&sid("s1")).unwrap();
    assert_eq!(map.entries().len(), 1);
    assert_eq!(map.get(&h.0), Some(&example_reading()));
    annotations.insert(&ReadingId(h.0.clone()), annotation("1", &h.0)).unwrap();
    assert_eq!(verified_confidence_score(&readings, &annotations, &sid("s1"), &h), Ok(0));
    let released = verified_annotations(&readings, &annotations, &sid("s1"), &h).unwrap();
    assert_eq!(released.len(), 1);
}

#[test]
fn altered_id_is_refused() {
    let mut readings = ReadingStore::new();
    let annotations = AnnotationStore::new();
    let h = example_reading().compute_id();
    readings.insert_reading(&sid("s1"), example_reading()).unwrap();
    let mut altered = h.0.clone();
    let last = altered.pop().unwrap();
    altered.push(if last == '0' { '1' } else { '0' });
    let altered = ReadingId(altered);
    assert!(verified_annotations(&readings, &annotations, &sid("s1"), &altered).is_err());
    assert_eq!(verify_reading(&readings, &sid("s1"), &altered), Err(StoreError::NotFound));
}

#[test]
fn verified_query_unknown_sensor_and_missing_annotations() {
    let mut readings = ReadingStore::new();
    let annotations = AnnotationStore::new();
    let h = example_reading().compute_id();
    assert_eq!(verify_reading(&readings, &sid("s1"), &h), Err(StoreError::NotFound));
    readings.insert_reading(&sid("s1"), example_reading()).unwrap();
    assert_eq!(verify_reading(&readings, &sid("s1"), &h), Ok(&example_reading()));
    assert_eq!(verified_annotations(&readings, &annotations, &sid("s1"), &h), Err(StoreError::NotFound));
}

#[test]
fn ingest_batch_goes_on_after_a_refused_record() {
    let mut store = ReadingStore::new();
    let batch = vec![reading("s1", "a", 1), reading("s1", "a", 1), reading("s2", "b", 1)];
    let outcomes = ingest_readings(&mut store, batch);
    assert_eq!(outcomes, vec![Ok(()), Err(StoreError::DuplicateRecord), Ok(())]);
    assert!(store.get(&sid("s2")).is_ok());
}

#[test]
fn ingest_sheet_batch_goes_on_after_bad_payload() {
    let mut store = ReadingStore::new();
    let batch = vec![
        SheetReading { sheet_id: sid("sh"), value: "***".to_string() },
        SheetReading { sheet_id: sid("sh"), value: "aGVsbG8=".to_string() },
    ];
    let outcomes = ingest_sheet_readings(&mut store, batch);
    assert_eq!(outcomes, vec![Err(StoreError::DecodeError), Ok(())]);
}

#[test]
fn ingest_annotations_groups_by_reading_id() {
    let mut store = AnnotationStore::new();
    ingest_annotations(&mut store, vec![annotation("1", "a"), annotation("2", "b"), annotation("3", "a")]);
    let a = store.get(&ReadingId("a".to_string())).unwrap();
    assert_eq!(a.iter().map(|x| x.id.clone()).collect::<Vec<_>>(), vec!["1", "3"]);
    assert_eq!(store.get(&ReadingId("b".to_string())).unwrap().len(), 1);
}

#[test]
fn durable_rows() {
    let r = example_reading();
    let row = reading_row(&r);
    assert_eq!(row.sensor_id, "s1");
    assert_eq!(row.reading_id, r.compute_id().0);
    assert_eq!(row.reading, r.to_canonical_json());
    let sheet = SheetReading { sheet_id: sid("sh"), value: "aGVsbG8=".to_string() };
    let srow = sheet_reading_row(&sheet).unwrap();
    assert_eq!(srow.reading, "hello");
    assert_eq!(srow.reading_id, sheet.compute_id().0);
    let bad = SheetReading { sheet_id: sid("sh"), value: "!".to_string() };
    assert_eq!(sheet_reading_row(&bad), Err(StoreError::DecodeError));
    let a = annotation("1", "k");
    let arow = annotation_row(&a);
    assert_eq!(arow.reading_id, "k");
    assert_eq!(arow.annotation, a.to_canonical_json());
}
