//! What the retrieval loop does with one drained batch: every record is
//! stored on its own, and one record's failure does not stop the others.
//! Also the rows that the durable variant writes for each record.

use vstd::prelude::*;
use crate::annotation_store::{annotations_at, AnnotationStore};
use crate::error::StoreError;
use crate::json::{canonical_annotation, canonical_reading, reading_id_of, sheet_reading_id_of};
use crate::models::{
    sheet_text_of, AlvariumAnnotation, AnnotationWrapper, Reading, ReadingId, ReadingWrapper,
    SensorId, SheetReading,
};
use crate::reading_store::{holds_id, reading_refused, with_record, ReadingStore};

verus! {

/// The readings view after each reading of `rs` is stored in turn for its
/// own sensor, refused duplicates left out.
pub open spec fn readings_after(
    m: Map<Seq<char>, Map<Seq<char>, Reading>>,
    rs: Seq<Reading>,
) -> Map<Seq<char>, Map<Seq<char>, Reading>>
    decreases rs.len(),
{
    if rs.len() == 0 {
        m
    } else {
        let prev = readings_after(m, rs.drop_last());
        let r = rs.last();
        if reading_refused(prev, r.sensor_id.0@, r) {
            prev
        } else {
            with_record(prev, r.sensor_id.0@, reading_id_of(r), r)
        }
    }
}

/// The sheet-reading view after each sheet reading of `rs` is stored in turn
/// for its own sheet id, refused ones left out.
pub open spec fn sheets_after(
    m: Map<Seq<char>, Map<Seq<char>, Seq<char>>>,
    rs: Seq<SheetReading>,
) -> Map<Seq<char>, Map<Seq<char>, Seq<char>>>
    decreases rs.len(),
{
    if rs.len() == 0 {
        m
    } else {
        let prev = sheets_after(m, rs.drop_last());
        let r = rs.last();
        if holds_id(prev, r.sheet_id.0@, sheet_reading_id_of(r)) || sheet_text_of(r) is None {
            prev
        } else {
            with_record(prev, r.sheet_id.0@, sheet_reading_id_of(r), sheet_text_of(r)->0)
        }
    }
}

/// The annotation view after each annotation of `items` is appended under
/// the reading id it names.
pub open spec fn annotations_after(
    m: Map<Seq<char>, Seq<AlvariumAnnotation>>,
    items: Seq<AlvariumAnnotation>,
) -> Map<Seq<char>, Seq<AlvariumAnnotation>>
    decreases items.len(),
{
    if items.len() == 0 {
        m
    } else {
        let prev = annotations_after(m, items.drop_last());
        let a = items.last();
        prev.insert(a.key@, annotations_at(prev, a.key@).push(a))
    }
}

/// Stores every reading of a batch for its own sensor. The result holds one
/// outcome per reading, in order; a refused reading leaves the store as it
/// was and the rest of the batch goes on.
pub fn ingest_readings(store: &mut ReadingStore, readings: Vec<Reading>) -> (r: Vec<Result<(), StoreError>>)
    requires
        old(store).wf(),
    ensures
        final(store).wf(),
        final(store).readings_view() == readings_after(old(store).readings_view(), readings@),
        final(store).sheets_view() == old(store).sheets_view(),
        r@.len() == readings@.len(),
        forall|i: int|
            0 <= i < r@.len() ==> (#[trigger] r@[i] is Err <==> reading_refused(
                readings_after(old(store).readings_view(), readings@.take(i)),
                readings@[i].sensor_id.0@,
                readings@[i],
            )),
{
    let ghost start = store.readings_view();
    let ghost all = readings@;
    let mut outcomes: Vec<Result<(), StoreError>> = Vec::new();
    for reading in it: readings
        invariant
            it.seq() == all,
            store.wf(),
            store.sheets_view() == old(store).sheets_view(),
            store.readings_view() == readings_after(start, all.take(it.index() as int)),
            outcomes@.len() == it.index(),
            forall|i: int|
                0 <= i < outcomes@.len() ==> (#[trigger] outcomes@[i] is Err <==> reading_refused(
                    readings_after(start, all.take(i)),
                    all[i].sensor_id.0@,
                    all[i],
                )),
    {
        let ghost i = it.index() as int;
        proof {
            assert(all.take(i + 1).drop_last() =~= all.take(i));
            assert(all.take(i + 1).last() == all[i]);
        }
        let sensor_id = SensorId(reading.sensor_id.0.clone());
        let outcome = store.insert_reading(&sensor_id, reading);
        outcomes.push(outcome);
    }
    assert(all.take(all.len() as int) =~= all);
    outcomes
}

/// Decodes and stores every sheet reading of a batch for its own sheet id.
/// The result holds one outcome per sheet reading, in order; a refused one
/// leaves the store as it was and the rest of the batch goes on.
pub fn ingest_sheet_readings(store: &mut ReadingStore, sheet_readings: Vec<SheetReading>) -> (r: Vec<
    Result<(), StoreError>,
>)
    requires
        old(store).wf(),
    ensures
        final(store).wf(),
        final(store).sheets_view() == sheets_after(old(store).sheets_view(), sheet_readings@),
        final(store).readings_view() == old(store).readings_view(),
        r@.len() == sheet_readings@.len(),
        forall|i: int|
            0 <= i < r@.len() ==> (#[trigger] r@[i] is Err <==> ({
                let prev = sheets_after(old(store).sheets_view(), sheet_readings@.take(i));
                let s = sheet_readings@[i];
                holds_id(prev, s.sheet_id.0@, sheet_reading_id_of(s)) || sheet_text_of(s) is None
            })),
{
    let ghost start = store.sheets_view();
    let ghost all = sheet_readings@;
    let mut outcomes: Vec<Result<(), StoreError>> = Vec::new();
    for sheet in it: sheet_readings
        invariant
            it.seq() == all,
            store.wf(),
            store.readings_view() == old(store).readings_view(),
            store.sheets_view() == sheets_after(start, all.take(it.index() as int)),
            outcomes@.len() == it.index(),
            forall|i: int|
                0 <= i < outcomes@.len() ==> (#[trigger] outcomes@[i] is Err <==> ({
                    let prev = sheets_after(start, all.take(i));
                    holds_id(prev, all[i].sheet_id.0@, sheet_reading_id_of(all[i]))
                        || sheet_text_of(all[i]) is None
                })),
    {
        let ghost i = it.index() as int;
        proof {
            assert(all.take(i + 1).drop_last() =~= all.take(i));
            assert(all.take(i + 1).last() == all[i]);
        }
        let sheet_id = SensorId(sheet.sheet_id.0.clone());
        let outcome = store.insert_sheet_reading(&sheet_id, sheet);
        outcomes.push(outcome);
    }
    assert(all.take(all.len() as int) =~= all);
    outcomes
}

/// Appends every annotation of a batch under the reading id it names.
pub fn ingest_annotations(store: &mut AnnotationStore, items: Vec<AlvariumAnnotation>)
    requires
        old(store).wf(),
    ensures
        final(store).wf(),
        final(store)@ == annotations_after(old(store)@, items@),
{
    let ghost start = store@;
    let ghost all = items@;
    for item in it: items
        invariant
            it.seq() == all,
            store.wf(),
            store@ == annotations_after(start, all.take(it.index() as int)),
    {
        let ghost i = it.index() as int;
        proof {
            assert(all.take(i + 1).drop_last() =~= all.take(i));
            assert(all.take(i + 1).last() == all[i]);
        }
        let reading_id = item.get_reading_id();
        let _ = store.insert(&reading_id, item);
    }
    assert(all.take(all.len() as int) =~= all);
}

/// The row that the durable variant stores for a reading: its sensor id, its
/// content id and its canonical JSON.
pub fn reading_row(reading: &Reading) -> (r: ReadingWrapper)
    ensures
        r.sensor_id@ == reading.sensor_id.0@,
        r.reading_id@ == reading_id_of(*reading),
        r.reading@ == canonical_reading(*reading),
{
    let id = reading.compute_id();
    ReadingWrapper {
        sensor_id: reading.sensor_id.0.clone(),
        reading_id: id.0,
        reading: reading.to_canonical_json(),
    }
}

/// The row that the durable variant stores for a sheet reading: its sheet
/// id, its content id and its decoded text; `DecodeError` where the payload
/// does not decode.
pub fn sheet_reading_row(sheet: &SheetReading) -> (r: Result<ReadingWrapper, StoreError>)
    ensures
        match r {
            Ok(row) => sheet_text_of(*sheet) == Some(row.reading@) && row.sensor_id@
                == sheet.sheet_id.0@ && row.reading_id@ == sheet_reading_id_of(*sheet),
            Err(e) => e == StoreError::DecodeError && sheet_text_of(*sheet) is None,
        },
{
    let text = sheet.get_value()?;
    let id: ReadingId = sheet.compute_id();
    Ok(ReadingWrapper { sensor_id: sheet.sheet_id.0.clone(), reading_id: id.0, reading: text.0 })
}

/// The row that the durable variant stores for an annotation: the reading id
/// it names and its canonical JSON.
pub fn annotation_row(annotation: &AlvariumAnnotation) -> (r: AnnotationWrapper)
    ensures
        r.reading_id@ == annotation.key@,
        r.annotation@ == canonical_annotation(*annotation),
{
    AnnotationWrapper {
        reading_id: annotation.key.clone(),
        annotation: annotation.to_canonical_json(),
    }
}

} // verus!
