//! The read-path guard: annotations are released under a claimed reading id
//! only after that id is derived again from the stored reading.

use vstd::prelude::*;
use crate::annotation_store::{total_confidence, AnnotationStore};
use crate::error::StoreError;
use crate::json::reading_id_of;
use crate::models::{AlvariumAnnotation, Reading, ReadingId, SensorId};
use crate::reading_store::ReadingStore;

verus! {

/// What a verified lookup of `id` under `sensor` ends in before the
/// annotations are consulted: the stored reading whose content id is `id`,
/// or the error.
pub open spec fn verified_reading(
    readings: Map<Seq<char>, Map<Seq<char>, Reading>>,
    sensor: Seq<char>,
    id: Seq<char>,
) -> Result<Reading, StoreError> {
    if !readings.contains_key(sensor) || !readings[sensor].contains_key(id) {
        Err(StoreError::NotFound)
    } else if reading_id_of(readings[sensor][id]) != id {
        Err(StoreError::IntegrityMismatch)
    } else {
        Ok(readings[sensor][id])
    }
}

/// Looks up the reading claimed by `reading_id` for `sensor_id` and derives
/// its content id again: a missing sensor or id is `NotFound`, a recomputed
/// id that differs from the claim is `IntegrityMismatch`.
pub fn verify_reading<'a>(
    readings: &'a ReadingStore,
    sensor_id: &SensorId,
    reading_id: &ReadingId,
) -> (r: Result<&'a Reading, StoreError>)
    requires
        readings.wf(),
    ensures
        match verified_reading(readings.readings_view(), sensor_id.0@, reading_id.0@) {
            Ok(found) => r matches Ok(x) && *x == found,
            Err(e) => r == Err::<&Reading, StoreError>(e),
        },
{
    let sub = readings.get(sensor_id)?;
    let reading = match sub.get(&reading_id.0) {
        Some(reading) => reading,
        None => {
            return Err(StoreError::NotFound);
        },
    };
    let recomputed = reading.compute_id();
    if recomputed.0 != reading_id.0 {
        return Err(StoreError::IntegrityMismatch);
    }
    Ok(reading)
}

/// The annotations about the reading that `reading_id` names for
/// `sensor_id`, released only once the id is confirmed from the stored
/// content.
pub fn verified_annotations<'a>(
    readings: &ReadingStore,
    annotations: &'a AnnotationStore,
    sensor_id: &SensorId,
    reading_id: &ReadingId,
) -> (r: Result<&'a Vec<AlvariumAnnotation>, StoreError>)
    requires
        readings.wf(),
        annotations.wf(),
    ensures
        match verified_reading(readings.readings_view(), sensor_id.0@, reading_id.0@) {
            Ok(_) => match r {
                Ok(list) => annotations@.contains_key(reading_id.0@) && list@
                    == annotations@[reading_id.0@],
                Err(e) => e == StoreError::NotFound && !annotations@.contains_key(reading_id.0@),
            },
            Err(e) => r == Err::<&Vec<AlvariumAnnotation>, StoreError>(e),
        },
{
    match verify_reading(readings, sensor_id, reading_id) {
        Ok(_) => annotations.get(reading_id),
        Err(e) => Err(e),
    }
}

/// The summed confidence of the annotations about the reading that
/// `reading_id` names for `sensor_id`, once the id is confirmed.
pub fn verified_confidence_score(
    readings: &ReadingStore,
    annotations: &AnnotationStore,
    sensor_id: &SensorId,
    reading_id: &ReadingId,
) -> (r: Result<u64, StoreError>)
    requires
        readings.wf(),
        annotations.wf(),
    ensures
        match verified_reading(readings.readings_view(), sensor_id.0@, reading_id.0@) {
            Ok(_) => match r {
                Ok(score) => annotations@.contains_key(reading_id.0@) && score == total_confidence(
                    annotations@[reading_id.0@],
                ),
                Err(e) => e == StoreError::NotFound && !annotations@.contains_key(reading_id.0@),
            },
            Err(e) => r == Err::<u64, StoreError>(e),
        },
{
    match verify_reading(readings, sensor_id, reading_id) {
        Ok(_) => annotations.confidence_score(reading_id),
        Err(e) => Err(e),
    }
}

/// A claimed id that differs from the content id of the reading stored under
/// it is always refused with `IntegrityMismatch`, and nothing is released.
pub proof fn lemma_mismatch_releases_nothing(
    readings: Map<Seq<char>, Map<Seq<char>, Reading>>,
    sensor: Seq<char>,
    id: Seq<char>,
)
    requires
        readings.contains_key(sensor),
        readings[sensor].contains_key(id),
        reading_id_of(readings[sensor][id]) != id,
    ensures
        verified_reading(readings, sensor, id) == Err::<Reading, StoreError>(StoreError::IntegrityMismatch),
{
}

} // verus!
