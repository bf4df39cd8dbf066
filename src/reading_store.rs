//! The in-process store of readings and sheet readings, two levels deep:
//! sensor id, then content id.

use vstd::prelude::*;
use crate::error::StoreError;
use crate::id_map::IdMap;
use crate::json::{reading_id_of, sheet_reading_id_of};
use crate::models::{sheet_text_of, Reading, SensorId, SheetReading, SheetReadingValue};

verus! {

/// A sensor's readings after `r` is stored in them under `id`.
pub open spec fn with_record<V>(
    m: Map<Seq<char>, Map<Seq<char>, V>>,
    sensor: Seq<char>,
    id: Seq<char>,
    r: V,
) -> Map<Seq<char>, Map<Seq<char>, V>> {
    let sub = if m.contains_key(sensor) {
        m[sensor]
    } else {
        Map::empty()
    };
    m.insert(sensor, sub.insert(id, r))
}

/// Whether `id` is already stored for `sensor`.
pub open spec fn holds_id<V>(m: Map<Seq<char>, Map<Seq<char>, V>>, sensor: Seq<char>, id: Seq<char>) -> bool {
    m.contains_key(sensor) && m[sensor].contains_key(id)
}

/// Whether storing `r` for `sensor` in `m` is refused as a duplicate: its id
/// is already there and its sub-value list is not empty.
pub open spec fn reading_refused(m: Map<Seq<char>, Map<Seq<char>, Reading>>, sensor: Seq<char>, r: Reading) -> bool {
    holds_id(m, sensor, reading_id_of(r)) && r.value.sub_value@.len() > 0
}

/// After a reading is inserted for a sensor, that sensor's readings hold its
/// content id: mapped to the reading itself where the insert succeeded, and
/// otherwise to a stored reading with the same content id.
pub proof fn lemma_insert_then_get(
    m: Map<Seq<char>, Map<Seq<char>, Reading>>,
    sensor: Seq<char>,
    r: Reading,
)
    ensures
        !reading_refused(m, sensor, r) ==> {
            let after = with_record(m, sensor, reading_id_of(r), r);
            &&& holds_id(after, sensor, reading_id_of(r))
            &&& after[sensor][reading_id_of(r)] == r
        },
        reading_refused(m, sensor, r) ==> holds_id(m, sensor, reading_id_of(r)),
{
}

/// Inserting the same reading a second time is refused as a duplicate
/// exactly when its sub-value list is not empty; with an empty list it
/// succeeds and leaves the readings as they were.
pub proof fn lemma_reinsert_identical(
    m: Map<Seq<char>, Map<Seq<char>, Reading>>,
    sensor: Seq<char>,
    r: Reading,
)
    ensures
        ({
            let id = reading_id_of(r);
            let first = if reading_refused(m, sensor, r) {
                m
            } else {
                with_record(m, sensor, id, r)
            };
            &&& reading_refused(first, sensor, r) <==> r.value.sub_value@.len() > 0
            &&& r.value.sub_value@.len() == 0 ==> with_record(first, sensor, id, r) == first
        }),
{
    let id = reading_id_of(r);
    if r.value.sub_value@.len() == 0 {
        let first = with_record(m, sensor, id, r);
        assert(first[sensor].insert(id, r) =~= first[sensor]);
        assert(with_record(first, sensor, id, r) =~= first);
    }
}

pub struct ReadingStore {
    readings: IdMap<IdMap<Reading>>,
    sheet_readings: IdMap<IdMap<SheetReadingValue>>,
}

impl ReadingStore {
    /// The readings, by sensor id and then content id.
    pub closed spec fn readings_view(&self) -> Map<Seq<char>, Map<Seq<char>, Reading>> {
        Map::new(|k: Seq<char>| self.readings@.contains_key(k), |k: Seq<char>| self.readings@[k]@)
    }

    /// The decoded texts of the sheet readings, by sheet id and then content
    /// id.
    pub closed spec fn sheets_view(&self) -> Map<Seq<char>, Map<Seq<char>, Seq<char>>> {
        Map::new(
            |k: Seq<char>| self.sheet_readings@.contains_key(k),
            |k: Seq<char>|
                Map::new(
                    |id: Seq<char>| self.sheet_readings@[k]@.contains_key(id),
                    |id: Seq<char>| self.sheet_readings@[k]@[id].0@,
                ),
        )
    }

    /// Both levels are well formed, and every reading is stored under its
    /// own content id.
    pub closed spec fn wf(&self) -> bool {
        &&& self.readings.wf()
        &&& self.sheet_readings.wf()
        &&& forall|k: Seq<char>| #[trigger]
            self.readings@.contains_key(k) ==> self.readings@[k].wf()
        &&& forall|k: Seq<char>| #[trigger]
            self.sheet_readings@.contains_key(k) ==> self.sheet_readings@[k].wf()
        &&& forall|k: Seq<char>, id: Seq<char>|
            #![trigger self.readings@[k]@[id]]
            self.readings@.contains_key(k) && self.readings@[k]@.contains_key(id)
                ==> id == reading_id_of(self.readings@[k]@[id])
    }

    /// Every stored reading sits under its own content id.
    pub proof fn lemma_content_addressed(&self, sensor: Seq<char>, id: Seq<char>)
        requires
            self.wf(),
            holds_id(self.readings_view(), sensor, id),
        ensures
            id == reading_id_of(self.readings_view()[sensor][id]),
    {
    }

    pub fn new() -> (r: ReadingStore)
        ensures
            r.wf(),
            r.readings_view() == Map::<Seq<char>, Map<Seq<char>, Reading>>::empty(),
            r.sheets_view() == Map::<Seq<char>, Map<Seq<char>, Seq<char>>>::empty(),
    {
        let r = ReadingStore { readings: IdMap::new(), sheet_readings: IdMap::new() };
        assert(r.readings_view() =~= Map::empty());
        assert(r.sheets_view() =~= Map::empty());
        r
    }

    /// Stores `reading` for `sensor_id` under its content id. A reading whose
    /// id is already stored for that sensor is refused as a duplicate, unless
    /// its sub-value list is empty: then it overwrites the stored one.
    pub fn insert_reading(&mut self, sensor_id: &SensorId, reading: Reading) -> (r: Result<(), StoreError>)
        requires
            old(self).wf(),
        ensures
            final(self).wf(),
            final(self).sheets_view() == old(self).sheets_view(),
            r is Err <==> reading_refused(old(self).readings_view(), sensor_id.0@, reading),
            match r {
                Ok(_) => final(self).readings_view() == with_record(
                    old(self).readings_view(),
                    sensor_id.0@,
                    reading_id_of(reading),
                    reading,
                ),
                Err(e) => e == StoreError::DuplicateRecord && final(self).readings_view()
                    == old(self).readings_view(),
            },
    {
        let ghost old_view = self.readings_view();
        let ghost old_sheets = self.sheets_view();
        let id = reading.compute_id();
        let key = sensor_id.0.clone();
        match self.readings.remove(&key) {
            Some(mut sub) => {
                if reading.value.sub_value.len() > 0 && sub.contains_key(&id.0) {
                    self.readings.insert(key, sub);
                    assert(self.readings_view() =~= old_view);
                    return Err(StoreError::DuplicateRecord);
                }
                sub.insert(id.0, reading);
                self.readings.insert(key, sub);
            },
            None => {
                let mut sub = IdMap::new();
                sub.insert(id.0, reading);
                self.readings.insert(key, sub);
            },
        }
        assert(self.readings_view() =~= with_record(old_view, sensor_id.0@, reading_id_of(reading), reading));
        assert(self.sheets_view() =~= old_sheets);
        Ok(())
    }

    /// Decodes `reading` and stores its text for `sensor_id` under the
    /// reading's content id. A content id already stored for that sensor is
    /// always refused; a payload that does not decode is refused after that.
    pub fn insert_sheet_reading(&mut self, sensor_id: &SensorId, reading: SheetReading) -> (r: Result<(), StoreError>)
        requires
            old(self).wf(),
        ensures
            final(self).wf(),
            final(self).readings_view() == old(self).readings_view(),
            match r {
                Ok(_) => {
                    &&& !holds_id(old(self).sheets_view(), sensor_id.0@, sheet_reading_id_of(reading))
                    &&& sheet_text_of(reading) is Some
                    &&& final(self).sheets_view() == with_record(
                        old(self).sheets_view(),
                        sensor_id.0@,
                        sheet_reading_id_of(reading),
                        sheet_text_of(reading)->0,
                    )
                },
                Err(e) => final(self).sheets_view() == old(self).sheets_view() && if holds_id(
                    old(self).sheets_view(),
                    sensor_id.0@,
                    sheet_reading_id_of(reading),
                ) {
                    e == StoreError::DuplicateRecord
                } else {
                    e == StoreError::DecodeError && sheet_text_of(reading) is None
                },
            },
    {
        let ghost old_view = self.readings_view();
        let ghost old_sheets = self.sheets_view();
        let id = reading.compute_id();
        let key = sensor_id.0.clone();
        match self.sheet_readings.remove(&key) {
            Some(mut sub) => {
                if sub.contains_key(&id.0) {
                    self.sheet_readings.insert(key, sub);
                    assert(self.sheets_view() =~= old_sheets);
                    assert(self.readings_view() =~= old_view);
                    return Err(StoreError::DuplicateRecord);
                }
                match reading.get_value() {
                    Ok(text) => {
                        sub.insert(id.0, text);
                        self.sheet_readings.insert(key, sub);
                        assert(self.sheets_view()[sensor_id.0@] =~= with_record(
                            old_sheets, sensor_id.0@, sheet_reading_id_of(reading), sheet_text_of(reading)->0)[sensor_id.0@]);
                    },
                    Err(e) => {
                        self.sheet_readings.insert(key, sub);
                        assert(self.sheets_view() =~= old_sheets);
                        assert(self.readings_view() =~= old_view);
                        return Err(e);
                    },
                }
            },
            None => {
                match reading.get_value() {
                    Ok(text) => {
                        let mut sub = IdMap::new();
                        sub.insert(id.0, text);
                        self.sheet_readings.insert(key, sub);
                        assert(self.sheets_view()[sensor_id.0@] =~= with_record(
                            old_sheets, sensor_id.0@, sheet_reading_id_of(reading), sheet_text_of(reading)->0)[sensor_id.0@]);
                    },
                    Err(e) => {
                        assert(self.sheets_view() =~= old_sheets);
                        assert(self.readings_view() =~= old_view);
                        return Err(e);
                    },
                }
            },
        }
        assert(self.readings_view() =~= old_view);
        assert(self.sheets_view() =~= with_record(
            old_sheets, sensor_id.0@, sheet_reading_id_of(reading), sheet_text_of(reading)->0));
        Ok(())
    }

    /// The readings stored for `sensor_id`.
    pub fn get(&self, sensor_id: &SensorId) -> (r: Result<&IdMap<Reading>, StoreError>)
        requires
            self.wf(),
        ensures
            match r {
                Ok(m) => m.wf() && self.readings_view().contains_key(sensor_id.0@) && m@
                    == self.readings_view()[sensor_id.0@],
                Err(e) => e == StoreError::NotFound && !self.readings_view().contains_key(sensor_id.0@),
            },
    {
        match self.readings.get(&sensor_id.0) {
            Some(m) => Ok(m),
            None => Err(StoreError::NotFound),
        }
    }
}

} // verus!
