//! The in-process store of annotations: for each reading id, every
//! annotation received about it, in the order of arrival.

use vstd::prelude::*;
use crate::error::StoreError;
use crate::id_map::IdMap;
use crate::models::{confidence_of, AlvariumAnnotation, ReadingId};

verus! {

/// The annotations stored under a reading id, empty where there are none.
pub open spec fn annotations_at(
    m: Map<Seq<char>, Seq<AlvariumAnnotation>>,
    id: Seq<char>,
) -> Seq<AlvariumAnnotation> {
    if m.contains_key(id) {
        m[id]
    } else {
        Seq::empty()
    }
}

/// The sum of the confidence that each annotation adds.
pub open spec fn total_confidence(s: Seq<AlvariumAnnotation>) -> nat
    decreases s.len(),
{
    if s.len() == 0 {
        0
    } else {
        total_confidence(s.drop_last()) + confidence_of(s.last())
    }
}

/// No annotation adds any confidence yet, so every total is zero.
pub proof fn lemma_total_confidence_zero(s: Seq<AlvariumAnnotation>)
    ensures
        total_confidence(s) == 0,
    decreases s.len(),
{
    if s.len() > 0 {
        lemma_total_confidence_zero(s.drop_last());
    }
}

/// The annotations view after each of `items` is inserted under `id`.
pub open spec fn inserted_under(
    m: Map<Seq<char>, Seq<AlvariumAnnotation>>,
    id: Seq<char>,
    items: Seq<AlvariumAnnotation>,
) -> Map<Seq<char>, Seq<AlvariumAnnotation>>
    decreases items.len(),
{
    if items.len() == 0 {
        m
    } else {
        let prev = inserted_under(m, id, items.drop_last());
        prev.insert(id, annotations_at(prev, id).push(items.last()))
    }
}

/// After annotations are inserted one by one under the same reading id, that
/// id holds what it held before followed by exactly those annotations, in
/// the order they were inserted; other ids are untouched.
pub proof fn lemma_inserts_kept_in_order(
    m: Map<Seq<char>, Seq<AlvariumAnnotation>>,
    id: Seq<char>,
    items: Seq<AlvariumAnnotation>,
)
    ensures
        inserted_under(m, id, items).contains_key(id) || items.len() == 0,
        annotations_at(inserted_under(m, id, items), id) == annotations_at(m, id) + items,
        forall|k: Seq<char>| k != id ==> #[trigger] inserted_under(m, id, items).contains_key(k)
            == m.contains_key(k) && (m.contains_key(k) ==> inserted_under(m, id, items)[k] == m[k]),
    decreases items.len(),
{
    if items.len() == 0 {
        assert(annotations_at(m, id) + items =~= annotations_at(m, id));
    } else {
        lemma_inserts_kept_in_order(m, id, items.drop_last());
        assert(annotations_at(m, id) + items =~= (annotations_at(m, id) + items.drop_last()).push(
            items.last(),
        ));
    }
}

/// Search fields for annotations.
#[derive(Debug, PartialEq, Eq)]
pub struct AnnotationStoreFilter {
    pub iss: Option<String>,
    pub sub: Option<String>,
    pub iat: Option<u64>,
    pub jti: Option<String>,
    pub ann: Option<String>,
}

pub struct AnnotationStore {
    annotations: IdMap<Vec<AlvariumAnnotation>>,
}

impl View for AnnotationStore {
    type V = Map<Seq<char>, Seq<AlvariumAnnotation>>;

    closed spec fn view(&self) -> Map<Seq<char>, Seq<AlvariumAnnotation>> {
        Map::new(|k: Seq<char>| self.annotations@.contains_key(k), |k: Seq<char>| self.annotations@[k]@)
    }
}

impl AnnotationStore {
    pub closed spec fn wf(&self) -> bool {
        self.annotations.wf()
    }

    pub fn new() -> (r: AnnotationStore)
        ensures
            r.wf(),
            r@ == Map::<Seq<char>, Seq<AlvariumAnnotation>>::empty(),
    {
        let r = AnnotationStore { annotations: IdMap::new() };
        assert(r@ =~= Map::empty());
        r
    }

    /// Appends `annotation` to those stored under `reading_id`. Nothing is
    /// deduplicated, and this never fails.
    pub fn insert(&mut self, reading_id: &ReadingId, annotation: AlvariumAnnotation) -> (r: Result<(), StoreError>)
        requires
            old(self).wf(),
        ensures
            final(self).wf(),
            r is Ok,
            final(self)@ == old(self)@.insert(
                reading_id.0@,
                annotations_at(old(self)@, reading_id.0@).push(annotation),
            ),
    {
        let ghost old_view = self@;
        let key = reading_id.0.clone();
        let list = match self.annotations.remove(&key) {
            Some(mut list) => {
                list.push(annotation);
                list
            },
            None => {
                let mut list = Vec::new();
                list.push(annotation);
                list
            },
        };
        self.annotations.insert(key, list);
        assert(self@ =~= old_view.insert(reading_id.0@, annotations_at(old_view, reading_id.0@).push(annotation)));
        Ok(())
    }

    /// The annotations stored under `reading_id`, in the order they arrived.
    pub fn get(&self, reading_id: &ReadingId) -> (r: Result<&Vec<AlvariumAnnotation>, StoreError>)
        requires
            self.wf(),
        ensures
            match r {
                Ok(list) => self@.contains_key(reading_id.0@) && list@ == self@[reading_id.0@],
                Err(e) => e == StoreError::NotFound && !self@.contains_key(reading_id.0@),
            },
    {
        match self.annotations.get(&reading_id.0) {
            Some(list) => Ok(list),
            None => Err(StoreError::NotFound),
        }
    }

    /// Every reading id with its annotations.
    pub fn iter(&self) -> (r: &Vec<(String, Vec<AlvariumAnnotation>)>)
        requires
            self.wf(),
        ensures
            r@.len() == self@.len(),
            forall|i: int|
                0 <= i < r@.len() ==> {
                    &&& #[trigger] self@.contains_key(r@[i].0@)
                    &&& self@[r@[i].0@] == r@[i].1@
                },
            forall|k: Seq<char>|
                #[trigger] self@.contains_key(k) ==> exists|i: int| 0 <= i < r@.len() && r@[i].0@ == k,
    {
        proof {
            self.annotations.lemma_entries_match();
            assert(self@.dom() =~= self.annotations@.dom());
        }
        let r = self.annotations.entries();
        assert forall|k: Seq<char>| #[trigger] self@.contains_key(k) implies exists|i: int|
            0 <= i < r@.len() && r@[i].0@ == k by {
            assert(self.annotations@.contains_key(k));
        }
        r
    }

    /// The summed confidence of the annotations stored under `reading_id`.
    pub fn confidence_score(&self, reading_id: &ReadingId) -> (r: Result<u64, StoreError>)
        requires
            self.wf(),
        ensures
            match r {
                Ok(score) => self@.contains_key(reading_id.0@) && score == total_confidence(
                    self@[reading_id.0@],
                ),
                Err(e) => e == StoreError::NotFound && !self@.contains_key(reading_id.0@),
            },
    {
        let list = self.get(reading_id)?;
        let mut total: u64 = 0;
        let mut i: usize = 0;
        while i < list.len()
            invariant
                i <= list@.len(),
                total == total_confidence(list@.take(i as int)),
            decreases list@.len() - i,
        {
            proof {
                assert(list@.take(i + 1).drop_last() =~= list@.take(i as int));
                lemma_total_confidence_zero(list@.take(i + 1));
                lemma_total_confidence_zero(list@.take(i as int));
            }
            let score = list[i].get_confidence_score();
            total = total + score;
            i = i + 1;
        }
        assert(list@.take(i as int) =~= list@);
        Ok(total)
    }
}

} // verus!
