//! Row snapshots and lookup criteria.
use crate::schema::Model;
use vstd::prelude::*;

verus! {

/// A materialized row snapshot: one value per field of its model.
pub struct Record {
    pub fields: Vec<u64>,
}

/// A criterion that identifies at most one row: rows of `model` whose field
/// at index `field` holds `value`.
#[derive(Clone, Copy, PartialEq, Eq, Structural)]
pub struct RecordFinder {
    pub model: u64,
    pub field: usize,
    pub value: u64,
}

/// A human-readable restatement of a lookup criterion, carried inside
/// errors: the model's display name plus the field index and value that
/// were searched for.
pub struct RecordFinderInfo {
    pub model_name: String,
    pub field: usize,
    pub value: u64,
}

impl Record {
    /// The primary-key value of this record under the given model's id
    /// field definition; `None` when the record is too short for it.
    pub fn get_id_value(&self, model: &Model) -> (res: Option<u64>)
        ensures
            (match res {
                Some(v) => model.id_field < self.fields@.len() && v == self.fields@[model.id_field as int],
                None => self.fields@.len() <= model.id_field,
            }),
    {
        if model.id_field < self.fields.len() {
            Some(self.fields[model.id_field])
        } else {
            None
        }
    }

    /// An owned copy of this snapshot.
    pub fn duplicate(&self) -> (res: Record)
        ensures
            res.fields@ == self.fields@,
    {
        let mut fields: Vec<u64> = Vec::new();
        let mut i: usize = 0;
        while i < self.fields.len()
            invariant
                0 <= i <= self.fields@.len(),
                fields@ == self.fields@.take(i as int),
            decreases self.fields@.len() - i,
        {
            fields.push(self.fields[i]);
            proof {
                assert(fields@ =~= self.fields@.take(i + 1 as int));
            }
            i = i + 1;
        }
        proof {
            assert(fields@ =~= self.fields@);
        }
        Record { fields }
    }
}

impl RecordFinderInfo {
    /// The descriptor "the row of `model` whose primary key is `id`".
    pub fn for_id(model: &Model, id: u64) -> (res: RecordFinderInfo)
        ensures
            res.model_name@ == model.name@,
            res.field == model.id_field,
            res.value == id,
    {
        RecordFinderInfo { model_name: model.name.clone(), field: model.id_field, value: id }
    }

    /// The descriptor restating an explicit finder against its model.
    pub fn for_finder(model: &Model, finder: &RecordFinder) -> (res: RecordFinderInfo)
        ensures
            res.model_name@ == model.name@,
            res.field == finder.field,
            res.value == finder.value,
    {
        RecordFinderInfo { model_name: model.name.clone(), field: finder.field, value: finder.value }
    }
}

} // verus!
