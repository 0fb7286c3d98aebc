//! Structured domain errors for the delete workflows.
//!
//! Every failure a delete can report is caller-correctable or a domain
//! integrity violation; the in-memory transaction snapshot itself cannot
//! fail, so no transport variant exists here.
use crate::record::RecordFinder;
use crate::record::RecordFinderInfo;
use crate::schema::Model;
use crate::schema::Relation;
use crate::schema::model_name_of;
use vstd::prelude::*;

verus! {

/// What a delete reports when it refuses to act.
pub enum SqlError {
    /// A lookup criterion matched zero rows.
    RecordNotFound { finder: RecordFinderInfo },
    /// The resolved child exists but is not linked to the claimed parent,
    /// or no linked row was found at all.
    RecordsNotConnected {
        relation_name: String,
        parent_name: String,
        parent_where: Option<RecordFinderInfo>,
        child_name: String,
        child_where: Option<RecordFinderInfo>,
    },
    /// Deleting the candidate keys would orphan a required relation.
    RelationViolation { relation_name: String, model_a_name: String, model_b_name: String },
}

/// The info block restates the given finder against the given models.
pub open spec fn info_for_finder(info: RecordFinderInfo, models: Seq<Model>, f: RecordFinder) -> bool {
    &&& info.model_name@ == model_name_of(models, f.model)
    &&& info.field == f.field
    &&& info.value == f.value
}

/// The info block names the row of `model_id` whose primary key is `id`.
pub open spec fn info_for_id(info: RecordFinderInfo, models: Seq<Model>, model_id: u64, id: u64) -> bool {
    &&& info.model_name@ == model_name_of(models, model_id)
    &&& info.field == crate::schema::id_field_of(models, model_id)
    &&& info.value == id
}

/// `e` is the not-found report for the finder `f`.
pub open spec fn is_not_found_for(e: SqlError, models: Seq<Model>, f: RecordFinder) -> bool {
    e matches SqlError::RecordNotFound { finder } && info_for_finder(finder, models, f)
}

/// `e` is the not-connected report for relation `rf`, carrying the parent
/// descriptor `parent_where_id` and restating the optional child finder.
pub open spec fn is_not_connected_for(
    e: SqlError,
    models: Seq<Model>,
    rf: Relation,
    parent_where_id: Option<u64>,
    child_finder: Option<RecordFinder>,
) -> bool {
    e matches SqlError::RecordsNotConnected {
        relation_name,
        parent_name,
        parent_where,
        child_name,
        child_where,
    } && {
        &&& relation_name@ == rf.name@
        &&& parent_name@ == model_name_of(models, rf.parent_model)
        &&& child_name@ == model_name_of(models, rf.child_model)
        &&& (match parent_where_id {
            None => parent_where is None,
            Some(pid) => parent_where matches Some(info) && info_for_id(
                info,
                models,
                rf.parent_model,
                pid,
            ),
        })
        &&& (match child_finder {
            None => child_where is None,
            Some(f) => child_where matches Some(info) && info_for_finder(info, models, f),
        })
    }
}

/// `e` is the violation report for relation `rel`.
pub open spec fn is_violation_of(e: SqlError, models: Seq<Model>, rel: Relation) -> bool {
    e matches SqlError::RelationViolation { relation_name, model_a_name, model_b_name } && {
        &&& relation_name@ == rel.name@
        &&& model_a_name@ == model_name_of(models, rel.parent_model)
        &&& model_b_name@ == model_name_of(models, rel.child_model)
    }
}

} // verus!
