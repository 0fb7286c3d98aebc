//! The Relation Violation Checker: refuses a delete that would leave a
//! required relation dangling.
//!
//! For every relation that forbids orphaning the side about to be deleted,
//! a probe read asks whether any link row still references one of the
//! candidate keys; the first non-empty probe fails the whole delete,
//! before any write is attempted.
use crate::database::Database;
use crate::database::Link;
use crate::error::SqlError;
use crate::error::is_violation_of;
use crate::query::SelectQuery;
use crate::query::child_id_proj;
use crate::query::child_in_pred;
use crate::query::copy_keys;
use crate::query::parent_id_proj;
use crate::query::parent_in_pred;
use crate::schema::Relation;
use crate::schema::Schema;
use crate::schema::model_of;
use crate::seqs::first_of;
use crate::seqs::first_of_from;
use crate::seqs::lemma_selected_ids_head;
use vstd::prelude::*;

verus! {

/// Deleting the rows of `model` keyed by `keys` would orphan this
/// relation: some link row of it still references one of the keys on a
/// side whose opposite is required.
pub open spec fn relation_violated(rel: Relation, links: Seq<Link>, model: u64, keys: Seq<u64>) -> bool {
    ||| (rel.parent_model == model && rel.child_requires_parent && first_of(
        links,
        parent_in_pred(rel.id, keys),
    ) is Some)
    ||| (rel.child_model == model && rel.parent_requires_child && first_of(
        links,
        child_in_pred(rel.id, keys),
    ) is Some)
}

/// Predicate form of [`relation_violated`].
pub open spec fn violation_pred(links: Seq<Link>, model: u64, keys: Seq<u64>) -> spec_fn(
    Relation,
) -> bool {
    |rel: Relation| relation_violated(rel, links, model, keys)
}

/// The violation reported for this delete: the first violated relation in
/// schema order, if any.
pub open spec fn first_violation(
    relations: Seq<Relation>,
    links: Seq<Link>,
    model: u64,
    keys: Seq<u64>,
) -> Option<Relation> {
    first_of(relations, violation_pred(links, model, keys))
}

/// Builds and runs the relation-violation probes of a delete.
pub struct DeleteActions;

impl DeleteActions {
    /// Fail with the first violated relation's report, or succeed when
    /// deleting the rows of `model_id` keyed by `keys` orphans nothing.
    pub fn check_relation_violations(
        conn: &Database,
        schema: &Schema,
        model_id: u64,
        keys: &Vec<u64>,
    ) -> (res: Result<(), SqlError>)
        requires
            schema.wf(),
        ensures
            (match first_violation(schema.relations@, conn.links@, model_id, keys@) {
                None => res is Ok,
                Some(rel) => res matches Err(e) && is_violation_of(e, schema.models@, rel),
            }),
    {
        let mut i: usize = 0;
        while i < schema.relations.len()
            invariant
                0 <= i <= schema.relations@.len(),
                schema.wf(),
                first_of_from(schema.relations@, violation_pred(conn.links@, model_id, keys@), 0)
                    == first_of_from(
                    schema.relations@,
                    violation_pred(conn.links@, model_id, keys@),
                    i as int,
                ),
            decreases schema.relations@.len() - i,
        {
            let rel = &schema.relations[i];
            let mut parent_hit = false;
            if rel.parent_model == model_id && rel.child_requires_parent {
                let query = SelectQuery::LinksWithParentIn {
                    relation: rel.id,
                    keys: copy_keys(keys),
                };
                let ids = conn.select_ids(&query);
                proof {
                    lemma_selected_ids_head(
                        conn.links@,
                        parent_in_pred(rel.id, keys@),
                        child_id_proj(),
                        0,
                    );
                }
                if ids.len() > 0 {
                    parent_hit = true;
                }
                proof {
                    assert(parent_hit == (first_of(conn.links@, parent_in_pred(rel.id, keys@))
                        is Some));
                }
            }
            let mut child_hit = false;
            if rel.child_model == model_id && rel.parent_requires_child {
                let query = SelectQuery::LinksWithChildIn {
                    relation: rel.id,
                    keys: copy_keys(keys),
                };
                let ids = conn.select_ids(&query);
                proof {
                    lemma_selected_ids_head(
                        conn.links@,
                        child_in_pred(rel.id, keys@),
                        parent_id_proj(),
                        0,
                    );
                }
                if ids.len() > 0 {
                    child_hit = true;
                }
                proof {
                    assert(child_hit == (first_of(conn.links@, child_in_pred(rel.id, keys@))
                        is Some));
                }
            }
            let violated = parent_hit || child_hit;
            proof {
                assert(violated == violation_pred(conn.links@, model_id, keys@)(
                    schema.relations@[i as int],
                ));
            }
            if violated {
                proof {
                    assert(model_of(schema.models@, schema.relations@[i as int].parent_model)
                        is Some);
                    assert(model_of(schema.models@, schema.relations@[i as int].child_model)
                        is Some);
                }
                let model_a = schema.model_by_id(rel.parent_model).unwrap();
                let model_b = schema.model_by_id(rel.child_model).unwrap();
                return Err(
                    SqlError::RelationViolation {
                        relation_name: rel.name.clone(),
                        model_a_name: model_a.name.clone(),
                        model_b_name: model_b.name.clone(),
                    },
                );
            }
            i = i + 1;
        }
        Ok(())
    }
}

} // verus!
