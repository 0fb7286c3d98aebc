//! The Row Locator: resolves a finder, or a parent linkage plus optional
//! finder, to a concrete row or key, failing with a structured error when
//! nothing matches.
use crate::database::Database;
use crate::database::Link;
use crate::database::Row;
use crate::error::SqlError;
use crate::error::is_not_connected_for;
use crate::error::is_not_found_for;
use crate::query::SelectQuery;
use crate::query::child_id_proj;
use crate::query::child_of_parent_pred;
use crate::query::finder_pred;
use crate::query::row_id_proj;
use crate::record::Record;
use crate::record::RecordFinder;
use crate::record::RecordFinderInfo;
use crate::schema::Model;
use crate::schema::Relation;
use crate::schema::Schema;
use crate::schema::id_field_of;
use crate::schema::lemma_listed_relation_models_exist;
use crate::schema::lemma_model_of_wf;
use crate::schema::model_of;
use crate::schema::relation_listed;
use crate::seqs::first_of;
use crate::seqs::lemma_first_of_is_hit;
use crate::seqs::lemma_selected_ids_head;
use vstd::prelude::*;

verus! {

/// The row a finder resolves to: the first matching one.
pub open spec fn located_row(rows: Seq<Row>, f: RecordFinder) -> Option<Row> {
    first_of(rows, finder_pred(f))
}

/// The first link of `rf` leaving `parent_id` whose child also passes the
/// optional finder: the row a nested delete acts on.
pub open spec fn connected_child(
    models: Seq<Model>,
    rows: Seq<Row>,
    links: Seq<Link>,
    rf: Relation,
    parent_id: u64,
    finder: Option<RecordFinder>,
) -> Option<Link> {
    first_of(
        links,
        child_of_parent_pred(
            rows,
            rf.id,
            parent_id,
            rf.child_model,
            id_field_of(models, rf.child_model),
            finder,
        ),
    )
}

/// Resolve a finder to the matching row's snapshot, or fail with the
/// not-found report for it.
pub fn find_record(conn: &Database, schema: &Schema, record_finder: &RecordFinder) -> (res: Result<
    Record,
    SqlError,
>)
    requires
        model_of(schema.models@, record_finder.model) is Some,
    ensures
        (match located_row(conn.rows@, *record_finder) {
            Some(row) => res matches Ok(rec) && rec.fields@ == row.record.fields@,
            None => res matches Err(e) && is_not_found_for(e, schema.models@, *record_finder),
        }),
{
    match conn.find_first_record(record_finder) {
        Some(rec) => Ok(rec),
        None => {
            let model = schema.model_by_id(record_finder.model).unwrap();
            Err(
                SqlError::RecordNotFound {
                    finder: RecordFinderInfo::for_finder(model, record_finder),
                },
            )
        },
    }
}

/// Resolve a finder to the matching row's primary key, or fail with the
/// not-found report for it.
pub fn find_id(conn: &Database, schema: &Schema, record_finder: &RecordFinder) -> (res: Result<
    u64,
    SqlError,
>)
    requires
        schema.wf(),
        conn.wf(*schema),
        model_of(schema.models@, record_finder.model) is Some,
    ensures
        (match located_row(conn.rows@, *record_finder) {
            Some(row) => res matches Ok(id) && id == row.record.fields@[id_field_of(
                schema.models@,
                record_finder.model,
            ) as int],
            None => res matches Err(e) && is_not_found_for(e, schema.models@, *record_finder),
        }),
{
    let model = schema.model_by_id(record_finder.model).unwrap();
    let query = SelectQuery::RecordsWhere { finder: *record_finder, id_field: model.id_field };
    let ids = conn.select_ids(&query);
    proof {
        lemma_selected_ids_head(
            conn.rows@,
            finder_pred(*record_finder),
            row_id_proj(model.id_field),
            0,
        );
        if located_row(conn.rows@, *record_finder) is Some {
            let row = located_row(conn.rows@, *record_finder)->Some_0;
            lemma_first_of_is_hit(conn.rows@, finder_pred(*record_finder), 0);
            lemma_model_of_wf(*schema, record_finder.model);
            assert(row.record.fields@.len() == model.n_fields);
        }
    }
    if ids.len() > 0 {
        Ok(ids[0])
    } else {
        Err(SqlError::RecordNotFound { finder: RecordFinderInfo::for_finder(model, record_finder) })
    }
}

/// Resolve the key of the row connected to `parent_id` through the
/// relation (scoped to the finder when one is given), or fail with the
/// relation's not-connected report — without a parent descriptor, since
/// only the bare parent key is known here.
pub fn find_id_by_parent(
    conn: &Database,
    schema: &Schema,
    relation_field: &Relation,
    parent_id: u64,
    record_finder: &Option<RecordFinder>,
) -> (res: Result<u64, SqlError>)
    requires
        schema.wf(),
        relation_listed(schema.relations@, *relation_field),
    ensures
        (match connected_child(
            schema.models@,
            conn.rows@,
            conn.links@,
            *relation_field,
            parent_id,
            *record_finder,
        ) {
            Some(l) => res matches Ok(id) && id == l.child_id,
            None => res matches Err(e) && is_not_connected_for(
                e,
                schema.models@,
                *relation_field,
                None,
                *record_finder,
            ),
        }),
{
    proof {
        lemma_listed_relation_models_exist(*schema, *relation_field);
    }
    let child_model = schema.model_by_id(relation_field.child_model).unwrap();
    let query = SelectQuery::ChildOfParent {
        relation: relation_field.id,
        parent_id,
        child_model: relation_field.child_model,
        child_id_field: child_model.id_field,
        child_finder: *record_finder,
    };
    let ids = conn.select_ids(&query);
    proof {
        lemma_selected_ids_head(
            conn.links@,
            child_of_parent_pred(
                conn.rows@,
                relation_field.id,
                parent_id,
                relation_field.child_model,
                child_model.id_field,
                *record_finder,
            ),
            child_id_proj(),
            0,
        );
    }
    if ids.len() > 0 {
        Ok(ids[0])
    } else {
        let parent_model = schema.model_by_id(relation_field.parent_model).unwrap();
        let child_where = match record_finder {
            Some(f) => Some(
                match schema.model_by_id(f.model) {
                    Some(m) => RecordFinderInfo::for_finder(m, f),
                    None => RecordFinderInfo {
                        model_name: String::new(),
                        field: f.field,
                        value: f.value,
                    },
                },
            ),
            None => None,
        };
        Err(
            SqlError::RecordsNotConnected {
                relation_name: relation_field.name.clone(),
                parent_name: parent_model.name.clone(),
                parent_where: None,
                child_name: child_model.name.clone(),
                child_where,
            },
        )
    }
}

} // verus!
