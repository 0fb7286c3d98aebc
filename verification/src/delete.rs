//! The two delete workflows: a top-level delete by finder, and a nested
//! delete under a known parent.
//!
//! Each workflow is a short-circuiting sequence of steps — locate, verify
//! connectivity (nested only), check relation violations, and only then
//! issue the physical delete statements, dependent link rows first.  Every
//! step runs against the same transaction snapshot; on any failure the
//! snapshot is left untouched, so the caller can roll back knowing no
//! partial delete happened.
use crate::database::Database;
use crate::database::Link;
use crate::database::Row;
use crate::database::link_keep_pred;
use crate::database::row_keep_pred;
use crate::error::SqlError;
use crate::error::is_not_connected_for;
use crate::error::is_not_found_for;
use crate::error::is_violation_of;
use crate::locator::connected_child;
use crate::locator::find_id;
use crate::locator::find_id_by_parent;
use crate::locator::find_record;
use crate::locator::located_row;
use crate::query::DeleteStatement;
use crate::query::NestedActions;
use crate::query::WriteQueryBuilder;
use crate::query::child_id_proj;
use crate::query::child_of_parent_pred;
use crate::query::finder_pred;
use crate::query::link_between_pred;
use crate::record::Record;
use crate::record::RecordFinder;
use crate::record::RecordFinderInfo;
use crate::schema::Model;
use crate::schema::Relation;
use crate::schema::Schema;
use crate::schema::id_field_of;
use crate::schema::lemma_listed_relation_models_exist;
use crate::schema::lemma_model_of_wf;
use crate::schema::model_of;
use crate::schema::relation_listed;
use crate::seqs::first_of;
use crate::seqs::kept;
use crate::seqs::lemma_first_of_exists;
use crate::seqs::lemma_first_of_is_hit;
use crate::seqs::lemma_kept_subset;
use crate::seqs::lemma_selected_ids_head;
use crate::violations::DeleteActions;
use crate::violations::first_violation;
use vstd::prelude::*;

verus! {

/// The key of the row a finder locates: its value at the model's id field.
pub open spec fn located_key(models: Seq<Model>, rows: Seq<Row>, f: RecordFinder) -> u64 {
    match located_row(rows, f) {
        Some(row) => row.record.fields@[id_field_of(models, f.model) as int],
        None => 0,
    }
}

/// The rows left after a top-level delete: unchanged unless the finder
/// located a row and no required relation objected.
pub open spec fn rows_after_execute(
    models: Seq<Model>,
    relations: Seq<Relation>,
    rows: Seq<Row>,
    links: Seq<Link>,
    f: RecordFinder,
) -> Seq<Row> {
    match located_row(rows, f) {
        None => rows,
        Some(row) => {
            let key = located_key(models, rows, f);
            if first_violation(relations, links, f.model, seq![key]) is Some {
                rows
            } else {
                kept(rows, row_keep_pred(f.model, id_field_of(models, f.model), seq![key]))
            }
        },
    }
}

/// The link rows left after a top-level delete.
pub open spec fn links_after_execute(
    models: Seq<Model>,
    relations: Seq<Relation>,
    rows: Seq<Row>,
    links: Seq<Link>,
    f: RecordFinder,
) -> Seq<Link> {
    match located_row(rows, f) {
        None => links,
        Some(row) => {
            let key = located_key(models, rows, f);
            if first_violation(relations, links, f.model, seq![key]) is Some {
                links
            } else {
                kept(links, link_keep_pred(relations, f.model, seq![key]))
            }
        },
    }
}

/// A top level delete that removes one record.  Violating any relations or
/// a non-existing record will cause an error.
///
/// Will return the deleted record if the delete was successful: the
/// snapshot taken before the deletion, not a re-read.
pub fn execute(conn: &mut Database, schema: &Schema, record_finder: &RecordFinder) -> (res: Result<
    Record,
    SqlError,
>)
    requires
        schema.wf(),
        old(conn).wf(*schema),
        model_of(schema.models@, record_finder.model) is Some,
    ensures
        final(conn).wf(*schema),
        final(conn).rows@ == rows_after_execute(
            schema.models@,
            schema.relations@,
            old(conn).rows@,
            old(conn).links@,
            *record_finder,
        ),
        final(conn).links@ == links_after_execute(
            schema.models@,
            schema.relations@,
            old(conn).rows@,
            old(conn).links@,
            *record_finder,
        ),
        (match located_row(old(conn).rows@, *record_finder) {
            None => res matches Err(e) && is_not_found_for(e, schema.models@, *record_finder),
            Some(row) => (match first_violation(
                schema.relations@,
                old(conn).links@,
                record_finder.model,
                seq![located_key(schema.models@, old(conn).rows@, *record_finder)],
            ) {
                Some(rel) => res matches Err(e) && is_violation_of(e, schema.models@, rel),
                None => res matches Ok(rec) && rec.fields@ == row.record.fields@,
            }),
        }),
{
    let model = schema.model_by_id(record_finder.model).unwrap();
    let record = match find_record(conn, schema, record_finder) {
        Ok(r) => r,
        Err(e) => {
            return Err(e);
        },
    };
    proof {
        lemma_first_of_is_hit(conn.rows@, finder_pred(*record_finder), 0);
        lemma_model_of_wf(*schema, record_finder.model);
    }
    let id = record.get_id_value(model).unwrap();
    let mut keys: Vec<u64> = Vec::new();
    keys.push(id);
    proof {
        assert(keys@ =~= seq![id]);
        assert(id == located_key(schema.models@, conn.rows@, *record_finder));
    }
    match DeleteActions::check_relation_violations(conn, schema, record_finder.model, &keys) {
        Ok(()) => {},
        Err(e) => {
            return Err(e);
        },
    }
    let ghost rows0 = conn.rows@;
    let ghost links0 = conn.links@;
    let stmts = WriteQueryBuilder::delete_many(model, &keys);
    let mut i: usize = 0;
    while i < stmts.len()
        invariant
            stmts@.len() == 2,
            0 <= i <= 2,
            (stmts@[0] matches DeleteStatement::DeleteLinks { model: m0, keys: k0 } && m0
                == record_finder.model && k0@ == seq![id]),
            (stmts@[1] matches DeleteStatement::DeleteRows { model: m1, id_field, keys: k1 } && m1
                == record_finder.model && id_field == id_field_of(schema.models@, record_finder.model)
                && k1@ == seq![id]),
            i >= 1 ==> conn.links@ == kept(
                links0,
                link_keep_pred(schema.relations@, record_finder.model, seq![id]),
            ),
            i < 1 ==> conn.links@ == links0,
            i >= 2 ==> conn.rows@ == kept(
                rows0,
                row_keep_pred(
                    record_finder.model,
                    id_field_of(schema.models@, record_finder.model),
                    seq![id],
                ),
            ),
            i < 2 ==> conn.rows@ == rows0,
        decreases stmts@.len() - i,
    {
        conn.delete(schema, &stmts[i]);
        i = i + 1;
    }
    proof {
        lemma_kept_subset(
            rows0,
            row_keep_pred(
                record_finder.model,
                id_field_of(schema.models@, record_finder.model),
                seq![id],
            ),
        );
        assert forall|k: int|
            0 <= k < conn.rows@.len() implies crate::database::row_wf(
            schema.models@,
            #[trigger] conn.rows@[k],
        ) by {
            assert(rows0.contains(conn.rows@[k]));
            let w = choose|w: int| 0 <= w < rows0.len() && rows0[w] == conn.rows@[k];
            assert(crate::database::row_wf(schema.models@, rows0[w]));
        }
    }
    Ok(record)
}

/// An explicit finder was given and matches no row at all: the nested
/// delete then fails its existence pre-check, before any connectivity
/// claim is made.
pub open spec fn finder_misses(rows: Seq<Row>, finder: Option<RecordFinder>) -> bool {
    finder matches Some(f) && located_row(rows, f) is None
}

/// The link rows left after a nested delete: unchanged unless an explicit
/// finder (when given) resolved, a connected child was found, and no
/// required relation objected.
pub open spec fn links_after_nested(
    models: Seq<Model>,
    relations: Seq<Relation>,
    rows: Seq<Row>,
    links: Seq<Link>,
    rf: Relation,
    parent_id: u64,
    finder: Option<RecordFinder>,
) -> Seq<Link> {
    if finder_misses(rows, finder) {
        links
    } else {
        match connected_child(models, rows, links, rf, parent_id, finder) {
            None => links,
            Some(l) => if first_violation(relations, links, rf.child_model, seq![l.child_id])
                is Some {
                links
            } else {
                kept(links, link_keep_pred(relations, rf.child_model, seq![l.child_id]))
            },
        }
    }
}

/// The rows left after a nested delete.
pub open spec fn rows_after_nested(
    models: Seq<Model>,
    relations: Seq<Relation>,
    rows: Seq<Row>,
    links: Seq<Link>,
    rf: Relation,
    parent_id: u64,
    finder: Option<RecordFinder>,
) -> Seq<Row> {
    if finder_misses(rows, finder) {
        rows
    } else {
        match connected_child(models, rows, links, rf, parent_id, finder) {
            None => rows,
            Some(l) => if first_violation(relations, links, rf.child_model, seq![l.child_id])
                is Some {
                rows
            } else {
                kept(
                    rows,
                    row_keep_pred(
                        rf.child_model,
                        id_field_of(models, rf.child_model),
                        seq![l.child_id],
                    ),
                )
            },
        }
    }
}

/// Attach the parent's identity to a not-connected report that could not
/// name it yet; every other error passes through unchanged.
fn enrich_not_connected(e: SqlError, parent_model: &Model, parent_id: u64) -> (res: SqlError)
    ensures
        (match e {
            SqlError::RecordsNotConnected {
                relation_name,
                parent_name,
                parent_where: _,
                child_name,
                child_where,
            } => res matches SqlError::RecordsNotConnected {
                relation_name: rn,
                parent_name: pn,
                parent_where: pw,
                child_name: cn,
                child_where: cw,
            } && rn == relation_name && pn == parent_name && cn == child_name && cw == child_where
                && (pw matches Some(info) && info.model_name@ == parent_model.name@ && info.field
                == parent_model.id_field && info.value == parent_id),
            _ => res == e,
        }),
{
    match e {
        SqlError::RecordsNotConnected {
            relation_name,
            parent_name,
            parent_where: _,
            child_name,
            child_where,
        } => SqlError::RecordsNotConnected {
            relation_name,
            parent_name,
            parent_where: Some(RecordFinderInfo::for_id(parent_model, parent_id)),
            child_name,
            child_where,
        },
        other => other,
    }
}

/// The Connection Verifier: build the capability's connectivity read, run
/// it, and hand "did any row come back" to the capability's check
/// function, which alone decides success or failure.
pub fn verify_connection(
    conn: &Database,
    actions: &NestedActions,
    parent_id: u64,
    child_id: u64,
) -> (res: Result<(), SqlError>)
    ensures
        (first_of(conn.links@, link_between_pred(actions.relation, parent_id, child_id)) is Some)
            <==> res is Ok,
        res matches Err(e) ==> actions.not_connected_report(e, parent_id, child_id),
{
    let probe = actions.connectivity_probe(parent_id, child_id);
    let ids = conn.select_ids(&probe);
    proof {
        lemma_selected_ids_head(
            conn.links@,
            link_between_pred(actions.relation, parent_id, child_id),
            child_id_proj(),
            0,
        );
    }
    actions.check_connected(parent_id, child_id, ids.len() > 0)
}

/// A nested delete that removes one item related to the given `parent_id`.
/// If no `record_finder` is given, will delete the first item connected to
/// the parent, in link order.
///
/// Errors thrown from domain violations:
///
/// - Violating any relations where the deleted record is required
/// - If the deleted record is not connected to the parent
/// - The record does not exist
pub fn execute_nested(
    conn: &mut Database,
    schema: &Schema,
    parent_id: u64,
    actions: &NestedActions,
    record_finder: &Option<RecordFinder>,
    relation_field: &Relation,
) -> (res: Result<(), SqlError>)
    requires
        schema.wf(),
        old(conn).wf(*schema),
        relation_listed(schema.relations@, *relation_field),
        actions.wf_for(*schema, *relation_field),
        (match *record_finder {
            Some(f) => model_of(schema.models@, f.model) is Some,
            None => true,
        }),
    ensures
        final(conn).wf(*schema),
        final(conn).rows@ == rows_after_nested(
            schema.models@,
            schema.relations@,
            old(conn).rows@,
            old(conn).links@,
            *relation_field,
            parent_id,
            *record_finder,
        ),
        final(conn).links@ == links_after_nested(
            schema.models@,
            schema.relations@,
            old(conn).rows@,
            old(conn).links@,
            *relation_field,
            parent_id,
            *record_finder,
        ),
        finder_misses(old(conn).rows@, *record_finder) ==> (res matches Err(e) && (match *record_finder {
            Some(f) => is_not_found_for(e, schema.models@, f),
            None => false,
        })),
        !finder_misses(old(conn).rows@, *record_finder) ==> ({
            match connected_child(
                schema.models@,
                old(conn).rows@,
                old(conn).links@,
                *relation_field,
                parent_id,
                *record_finder,
            ) {
                None => res matches Err(e) && is_not_connected_for(
                    e,
                    schema.models@,
                    *relation_field,
                    Some(parent_id),
                    *record_finder,
                ),
                Some(l) => (match first_violation(
                    schema.relations@,
                    old(conn).links@,
                    relation_field.child_model,
                    seq![l.child_id],
                ) {
                    Some(rel) => res matches Err(e) && is_violation_of(e, schema.models@, rel),
                    None => res is Ok,
                }),
            }
        }),
{
    if let Some(f) = record_finder {
        match find_id(conn, schema, f) {
            Ok(_) => {},
            Err(e) => {
                return Err(e);
            },
        }
    }
    let found = find_id_by_parent(conn, schema, relation_field, parent_id, record_finder);
    proof {
        lemma_listed_relation_models_exist(*schema, *relation_field);
    }
    let child_id = match found {
        Ok(id) => id,
        Err(e) => {
            let parent_model = schema.model_by_id(relation_field.parent_model).unwrap();
            return Err(enrich_not_connected(e, parent_model, parent_id));
        },
    };
    proof {
        lemma_first_of_is_hit(
            conn.links@,
            child_of_parent_pred(
                conn.rows@,
                relation_field.id,
                parent_id,
                relation_field.child_model,
                id_field_of(schema.models@, relation_field.child_model),
                *record_finder,
            ),
            0,
        );
        lemma_first_of_exists(
            conn.links@,
            link_between_pred(actions.relation, parent_id, child_id),
            0,
        );
    }
    match verify_connection(conn, actions, parent_id, child_id) {
        Ok(()) => {},
        Err(e) => {
            return Err(e);
        },
    }
    let mut keys: Vec<u64> = Vec::new();
    keys.push(child_id);
    proof {
        assert(keys@ =~= seq![child_id]);
    }
    match DeleteActions::check_relation_violations(
        conn,
        schema,
        relation_field.child_model,
        &keys,
    ) {
        Ok(()) => {},
        Err(e) => {
            return Err(e);
        },
    }
    let related_model = schema.model_by_id(relation_field.child_model).unwrap();
    proof {
        lemma_model_of_wf(*schema, relation_field.child_model);
    }
    let ghost rows0 = conn.rows@;
    let ghost links0 = conn.links@;
    let stmts = WriteQueryBuilder::delete_many(related_model, &keys);
    let mut i: usize = 0;
    while i < stmts.len()
        invariant
            stmts@.len() == 2,
            0 <= i <= 2,
            (stmts@[0] matches DeleteStatement::DeleteLinks { model: m0, keys: k0 } && m0
                == relation_field.child_model && k0@ == seq![child_id]),
            (stmts@[1] matches DeleteStatement::DeleteRows { model: m1, id_field, keys: k1 } && m1
                == relation_field.child_model && id_field == id_field_of(
                schema.models@,
                relation_field.child_model,
            ) && k1@ == seq![child_id]),
            i >= 1 ==> conn.links@ == kept(
                links0,
                link_keep_pred(schema.relations@, relation_field.child_model, seq![child_id]),
            ),
            i < 1 ==> conn.links@ == links0,
            i >= 2 ==> conn.rows@ == kept(
                rows0,
                row_keep_pred(
                    relation_field.child_model,
                    id_field_of(schema.models@, relation_field.child_model),
                    seq![child_id],
                ),
            ),
            i < 2 ==> conn.rows@ == rows0,
        decreases stmts@.len() - i,
    {
        conn.delete(schema, &stmts[i]);
        i = i + 1;
    }
    proof {
        lemma_kept_subset(
            rows0,
            row_keep_pred(
                relation_field.child_model,
                id_field_of(schema.models@, relation_field.child_model),
                seq![child_id],
            ),
        );
        assert forall|k: int|
            0 <= k < conn.rows@.len() implies crate::database::row_wf(
            schema.models@,
            #[trigger] conn.rows@[k],
        ) by {
            assert(rows0.contains(conn.rows@[k]));
            let w = choose|w: int| 0 <= w < rows0.len() && rows0[w] == conn.rows@[k];
            assert(crate::database::row_wf(schema.models@, rows0[w]));
        }
    }
    Ok(())
}

/// A finder that matches nothing leaves the store untouched and fails with
/// a not-found report, by `execute`'s contract; and because nothing
/// changed, the same finder still matches nothing afterwards, so a second
/// identical call fails the same way.  Failure is idempotent: neither call
/// deletes anything.
pub proof fn lemma_not_found_repeats(
    models: Seq<Model>,
    relations: Seq<Relation>,
    rows: Seq<Row>,
    links: Seq<Link>,
    f: RecordFinder,
)
    requires
        located_row(rows, f) is None,
    ensures
        rows_after_execute(models, relations, rows, links, f) == rows,
        links_after_execute(models, relations, rows, links, f) == links,
        located_row(rows_after_execute(models, relations, rows, links, f), f) is None,
{
}

/// When any required relation still references the located key, a
/// top-level delete changes nothing: the violation probe runs before any
/// write, so the rejected delete issues no delete statements.
pub proof fn lemma_violation_blocks_execute(
    models: Seq<Model>,
    relations: Seq<Relation>,
    rows: Seq<Row>,
    links: Seq<Link>,
    f: RecordFinder,
)
    requires
        located_row(rows, f) is Some,
        first_violation(relations, links, f.model, seq![located_key(models, rows, f)]) is Some,
    ensures
        rows_after_execute(models, relations, rows, links, f) == rows,
        links_after_execute(models, relations, rows, links, f) == links,
{
}

/// When the explicit finder of a nested delete matches no row at all, the
/// delete changes nothing: the existence pre-check fails before any
/// write, so no delete statements are issued.
pub proof fn lemma_missing_finder_blocks_nested(
    models: Seq<Model>,
    relations: Seq<Relation>,
    rows: Seq<Row>,
    links: Seq<Link>,
    rf: Relation,
    parent_id: u64,
    finder: Option<RecordFinder>,
)
    requires
        finder_misses(rows, finder),
    ensures
        rows_after_nested(models, relations, rows, links, rf, parent_id, finder) == rows,
        links_after_nested(models, relations, rows, links, rf, parent_id, finder) == links,
{
}

/// When no row connects the parent to any candidate child, a nested
/// delete changes nothing: the not-connected report is raised before any
/// write, so no delete statements are issued.
pub proof fn lemma_not_connected_blocks_nested(
    models: Seq<Model>,
    relations: Seq<Relation>,
    rows: Seq<Row>,
    links: Seq<Link>,
    rf: Relation,
    parent_id: u64,
    finder: Option<RecordFinder>,
)
    requires
        connected_child(models, rows, links, rf, parent_id, finder) is None,
    ensures
        rows_after_nested(models, relations, rows, links, rf, parent_id, finder) == rows,
        links_after_nested(models, relations, rows, links, rf, parent_id, finder) == links,
{
}

/// When any required relation still references the connected child, a
/// nested delete changes nothing either.
pub proof fn lemma_violation_blocks_nested(
    models: Seq<Model>,
    relations: Seq<Relation>,
    rows: Seq<Row>,
    links: Seq<Link>,
    rf: Relation,
    parent_id: u64,
    finder: Option<RecordFinder>,
)
    requires
        connected_child(models, rows, links, rf, parent_id, finder) matches Some(l)
            && first_violation(relations, links, rf.child_model, seq![l.child_id]) is Some,
    ensures
        rows_after_nested(models, relations, rows, links, rf, parent_id, finder) == rows,
        links_after_nested(models, relations, rows, links, rf, parent_id, finder) == links,
{
}

} // verus!
