//! The transaction's snapshot of the store, and the two operations the
//! delete workflows run against it: a read returning keys and a physical
//! delete statement.
//!
//! Rows hold the materialized records; link rows state, per relation, that
//! a child row references a parent row.  A link row stands both for a
//! foreign-key column and for a join-table entry: either way it is the one
//! witness of connectivity this crate reasons about.
use crate::query::DeleteStatement;
use crate::query::SelectQuery;
use crate::query::child_id_proj;
use crate::query::child_in_pred;
use crate::query::child_of_parent_pred;
use crate::query::child_row_pred;
use crate::query::finder_pred;
use crate::query::link_between_pred;
use crate::query::parent_id_proj;
use crate::query::parent_in_pred;
use crate::query::row_id_proj;
use crate::record::Record;
use crate::record::RecordFinder;
use crate::schema::Model;
use crate::schema::Relation;
use crate::schema::Schema;
use crate::schema::model_of;
use crate::schema::relation_of;
use crate::seqs::first_of;
use crate::seqs::first_of_from;
use crate::seqs::kept;
use crate::seqs::kept_upto;
use crate::seqs::selected_ids;
use crate::seqs::selected_ids_from;
use vstd::prelude::*;

verus! {

/// A stored row: the model it belongs to and its field values.
pub struct Row {
    pub model: u64,
    pub record: Record,
}

/// A relationship-defining row: through `relation`, the row keyed
/// `child_id` references the row keyed `parent_id`.
#[derive(Clone, Copy, Debug, PartialEq, Eq, Structural)]
pub struct Link {
    pub relation: u64,
    pub parent_id: u64,
    pub child_id: u64,
}

/// One transaction's view of the store.
pub struct Database {
    pub rows: Vec<Row>,
    pub links: Vec<Link>,
}

/// The row belongs to a model of the schema and carries one value per
/// field of it.
pub open spec fn row_wf(models: Seq<Model>, row: Row) -> bool {
    match model_of(models, row.model) {
        Some(m) => row.record.fields@.len() == m.n_fields,
        None => false,
    }
}

/// Deleting the rows of `model` keyed by `keys` removes this link: the
/// deleted row participates in it on one side or the other.
pub open spec fn link_touches(relations: Seq<Relation>, l: Link, model: u64, keys: Seq<u64>) -> bool {
    match relation_of(relations, l.relation) {
        Some(r) => (r.parent_model == model && keys.contains(l.parent_id)) || (r.child_model
            == model && keys.contains(l.child_id)),
        None => false,
    }
}

/// The rows surviving `DeleteRows { model, id_field, keys }`.
pub open spec fn row_keep_pred(model: u64, id_field: usize, keys: Seq<u64>) -> spec_fn(Row) -> bool {
    |row: Row|
        !(row.model == model && id_field < row.record.fields@.len() && keys.contains(
            row.record.fields@[id_field as int],
        ))
}

/// The link rows surviving `DeleteLinks { model, keys }`.
pub open spec fn link_keep_pred(relations: Seq<Relation>, model: u64, keys: Seq<u64>) -> spec_fn(
    Link,
) -> bool {
    |l: Link| !link_touches(relations, l, model, keys)
}

/// `k` occurs in the key list.
fn contains_key(keys: &Vec<u64>, k: u64) -> (res: bool)
    ensures
        res == keys@.contains(k),
{
    let mut i: usize = 0;
    while i < keys.len()
        invariant
            0 <= i <= keys@.len(),
            forall|j: int| 0 <= j < i ==> keys@[j] != k,
        decreases keys@.len() - i,
    {
        if keys[i] == k {
            proof {
                assert(keys@.contains(k)) by {
                    assert(keys@[i as int] == k);
                }
            }
            return true;
        }
        i = i + 1;
    }
    false
}

/// Some row of `child_model` keyed `child_id` matches the finder.
fn child_row_hit(
    rows: &Vec<Row>,
    child_model: u64,
    child_id_field: usize,
    child_id: u64,
    f: &RecordFinder,
) -> (res: bool)
    ensures
        res == (first_of(rows@, child_row_pred(child_model, child_id_field, child_id, *f)) is Some),
{
    let mut i: usize = 0;
    while i < rows.len()
        invariant
            0 <= i <= rows@.len(),
            first_of_from(rows@, child_row_pred(child_model, child_id_field, child_id, *f), 0)
                == first_of_from(
                rows@,
                child_row_pred(child_model, child_id_field, child_id, *f),
                i as int,
            ),
        decreases rows@.len() - i,
    {
        let row = &rows[i];
        let hit = row.model == child_model && child_id_field < row.record.fields.len()
            && row.record.fields[child_id_field] == child_id && row.model == f.model && f.field
            < row.record.fields.len() && row.record.fields[f.field] == f.value;
        proof {
            assert(hit == child_row_pred(child_model, child_id_field, child_id, *f)(
                rows@[i as int],
            ));
        }
        if hit {
            return true;
        }
        i = i + 1;
    }
    false
}

/// Keys of the rows a finder matches, in row order.
fn scan_records_where(rows: &Vec<Row>, finder: RecordFinder, id_field: usize) -> (out: Vec<u64>)
    ensures
        out@ == selected_ids(rows@, finder_pred(finder), row_id_proj(id_field)),
{
    let mut out: Vec<u64> = Vec::new();
    let mut i: usize = 0;
    proof {
        assert(Seq::<u64>::empty() + selected_ids_from(
            rows@,
            finder_pred(finder),
            row_id_proj(id_field),
            0,
        ) =~= selected_ids_from(rows@, finder_pred(finder), row_id_proj(id_field), 0));
    }
    while i < rows.len()
        invariant
            0 <= i <= rows@.len(),
            out@ + selected_ids_from(rows@, finder_pred(finder), row_id_proj(id_field), i as int)
                == selected_ids_from(rows@, finder_pred(finder), row_id_proj(id_field), 0),
        decreases rows@.len() - i,
    {
        let row = &rows[i];
        let hit = row.model == finder.model && finder.field < row.record.fields.len()
            && row.record.fields[finder.field] == finder.value;
        proof {
            assert(hit == finder_pred(finder)(rows@[i as int]));
        }
        if hit {
            let id = if id_field < row.record.fields.len() {
                row.record.fields[id_field]
            } else {
                0
            };
            proof {
                assert(id == row_id_proj(id_field)(rows@[i as int]));
                assert(selected_ids_from(rows@, finder_pred(finder), row_id_proj(id_field), i as int)
                    == seq![id] + selected_ids_from(
                    rows@,
                    finder_pred(finder),
                    row_id_proj(id_field),
                    i + 1,
                ));
                assert(out@.push(id) + selected_ids_from(
                    rows@,
                    finder_pred(finder),
                    row_id_proj(id_field),
                    i + 1,
                ) =~= out@ + (seq![id] + selected_ids_from(
                    rows@,
                    finder_pred(finder),
                    row_id_proj(id_field),
                    i + 1,
                )));
            }
            out.push(id);
        } else {
            proof {
                assert(selected_ids_from(rows@, finder_pred(finder), row_id_proj(id_field), i as int)
                    == selected_ids_from(rows@, finder_pred(finder), row_id_proj(id_field), i + 1));
            }
        }
        i = i + 1;
    }
    proof {
        assert(selected_ids_from(rows@, finder_pred(finder), row_id_proj(id_field), rows@.len() as int)
            == Seq::<u64>::empty());
        assert(out@ + Seq::<u64>::empty() =~= out@);
    }
    out
}

/// Child keys of the links leaving `parent_id` through `relation`, each
/// child additionally matching the finder when one is given.
fn scan_child_of_parent(
    rows: &Vec<Row>,
    links: &Vec<Link>,
    relation: u64,
    parent_id: u64,
    child_model: u64,
    child_id_field: usize,
    finder: Option<RecordFinder>,
) -> (out: Vec<u64>)
    ensures
        out@ == selected_ids(
            links@,
            child_of_parent_pred(rows@, relation, parent_id, child_model, child_id_field, finder),
            child_id_proj(),
        ),
{
    let ghost p = child_of_parent_pred(
        rows@,
        relation,
        parent_id,
        child_model,
        child_id_field,
        finder,
    );
    let mut out: Vec<u64> = Vec::new();
    let mut i: usize = 0;
    proof {
        assert(Seq::<u64>::empty() + selected_ids_from(links@, p, child_id_proj(), 0)
            =~= selected_ids_from(links@, p, child_id_proj(), 0));
    }
    while i < links.len()
        invariant
            0 <= i <= links@.len(),
            p == child_of_parent_pred(
                rows@,
                relation,
                parent_id,
                child_model,
                child_id_field,
                finder,
            ),
            out@ + selected_ids_from(links@, p, child_id_proj(), i as int) == selected_ids_from(
                links@,
                p,
                child_id_proj(),
                0,
            ),
        decreases links@.len() - i,
    {
        let l = links[i];
        let hit = l.relation == relation && l.parent_id == parent_id && (match finder {
            None => true,
            Some(f) => child_row_hit(rows, child_model, child_id_field, l.child_id, &f),
        });
        proof {
            assert(hit == p(links@[i as int]));
        }
        if hit {
            let id = l.child_id;
            proof {
                assert(id == child_id_proj()(links@[i as int]));
                assert(selected_ids_from(links@, p, child_id_proj(), i as int) == seq![id]
                    + selected_ids_from(links@, p, child_id_proj(), i + 1));
                assert(out@.push(id) + selected_ids_from(links@, p, child_id_proj(), i + 1)
                    =~= out@ + (seq![id] + selected_ids_from(links@, p, child_id_proj(), i + 1)));
            }
            out.push(id);
        } else {
            proof {
                assert(selected_ids_from(links@, p, child_id_proj(), i as int) == selected_ids_from(
                    links@,
                    p,
                    child_id_proj(),
                    i + 1,
                ));
            }
        }
        i = i + 1;
    }
    proof {
        assert(selected_ids_from(links@, p, child_id_proj(), links@.len() as int)
            == Seq::<u64>::empty());
        assert(out@ + Seq::<u64>::empty() =~= out@);
    }
    out
}

/// Keys projected out of the links satisfying a scalar condition: the
/// connectivity and violation probes.
fn scan_links(links: &Vec<Link>, query: &SelectQuery) -> (out: Vec<u64>)
    requires
        !(query matches SelectQuery::RecordsWhere { .. }),
        !(query matches SelectQuery::ChildOfParent { .. }),
    ensures
        out@ == query.results(Seq::<Row>::empty(), links@),
{
    let ghost p: spec_fn(Link) -> bool = (match query {
        SelectQuery::LinkBetween { relation, parent_id, child_id } => link_between_pred(
            *relation,
            *parent_id,
            *child_id,
        ),
        SelectQuery::LinksWithParentIn { relation, keys } => parent_in_pred(*relation, keys@),
        SelectQuery::LinksWithChildIn { relation, keys } => child_in_pred(*relation, keys@),
        _ => |l: Link| false,
    });
    let ghost pr: spec_fn(Link) -> u64 = (match query {
        SelectQuery::LinksWithChildIn { .. } => parent_id_proj(),
        _ => child_id_proj(),
    });
    let mut out: Vec<u64> = Vec::new();
    let mut i: usize = 0;
    proof {
        assert(Seq::<u64>::empty() + selected_ids_from(links@, p, pr, 0) =~= selected_ids_from(
            links@,
            p,
            pr,
            0,
        ));
    }
    while i < links.len()
        invariant
            0 <= i <= links@.len(),
            !(query matches SelectQuery::RecordsWhere { .. }),
            !(query matches SelectQuery::ChildOfParent { .. }),
            p == (match query {
                SelectQuery::LinkBetween { relation, parent_id, child_id } => link_between_pred(
                    *relation,
                    *parent_id,
                    *child_id,
                ),
                SelectQuery::LinksWithParentIn { relation, keys } => parent_in_pred(
                    *relation,
                    keys@,
                ),
                SelectQuery::LinksWithChildIn { relation, keys } => child_in_pred(*relation, keys@),
                _ => |l: Link| false,
            }),
            pr == (match query {
                SelectQuery::LinksWithChildIn { .. } => parent_id_proj(),
                _ => child_id_proj(),
            }),
            out@ + selected_ids_from(links@, p, pr, i as int) == selected_ids_from(links@, p, pr, 0),
        decreases links@.len() - i,
    {
        let l = links[i];
        let hit = match query {
            SelectQuery::LinkBetween { relation, parent_id, child_id } => l.relation == *relation
                && l.parent_id == *parent_id && l.child_id == *child_id,
            SelectQuery::LinksWithParentIn { relation, keys } => l.relation == *relation
                && contains_key(keys, l.parent_id),
            SelectQuery::LinksWithChildIn { relation, keys } => l.relation == *relation
                && contains_key(keys, l.child_id),
            _ => false,
        };
        proof {
            assert(hit == p(links@[i as int]));
        }
        if hit {
            let id = match query {
                SelectQuery::LinksWithChildIn { .. } => l.parent_id,
                _ => l.child_id,
            };
            proof {
                assert(id == pr(links@[i as int]));
                assert(selected_ids_from(links@, p, pr, i as int) == seq![id] + selected_ids_from(
                    links@,
                    p,
                    pr,
                    i + 1,
                ));
                assert(out@.push(id) + selected_ids_from(links@, p, pr, i + 1) =~= out@ + (seq![id]
                    + selected_ids_from(links@, p, pr, i + 1)));
            }
            out.push(id);
        } else {
            proof {
                assert(selected_ids_from(links@, p, pr, i as int) == selected_ids_from(
                    links@,
                    p,
                    pr,
                    i + 1,
                ));
            }
        }
        i = i + 1;
    }
    proof {
        assert(selected_ids_from(links@, p, pr, links@.len() as int) == Seq::<u64>::empty());
        assert(out@ + Seq::<u64>::empty() =~= out@);
    }
    out
}

/// Removes, in place, every element the predicate rejects; keeps order.
fn remove_links(links: &mut Vec<Link>, schema: &Schema, model: u64, keys: &Vec<u64>)
    ensures
        final(links)@ == kept(old(links)@, link_keep_pred(schema.relations@, model, keys@)),
{
    let ghost orig = links@;
    let ghost p = link_keep_pred(schema.relations@, model, keys@);
    let ghost mut j: int = 0;
    let mut i: usize = 0;
    proof {
        assert(kept_upto(orig, p, 0) + orig.subrange(0, orig.len() as int) =~= orig);
    }
    while i < links.len()
        invariant
            0 <= j <= orig.len(),
            i as int == kept_upto(orig, p, j).len(),
            p == link_keep_pred(schema.relations@, model, keys@),
            links@ == kept_upto(orig, p, j) + orig.subrange(j, orig.len() as int),
        decreases links@.len() - i,
    {
        proof {
            assert(j < orig.len());
            assert(links@[i as int] == orig[j]);
        }
        let l = links[i];
        let keep = match schema.relation_by_id(l.relation) {
            Some(r) => !((r.parent_model == model && contains_key(keys, l.parent_id))
                || (r.child_model == model && contains_key(keys, l.child_id))),
            None => true,
        };
        proof {
            assert(keep == p(orig[j]));
        }
        if keep {
            i = i + 1;
            proof {
                assert(kept_upto(orig, p, j + 1) == kept_upto(orig, p, j).push(orig[j]));
                assert(kept_upto(orig, p, j).push(orig[j]) + orig.subrange(j + 1, orig.len() as int)
                    =~= kept_upto(orig, p, j) + orig.subrange(j, orig.len() as int));
                j = j + 1;
            }
        } else {
            links.remove(i);
            proof {
                assert(kept_upto(orig, p, j + 1) == kept_upto(orig, p, j));
                assert((kept_upto(orig, p, j) + orig.subrange(j, orig.len() as int)).remove(i as int)
                    =~= kept_upto(orig, p, j) + orig.subrange(j + 1, orig.len() as int));
                j = j + 1;
            }
        }
    }
    proof {
        assert(j == orig.len());
        assert(links@ =~= kept_upto(orig, p, orig.len() as int));
    }
}

/// Removes, in place, every row the predicate rejects; keeps order.
fn remove_rows(rows: &mut Vec<Row>, model: u64, id_field: usize, keys: &Vec<u64>)
    ensures
        final(rows)@ == kept(old(rows)@, row_keep_pred(model, id_field, keys@)),
{
    let ghost orig = rows@;
    let ghost p = row_keep_pred(model, id_field, keys@);
    let ghost mut j: int = 0;
    let mut i: usize = 0;
    proof {
        assert(kept_upto(orig, p, 0) + orig.subrange(0, orig.len() as int) =~= orig);
    }
    while i < rows.len()
        invariant
            0 <= j <= orig.len(),
            i as int == kept_upto(orig, p, j).len(),
            p == row_keep_pred(model, id_field, keys@),
            rows@ == kept_upto(orig, p, j) + orig.subrange(j, orig.len() as int),
        decreases rows@.len() - i,
    {
        proof {
            assert(j < orig.len());
            assert(rows@[i as int] == orig[j]);
        }
        let keep = {
            let row = &rows[i];
            if row.model == model && id_field < row.record.fields.len() {
                !contains_key(keys, row.record.fields[id_field])
            } else {
                true
            }
        };
        proof {
            assert(keep == p(orig[j]));
        }
        if keep {
            i = i + 1;
            proof {
                assert(kept_upto(orig, p, j + 1) == kept_upto(orig, p, j).push(orig[j]));
                assert(kept_upto(orig, p, j).push(orig[j]) + orig.subrange(j + 1, orig.len() as int)
                    =~= kept_upto(orig, p, j) + orig.subrange(j, orig.len() as int));
                j = j + 1;
            }
        } else {
            rows.remove(i);
            proof {
                assert(kept_upto(orig, p, j + 1) == kept_upto(orig, p, j));
                assert((kept_upto(orig, p, j) + orig.subrange(j, orig.len() as int)).remove(i as int)
                    =~= kept_upto(orig, p, j) + orig.subrange(j + 1, orig.len() as int));
                j = j + 1;
            }
        }
    }
    proof {
        assert(j == orig.len());
        assert(rows@ =~= kept_upto(orig, p, orig.len() as int));
    }
}

impl Database {
    /// Every stored row is a well-formed row of the schema.
    pub open spec fn wf(self, schema: Schema) -> bool {
        forall|i: int| 0 <= i < self.rows@.len() ==> row_wf(schema.models@, #[trigger] self.rows@[i])
    }

    /// Runs a read and returns the keys it selects, in store order.
    pub fn select_ids(&self, query: &SelectQuery) -> (ids: Vec<u64>)
        ensures
            ids@ == query.results(self.rows@, self.links@),
    {
        match query {
            SelectQuery::RecordsWhere { finder, id_field } => scan_records_where(
                &self.rows,
                *finder,
                *id_field,
            ),
            SelectQuery::ChildOfParent { relation, parent_id, child_model, child_id_field, child_finder } => scan_child_of_parent(
                &self.rows,
                &self.links,
                *relation,
                *parent_id,
                *child_model,
                *child_id_field,
                *child_finder,
            ),
            _ => scan_links(&self.links, query),
        }
    }

    /// The first row a finder matches, as an owned snapshot.
    pub fn find_first_record(&self, finder: &RecordFinder) -> (res: Option<Record>)
        ensures
            (match first_of(self.rows@, finder_pred(*finder)) {
                Some(row) => res matches Some(r) && r.fields@ == row.record.fields@,
                None => res is None,
            }),
    {
        let mut i: usize = 0;
        while i < self.rows.len()
            invariant
                0 <= i <= self.rows@.len(),
                first_of_from(self.rows@, finder_pred(*finder), 0) == first_of_from(
                    self.rows@,
                    finder_pred(*finder),
                    i as int,
                ),
            decreases self.rows@.len() - i,
        {
            let row = &self.rows[i];
            let hit = row.model == finder.model && finder.field < row.record.fields.len()
                && row.record.fields[finder.field] == finder.value;
            proof {
                assert(hit == finder_pred(*finder)(self.rows@[i as int]));
            }
            if hit {
                return Some(row.record.duplicate());
            }
            i = i + 1;
        }
        None
    }

    /// Executes one physical delete statement.
    pub fn delete(&mut self, schema: &Schema, stmt: &DeleteStatement)
        ensures
            (match *stmt {
                DeleteStatement::DeleteLinks { model, keys } => final(self).links@ == kept(
                    old(self).links@,
                    link_keep_pred(schema.relations@, model, keys@),
                ) && final(self).rows@ == old(self).rows@,
                DeleteStatement::DeleteRows { model, id_field, keys } => final(self).rows@ == kept(
                    old(self).rows@,
                    row_keep_pred(model, id_field, keys@),
                ) && final(self).links@ == old(self).links@,
            }),
    {
        match stmt {
            DeleteStatement::DeleteLinks { model, keys } => {
                remove_links(&mut self.links, schema, *model, keys);
            },
            DeleteStatement::DeleteRows { model, id_field, keys } => {
                remove_rows(&mut self.rows, *model, *id_field, keys);
            },
        }
    }
}

} // verus!
