//! Read and delete statements, their meaning, and their builders.
//!
//! A [`SelectQuery`] is a data description of a read; its meaning is the id
//! sequence [`SelectQuery::results`] returns.  A [`DeleteStatement`] is a
//! data description of a write; [`crate::database::Database::delete`] gives
//! it its meaning.  Building either is pure and side-effect free.
use crate::database::Link;
use crate::database::Row;
use crate::error::SqlError;
use crate::record::RecordFinder;
use crate::record::RecordFinderInfo;
use crate::schema::Model;
use crate::schema::Relation;
use crate::schema::Schema;
use crate::schema::id_field_of;
use crate::schema::model_name_of;
use crate::seqs::first_of;
use crate::seqs::selected_ids;
use vstd::prelude::*;

verus! {

/// An executable read returning a sequence of keys.
pub enum SelectQuery {
    /// Primary keys of the rows a finder matches, in row order.
    RecordsWhere { finder: RecordFinder, id_field: usize },
    /// Child keys connected to `parent_id` through `relation`, in link
    /// order, each child additionally matching the finder when one is
    /// given.
    ChildOfParent {
        relation: u64,
        parent_id: u64,
        child_model: u64,
        child_id_field: usize,
        child_finder: Option<RecordFinder>,
    },
    /// Child keys of the links connecting exactly `parent_id` to
    /// `child_id` through `relation`: the connectivity probe.
    LinkBetween { relation: u64, parent_id: u64, child_id: u64 },
    /// Child keys of the links of `relation` whose parent key is one of
    /// `keys`: the "who still references a parent" violation probe.
    LinksWithParentIn { relation: u64, keys: Vec<u64> },
    /// Parent keys of the links of `relation` whose child key is one of
    /// `keys`: the "who still holds on to a child" violation probe.
    LinksWithChildIn { relation: u64, keys: Vec<u64> },
}

/// A row of `f.model` whose field `f.field` holds `f.value`.
pub open spec fn row_matches(row: Row, f: RecordFinder) -> bool {
    &&& row.model == f.model
    &&& f.field < row.record.fields@.len()
    &&& row.record.fields@[f.field as int] == f.value
}

/// Predicate form of [`row_matches`].
pub open spec fn finder_pred(f: RecordFinder) -> spec_fn(Row) -> bool {
    |row: Row| row_matches(row, f)
}

/// Projects a row to its primary-key value.
pub open spec fn row_id_proj(id_field: usize) -> spec_fn(Row) -> u64 {
    |row: Row|
        if id_field < row.record.fields@.len() {
            row.record.fields@[id_field as int]
        } else {
            0
        }
}

/// A row of `child_model` whose primary key is `child_id` and which also
/// matches the finder.
pub open spec fn child_row_pred(
    child_model: u64,
    child_id_field: usize,
    child_id: u64,
    f: RecordFinder,
) -> spec_fn(Row) -> bool {
    |row: Row|
        {
            &&& row.model == child_model
            &&& child_id_field < row.record.fields@.len()
            &&& row.record.fields@[child_id_field as int] == child_id
            &&& row_matches(row, f)
        }
}

/// A link of `relation` leaving `parent_id` whose child also passes the
/// optional finder, looked up among `rows`.
pub open spec fn child_of_parent_pred(
    rows: Seq<Row>,
    relation: u64,
    parent_id: u64,
    child_model: u64,
    child_id_field: usize,
    finder: Option<RecordFinder>,
) -> spec_fn(Link) -> bool {
    |l: Link|
        {
            &&& l.relation == relation
            &&& l.parent_id == parent_id
            &&& (match finder {
                None => true,
                Some(f) => first_of(
                    rows,
                    child_row_pred(child_model, child_id_field, l.child_id, f),
                ) is Some,
            })
        }
}

/// The link connecting exactly this parent to this child.
pub open spec fn link_between_pred(relation: u64, parent_id: u64, child_id: u64) -> spec_fn(
    Link,
) -> bool {
    |l: Link| l.relation == relation && l.parent_id == parent_id && l.child_id == child_id
}

/// A link of `relation` whose parent key lies in `keys`.
pub open spec fn parent_in_pred(relation: u64, keys: Seq<u64>) -> spec_fn(Link) -> bool {
    |l: Link| l.relation == relation && keys.contains(l.parent_id)
}

/// A link of `relation` whose child key lies in `keys`.
pub open spec fn child_in_pred(relation: u64, keys: Seq<u64>) -> spec_fn(Link) -> bool {
    |l: Link| l.relation == relation && keys.contains(l.child_id)
}

/// Projects a link to its child key.
pub open spec fn child_id_proj() -> spec_fn(Link) -> u64 {
    |l: Link| l.child_id
}

/// Projects a link to its parent key.
pub open spec fn parent_id_proj() -> spec_fn(Link) -> u64 {
    |l: Link| l.parent_id
}

impl SelectQuery {
    /// The key sequence this read returns against the given store state.
    pub open spec fn results(self, rows: Seq<Row>, links: Seq<Link>) -> Seq<u64> {
        match self {
            SelectQuery::RecordsWhere { finder, id_field } => selected_ids(
                rows,
                finder_pred(finder),
                row_id_proj(id_field),
            ),
            SelectQuery::ChildOfParent { relation, parent_id, child_model, child_id_field, child_finder } => selected_ids(
                links,
                child_of_parent_pred(
                    rows,
                    relation,
                    parent_id,
                    child_model,
                    child_id_field,
                    child_finder,
                ),
                child_id_proj(),
            ),
            SelectQuery::LinkBetween { relation, parent_id, child_id } => selected_ids(
                links,
                link_between_pred(relation, parent_id, child_id),
                child_id_proj(),
            ),
            SelectQuery::LinksWithParentIn { relation, keys } => selected_ids(
                links,
                parent_in_pred(relation, keys@),
                child_id_proj(),
            ),
            SelectQuery::LinksWithChildIn { relation, keys } => selected_ids(
                links,
                child_in_pred(relation, keys@),
                parent_id_proj(),
            ),
        }
    }
}

/// An executable write removing rows or link rows.
pub enum DeleteStatement {
    /// Remove every link row in which one of `keys`, as a row of `model`,
    /// participates on either side.
    DeleteLinks { model: u64, keys: Vec<u64> },
    /// Remove every row of `model` whose primary key is one of `keys`.
    DeleteRows { model: u64, id_field: usize, keys: Vec<u64> },
}

/// An owned copy of a key list.
pub fn copy_keys(keys: &Vec<u64>) -> (res: Vec<u64>)
    ensures
        res@ == keys@,
{
    let mut out: Vec<u64> = Vec::new();
    let mut i: usize = 0;
    while i < keys.len()
        invariant
            0 <= i <= keys@.len(),
            out@ == keys@.take(i as int),
        decreases keys@.len() - i,
    {
        out.push(keys[i]);
        proof {
            assert(out@ =~= keys@.take(i + 1 as int));
        }
        i = i + 1;
    }
    proof {
        assert(out@ =~= keys@);
    }
    out
}

/// Builds the physical statements of a delete.
pub struct WriteQueryBuilder;

impl WriteQueryBuilder {
    /// The statements removing the given rows of `model`: dependent link
    /// rows first, then the rows themselves.
    pub fn delete_many(model: &Model, keys: &Vec<u64>) -> (stmts: Vec<DeleteStatement>)
        ensures
            stmts@.len() == 2,
            (stmts@[0] matches DeleteStatement::DeleteLinks { model: m0, keys: k0 } && m0
                == model.id && k0@ == keys@),
            (stmts@[1] matches DeleteStatement::DeleteRows { model: m1, id_field, keys: k1 } && m1
                == model.id && id_field == model.id_field && k1@ == keys@),
    {
        let mut stmts: Vec<DeleteStatement> = Vec::new();
        stmts.push(DeleteStatement::DeleteLinks { model: model.id, keys: copy_keys(keys) });
        stmts.push(
            DeleteStatement::DeleteRows {
                model: model.id,
                id_field: model.id_field,
                keys: copy_keys(keys),
            },
        );
        stmts
    }
}

/// The relation-specific capability of a nested delete: it knows how to ask
/// "are these two keys connected" and how to turn the probe's outcome into
/// success or a structured not-connected error.
pub struct NestedActions {
    pub relation: u64,
    pub relation_name: String,
    pub parent_model_name: String,
    pub child_model_name: String,
    pub parent_id_field: usize,
    pub child_id_field: usize,
}

impl NestedActions {
    /// The capability is the one for relation `rf` under this schema.
    pub open spec fn wf_for(self, schema: Schema, rf: Relation) -> bool {
        &&& self.relation == rf.id
        &&& self.relation_name@ == rf.name@
        &&& self.parent_model_name@ == model_name_of(schema.models@, rf.parent_model)
        &&& self.child_model_name@ == model_name_of(schema.models@, rf.child_model)
        &&& self.parent_id_field == id_field_of(schema.models@, rf.parent_model)
        &&& self.child_id_field == id_field_of(schema.models@, rf.child_model)
    }

    /// The capability for relation `rf` under `schema`.
    pub fn new(schema: &Schema, rf: &Relation) -> (res: NestedActions)
        ensures
            res.wf_for(*schema, *rf),
    {
        let (parent_model_name, parent_id_field) = match schema.model_by_id(rf.parent_model) {
            Some(m) => (m.name.clone(), m.id_field),
            None => (String::new(), 0),
        };
        let (child_model_name, child_id_field) = match schema.model_by_id(rf.child_model) {
            Some(m) => (m.name.clone(), m.id_field),
            None => (String::new(), 0),
        };
        NestedActions {
            relation: rf.id,
            relation_name: rf.name.clone(),
            parent_model_name,
            child_model_name,
            parent_id_field,
            child_id_field,
        }
    }

    /// The read whose non-empty result proves that `parent_id` and
    /// `child_id` are connected through this relation.
    pub fn connectivity_probe(&self, parent_id: u64, child_id: u64) -> (q: SelectQuery)
        ensures
            q == (SelectQuery::LinkBetween { relation: self.relation, parent_id, child_id }),
    {
        SelectQuery::LinkBetween { relation: self.relation, parent_id, child_id }
    }

    /// `e` is this capability's not-connected report for the two keys:
    /// it names the relation and describes both rows.
    pub open spec fn not_connected_report(self, e: SqlError, parent_id: u64, child_id: u64) -> bool {
        e matches SqlError::RecordsNotConnected {
            relation_name,
            parent_name,
            parent_where,
            child_name,
            child_where,
        } && {
            &&& relation_name@ == self.relation_name@
            &&& parent_name@ == self.parent_model_name@
            &&& (parent_where matches Some(pw) && pw.model_name@ == self.parent_model_name@
                && pw.field == self.parent_id_field && pw.value == parent_id)
            &&& child_name@ == self.child_model_name@
            &&& (child_where matches Some(cw) && cw.model_name@ == self.child_model_name@
                && cw.field == self.child_id_field && cw.value == child_id)
        }
    }

    /// Interprets the probe's outcome: success when a row came back, the
    /// relation's not-connected error otherwise.
    pub fn check_connected(&self, parent_id: u64, child_id: u64, connected: bool) -> (res: Result<
        (),
        SqlError,
    >)
        ensures
            connected <==> res is Ok,
            !connected ==> (res matches Err(e) && self.not_connected_report(
                e,
                parent_id,
                child_id,
            )),
    {
        if connected {
            Ok(())
        } else {
            Err(
                SqlError::RecordsNotConnected {
                    relation_name: self.relation_name.clone(),
                    parent_name: self.parent_model_name.clone(),
                    parent_where: Some(
                        RecordFinderInfo {
                            model_name: self.parent_model_name.clone(),
                            field: self.parent_id_field,
                            value: parent_id,
                        },
                    ),
                    child_name: self.child_model_name.clone(),
                    child_where: Some(
                        RecordFinderInfo {
                            model_name: self.child_model_name.clone(),
                            field: self.child_id_field,
                            value: child_id,
                        },
                    ),
                },
            )
        }
    }
}

} // verus!
