//! Schema metadata: models, relations, and their well-formedness.
//!
//! A [`Relation`] is stored in the direction "child references parent": a
//! link row of the relation means that a row of `child_model` references a
//! row of `parent_model`.  The two `..._requires_...` flags say which side
//! may not be orphaned by a delete.
use crate::seqs::first_of;
use crate::seqs::first_of_from;
use crate::seqs::lemma_first_of_is_hit;
use vstd::prelude::*;

verus! {

/// A row type: its identity, its display name, and which of its fields
/// holds the primary key.
pub struct Model {
    pub id: u64,
    pub name: String,
    /// Index of the primary-key field within a record of this model.
    pub id_field: usize,
    /// Number of fields a record of this model carries.
    pub n_fields: usize,
}

/// A directed relation between two models.  A link row of this relation
/// states that a row of `child_model` references a row of `parent_model`.
pub struct Relation {
    pub id: u64,
    pub name: String,
    /// The referenced side; the side a nested delete is anchored on.
    pub parent_model: u64,
    /// The referencing side; the side a nested delete removes from.
    pub child_model: u64,
    /// A child row must keep its parent: deleting a still-referenced parent
    /// row violates the relation.
    pub child_requires_parent: bool,
    /// A parent row must keep its child: deleting a still-referenced child
    /// row violates the relation.
    pub parent_requires_child: bool,
}

/// The full schema a delete consults: every model and every relation.
pub struct Schema {
    pub models: Vec<Model>,
    pub relations: Vec<Relation>,
}

/// Predicate picking the model with the given id.
pub open spec fn model_id_pred(id: u64) -> spec_fn(Model) -> bool {
    |m: Model| m.id == id
}

/// Predicate picking the relation with the given id.
pub open spec fn relation_id_pred(id: u64) -> spec_fn(Relation) -> bool {
    |r: Relation| r.id == id
}

/// The model a given id resolves to: the first one carrying that id.
pub open spec fn model_of(models: Seq<Model>, id: u64) -> Option<Model> {
    first_of(models, model_id_pred(id))
}

/// The relation a given id resolves to: the first one carrying that id.
pub open spec fn relation_of(relations: Seq<Relation>, id: u64) -> Option<Relation> {
    first_of(relations, relation_id_pred(id))
}

/// The display name of the model with the given id; empty when the id is
/// unknown.
pub open spec fn model_name_of(models: Seq<Model>, id: u64) -> Seq<char> {
    match model_of(models, id) {
        Some(m) => m.name@,
        None => Seq::empty(),
    }
}

/// The primary-key field index of the model with the given id.
pub open spec fn id_field_of(models: Seq<Model>, id: u64) -> usize {
    match model_of(models, id) {
        Some(m) => m.id_field,
        None => 0,
    }
}

/// The given relation value is the one its id resolves to in this list.
pub open spec fn relation_listed(relations: Seq<Relation>, rf: Relation) -> bool {
    relation_of(relations, rf.id) == Some(rf)
}

impl Schema {
    /// Every model keeps its key index inside its arity, and every relation
    /// connects two models of the schema.
    pub open spec fn wf(self) -> bool {
        &&& forall|i: int|
            0 <= i < self.models@.len() ==> (#[trigger] self.models@[i]).id_field
                < self.models@[i].n_fields
        &&& forall|i: int|
            0 <= i < self.relations@.len() ==> model_of(
                self.models@,
                (#[trigger] self.relations@[i]).parent_model,
            ) is Some && model_of(self.models@, self.relations@[i].child_model) is Some
    }

    /// Look a model up by id.
    pub fn model_by_id(&self, id: u64) -> (res: Option<&Model>)
        ensures
            (match res {
                Some(m) => model_of(self.models@, id) == Some(*m),
                None => model_of(self.models@, id) is None,
            }),
    {
        let mut i: usize = 0;
        while i < self.models.len()
            invariant
                0 <= i <= self.models@.len(),
                first_of_from(self.models@, model_id_pred(id), 0) == first_of_from(
                    self.models@,
                    model_id_pred(id),
                    i as int,
                ),
            decreases self.models@.len() - i,
        {
            if self.models[i].id == id {
                return Some(&self.models[i]);
            }
            i = i + 1;
        }
        None
    }

    /// Look a relation up by id.
    pub fn relation_by_id(&self, id: u64) -> (res: Option<&Relation>)
        ensures
            (match res {
                Some(r) => relation_of(self.relations@, id) == Some(*r),
                None => relation_of(self.relations@, id) is None,
            }),
    {
        let mut i: usize = 0;
        while i < self.relations.len()
            invariant
                0 <= i <= self.relations@.len(),
                first_of_from(self.relations@, relation_id_pred(id), 0) == first_of_from(
                    self.relations@,
                    relation_id_pred(id),
                    i as int,
                ),
            decreases self.relations@.len() - i,
        {
            if self.relations[i].id == id {
                return Some(&self.relations[i]);
            }
            i = i + 1;
        }
        None
    }
}

/// A model that an id resolves to carries that id and keeps its key index
/// inside its arity.
pub proof fn lemma_model_of_wf(schema: Schema, id: u64)
    requires
        schema.wf(),
        model_of(schema.models@, id) is Some,
    ensures
        model_of(schema.models@, id)->Some_0.id == id,
        model_of(schema.models@, id)->Some_0.id_field < model_of(schema.models@, id)->Some_0.n_fields,
{
    lemma_first_of_is_hit(schema.models@, model_id_pred(id), 0);
    let k = choose|k: int|
        0 <= k < schema.models@.len() && schema.models@[k] == model_of(schema.models@, id)->Some_0
            && model_id_pred(id)(schema.models@[k]);
    assert(schema.models@[k].id_field < schema.models@[k].n_fields);
}

/// Both endpoint models of a relation listed in a well-formed schema
/// exist in it.
pub proof fn lemma_listed_relation_models_exist(schema: Schema, rf: Relation)
    requires
        schema.wf(),
        relation_listed(schema.relations@, rf),
    ensures
        model_of(schema.models@, rf.parent_model) is Some,
        model_of(schema.models@, rf.child_model) is Some,
{
    lemma_first_of_is_hit(schema.relations@, relation_id_pred(rf.id), 0);
    let k = choose|k: int|
        0 <= k < schema.relations@.len() && schema.relations@[k] == rf && relation_id_pred(rf.id)(
            schema.relations@[k],
        );
    assert(model_of(schema.models@, schema.relations@[k].parent_model) is Some);
    assert(model_of(schema.models@, schema.relations@[k].child_model) is Some);
}

} // verus!
