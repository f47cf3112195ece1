//! Object types: schemas carrying a set of recommended relations.
//!
//! An object type's recommended relations are its schema contract: when a
//! type is fetched by name, the resolved set of relation names and formats
//! must equal the requested set exactly, or reconciliation fails.

use crate::object::ObjectId;
use crate::prost_ext::{
    spec_remove, spec_take, spec_take_enum, IntoProstValue, ProstConversionError,
    ProstConversionErrorView, ProstData, ProstDataView, ProstEnum, ProstStruct, ProstValue,
    TryFromProst,
};
use crate::relation::{Relation, RelationSpec, RelationSpecView, RelationView};
use crate::unique_key::UniqueKey;
use vstd::prelude::*;

verus! {

/// What a caller asks for when it wants an object type: a name and the
/// relations the type should recommend.
#[derive(Debug)]
pub struct ObjectTypeSpec {
    /// The name of the object type.
    pub name: String,
    /// The requested recommended relations.
    pub recommended_relations: Vec<RelationSpec>,
}

impl DeepView for ObjectTypeSpec {
    type V = ObjectTypeSpecView;

    open spec fn deep_view(&self) -> ObjectTypeSpecView {
        ObjectTypeSpecView {
            name: self.name@,
            recommended_relations: self.recommended_relations.deep_view(),
        }
    }
}

/// The mathematical shape of an object type request.
pub struct ObjectTypeSpecView {
    /// The requested name.
    pub name: Seq<char>,
    /// The requested recommended relations, in request order.
    pub recommended_relations: Seq<RelationSpecView>,
}

/// Copies a list of relation requests.
fn clone_relation_specs(specs: &Vec<RelationSpec>) -> (r: Vec<RelationSpec>)
    ensures
        r.deep_view() == specs.deep_view(),
{
    let mut out: Vec<RelationSpec> = Vec::new();
    let n = specs.len();
    let mut i: usize = 0;
    while i < n
        invariant
            n == specs@.len(),
            0 <= i <= n,
            out@.len() == i,
            forall|j: int| 0 <= j < i ==> out@[j].deep_view() == specs@[j].deep_view(),
        decreases n - i,
    {
        let sp = specs[i].clone();
        out.push(sp);
        i = i + 1;
    }
    proof {
        assert(out.deep_view() =~= specs.deep_view());
    }
    out
}

impl Clone for ObjectTypeSpec {
    /// Copies the request; the copy has the same shape.
    fn clone(&self) -> (r: Self)
        ensures
            r.deep_view() == self.deep_view(),
    {
        ObjectTypeSpec {
            name: self.name.clone(),
            recommended_relations: clone_relation_specs(&self.recommended_relations),
        }
    }
}

/// The identifier of an object type.  An object type is itself an object
/// on the server side, so this wraps an object identifier.
#[derive(Debug)]
pub struct ObjectTypeId(pub(crate) ObjectId);

impl DeepView for ObjectTypeId {
    type V = Seq<char>;

    closed spec fn deep_view(&self) -> Seq<char> {
        self.0.deep_view()
    }
}

impl Clone for ObjectTypeId {
    /// Copies the identifier; the copy holds the same token.
    fn clone(&self) -> (r: Self)
        ensures
            r.deep_view() == self.deep_view(),
    {
        ObjectTypeId(self.0.clone())
    }
}

impl ObjectTypeId {
    /// The identifier's token.
    pub fn as_str(&self) -> (r: &str)
        ensures
            r@ == self.deep_view(),
    {
        self.0.as_str()
    }

    /// The type's identity as a plain object identifier.
    pub fn into_object_id(self) -> (r: ObjectId)
        ensures
            r.deep_view() == self.deep_view(),
    {
        self.0
    }
}

impl TryFromProst for ObjectTypeId {
    open spec fn spec_try_from_prost(data: ProstDataView) -> Result<
        Seq<char>,
        ProstConversionErrorView,
    > {
        ObjectId::spec_try_from_prost(data)
    }

    fn try_from_prost(data: ProstData) -> (r: Result<Self, ProstConversionError>) {
        match ObjectId::try_from_prost(data) {
            Ok(id) => Ok(ObjectTypeId(id)),
            Err(e) => Err(e),
        }
    }
}

impl IntoProstValue for ObjectTypeId {
    open spec fn spec_into_prost(v: Seq<char>) -> Option<ProstDataView> {
        Some(ProstDataView::Text(v))
    }

    fn into_prost(self) -> (r: ProstValue) {
        self.0.into_prost()
    }
}

/// A schema for a kind of record: an identifier, a name, a stable key and
/// the resolved recommended relations.
#[derive(Debug)]
pub struct ObjectType {
    pub(crate) id: ObjectTypeId,
    pub(crate) name: String,
    pub(crate) unique_key: UniqueKey,
    pub(crate) recommended_relations: Vec<Relation>,
}

/// The mathematical shape of an object type.
pub struct ObjectTypeView {
    /// The identifier token.
    pub id: Seq<char>,
    /// The human-readable name.
    pub name: Seq<char>,
    /// The stable key.
    pub unique_key: Seq<char>,
    /// The resolved recommended relations, in resolution order.
    pub recommended_relations: Seq<RelationView>,
}

impl DeepView for ObjectType {
    type V = ObjectTypeView;

    closed spec fn deep_view(&self) -> ObjectTypeView {
        ObjectTypeView {
            id: self.id.deep_view(),
            name: self.name@,
            unique_key: self.unique_key.deep_view(),
            recommended_relations: self.recommended_relations.deep_view(),
        }
    }
}

/// Copies a list of relations.
fn clone_relations(rels: &Vec<Relation>) -> (r: Vec<Relation>)
    ensures
        r.deep_view() == rels.deep_view(),
{
    let mut out: Vec<Relation> = Vec::new();
    let n = rels.len();
    let mut i: usize = 0;
    while i < n
        invariant
            n == rels@.len(),
            0 <= i <= n,
            out@.len() == i,
            forall|j: int| 0 <= j < i ==> out@[j].deep_view() == rels@[j].deep_view(),
        decreases n - i,
    {
        let rel = rels[i].clone();
        out.push(rel);
        i = i + 1;
    }
    proof {
        assert(out.deep_view() =~= rels.deep_view());
    }
    out
}

impl Clone for ObjectType {
    /// Copies the object type; the copy has the same shape.
    fn clone(&self) -> (r: Self)
        ensures
            r.deep_view() == self.deep_view(),
    {
        ObjectType {
            id: self.id.clone(),
            name: self.name.clone(),
            unique_key: self.unique_key.clone(),
            recommended_relations: clone_relations(&self.recommended_relations),
        }
    }
}

impl ObjectType {
    /// The type's identifier.
    pub fn id(&self) -> (r: ObjectTypeId)
        ensures
            r.deep_view() == self.deep_view().id,
    {
        self.id.clone()
    }

    /// The type's name.
    pub fn name(&self) -> (r: &str)
        ensures
            r@ == self.deep_view().name,
    {
        self.name.as_str()
    }

    /// The type's resolved recommended relations.
    pub fn recommended_relations(&self) -> (r: &Vec<Relation>)
        ensures
            r.deep_view() == self.deep_view().recommended_relations,
    {
        &self.recommended_relations
    }

    /// The type's stable key.
    pub fn unique_key(&self) -> (r: &UniqueKey)
        ensures
            r.deep_view() == self.deep_view().unique_key,
    {
        &self.unique_key
    }
}

/// An object type as decoded from a wire record, before its recommended
/// relation identifiers are resolved into full relations.
#[derive(Debug)]
pub struct ObjectTypeUnresolved {
    pub(crate) id: ObjectTypeId,
    pub(crate) name: String,
    pub(crate) unique_key: UniqueKey,
    pub(crate) recommended_relations: Vec<crate::relation::RelationId>,
}

/// The mathematical shape of an unresolved object type.
pub struct ObjectTypeUnresolvedView {
    /// The identifier token.
    pub id: Seq<char>,
    /// The human-readable name.
    pub name: Seq<char>,
    /// The stable key.
    pub unique_key: Seq<char>,
    /// The identifier tokens of the recommended relations.
    pub recommended_relations: Seq<Seq<char>>,
}

impl DeepView for ObjectTypeUnresolved {
    type V = ObjectTypeUnresolvedView;

    closed spec fn deep_view(&self) -> ObjectTypeUnresolvedView {
        ObjectTypeUnresolvedView {
            id: self.id.deep_view(),
            name: self.name@,
            unique_key: self.unique_key.deep_view(),
            recommended_relations: self.recommended_relations.deep_view(),
        }
    }
}

impl ObjectTypeUnresolved {
    /// Attaches the resolved relations to this decoded type.
    pub fn resolve(self, recommended_relations: Vec<Relation>) -> (r: ObjectType)
        ensures
            r.deep_view().id == self.deep_view().id,
            r.deep_view().name == self.deep_view().name,
            r.deep_view().unique_key == self.deep_view().unique_key,
            r.deep_view().recommended_relations == recommended_relations.deep_view(),
    {
        ObjectType {
            id: self.id,
            name: self.name,
            unique_key: self.unique_key,
            recommended_relations,
        }
    }
}

/// What decoding a layout-checked wire record into an object type yields.
pub open spec fn spec_decode_object_type(rec: Seq<(Seq<char>, Option<ProstDataView>)>) -> Result<
    ObjectTypeUnresolvedView,
    ProstConversionErrorView,
> {
    let d1 = spec_remove(rec, "layout"@);
    match spec_take::<ObjectTypeId>(d1, "id"@) {
        Err(e) => Err(e),
        Ok(id) => {
            let d2 = spec_remove(d1, "id"@);
            match spec_take::<String>(d2, "name"@) {
                Err(e) => Err(e),
                Ok(name) => {
                    let d3 = spec_remove(d2, "name"@);
                    match spec_take::<UniqueKey>(d3, "uniqueKey"@) {
                        Err(e) => Err(e),
                        Ok(unique_key) => {
                            let d4 = spec_remove(d3, "uniqueKey"@);
                            match spec_take::<Vec<crate::relation::RelationId>>(
                                d4,
                                "recommendedRelations"@,
                            ) {
                                Err(e) => Err(e),
                                Ok(rels) => Ok(
                                    ObjectTypeUnresolvedView {
                                        id,
                                        name,
                                        unique_key,
                                        recommended_relations: rels,
                                    },
                                ),
                            }
                        },
                    }
                },
            }
        },
    }
}

impl ObjectTypeUnresolved {
    /// Decodes a wire record into an unresolved object type.  The record
    /// must already have been confirmed to carry the object-type layout —
    /// searches filter by layout before decoding.
    pub fn try_from_prost(input: ProstStruct) -> (r: Result<
        ObjectTypeUnresolved,
        ProstConversionError,
    >)
        requires
            spec_take_enum::<crate::object::Layout>(input.deep_view(), "layout"@) == Ok::<
                crate::object::Layout,
                ProstConversionErrorView,
            >(crate::object::Layout::ObjectType),
        ensures
            match r {
                Ok(t) => spec_decode_object_type(input.deep_view()) == Ok::<
                    ObjectTypeUnresolvedView,
                    ProstConversionErrorView,
                >(t.deep_view()),
                Err(e) => spec_decode_object_type(input.deep_view()) == Err::<
                    ObjectTypeUnresolvedView,
                    ProstConversionErrorView,
                >(e.deep_view()),
            },
    {
        let mut value = input;
        match value.take_enum::<crate::object::Layout>("layout") {
            Ok(_) => (),
            Err(_) => {
                proof {
                    assert(false);
                }
            },
        }
        match value.take::<ObjectTypeId>("id") {
            Err(e) => Err(e),
            Ok(id) => match value.take::<String>("name") {
                Err(e) => Err(e),
                Ok(name) => match value.take::<UniqueKey>("uniqueKey") {
                    Err(e) => Err(e),
                    Ok(unique_key) => match value.take::<Vec<crate::relation::RelationId>>(
                        "recommendedRelations",
                    ) {
                        Err(e) => Err(e),
                        Ok(recommended_relations) => Ok(
                            ObjectTypeUnresolved { id, name, unique_key, recommended_relations },
                        ),
                    },
                },
            },
        }
    }
}


/// How an unresolved object type's shape projects from its parts.
pub(crate) broadcast proof fn lemma_object_type_unresolved_parts(t: ObjectTypeUnresolved)
    ensures
        (#[trigger] t.deep_view()).id == t.id.deep_view(),
        t.deep_view().name == t.name@,
        t.deep_view().unique_key == t.unique_key.deep_view(),
        t.deep_view().recommended_relations == t.recommended_relations.deep_view(),
{
}


impl ObjectTypeSpec {
    /// Builds the wire details a create-object-type request carries: the
    /// name and the identifiers of the already reconciled relations.
    pub fn to_struct(&self, relations: Vec<crate::relation::RelationId>) -> (r: ProstStruct)
        ensures
            r.deep_view() == seq![
                ("name"@, Some(ProstDataView::Text(self.name@))),
                (
                    "recommendedRelations"@,
                    Some(
                        ProstDataView::List(
                            Seq::new(
                                relations.deep_view().len(),
                                |j: int| Some(ProstDataView::Text(relations.deep_view()[j])),
                            ),
                        ),
                    ),
                ),
            ],
    {
        let ghost idsv = relations.deep_view();
        let mut vals: Vec<ProstValue> = Vec::new();
        let mut relations = relations;
        let n = relations.len();
        let mut i: usize = 0;
        while i < n
            invariant
                n == idsv.len(),
                relations.deep_view() == idsv,
                relations@.len() == n,
                0 <= i <= n,
                vals@.len() == i,
                forall|j: int|
                    0 <= j < i ==> vals@[j].deep_view() == Some(ProstDataView::Text(idsv[j])),
            decreases n - i,
        {
            proof {
                assert(relations@[i as int].deep_view() == idsv[i as int]);
            }
            let t = relations[i].clone();
            vals.push(t.into_prost());
            i = i + 1;
        }
        proof {
            assert(vals.deep_view() =~= Seq::new(
                idsv.len(),
                |j: int| Some(ProstDataView::Text(idsv[j])),
            ));
        }
        let mut fields: Vec<(String, ProstValue)> = Vec::new();
        fields.push(("name".to_owned(), self.name.clone().into_prost()));
        fields.push(("recommendedRelations".to_owned(), vals.into_prost()));
        let r = ProstStruct::from_fields(fields);
        proof {
            assert(r.deep_view() =~= seq![
                ("name"@, Some(ProstDataView::Text(self.name@))),
                (
                    "recommendedRelations"@,
                    Some(
                        ProstDataView::List(
                            Seq::new(idsv.len(), |j: int| Some(ProstDataView::Text(idsv[j]))),
                        ),
                    ),
                ),
            ]);
        }
        r
    }
}

} // verus!
