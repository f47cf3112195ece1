//! Objects: records with a name, a type and a bag of relation values.
//!
//! An object's identifier is an opaque server-issued token.  Decoding a
//! wire record into an object consumes the schema fields (layout, id, name,
//! type) and keeps everything left over as the residual field bag — those
//! leftovers are exactly the object's relation values, indexed by relation
//! key.

use crate::object_type::{ObjectType, ObjectTypeId};
use crate::prost_ext::{
    spec_remove, spec_take, spec_take_enum, IntoProstValue, ProstConversionError,
    ProstConversionErrorView, ProstData, ProstDataView, ProstEnum, ProstStruct, ProstValue,
    TryFromProst,
};
use crate::relation::{Relation, RelationValue};
use vstd::prelude::*;

verus! {

/// The identifier of an object: an opaque server-issued token.
#[derive(Debug)]
pub struct ObjectId(pub(crate) String);

impl DeepView for ObjectId {
    type V = Seq<char>;

    closed spec fn deep_view(&self) -> Seq<char> {
        self.0@
    }
}

impl Clone for ObjectId {
    /// Copies the identifier; the copy holds the same token.
    fn clone(&self) -> (r: Self)
        ensures
            r.deep_view() == self.deep_view(),
    {
        ObjectId(self.0.clone())
    }
}

impl ObjectId {
    /// The identifier's token.
    pub fn as_str(&self) -> (r: &str)
        ensures
            r@ == self.deep_view(),
    {
        self.0.as_str()
    }
}

impl TryFromProst for ObjectId {
    open spec fn spec_try_from_prost(data: ProstDataView) -> Result<
        Seq<char>,
        ProstConversionErrorView,
    > {
        match String::spec_try_from_prost(data) {
            Ok(s) => Ok(s),
            Err(e) => Err(e),
        }
    }

    fn try_from_prost(data: ProstData) -> (r: Result<Self, ProstConversionError>) {
        match String::try_from_prost(data) {
            Ok(s) => Ok(ObjectId(s)),
            Err(e) => Err(e),
        }
    }
}

impl IntoProstValue for ObjectId {
    open spec fn spec_into_prost(v: Seq<char>) -> Option<ProstDataView> {
        Some(ProstDataView::Text(v))
    }

    fn into_prost(self) -> (r: ProstValue) {
        self.0.into_prost()
    }
}

/// The server-side layouts this library works with.  Search results are
/// filtered by layout before they are decoded, so only these four ever reach
/// a decoder.
#[derive(Debug, Clone, Copy, PartialEq, Eq, Structural)]
pub enum Layout {
    /// A plain record.
    Basic,
    /// A schema entity describing a kind of record.
    ObjectType,
    /// A schema field definition.
    Relation,
    /// A bookmark record.
    Bookmark,
}

impl Layout {
    /// The numeric discriminant this layout is transported as.
    pub open spec fn spec_code(self) -> i64 {
        match self {
            Layout::Basic => 0,
            Layout::ObjectType => 4,
            Layout::Relation => 5,
            Layout::Bookmark => 11,
        }
    }

    /// Reports the numeric discriminant of this layout.
    pub fn code(self) -> (r: i64)
        ensures
            r == self.spec_code(),
    {
        match self {
            Layout::Basic => 0,
            Layout::ObjectType => 4,
            Layout::Relation => 5,
            Layout::Bookmark => 11,
        }
    }
}

impl ProstEnum for Layout {
    open spec fn spec_of_code(code: i32) -> Option<Layout> {
        if code == 0 {
            Some(Layout::Basic)
        } else if code == 4 {
            Some(Layout::ObjectType)
        } else if code == 5 {
            Some(Layout::Relation)
        } else if code == 11 {
            Some(Layout::Bookmark)
        } else {
            None
        }
    }

    fn of_code(code: i32) -> (r: Option<Layout>) {
        if code == 0 {
            Some(Layout::Basic)
        } else if code == 4 {
            Some(Layout::ObjectType)
        } else if code == 5 {
            Some(Layout::Relation)
        } else if code == 11 {
            Some(Layout::Bookmark)
        } else {
            None
        }
    }
}

/// The mathematical shape of an object.
pub struct ObjectView {
    /// The identifier token.
    pub id: Seq<char>,
    /// The human-readable name.
    pub name: Seq<char>,
    /// The identifier token of the object's type.
    pub ty: Seq<char>,
    /// The residual field bag: every wire field that is not a schema field.
    pub fields: Seq<(Seq<char>, Option<ProstDataView>)>,
}

/// A record in a space: a named, typed instance carrying relation values.
#[derive(Debug)]
pub struct Object {
    pub(crate) id: ObjectId,
    pub(crate) name: String,
    pub(crate) ty: ObjectTypeId,
    pub(crate) relations: ProstStruct,
}

impl DeepView for Object {
    type V = ObjectView;

    closed spec fn deep_view(&self) -> ObjectView {
        ObjectView {
            id: self.id.deep_view(),
            name: self.name@,
            ty: self.ty.deep_view(),
            fields: self.relations.deep_view(),
        }
    }
}

impl Clone for Object {
    /// Copies the object; the copy has the same shape.
    fn clone(&self) -> (r: Self)
        ensures
            r.deep_view() == self.deep_view(),
    {
        Object {
            id: self.id.clone(),
            name: self.name.clone(),
            ty: self.ty.clone(),
            relations: self.relations.clone(),
        }
    }
}

impl Object {
    /// The object's identifier.
    pub fn id(&self) -> (r: ObjectId)
        ensures
            r.deep_view() == self.deep_view().id,
    {
        self.id.clone()
    }

    /// The object's name.
    pub fn name(&self) -> (r: &str)
        ensures
            r@ == self.deep_view().name,
    {
        self.name.as_str()
    }

    /// The identifier of the object's type.
    pub fn type_id(&self) -> (r: ObjectTypeId)
        ensures
            r.deep_view() == self.deep_view().ty,
    {
        self.ty.clone()
    }
}

/// The layouts under which plain objects are visible to this library.
pub open spec fn object_layouts() -> Seq<Layout> {
    seq![Layout::Basic, Layout::Bookmark]
}

/// What decoding a layout-checked wire record into an object yields: the
/// schema fields are consumed and the leftovers stay as the residual bag.
pub open spec fn spec_decode_object(rec: Seq<(Seq<char>, Option<ProstDataView>)>) -> Result<
    ObjectView,
    ProstConversionErrorView,
> {
    let d1 = spec_remove(rec, "layout"@);
    match spec_take::<ObjectId>(d1, "id"@) {
        Err(e) => Err(e),
        Ok(id) => {
            let d2 = spec_remove(d1, "id"@);
            match spec_take::<String>(d2, "name"@) {
                Err(e) => Err(e),
                Ok(name) => {
                    let d3 = spec_remove(d2, "name"@);
                    match spec_take::<ObjectTypeId>(d3, "type"@) {
                        Err(e) => Err(e),
                        Ok(ty) => {
                            let d4 = spec_remove(d3, "type"@);
                            Ok(ObjectView { id, name, ty, fields: d4 })
                        },
                    }
                },
            }
        },
    }
}

impl Object {
    /// Decodes a wire record into an object.  The record must already have
    /// been confirmed to carry one of the object layouts — searches filter
    /// by layout before decoding.
    pub fn try_from_prost(input: ProstStruct) -> (r: Result<Object, ProstConversionError>)
        requires
            exists|l: Layout|
                object_layouts().contains(l) && spec_take_enum::<Layout>(
                    input.deep_view(),
                    "layout"@,
                ) == Ok::<Layout, ProstConversionErrorView>(l),
        ensures
            match r {
                Ok(o) => spec_decode_object(input.deep_view()) == Ok::<
                    ObjectView,
                    ProstConversionErrorView,
                >(o.deep_view()),
                Err(e) => spec_decode_object(input.deep_view()) == Err::<
                    ObjectView,
                    ProstConversionErrorView,
                >(e.deep_view()),
            },
    {
        let mut value = input;
        let layout = match value.take_enum::<Layout>("layout") {
            Ok(l) => l,
            Err(_) => {
                proof {
                    assert(false);
                }
                Layout::Basic
            },
        };
        match value.take::<ObjectId>("id") {
            Err(e) => Err(e),
            Ok(id) => match value.take::<String>("name") {
                Err(e) => Err(e),
                Ok(name) => match value.take::<ObjectTypeId>("type") {
                    Err(e) => Err(e),
                    Ok(ty) => Ok(Object { id, name, ty, relations: value }),
                },
            },
        }
    }
}

/// What a caller asks for when it wants an object: its type and its name.
#[derive(Debug)]
pub struct ObjectSpec {
    /// The object's type.
    pub ty: ObjectType,
    /// The object's name.
    pub name: String,
}

/// What a caller hands over to create an object: a type, a name, and the
/// relation values the new object should carry.
#[derive(Debug)]
pub struct ObjectDescription {
    /// The object's type.
    pub ty: ObjectType,
    /// The object's name.
    pub name: String,
    /// The relation values to set, each under its relation.
    pub relations: Vec<(Relation, RelationValue)>,
}

impl ObjectSpec {
    /// The description that creates this object with no relation values.
    pub fn as_description(&self) -> (r: ObjectDescription)
        ensures
            r.ty.deep_view() == self.ty.deep_view(),
            r.name@ == self.name@,
            r.relations.deep_view() == Seq::<(
                crate::relation::RelationView,
                crate::relation::RelationValueView,
            )>::empty(),
    {
        let r = ObjectDescription {
            ty: self.ty.clone(),
            name: self.name.clone(),
            relations: Vec::new(),
        };
        proof {
            assert(r.relations.deep_view() =~= Seq::<(
                crate::relation::RelationView,
                crate::relation::RelationValueView,
            )>::empty());
        }
        r
    }
}


/// How an object's shape projects from its parts.
pub(crate) broadcast proof fn lemma_object_parts(o: Object)
    ensures
        (#[trigger] o.deep_view()).id == o.id.deep_view(),
        o.deep_view().name == o.name@,
        o.deep_view().ty == o.ty.deep_view(),
        o.deep_view().fields == o.relations.deep_view(),
{
}


impl ObjectDescription {
    /// Builds the wire details a create-object request carries: the name
    /// and every relation value, each validated against its relation's
    /// declared format first.  The first mismatch aborts the build.
    #[verifier::loop_isolation(false)]
    pub fn to_details(self) -> (r: Result<
        ProstStruct,
        crate::relation::IncompatibleRelationValue,
    >)
        requires
            forall|i: int|
                0 <= i < self.relations.deep_view().len()
                    ==> crate::relation::value_encodable(self.relations.deep_view()[i].1),
        ensures
            ({
                let pairs = self.relations.deep_view();
                match r {
                    Ok(doc) => doc.deep_view() == seq![
                        ("name"@, Some(ProstDataView::Text(self.name@))),
                    ] + pairs.map_values(
                        |p: (crate::relation::RelationView, crate::relation::RelationValueView)|
                            (p.0.key, crate::relation::spec_value_wire(p.1)),
                    ) && forall|j: int|
                        0 <= j < pairs.len() ==> crate::relation::spec_is_superset(
                            pairs[j].0.format,
                            crate::relation::spec_value_format(pairs[j].1),
                        ),
                    Err(e) => exists|j: int|
                        0 <= j < pairs.len() && !crate::relation::spec_is_superset(
                            pairs[j].0.format,
                            crate::relation::spec_value_format(pairs[j].1),
                        ) && e.deep_view().expected == pairs[j].0.format && e.deep_view().received
                            == crate::relation::spec_value_format(pairs[j].1),
                }
            }),
    {
        let ghost pairs = self.relations.deep_view();
        let mut fields: Vec<(String, ProstValue)> = Vec::new();
        fields.push(("name".to_owned(), self.name.clone().into_prost()));
        let mut relations = self.relations;
        let mut k: usize = 0;
        proof {
            assert(fields.deep_view() =~= seq![
                ("name"@, Some(ProstDataView::Text(self.name@))),
            ] + pairs.take(0).map_values(
                |p: (crate::relation::RelationView, crate::relation::RelationValueView)|
                    (p.0.key, crate::relation::spec_value_wire(p.1)),
            ));
            assert(relations.deep_view() =~= pairs.skip(0));
        }
        while relations.len() > 0
            invariant
                k + relations@.len() == pairs.len(),
                relations.deep_view() == pairs.skip(k as int),
                fields.deep_view() == seq![
                    ("name"@, Some(ProstDataView::Text(self.name@))),
                ] + pairs.take(k as int).map_values(
                    |p: (crate::relation::RelationView, crate::relation::RelationValueView)|
                        (p.0.key, crate::relation::spec_value_wire(p.1)),
                ),
                forall|j: int|
                    0 <= j < k ==> crate::relation::spec_is_superset(
                        pairs[j].0.format,
                        crate::relation::spec_value_format(pairs[j].1),
                    ),
            decreases relations@.len(),
        {
            let ghost cur = relations.deep_view();
            let pair = relations.remove(0);
            proof {
                assert(pair.deep_view() == cur[0]);
                assert(cur[0] == pairs[k as int]);
                assert(relations.deep_view() =~= cur.drop_first());
                assert(cur.drop_first() =~= pairs.skip(k as int + 1));
            }
            match pair.0.validate(pair.1) {
                Err(e) => {
                    return Err(e);
                },
                Ok(detail) => {
                    let raw = detail.into_raw_parts();
                    let ghost f0 = fields.deep_view();
                    fields.push(raw);
                    proof {
                        assert(fields.deep_view() =~= f0.push(
                            (pairs[k as int].0.key, crate::relation::spec_value_wire(
                                pairs[k as int].1,
                            )),
                        ));
                        assert(fields.deep_view() =~= seq![
                            ("name"@, Some(ProstDataView::Text(self.name@))),
                        ] + pairs.take(k as int + 1).map_values(
                            |p: (
                                crate::relation::RelationView,
                                crate::relation::RelationValueView,
                            )| (p.0.key, crate::relation::spec_value_wire(p.1)),
                        ));
                        assert(relations@.len() < cur.len());
                        vstd::std_specs::vec::axiom_spec_len(&self.relations);
                        assert(k + 1 <= pairs.len());
                    }
                    k = k + 1;
                },
            }
        }
        proof {
            assert(pairs.take(k as int) =~= pairs);
        }
        Ok(ProstStruct::from_fields(fields))
    }
}


impl Object {
    /// The object's residual field bag: every wire field that is not a
    /// schema field, keyed by relation key.
    pub fn relation_fields(&self) -> (r: &ProstStruct)
        ensures
            r.deep_view() == self.deep_view().fields,
    {
        &self.relations
    }
}

} // verus!
