//! The space session and its reconciliation engine.
//!
//! A space is a workspace scope: a bag of wire records the backend stores
//! for it, reached here through a session model that holds those records
//! directly.  The engine implements get-or-create reconciliation over that
//! state: search an entity by its natural key, decide among not-found /
//! exactly-one / ambiguous, validate an existing match against the request,
//! and create the entity when nothing matched.  The backend validates
//! nothing, so everything the engine writes has passed the format
//! validator first.
//!
//! No lock spans the search-then-create gap: two concurrent callers
//! reconciling the same new name can both reach the create step, and the
//! duplicate surfaces later as an ambiguity error.  That race is accepted
//! and left to the caller's retry policy.

use crate::number::{clamp_i32, clamp_i32_spec, number_bits_of_i64, spec_number_bits,
    spec_trunc_i64, trunc_i64};
use crate::object::{Layout, Object, ObjectId, ObjectView};
use crate::object_type::{ObjectType, ObjectTypeId, ObjectTypeSpec, ObjectTypeUnresolved,
    ObjectTypeUnresolvedView};
use crate::prost_ext::{spec_insert, spec_lookup, spec_remove, spec_take_enum, IntoProstValue,
    ProstConversionError, ProstConversionErrorView, ProstData, ProstDataView, ProstStruct,
    ProstValue};
use crate::relation::{spec_decode_relation, FormatView, IncompatibleRelationValue,
    IncompatibleRelationValueView, Relation, RelationFormat, RelationId, RelationSpec,
    RelationView, RelationValue};
use crate::text::{counter_token, fold_eq, names_match};
use vstd::prelude::*;

verus! {

broadcast use crate::prost_ext::lemma_value_view, crate::prost_ext::lemma_data_view, crate::object::lemma_object_parts, crate::object_type::lemma_object_type_unresolved_parts;

/// Why a space operation failed.
#[derive(Debug)]
pub enum SpaceError {
    /// More than one entity matched a natural-key search.
    AmbiguousEntity {
        /// The name that was searched for.
        name: String,
    },
    /// A relation with the requested name exists, but its format is not
    /// the requested one.
    FormatMismatch {
        /// The relation's name.
        name: String,
        /// The requested format.
        expected: RelationFormat,
        /// The format the existing relation declares.
        received: RelationFormat,
    },
    /// An object type with the requested name exists, but its resolved
    /// recommended relations do not equal the requested set.
    RecommendedRelationsMismatch {
        /// The object type's name.
        name: String,
    },
    /// A value failed the format validator.
    IncompatibleValue(IncompatibleRelationValue),
    /// A wire record could not be decoded.
    Conversion(ProstConversionError),
    /// No record with the given object identifier is in the space.
    UnknownObject {
        /// The identifier that was not found.
        id: String,
    },
}

/// The mathematical shape of a space error.
pub enum SpaceErrorView {
    /// More than one entity matched.
    AmbiguousEntity {
        /// The searched name.
        name: Seq<char>,
    },
    /// An existing relation's format differs from the requested one.
    FormatMismatch {
        /// The relation's name.
        name: Seq<char>,
        /// The requested format.
        expected: FormatView,
        /// The declared format.
        received: FormatView,
    },
    /// An existing object type's relations differ from the requested set.
    RecommendedRelationsMismatch {
        /// The object type's name.
        name: Seq<char>,
    },
    /// A value failed the format validator.
    IncompatibleValue(IncompatibleRelationValueView),
    /// A wire record could not be decoded.
    Conversion(ProstConversionErrorView),
    /// No record with the given identifier.
    UnknownObject {
        /// The identifier that was not found.
        id: Seq<char>,
    },
}

impl DeepView for SpaceError {
    type V = SpaceErrorView;

    open spec fn deep_view(&self) -> SpaceErrorView {
        match self {
            SpaceError::AmbiguousEntity { name } => (SpaceErrorView::AmbiguousEntity {
                name: name@,
            }),
            SpaceError::FormatMismatch { name, expected, received } => (SpaceErrorView::FormatMismatch {
                name: name@,
                expected: expected.deep_view(),
                received: received.deep_view(),
            }),
            SpaceError::RecommendedRelationsMismatch { name } => (SpaceErrorView::RecommendedRelationsMismatch {
                name: name@,
            }),
            SpaceError::IncompatibleValue(e) => SpaceErrorView::IncompatibleValue(e.deep_view()),
            SpaceError::Conversion(e) => SpaceErrorView::Conversion(e.deep_view()),
            SpaceError::UnknownObject { id } => (SpaceErrorView::UnknownObject { id: id@ }),
        }
    }
}

/// A space session over the space's record state.  Every entity operation
/// reads or extends `records`, the loosely typed documents the backend
/// holds for this space; nothing is cached beyond what an operation
/// returns.
#[derive(Debug)]
pub struct Space {
    pub(crate) space_id: String,
    pub(crate) records: Vec<ProstStruct>,
    pub(crate) counter: u64,
}

/// The mathematical shape of a space: its identifier and the shapes of its
/// records, in storage order.
pub struct SpaceView {
    /// The space's identifier.
    pub space_id: Seq<char>,
    /// The records, in storage order.
    pub records: Seq<Seq<(Seq<char>, Option<ProstDataView>)>>,
}

impl DeepView for Space {
    type V = SpaceView;

    closed spec fn deep_view(&self) -> SpaceView {
        SpaceView { space_id: self.space_id@, records: self.records.deep_view() }
    }
}

impl Space {
    /// Opens a session on an empty space.
    pub fn new(space_id: String) -> (r: Space)
        ensures
            r.deep_view().space_id == space_id@,
            r.deep_view().records == Seq::<Seq<(Seq<char>, Option<ProstDataView>)>>::empty(),
    {
        let r = Space { space_id, records: Vec::new(), counter: 0 };
        proof {
            assert(r.deep_view().records =~= Seq::<
                Seq<(Seq<char>, Option<ProstDataView>)>,
            >::empty());
        }
        r
    }

    /// The space's identifier.
    pub fn space_id(&self) -> (r: &str)
        ensures
            r@ == self.deep_view().space_id,
    {
        self.space_id.as_str()
    }

    /// How many records the space holds.
    pub fn record_count(&self) -> (r: usize)
        ensures
            r == self.deep_view().records.len(),
    {
        self.records.len()
    }

    /// Places a raw record into the space's state, as the backend would
    /// hold it.
    pub fn add_record(&mut self, record: ProstStruct)
        ensures
            final (self).deep_view().space_id == old(self).deep_view().space_id,
            final (self).deep_view().records == old(self).deep_view().records.push(
                record.deep_view(),
            ),
    {
        self.records.push(record);
        proof {
            assert(self.deep_view().records =~= old(self).deep_view().records.push(
                record.deep_view(),
            ));
        }
    }
}

/// Whether a record is visible: it is, unless it carries an `isHidden`
/// field set to true.  Hidden and system entities never appear in search
/// results.
pub open spec fn record_visible(rec: Seq<(Seq<char>, Option<ProstDataView>)>) -> bool {
    match spec_lookup(rec, "isHidden"@) {
        Some(Some(ProstDataView::Bool(b))) => !b,
        _ => true,
    }
}

/// Whether a record carries the given layout discriminant.
pub open spec fn record_has_layout(
    rec: Seq<(Seq<char>, Option<ProstDataView>)>,
    layout: Layout,
) -> bool {
    match spec_lookup(rec, "layout"@) {
        Some(Some(ProstDataView::Number(bits))) => clamp_i32_spec(spec_trunc_i64(bits)) as i64
            == layout.spec_code(),
        _ => false,
    }
}

/// Whether a record's name matches the searched name, without regard to
/// ASCII case.
pub open spec fn record_named(
    rec: Seq<(Seq<char>, Option<ProstDataView>)>,
    name: Seq<char>,
) -> bool {
    match spec_lookup(rec, "name"@) {
        Some(Some(ProstDataView::Text(s))) => fold_eq(s, name),
        _ => false,
    }
}

/// Whether a record carries the given identifier.
pub open spec fn record_has_id(
    rec: Seq<(Seq<char>, Option<ProstDataView>)>,
    id: Seq<char>,
) -> bool {
    match spec_lookup(rec, "id"@) {
        Some(Some(ProstDataView::Text(s))) => s == id,
        _ => false,
    }
}

/// A record that carries a layout also passes the layout check of the
/// consuming decoders.
pub proof fn lemma_layout_take(rec: Seq<(Seq<char>, Option<ProstDataView>)>, layout: Layout)
    requires
        record_has_layout(rec, layout),
    ensures
        spec_take_enum::<Layout>(rec, "layout"@) == Ok::<Layout, ProstConversionErrorView>(layout),
{
}

/// Whether a record answers a relation search for `name`: visible, of the
/// relation layout, matching the name, and decodable.
pub open spec fn is_relation_hit(
    rec: Seq<(Seq<char>, Option<ProstDataView>)>,
    name: Seq<char>,
) -> bool {
    &&& record_visible(rec)
    &&& record_has_layout(rec, Layout::Relation)
    &&& record_named(rec, name)
    &&& spec_decode_relation(rec) is Ok
}

/// The relations a search for `name` yields, in storage order.
pub open spec fn relation_results(
    records: Seq<Seq<(Seq<char>, Option<ProstDataView>)>>,
    name: Seq<char>,
) -> Seq<RelationView> {
    records.filter(|r: Seq<(Seq<char>, Option<ProstDataView>)>| is_relation_hit(r, name))
        .map_values(|r: Seq<(Seq<char>, Option<ProstDataView>)>| spec_decode_relation(r)->Ok_0)
}

/// Search results over one more record: the record's decode is appended
/// exactly when the record is a hit.
pub proof fn lemma_relation_results_push(
    records: Seq<Seq<(Seq<char>, Option<ProstDataView>)>>,
    rec: Seq<(Seq<char>, Option<ProstDataView>)>,
    name: Seq<char>,
)
    ensures
        relation_results(records.push(rec), name) == if is_relation_hit(rec, name) {
            relation_results(records, name).push(spec_decode_relation(rec)->Ok_0)
        } else {
            relation_results(records, name)
        },
{
    reveal(Seq::filter);
    let pred = |r: Seq<(Seq<char>, Option<ProstDataView>)>| is_relation_hit(r, name);
    assert(records.push(rec).drop_last() =~= records);
    assert(records.push(rec).last() == rec);
    if pred(rec) {
        assert(records.push(rec).filter(pred) =~= records.filter(pred).push(rec));
        assert(relation_results(records.push(rec), name) =~= relation_results(
            records,
            name,
        ).push(spec_decode_relation(rec)->Ok_0));
    } else {
        assert(records.push(rec).filter(pred) =~= records.filter(pred));
        assert(relation_results(records.push(rec), name) =~= relation_results(records, name));
    }
}

impl Space {
    /// Reports whether a record is visible.
    fn check_visible(rec: &ProstStruct) -> (r: bool)
        ensures
            r == record_visible(rec.deep_view()),
    {
        match rec.get("isHidden") {
            None => true,
            Some(v) => match &v.kind {
                Some(ProstData::Bool(b)) => !*b,
                _ => true,
            },
        }
    }

    /// Reports whether a record carries the given layout.
    fn check_layout(rec: &ProstStruct, layout: Layout) -> (r: bool)
        ensures
            r == record_has_layout(rec.deep_view(), layout),
    {
        match rec.get("layout") {
            Some(v) => match &v.kind {
                Some(ProstData::Number(bits)) => {
                    let code = clamp_i32(trunc_i64(*bits));
                    (code as i64) == layout.code()
                },
                _ => false,
            },
            None => false,
        }
    }

    /// Reports whether a record's name matches, without regard to case.
    fn check_named(rec: &ProstStruct, name: &str) -> (r: bool)
        ensures
            r == record_named(rec.deep_view(), name@),
    {
        match rec.get("name") {
            Some(v) => match &v.kind {
                Some(ProstData::Text(s)) => names_match(s.as_str(), name),
                _ => false,
            },
            None => false,
        }
    }

    /// Searches the space for visible relation records matching `name` and
    /// decodes them.
    #[verifier::loop_isolation(false)]
    fn search_relations(&self, name: &str) -> (r: Vec<Relation>)
        ensures
            r.deep_view() == relation_results(self.deep_view().records, name@),
    {
        let mut out: Vec<Relation> = Vec::new();
        let n = self.records.len();
        let mut i: usize = 0;
        while i < n
            invariant
                n == self.records@.len(),
                0 <= i <= n,
                out.deep_view() == relation_results(
                    self.deep_view().records.take(i as int),
                    name@,
                ),
            decreases n - i,
        {
            let rec = &self.records[i];
            let ghost recv = rec.deep_view();
            proof {
                assert(self.deep_view().records[i as int] == recv);
                assert(self.deep_view().records.take(i as int + 1) =~= self.deep_view()
                    .records
                    .take(i as int)
                    .push(recv));
                lemma_relation_results_push(
                    self.deep_view().records.take(i as int),
                    recv,
                    name@,
                );
            }
            if Self::check_visible(rec) && Self::check_layout(rec, Layout::Relation)
                && Self::check_named(rec, name) {
                proof {
                    lemma_layout_take(recv, Layout::Relation);
                }
                let copy = rec.clone();
                match Relation::try_from_prost(copy) {
                    Ok(rel) => {
                        let ghost out0 = out.deep_view();
                        out.push(rel);
                        proof {
                            assert(out.deep_view() =~= out0.push(rel.deep_view()));
                        }
                    },
                    Err(_) => (),
                }
            }
            i = i + 1;
        }
        proof {
            assert(self.deep_view().records.take(n as int) =~= self.deep_view().records);
        }
        out
    }

    /// Searches the space for a relation by name and validates any match
    /// against the requested format.  No match yields `Ok(None)`; exactly
    /// one match yields the relation if its format equals the requested
    /// format and a format-mismatch error otherwise; several matches are
    /// ambiguous.
    pub fn get_relation(&self, relation_spec: &RelationSpec) -> (r: Result<
        Option<Relation>,
        SpaceError,
    >)
        ensures
            ({
                let hits = relation_results(self.deep_view().records, relation_spec.deep_view().name);
                match r {
                    Ok(None) => hits.len() == 0,
                    Ok(Some(rel)) => hits.len() == 1 && rel.deep_view() == hits[0] && hits[0].format
                        == relation_spec.deep_view().format,
                    Err(SpaceError::FormatMismatch { name, expected, received }) => hits.len() == 1
                        && hits[0].format != relation_spec.deep_view().format && name@
                        == relation_spec.deep_view().name && expected.deep_view() == hits[0].format
                        && received.deep_view() == relation_spec.deep_view().format,
                    Err(SpaceError::AmbiguousEntity { name }) => hits.len() >= 2 && name@
                        == relation_spec.deep_view().name,
                    Err(_) => false,
                }
            }),
    {
        let mut relations = self.search_relations(relation_spec.name.as_str());
        if relations.len() == 0 {
            Ok(None)
        } else if relations.len() == 1 {
            let relation = relations.remove(0);
            proof {
                assert(relation.deep_view() == relation_results(
                    self.deep_view().records,
                    relation_spec.deep_view().name,
                )[0]);
            }
            if relation.format().format_eq(&relation_spec.format) {
                Ok(Some(relation))
            } else {
                Err(
                    SpaceError::FormatMismatch {
                        name: relation_spec.name.clone(),
                        expected: relation.format().clone(),
                        received: relation_spec.format.clone(),
                    },
                )
            }
        } else {
            Err(SpaceError::AmbiguousEntity { name: relation_spec.name.clone() })
        }
    }
}


/// Decoding a list of text slots yields exactly the texts.
proof fn lemma_decode_text_slots(ids: Seq<Seq<char>>)
    ensures
        crate::prost_ext::spec_decode_slots::<ObjectTypeId>(
            Seq::new(ids.len(), |i: int| Some(ProstDataView::Text(ids[i]))),
        ) == Ok::<Seq<Seq<char>>, ProstConversionErrorView>(ids),
    decreases ids.len(),
{
    let slots = Seq::new(ids.len(), |i: int| Some(ProstDataView::Text(ids[i])));
    if ids.len() == 0 {
        assert(crate::prost_ext::spec_decode_slots::<ObjectTypeId>(slots) == Ok::<
            Seq<Seq<char>>,
            ProstConversionErrorView,
        >(Seq::empty()));
        assert(ids =~= Seq::<Seq<char>>::empty());
    } else {
        lemma_decode_text_slots(ids.drop_first());
        assert(slots.drop_first() =~= Seq::new(
            ids.drop_first().len(),
            |i: int| Some(ProstDataView::Text(ids.drop_first()[i])),
        ));
        assert(seq![ids[0]] + ids.drop_first() =~= ids);
    }
}

impl Space {
    /// Creates a relation in the space: the backend materializes it as a
    /// fresh record echoing the requested name and format, with a fresh
    /// identifier and storage key, and the engine decodes that echo.
    pub fn create_relation(&mut self, relation_spec: &RelationSpec) -> (r: Result<
        Relation,
        SpaceError,
    >)
        ensures
            final (self).deep_view().space_id == old(self).deep_view().space_id,
            match r {
                Ok(rel) => {
                    let recs = final (self).deep_view().records;
                    &&& recs.len() == old(self).deep_view().records.len() + 1
                    &&& recs.drop_last() == old(self).deep_view().records
                    &&& is_relation_hit(recs.last(), relation_spec.deep_view().name)
                    &&& spec_decode_relation(recs.last()) == Ok::<
                        RelationView,
                        ProstConversionErrorView,
                    >(rel.deep_view())
                    &&& rel.deep_view().name == relation_spec.deep_view().name
                    &&& rel.deep_view().format == relation_spec.deep_view().format
                },
                Err(_) => false,
            },
    {
        let id_token = counter_token("rid", self.counter);
        let key_token = counter_token("rk", self.counter);
        self.counter = if self.counter == u64::MAX {
            0
        } else {
            self.counter + 1
        };
        let layout_bits = number_bits_of_i64(5);
        let code = relation_spec.format.code();
        let format_bits = number_bits_of_i64(code);
        let mut fields: Vec<(String, ProstValue)> = Vec::new();
        fields.push(("layout".to_owned(), layout_bits.into_prost()));
        fields.push(("id".to_owned(), id_token.into_prost()));
        fields.push(("name".to_owned(), relation_spec.name.clone().into_prost()));
        fields.push(("relationKey".to_owned(), key_token.into_prost()));
        fields.push(("relationFormat".to_owned(), format_bits.into_prost()));
        match &relation_spec.format {
            RelationFormat::Object { types } => {
                let mut vals: Vec<ProstValue> = Vec::new();
                let n = types.len();
                let mut i: usize = 0;
                while i < n
                    invariant
                        n == types@.len(),
                        0 <= i <= n,
                        vals@.len() == i,
                        forall|j: int|
                            0 <= j < i ==> vals@[j].deep_view() == Some(
                                ProstDataView::Text(types.deep_view()[j]),
                            ),
                    decreases n - i,
                {
                    let t = types[i].clone();
                    vals.push(t.into_prost());
                    i = i + 1;
                }
                proof {
                    assert(vals.deep_view() =~= Seq::new(
                        types.deep_view().len(),
                        |j: int| Some(ProstDataView::Text(types.deep_view()[j])),
                    ));
                }
                fields.push(("relationFormatObjectTypes".to_owned(), vals.into_prost()));
            },
            _ => (),
        }
        fields.push(("spaceId".to_owned(), self.space_id.clone().into_prost()));
        let rec = ProstStruct::from_fields(fields);
        let ghost recv = rec.deep_view();
        proof {
            assert(recv =~= relation_record_shape(
                relation_spec.deep_view().name,
                id_token@,
                key_token@,
                &relation_spec.format,
                old(self).deep_view().space_id,
            ));
            lemma_relation_record_decodes(
                recv,
                relation_spec.deep_view(),
                id_token@,
                key_token@,
                &relation_spec.format,
                old(self).deep_view().space_id,
            );
        }
        let response = rec.clone();
        let ghost rold = self.deep_view().records;
        self.records.push(rec);
        proof {
            assert(self.deep_view().records =~= rold.push(recv));
            assert(self.deep_view().records.drop_last() =~= rold);
        }
        match Relation::try_from_prost(response) {
            Ok(rel) => Ok(rel),
            Err(e) => {
                proof {
                    assert(false);
                }
                Err(SpaceError::Conversion(e))
            },
        }
    }

    /// Fetches the relation named in the request, creating it when the
    /// space has none: the get-or-create reconciliation for relations.
    pub fn obtain_relation(&mut self, relation_spec: &RelationSpec) -> (r: Result<
        Relation,
        SpaceError,
    >)
        ensures
            final (self).deep_view().space_id == old(self).deep_view().space_id,
            ({
                let hits = relation_results(
                    old(self).deep_view().records,
                    relation_spec.deep_view().name,
                );
                match r {
                    Ok(rel) => {
                        ||| (hits.len() == 1 && final (self).deep_view() == old(self).deep_view()
                            && rel.deep_view() == hits[0] && hits[0].format
                            == relation_spec.deep_view().format)
                        ||| (hits.len() == 0 && {
                            let recs = final (self).deep_view().records;
                            &&& recs.len() == old(self).deep_view().records.len() + 1
                            &&& recs.drop_last() == old(self).deep_view().records
                            &&& is_relation_hit(recs.last(), relation_spec.deep_view().name)
                            &&& spec_decode_relation(recs.last()) == Ok::<
                                RelationView,
                                ProstConversionErrorView,
                            >(rel.deep_view())
                            &&& rel.deep_view().name == relation_spec.deep_view().name
                            &&& rel.deep_view().format == relation_spec.deep_view().format
                        })
                    },
                    Err(SpaceError::FormatMismatch { name, expected, received }) => final (self).deep_view()
                        == old(self).deep_view() && hits.len() == 1 && hits[0].format
                        != relation_spec.deep_view().format && name@
                        == relation_spec.deep_view().name && expected.deep_view() == hits[0].format
                        && received.deep_view() == relation_spec.deep_view().format,
                    Err(SpaceError::AmbiguousEntity { name }) => final (self).deep_view() == old(
                        self,
                    ).deep_view() && hits.len() >= 2 && name@ == relation_spec.deep_view().name,
                    Err(_) => false,
                }
            }),
    {
        match self.get_relation(relation_spec) {
            Err(e) => Err(e),
            Ok(Some(relation)) => Ok(relation),
            Ok(None) => self.create_relation(relation_spec),
        }
    }
}

/// A key of a length no field name has is not in the document.
proof fn lemma_lookup_none_by_len(s: Seq<(Seq<char>, Option<ProstDataView>)>, key: Seq<char>)
    requires
        forall|i: int| 0 <= i < s.len() ==> s[i].0.len() != key.len(),
    ensures
        spec_lookup(s, key) is None,
{
    crate::prost_ext::lemma_key_index(s, key);
}

/// A freshly built relation record decodes back to the requested relation:
/// the name and format echo the request, and the identifier and storage
/// key are the generated tokens.
#[verifier::rlimit(100)]
proof fn lemma_relation_record_decodes(
    recv: Seq<(Seq<char>, Option<ProstDataView>)>,
    sv: crate::relation::RelationSpecView,
    id_token: Seq<char>,
    key_token: Seq<char>,
    format: &RelationFormat,
    space_id: Seq<char>,
)
    requires
        format.deep_view() == sv.format,
        recv == relation_record_shape(sv.name, id_token, key_token, format, space_id),
    ensures
        is_relation_hit(recv, sv.name),
        spec_decode_relation(recv) == Ok::<RelationView, ProstConversionErrorView>(
            RelationView { id: id_token, name: sv.name, key: key_token, format: sv.format },
        ),
{
    reveal_strlit("layout");
    reveal_strlit("id");
    reveal_strlit("name");
    reveal_strlit("relationKey");
    reveal_strlit("relationFormat");
    reveal_strlit("relationFormatObjectTypes");
    reveal_strlit("spaceId");
    reveal_strlit("isHidden");
    reveal_with_fuel(crate::prost_ext::key_index, 10);
    assert("layout"@.len() == 6);
    assert("id"@.len() == 2);
    assert("name"@.len() == 4);
    assert("relationKey"@.len() == 11);
    assert("relationFormat"@.len() == 14);
    assert("relationFormatObjectTypes"@.len() == 25);
    assert("spaceId"@.len() == 7);
    assert("isHidden"@.len() == 8);
    crate::number::lemma_number_bits_trunc(5);
    assert(0 <= format.spec_code() <= 100);
    crate::number::lemma_number_bits_trunc(format.spec_code() as int);
    crate::text::lemma_fold_eq_refl(sv.name);
    let lay = ("layout"@, Some(ProstDataView::Number(spec_number_bits(5))));
    let idp = ("id"@, Some(ProstDataView::Text(id_token)));
    let nmp = ("name"@, Some(ProstDataView::Text(sv.name)));
    let kyp = ("relationKey"@, Some(ProstDataView::Text(key_token)));
    let fmp = (
        "relationFormat"@,
        Some(ProstDataView::Number(spec_number_bits(format.spec_code() as int))),
    );
    let spp = ("spaceId"@, Some(ProstDataView::Text(space_id)));
    match format {
        RelationFormat::Object { types } => {
            lemma_decode_text_slots(types.deep_view());
            let tyv = (
                "relationFormatObjectTypes"@,
                Some(
                    ProstDataView::List(
                        Seq::new(
                            types.deep_view().len(),
                            |j: int| Some(ProstDataView::Text(types.deep_view()[j])),
                        ),
                    ),
                ),
            );
            assert(recv =~= seq![lay, idp, nmp, kyp, fmp, tyv, spp]);
            let d1 = seq![idp, nmp, kyp, fmp, tyv, spp];
            assert(spec_remove(recv, "layout"@) =~= d1);
            let d2 = seq![nmp, kyp, fmp, tyv, spp];
            assert(spec_remove(d1, "id"@) =~= d2);
            let d3 = seq![kyp, fmp, tyv, spp];
            assert(spec_remove(d2, "name"@) =~= d3);
            let d4 = seq![fmp, tyv, spp];
            assert(spec_remove(d3, "relationKey"@) =~= d4);
            let d5 = seq![tyv, spp];
            assert(spec_remove(d4, "relationFormat"@) =~= d5);
            assert(spec_lookup(d5, "relationFormatObjectTypes"@) == Some(tyv.1));
            assert(types.deep_view().to_set() =~= sv.format->Object_types);
            assert(spec_decode_relation(recv) == Ok::<RelationView, ProstConversionErrorView>(
                RelationView { id: id_token, name: sv.name, key: key_token, format: sv.format },
            ));
            lemma_lookup_none_by_len(recv, "isHidden"@);
            assert(spec_lookup(recv, "name"@) == Some(nmp.1));
            assert(record_named(recv, sv.name));
            assert(clamp_i32_spec(spec_trunc_i64(spec_number_bits(5))) == 5);
            assert(spec_lookup(recv, "layout"@) == Some(lay.1));
            assert(record_has_layout(recv, Layout::Relation));
            assert(record_visible(recv));
            assert(is_relation_hit(recv, sv.name));
        },
        _ => {
            assert(recv =~= seq![lay, idp, nmp, kyp, fmp, spp]);
            let d1 = seq![idp, nmp, kyp, fmp, spp];
            assert(spec_remove(recv, "layout"@) =~= d1);
            let d2 = seq![nmp, kyp, fmp, spp];
            assert(spec_remove(d1, "id"@) =~= d2);
            let d3 = seq![kyp, fmp, spp];
            assert(spec_remove(d2, "name"@) =~= d3);
            let d4 = seq![fmp, spp];
            assert(spec_remove(d3, "relationKey"@) =~= d4);
            let d5 = seq![spp];
            assert(spec_remove(d4, "relationFormat"@) =~= d5);
            lemma_lookup_none_by_len(d5, "relationFormatObjectTypes"@);
            assert(spec_decode_relation(recv) == Ok::<RelationView, ProstConversionErrorView>(
                RelationView { id: id_token, name: sv.name, key: key_token, format: sv.format },
            ));
            lemma_lookup_none_by_len(recv, "isHidden"@);
            assert(spec_lookup(recv, "name"@) == Some(nmp.1));
            assert(record_named(recv, sv.name));
            assert(clamp_i32_spec(spec_trunc_i64(spec_number_bits(5))) == 5);
            assert(spec_lookup(recv, "layout"@) == Some(lay.1));
            assert(record_has_layout(recv, Layout::Relation));
            assert(record_visible(recv));
            assert(is_relation_hit(recv, sv.name));
        },
    }
}

/// The wire record the backend materializes for a created relation.
pub open spec fn relation_record_shape(
    name: Seq<char>,
    id_token: Seq<char>,
    key_token: Seq<char>,
    format: &RelationFormat,
    space_id: Seq<char>,
) -> Seq<(Seq<char>, Option<ProstDataView>)> {
    let base = seq![
        ("layout"@, Some(ProstDataView::Number(spec_number_bits(5)))),
        ("id"@, Some(ProstDataView::Text(id_token))),
        ("name"@, Some(ProstDataView::Text(name))),
        ("relationKey"@, Some(ProstDataView::Text(key_token))),
        (
            "relationFormat"@,
            Some(ProstDataView::Number(spec_number_bits(format.spec_code() as int))),
        ),
    ];
    match format {
        RelationFormat::Object { types } => base.push(
            (
                "relationFormatObjectTypes"@,
                Some(
                    ProstDataView::List(
                        Seq::new(
                            types.deep_view().len(),
                            |j: int| Some(ProstDataView::Text(types.deep_view()[j])),
                        ),
                    ),
                ),
            ),
        ).push(("spaceId"@, Some(ProstDataView::Text(space_id)))),
        _ => base.push(("spaceId"@, Some(ProstDataView::Text(space_id)))),
    }
}


/// Whether a record's declared type is exactly the given type identifier.
pub open spec fn record_typed(
    rec: Seq<(Seq<char>, Option<ProstDataView>)>,
    ty: Seq<char>,
) -> bool {
    match spec_lookup(rec, "type"@) {
        Some(Some(ProstDataView::Text(s))) => s == ty,
        _ => false,
    }
}

/// Whether a record carries one of the layouts under which plain objects
/// are visible.
pub open spec fn record_object_layout(rec: Seq<(Seq<char>, Option<ProstDataView>)>) -> bool {
    record_has_layout(rec, Layout::Basic) || record_has_layout(rec, Layout::Bookmark)
}

/// Whether a record answers an object search for `name` under type `ty`:
/// visible, of an object layout, matching the name without regard to case,
/// of exactly that type, and decodable.
pub open spec fn is_object_hit(
    rec: Seq<(Seq<char>, Option<ProstDataView>)>,
    name: Seq<char>,
    ty: Seq<char>,
) -> bool {
    &&& record_visible(rec)
    &&& record_object_layout(rec)
    &&& record_named(rec, name)
    &&& record_typed(rec, ty)
    &&& crate::object::spec_decode_object(rec) is Ok
}

/// The objects a search for `name` under `ty` yields, in storage order.
pub open spec fn object_results(
    records: Seq<Seq<(Seq<char>, Option<ProstDataView>)>>,
    name: Seq<char>,
    ty: Seq<char>,
) -> Seq<ObjectView> {
    records.filter(|r: Seq<(Seq<char>, Option<ProstDataView>)>| is_object_hit(r, name, ty))
        .map_values(
        |r: Seq<(Seq<char>, Option<ProstDataView>)>| crate::object::spec_decode_object(r)->Ok_0,
    )
}

/// Whether a record's identifier is one of the fetched identifiers.
pub open spec fn record_id_in(
    rec: Seq<(Seq<char>, Option<ProstDataView>)>,
    ids: Seq<Seq<char>>,
) -> bool {
    match spec_lookup(rec, "id"@) {
        Some(Some(ProstDataView::Text(s))) => ids.contains(s),
        _ => false,
    }
}

/// Whether a record answers a fetch of objects by identifier.
pub open spec fn is_object_fetch_hit(
    rec: Seq<(Seq<char>, Option<ProstDataView>)>,
    ids: Seq<Seq<char>>,
) -> bool {
    &&& record_visible(rec)
    &&& record_object_layout(rec)
    &&& record_id_in(rec, ids)
    &&& crate::object::spec_decode_object(rec) is Ok
}

/// The objects a fetch by identifiers yields, in storage order.
pub open spec fn objects_by_ids(
    records: Seq<Seq<(Seq<char>, Option<ProstDataView>)>>,
    ids: Seq<Seq<char>>,
) -> Seq<ObjectView> {
    records.filter(|r: Seq<(Seq<char>, Option<ProstDataView>)>| is_object_fetch_hit(r, ids))
        .map_values(
        |r: Seq<(Seq<char>, Option<ProstDataView>)>| crate::object::spec_decode_object(r)->Ok_0,
    )
}

/// Search results over one more record, for object searches.
pub proof fn lemma_object_results_push(
    records: Seq<Seq<(Seq<char>, Option<ProstDataView>)>>,
    rec: Seq<(Seq<char>, Option<ProstDataView>)>,
    name: Seq<char>,
    ty: Seq<char>,
)
    ensures
        object_results(records.push(rec), name, ty) == if is_object_hit(rec, name, ty) {
            object_results(records, name, ty).push(crate::object::spec_decode_object(rec)->Ok_0)
        } else {
            object_results(records, name, ty)
        },
{
    reveal(Seq::filter);
    let pred = |r: Seq<(Seq<char>, Option<ProstDataView>)>| is_object_hit(r, name, ty);
    assert(records.push(rec).drop_last() =~= records);
    assert(records.push(rec).last() == rec);
    if pred(rec) {
        assert(records.push(rec).filter(pred) =~= records.filter(pred).push(rec));
        assert(object_results(records.push(rec), name, ty) =~= object_results(
            records,
            name,
            ty,
        ).push(crate::object::spec_decode_object(rec)->Ok_0));
    } else {
        assert(records.push(rec).filter(pred) =~= records.filter(pred));
        assert(object_results(records.push(rec), name, ty) =~= object_results(records, name, ty));
    }
}

/// Fetch results over one more record.
pub proof fn lemma_objects_by_ids_push(
    records: Seq<Seq<(Seq<char>, Option<ProstDataView>)>>,
    rec: Seq<(Seq<char>, Option<ProstDataView>)>,
    ids: Seq<Seq<char>>,
)
    ensures
        objects_by_ids(records.push(rec), ids) == if is_object_fetch_hit(rec, ids) {
            objects_by_ids(records, ids).push(crate::object::spec_decode_object(rec)->Ok_0)
        } else {
            objects_by_ids(records, ids)
        },
{
    reveal(Seq::filter);
    let pred = |r: Seq<(Seq<char>, Option<ProstDataView>)>| is_object_fetch_hit(r, ids);
    assert(records.push(rec).drop_last() =~= records);
    assert(records.push(rec).last() == rec);
    if pred(rec) {
        assert(records.push(rec).filter(pred) =~= records.filter(pred).push(rec));
        assert(objects_by_ids(records.push(rec), ids) =~= objects_by_ids(records, ids).push(
            crate::object::spec_decode_object(rec)->Ok_0,
        ));
    } else {
        assert(records.push(rec).filter(pred) =~= records.filter(pred));
        assert(objects_by_ids(records.push(rec), ids) =~= objects_by_ids(records, ids));
    }
}

impl Space {
    /// Reports whether a record's declared type is exactly `ty`.
    fn check_typed(rec: &ProstStruct, ty: &str) -> (r: bool)
        ensures
            r == record_typed(rec.deep_view(), ty@),
    {
        match rec.get("type") {
            Some(v) => match &v.kind {
                Some(ProstData::Text(s)) => crate::text::str_eq(s.as_str(), ty),
                _ => false,
            },
            None => false,
        }
    }

    /// Reports whether a record's identifier is among `ids`.
    #[verifier::loop_isolation(false)]
    fn check_id_in(rec: &ProstStruct, ids: &Vec<ObjectId>) -> (r: bool)
        ensures
            r == record_id_in(rec.deep_view(), ids.deep_view()),
    {
        match rec.get("id") {
            Some(v) => match &v.kind {
                Some(ProstData::Text(s)) => {
                    let n = ids.len();
                    let mut i: usize = 0;
                    while i < n
                        invariant
                            n == ids@.len(),
                            0 <= i <= n,
                            forall|j: int| 0 <= j < i ==> ids.deep_view()[j] != s@,
                        decreases n - i,
                    {
                        if crate::text::str_eq(ids[i].as_str(), s.as_str()) {
                            proof {
                                assert(ids.deep_view()[i as int] == s@);
                                assert(ids.deep_view().contains(s@));
                            }
                            return true;
                        }
                        i = i + 1;
                    }
                    proof {
                        if ids.deep_view().contains(s@) {
                            let j = choose|j: int|
                                0 <= j < ids.deep_view().len() && ids.deep_view()[j] == s@;
                            assert(false);
                        }
                    }
                    false
                },
                _ => false,
            },
            None => false,
        }
    }

    /// Searches the space for visible object records matching `name` under
    /// the type `ty` and decodes them.
    #[verifier::loop_isolation(false)]
    fn search_objects(&self, name: &str, ty: &str) -> (r: Vec<Object>)
        ensures
            r.deep_view() == object_results(self.deep_view().records, name@, ty@),
    {
        let mut out: Vec<Object> = Vec::new();
        let n = self.records.len();
        let mut i: usize = 0;
        while i < n
            invariant
                n == self.records@.len(),
                0 <= i <= n,
                out.deep_view() == object_results(
                    self.deep_view().records.take(i as int),
                    name@,
                    ty@,
                ),
            decreases n - i,
        {
            let rec = &self.records[i];
            let ghost recv = rec.deep_view();
            proof {
                assert(self.deep_view().records[i as int] == recv);
                assert(self.deep_view().records.take(i as int + 1) =~= self.deep_view()
                    .records
                    .take(i as int)
                    .push(recv));
                lemma_object_results_push(
                    self.deep_view().records.take(i as int),
                    recv,
                    name@,
                    ty@,
                );
            }
            let basic = Self::check_layout(rec, Layout::Basic);
            let bookmark = Self::check_layout(rec, Layout::Bookmark);
            if Self::check_visible(rec) && (basic || bookmark) && Self::check_named(rec, name)
                && Self::check_typed(rec, ty) {
                proof {
                    if record_has_layout(recv, Layout::Basic) {
                        lemma_layout_take(recv, Layout::Basic);
                        assert(crate::object::object_layouts().contains(Layout::Basic));
                    } else {
                        lemma_layout_take(recv, Layout::Bookmark);
                        assert(crate::object::object_layouts().contains(Layout::Bookmark));
                    }
                }
                let copy = rec.clone();
                match Object::try_from_prost(copy) {
                    Ok(obj) => {
                        let ghost out0 = out.deep_view();
                        out.push(obj);
                        proof {
                            assert(out.deep_view() =~= out0.push(obj.deep_view()));
                        }
                    },
                    Err(_) => (),
                }
            }
            i = i + 1;
        }
        proof {
            assert(self.deep_view().records.take(n as int) =~= self.deep_view().records);
        }
        out
    }

    /// Fetches the visible objects whose identifiers are among `ids` and
    /// decodes them, in storage order.
    #[verifier::loop_isolation(false)]
    pub(crate) fn get_objects(&self, ids: &Vec<ObjectId>) -> (r: Vec<Object>)
        ensures
            r.deep_view() == objects_by_ids(self.deep_view().records, ids.deep_view()),
    {
        let mut out: Vec<Object> = Vec::new();
        let n = self.records.len();
        let mut i: usize = 0;
        while i < n
            invariant
                n == self.records@.len(),
                0 <= i <= n,
                out.deep_view() == objects_by_ids(
                    self.deep_view().records.take(i as int),
                    ids.deep_view(),
                ),
            decreases n - i,
        {
            let rec = &self.records[i];
            let ghost recv = rec.deep_view();
            proof {
                assert(self.deep_view().records[i as int] == recv);
                assert(self.deep_view().records.take(i as int + 1) =~= self.deep_view()
                    .records
                    .take(i as int)
                    .push(recv));
                lemma_objects_by_ids_push(
                    self.deep_view().records.take(i as int),
                    recv,
                    ids.deep_view(),
                );
            }
            let basic = Self::check_layout(rec, Layout::Basic);
            let bookmark = Self::check_layout(rec, Layout::Bookmark);
            if Self::check_visible(rec) && (basic || bookmark) && Self::check_id_in(rec, ids) {
                proof {
                    if record_has_layout(recv, Layout::Basic) {
                        lemma_layout_take(recv, Layout::Basic);
                        assert(crate::object::object_layouts().contains(Layout::Basic));
                    } else {
                        lemma_layout_take(recv, Layout::Bookmark);
                        assert(crate::object::object_layouts().contains(Layout::Bookmark));
                    }
                }
                let copy = rec.clone();
                match Object::try_from_prost(copy) {
                    Ok(obj) => {
                        let ghost out0 = out.deep_view();
                        out.push(obj);
                        proof {
                            assert(out.deep_view() =~= out0.push(obj.deep_view()));
                        }
                    },
                    Err(_) => (),
                }
            }
            i = i + 1;
        }
        proof {
            assert(self.deep_view().records.take(n as int) =~= self.deep_view().records);
        }
        out
    }

    /// Searches the space for an object by name and declared type.  Unlike
    /// the schema entities, an existing match needs no further validation:
    /// the name and type are the whole key.
    pub fn get_object(&self, object_spec: &crate::object::ObjectSpec) -> (r: Result<
        Option<Object>,
        SpaceError,
    >)
        ensures
            ({
                let hits = object_results(
                    self.deep_view().records,
                    object_spec.name@,
                    object_spec.ty.deep_view().id,
                );
                match r {
                    Ok(None) => hits.len() == 0,
                    Ok(Some(obj)) => hits.len() == 1 && obj.deep_view() == hits[0],
                    Err(SpaceError::AmbiguousEntity { name }) => hits.len() >= 2 && name@
                        == object_spec.name@,
                    Err(_) => false,
                }
            }),
    {
        let ty = object_spec.ty.id();
        let mut objects = self.search_objects(object_spec.name.as_str(), ty.as_str());
        if objects.len() == 0 {
            Ok(None)
        } else if objects.len() == 1 {
            let obj = objects.remove(0);
            proof {
                assert(obj.deep_view() == object_results(
                    self.deep_view().records,
                    object_spec.name@,
                    object_spec.ty.deep_view().id,
                )[0]);
            }
            Ok(Some(obj))
        } else {
            Err(SpaceError::AmbiguousEntity { name: object_spec.name.clone() })
        }
    }
}


/// The wire fields a validated description writes: each relation's storage
/// key paired with its value's wire form, in description order.
pub open spec fn details_of(
    pairs: Seq<(RelationView, crate::relation::RelationValueView)>,
) -> Seq<(Seq<char>, Option<ProstDataView>)> {
    pairs.map_values(
        |p: (RelationView, crate::relation::RelationValueView)|
            (p.0.key, crate::relation::spec_value_wire(p.1)),
    )
}

/// The wire record the backend materializes for a created object: the
/// schema fields first, then the validated relation values.
pub open spec fn object_record_shape(
    name: Seq<char>,
    id_token: Seq<char>,
    ty: Seq<char>,
    space_id: Seq<char>,
    details: Seq<(Seq<char>, Option<ProstDataView>)>,
) -> Seq<(Seq<char>, Option<ProstDataView>)> {
    seq![
        ("layout"@, Some(ProstDataView::Number(spec_number_bits(0)))),
        ("id"@, Some(ProstDataView::Text(id_token))),
        ("name"@, Some(ProstDataView::Text(name))),
        ("type"@, Some(ProstDataView::Text(ty))),
        ("spaceId"@, Some(ProstDataView::Text(space_id))),
    ] + details
}

/// A freshly built object record decodes back to the described object: the
/// schema fields echo the description and everything after them is the
/// residual bag of validated relation values.
#[verifier::rlimit(100)]
proof fn lemma_object_record_decodes(
    recv: Seq<(Seq<char>, Option<ProstDataView>)>,
    name: Seq<char>,
    id_token: Seq<char>,
    ty: Seq<char>,
    space_id: Seq<char>,
    details: Seq<(Seq<char>, Option<ProstDataView>)>,
)
    requires
        recv == object_record_shape(name, id_token, ty, space_id, details),
    ensures
        crate::object::spec_decode_object(recv) == Ok::<
            crate::object::ObjectView,
            ProstConversionErrorView,
        >(
            crate::object::ObjectView {
                id: id_token,
                name,
                ty,
                fields: seq![("spaceId"@, Some(ProstDataView::Text(space_id)))] + details,
            },
        ),
        record_named(recv, name),
        record_typed(recv, ty),
        record_has_layout(recv, Layout::Basic),
        (forall|j: int| 0 <= j < details.len() ==> details[j].0 != "isHidden"@)
            ==> record_visible(recv),
{
    reveal_strlit("layout");
    reveal_strlit("id");
    reveal_strlit("name");
    reveal_strlit("type");
    reveal_strlit("spaceId");
    reveal_strlit("isHidden");
    assert("layout"@.len() == 6);
    assert("id"@.len() == 2);
    assert("name"@.len() == 4);
    assert("type"@.len() == 4);
    assert("spaceId"@.len() == 7);
    assert("isHidden"@.len() == 8);
    assert("name"@[0] == 'n');
    assert("type"@[0] == 't');
    assert("name"@ != "type"@);
    reveal_with_fuel(crate::prost_ext::key_index, 10);
    crate::number::lemma_number_bits_trunc(0);
    crate::text::lemma_fold_eq_refl(name);
    let lay = ("layout"@, Some(ProstDataView::Number(spec_number_bits(0))));
    let idp = ("id"@, Some(ProstDataView::Text(id_token)));
    let nmp = ("name"@, Some(ProstDataView::Text(name)));
    let typ = ("type"@, Some(ProstDataView::Text(ty)));
    let spp = ("spaceId"@, Some(ProstDataView::Text(space_id)));
    let d1 = seq![idp, nmp, typ, spp] + details;
    assert(spec_remove(recv, "layout"@) =~= d1);
    let d2 = seq![nmp, typ, spp] + details;
    assert(spec_remove(d1, "id"@) =~= d2);
    let d3 = seq![typ, spp] + details;
    assert(spec_remove(d2, "name"@) =~= d3);
    let d4 = seq![spp] + details;
    assert(spec_remove(d3, "type"@) =~= d4);
    assert(spec_lookup(recv, "name"@) == Some(nmp.1));
    assert(spec_lookup(recv, "type"@) == Some(typ.1));
    assert(spec_lookup(recv, "layout"@) == Some(lay.1));
    assert(clamp_i32_spec(spec_trunc_i64(spec_number_bits(0))) == 0);
    if forall|j: int| 0 <= j < details.len() ==> details[j].0 != "isHidden"@ {
        assert forall|i: int| 0 <= i < recv.len() implies recv[i].0 != "isHidden"@ by {
            if i >= 5 {
                assert(recv[i] == details[i - 5]);
            }
        }
        crate::prost_ext::lemma_key_index(recv, "isHidden"@);
        assert(spec_lookup(recv, "isHidden"@) is None);
    }
    assert(crate::object::spec_decode_object(recv) == Ok::<
        crate::object::ObjectView,
        ProstConversionErrorView,
    >(crate::object::ObjectView { id: id_token, name, ty, fields: d4 }));
}

impl Space {
    /// Creates an object in the space.  Every relation value in the
    /// description is checked against its relation's declared format first
    /// — the backend itself accepts anything — and the first mismatch
    /// aborts the call.  On success the backend materializes a fresh
    /// record with the description's name, type and validated values, and
    /// the engine decodes that echo.
    #[verifier::loop_isolation(false)]
    pub fn create_object(&mut self, object: crate::object::ObjectDescription) -> (r: Result<
        Object,
        SpaceError,
    >)
        requires
            forall|i: int|
                0 <= i < object.relations.deep_view().len() ==> crate::relation::value_encodable(
                    object.relations.deep_view()[i].1,
                ),
        ensures
            final (self).deep_view().space_id == old(self).deep_view().space_id,
            ({
                let pairs = object.relations.deep_view();
                match r {
                    Ok(obj) => {
                        let recs = final (self).deep_view().records;
                        &&& recs.len() == old(self).deep_view().records.len() + 1
                        &&& recs.drop_last() == old(self).deep_view().records
                        &&& recs.last() == object_record_shape(
                            object.name@,
                            obj.deep_view().id,
                            object.ty.deep_view().id,
                            old(self).deep_view().space_id,
                            details_of(pairs),
                        )
                        &&& crate::object::spec_decode_object(recs.last()) == Ok::<
                            crate::object::ObjectView,
                            ProstConversionErrorView,
                        >(obj.deep_view())
                        &&& obj.deep_view().name == object.name@
                        &&& obj.deep_view().ty == object.ty.deep_view().id
                        &&& forall|j: int|
                            0 <= j < pairs.len() ==> crate::relation::spec_is_superset(
                                pairs[j].0.format,
                                crate::relation::spec_value_format(pairs[j].1),
                            )
                    },
                    Err(SpaceError::IncompatibleValue(e)) => {
                        &&& final (self).deep_view() == old(self).deep_view()
                        &&& exists|j: int|
                            0 <= j < pairs.len() && !crate::relation::spec_is_superset(
                                pairs[j].0.format,
                                crate::relation::spec_value_format(pairs[j].1),
                            ) && e.deep_view().expected == pairs[j].0.format
                                && e.deep_view().received == crate::relation::spec_value_format(
                                pairs[j].1,
                            )
                    },
                    Err(_) => false,
                }
            }),
    {
        let ghost pairs = object.relations.deep_view();
        let id_token = counter_token("oid", self.counter);
        self.counter = if self.counter == u64::MAX {
            0
        } else {
            self.counter + 1
        };
        let ty = object.ty.id();
        let layout_bits = number_bits_of_i64(0);
        let mut fields: Vec<(String, ProstValue)> = Vec::new();
        fields.push(("layout".to_owned(), layout_bits.into_prost()));
        fields.push(("id".to_owned(), id_token.into_prost()));
        fields.push(("name".to_owned(), object.name.clone().into_prost()));
        fields.push(("type".to_owned(), ty.into_object_id().into_prost()));
        fields.push(("spaceId".to_owned(), self.space_id.clone().into_prost()));
        let mut relations = object.relations;
        let mut k: usize = 0;
        proof {
            assert(fields.deep_view() =~= object_record_shape(
                object.name@,
                id_token@,
                object.ty.deep_view().id,
                old(self).deep_view().space_id,
                details_of(pairs.take(0)),
            ));
            assert(relations.deep_view() =~= pairs.skip(0));
        }
        while relations.len() > 0
            invariant
                k + relations@.len() == pairs.len(),
                relations.deep_view() == pairs.skip(k as int),
                fields@.len() == 5 + k,
                fields.deep_view() == object_record_shape(
                    object.name@,
                    id_token@,
                    object.ty.deep_view().id,
                    old(self).deep_view().space_id,
                    details_of(pairs.take(k as int)),
                ),
                forall|j: int|
                    0 <= j < k ==> crate::relation::spec_is_superset(
                        pairs[j].0.format,
                        crate::relation::spec_value_format(pairs[j].1),
                    ),
                self.deep_view().records == old(self).deep_view().records,
                self.deep_view().space_id == old(self).deep_view().space_id,
            decreases relations@.len(),
        {
            let ghost cur = relations.deep_view();
            let pair = relations.remove(0);
            proof {
                assert(pair.deep_view() == cur[0]);
                assert(cur[0] == pairs[k as int]);
                assert(relations.deep_view() =~= cur.drop_first());
                assert(cur.drop_first() =~= pairs.skip(k as int + 1));
            }
            match pair.0.validate(pair.1) {
                Err(e) => {
                    return Err(SpaceError::IncompatibleValue(e));
                },
                Ok(detail) => {
                    let raw = detail.into_raw_parts();
                    let ghost f0 = fields.deep_view();
                    fields.push(raw);
                    proof {
                        assert(fields.deep_view() =~= f0.push(
                            (pairs[k as int].0.key, crate::relation::spec_value_wire(
                                pairs[k as int].1,
                            )),
                        ));
                        assert(details_of(pairs.take(k as int + 1)) =~= details_of(
                            pairs.take(k as int),
                        ).push(
                            (pairs[k as int].0.key, crate::relation::spec_value_wire(
                                pairs[k as int].1,
                            )),
                        ));
                        assert(fields.deep_view() =~= object_record_shape(
                            object.name@,
                            id_token@,
                            object.ty.deep_view().id,
                            old(self).deep_view().space_id,
                            details_of(pairs.take(k as int + 1)),
                        ));
                    }
                    proof {
                        assert(relations@.len() < cur.len());
                        assert(k + 1 <= pairs.len());
                        assert(pairs.len() == object.relations@.len());
                        vstd::std_specs::vec::axiom_spec_len(&object.relations);
                    }
                    k = k + 1;
                },
            }
        }
        proof {
            assert(pairs.take(k as int) =~= pairs);
        }
        let rec = ProstStruct::from_fields(fields);
        let ghost recv = rec.deep_view();
        proof {
            lemma_object_record_decodes(
                recv,
                object.name@,
                id_token@,
                object.ty.deep_view().id,
                old(self).deep_view().space_id,
                details_of(pairs),
            );
        }
        let response = rec.clone();
        let ghost rold = self.deep_view().records;
        self.records.push(rec);
        proof {
            assert(self.deep_view().records =~= rold.push(recv));
            assert(self.deep_view().records.drop_last() =~= rold);
        }
        proof {
            lemma_layout_take(recv, Layout::Basic);
            assert(crate::object::object_layouts().contains(Layout::Basic));
        }
        match Object::try_from_prost(response) {
            Ok(obj) => Ok(obj),
            Err(e) => {
                proof {
                    assert(false);
                }
                Err(SpaceError::Conversion(e))
            },
        }
    }

    /// Fetches the object named in the request, creating an empty one of
    /// the requested type when the space has none: the get-or-create
    /// reconciliation for objects.
    pub fn obtain_object(&mut self, object_spec: &crate::object::ObjectSpec) -> (r: Result<
        Object,
        SpaceError,
    >)
        ensures
            final (self).deep_view().space_id == old(self).deep_view().space_id,
            ({
                let hits = object_results(
                    old(self).deep_view().records,
                    object_spec.name@,
                    object_spec.ty.deep_view().id,
                );
                match r {
                    Ok(obj) => {
                        ||| (hits.len() == 1 && final (self).deep_view() == old(self).deep_view()
                            && obj.deep_view() == hits[0])
                        ||| (hits.len() == 0 && {
                            let recs = final (self).deep_view().records;
                            &&& recs.len() == old(self).deep_view().records.len() + 1
                            &&& recs.drop_last() == old(self).deep_view().records
                            &&& crate::object::spec_decode_object(recs.last()) == Ok::<
                                crate::object::ObjectView,
                                ProstConversionErrorView,
                            >(obj.deep_view())
                            &&& obj.deep_view().name == object_spec.name@
                            &&& obj.deep_view().ty == object_spec.ty.deep_view().id
                        })
                    },
                    Err(SpaceError::AmbiguousEntity { name }) => final (self).deep_view() == old(
                        self,
                    ).deep_view() && hits.len() >= 2 && name@ == object_spec.name@,
                    Err(_) => false,
                }
            }),
    {
        match self.get_object(object_spec) {
            Err(SpaceError::AmbiguousEntity { name }) => Err(
                SpaceError::AmbiguousEntity { name },
            ),
            Err(e) => {
                proof {
                    assert(false);
                }
                Err(e)
            },
            Ok(Some(obj)) => Ok(obj),
            Ok(None) => {
                let description = object_spec.as_description();
                match self.create_object(description) {
                    Ok(obj) => Ok(obj),
                    Err(e) => {
                        proof {
                            assert(false);
                        }
                        Err(e)
                    },
                }
            },
        }
    }
}


/// What reading a present wire payload as a scalar-format value yields.
/// Reference formats are handled separately, since resolving them reads
/// the space.
pub open spec fn spec_read_scalar(fmt: FormatView, d: ProstDataView) -> Result<
    crate::relation::RelationValueView,
    ProstConversionErrorView,
> {
    match fmt {
        FormatView::Text => match d {
            ProstDataView::Text(s) => Ok(crate::relation::RelationValueView::Text(s)),
            _ => Err(
                ProstConversionErrorView::IncorrectKind {
                    expected: crate::prost_ext::ProstKind::Text,
                    received: crate::prost_ext::view_kind(d),
                },
            ),
        },
        FormatView::Number => match d {
            ProstDataView::Number(bits) => Ok(crate::relation::RelationValueView::Number(bits)),
            _ => Err(
                ProstConversionErrorView::IncorrectKind {
                    expected: crate::prost_ext::ProstKind::Number,
                    received: crate::prost_ext::view_kind(d),
                },
            ),
        },
        FormatView::Date => match d {
            ProstDataView::Number(bits) => Ok(
                crate::relation::RelationValueView::Date(spec_trunc_i64(bits)),
            ),
            _ => Err(
                ProstConversionErrorView::IncorrectKind {
                    expected: crate::prost_ext::ProstKind::Number,
                    received: crate::prost_ext::view_kind(d),
                },
            ),
        },
        FormatView::Checkbox => match d {
            ProstDataView::Bool(b) => Ok(crate::relation::RelationValueView::Checkbox(b)),
            _ => Err(
                ProstConversionErrorView::IncorrectKind {
                    expected: crate::prost_ext::ProstKind::Bool,
                    received: crate::prost_ext::view_kind(d),
                },
            ),
        },
        FormatView::Url => match d {
            ProstDataView::Text(s) => Ok(crate::relation::RelationValueView::Url(s)),
            _ => Err(
                ProstConversionErrorView::IncorrectKind {
                    expected: crate::prost_ext::ProstKind::Text,
                    received: crate::prost_ext::view_kind(d),
                },
            ),
        },
        FormatView::Email => match d {
            ProstDataView::Text(s) => Ok(crate::relation::RelationValueView::Email(s)),
            _ => Err(
                ProstConversionErrorView::IncorrectKind {
                    expected: crate::prost_ext::ProstKind::Text,
                    received: crate::prost_ext::view_kind(d),
                },
            ),
        },
        FormatView::Phone => match d {
            ProstDataView::Text(s) => Ok(crate::relation::RelationValueView::Phone(s)),
            _ => Err(
                ProstConversionErrorView::IncorrectKind {
                    expected: crate::prost_ext::ProstKind::Text,
                    received: crate::prost_ext::view_kind(d),
                },
            ),
        },
        _ => Err(ProstConversionErrorView::KindIsEmpty),
    }
}

/// What reading an object's relation value yields: absence is `None`, a
/// scalar format decodes the stored payload, and a reference format reads
/// the stored identifier list and resolves it against the space.
pub open spec fn spec_get_value(
    records: Seq<Seq<(Seq<char>, Option<ProstDataView>)>>,
    fields: Seq<(Seq<char>, Option<ProstDataView>)>,
    key: Seq<char>,
    fmt: FormatView,
) -> Result<Option<crate::relation::RelationValueView>, ProstConversionErrorView> {
    match spec_lookup(fields, key) {
        None => Ok(None),
        Some(None) => Err(ProstConversionErrorView::KindIsEmpty),
        Some(Some(d)) => if fmt is Object {
            match d {
                ProstDataView::List(l) => match crate::prost_ext::spec_decode_slots::<ObjectId>(
                    l,
                ) {
                    Ok(ids) => Ok(
                        Some(
                            crate::relation::RelationValueView::Object(
                                objects_by_ids(records, ids),
                            ),
                        ),
                    ),
                    Err(e) => Err(e),
                },
                _ => Err(
                    ProstConversionErrorView::IncorrectKind {
                        expected: crate::prost_ext::ProstKind::List,
                        received: crate::prost_ext::view_kind(d),
                    },
                ),
            }
        } else {
            match spec_read_scalar(fmt, d) {
                Ok(v) => Ok(Some(v)),
                Err(e) => Err(e),
            }
        },
    }
}

impl Object {
    /// Reads this object's value for a relation, decoding the stored wire
    /// value under the relation's declared format.  An absent field is
    /// `None`; a reference-format value is resolved by fetching the
    /// referenced objects from the space.
    pub fn get(&self, space: &Space, key: &Relation) -> (r: Result<
        Option<RelationValue>,
        SpaceError,
    >)
        requires
            !(key.deep_view().format is Select),
            !(key.deep_view().format is MultiSelect),
            !(key.deep_view().format is FileOrMedia),
        ensures
            ({
                let spec = spec_get_value(
                    space.deep_view().records,
                    self.deep_view().fields,
                    key.deep_view().key,
                    key.deep_view().format,
                );
                match r {
                    Ok(None) => spec == Ok::<
                        Option<crate::relation::RelationValueView>,
                        ProstConversionErrorView,
                    >(None),
                    Ok(Some(v)) => spec == Ok::<
                        Option<crate::relation::RelationValueView>,
                        ProstConversionErrorView,
                    >(Some(v.deep_view())),
                    Err(SpaceError::Conversion(e)) => spec == Err::<
                        Option<crate::relation::RelationValueView>,
                        ProstConversionErrorView,
                    >(e.deep_view()),
                    Err(_) => false,
                }
            }),
    {
        let slot = match self.relations.get(key.key().as_str()) {
            None => {
                return Ok(None);
            },
            Some(v) => match &v.kind {
                None => {
                    return Err(SpaceError::Conversion(ProstConversionError::KindIsEmpty));
                },
                Some(d) => d.clone(),
            },
        };
        match key.format() {
            RelationFormat::Object { .. } => {
                match <Vec<ObjectId> as crate::prost_ext::TryFromProst>::try_from_prost(slot) {
                    Err(e) => Err(SpaceError::Conversion(e)),
                    Ok(ids) => {
                        let objects = space.get_objects(&ids);
                        Ok(Some(RelationValue::Object(objects)))
                    },
                }
            },
            RelationFormat::Text => match slot {
                ProstData::Text(t) => Ok(Some(RelationValue::Text(t))),
                d => Err(
                    SpaceError::Conversion(
                        ProstConversionError::IncorrectKind {
                            expected: crate::prost_ext::ProstKind::Text,
                            received: d.kind(),
                        },
                    ),
                ),
            },
            RelationFormat::Number => match slot {
                ProstData::Number(bits) => Ok(Some(RelationValue::Number(bits))),
                d => Err(
                    SpaceError::Conversion(
                        ProstConversionError::IncorrectKind {
                            expected: crate::prost_ext::ProstKind::Number,
                            received: d.kind(),
                        },
                    ),
                ),
            },
            RelationFormat::Date => match slot {
                ProstData::Number(bits) => Ok(Some(RelationValue::Date(trunc_i64(bits)))),
                d => Err(
                    SpaceError::Conversion(
                        ProstConversionError::IncorrectKind {
                            expected: crate::prost_ext::ProstKind::Number,
                            received: d.kind(),
                        },
                    ),
                ),
            },
            RelationFormat::Checkbox => match slot {
                ProstData::Bool(b) => Ok(Some(RelationValue::Checkbox(b))),
                d => Err(
                    SpaceError::Conversion(
                        ProstConversionError::IncorrectKind {
                            expected: crate::prost_ext::ProstKind::Bool,
                            received: d.kind(),
                        },
                    ),
                ),
            },
            RelationFormat::Url => match slot {
                ProstData::Text(t) => Ok(Some(RelationValue::Url(t))),
                d => Err(
                    SpaceError::Conversion(
                        ProstConversionError::IncorrectKind {
                            expected: crate::prost_ext::ProstKind::Text,
                            received: d.kind(),
                        },
                    ),
                ),
            },
            RelationFormat::Email => match slot {
                ProstData::Text(t) => Ok(Some(RelationValue::Email(t))),
                d => Err(
                    SpaceError::Conversion(
                        ProstConversionError::IncorrectKind {
                            expected: crate::prost_ext::ProstKind::Text,
                            received: d.kind(),
                        },
                    ),
                ),
            },
            RelationFormat::Phone => match slot {
                ProstData::Text(t) => Ok(Some(RelationValue::Phone(t))),
                d => Err(
                    SpaceError::Conversion(
                        ProstConversionError::IncorrectKind {
                            expected: crate::prost_ext::ProstKind::Text,
                            received: d.kind(),
                        },
                    ),
                ),
            },
            RelationFormat::Select | RelationFormat::MultiSelect | RelationFormat::FileOrMedia => {
                proof {
                    assert(false);
                }
                Ok(None)
            },
        }
    }
}

/// The index of the first record carrying the identifier, or -1.
pub open spec fn record_id_index(
    records: Seq<Seq<(Seq<char>, Option<ProstDataView>)>>,
    id: Seq<char>,
) -> int
    decreases records.len(),
{
    if records.len() == 0 {
        -1
    } else if record_has_id(records[0], id) {
        0
    } else {
        let r = record_id_index(records.drop_first(), id);
        if r == -1 {
            -1
        } else {
            r + 1
        }
    }
}

/// What `record_id_index` finds.
pub proof fn lemma_record_id_index(
    records: Seq<Seq<(Seq<char>, Option<ProstDataView>)>>,
    id: Seq<char>,
)
    ensures
        record_id_index(records, id) == -1 ==> forall|i: int|
            0 <= i < records.len() ==> !record_has_id(records[i], id),
        record_id_index(records, id) != -1 ==> {
            let k = record_id_index(records, id);
            &&& 0 <= k < records.len()
            &&& record_has_id(records[k], id)
            &&& forall|i: int| 0 <= i < k ==> !record_has_id(records[i], id)
        },
    decreases records.len(),
{
    if records.len() > 0 && !record_has_id(records[0], id) {
        lemma_record_id_index(records.drop_first(), id);
        assert(forall|i: int|
            0 < i < records.len() ==> records[i] == records.drop_first()[i - 1]);
    }
}

impl Space {
    /// Reports whether a record carries the identifier.
    fn check_has_id(rec: &ProstStruct, id: &str) -> (r: bool)
        ensures
            r == record_has_id(rec.deep_view(), id@),
    {
        match rec.get("id") {
            Some(v) => match &v.kind {
                Some(ProstData::Text(s)) => crate::text::str_eq(s.as_str(), id),
                _ => false,
            },
            None => false,
        }
    }

    /// Writes a validated relation value into the record of the object
    /// with the given identifier.
    #[verifier::loop_isolation(false)]
    pub(crate) fn set_relation_raw(&mut self, id: &ObjectId, field: String, value: ProstValue)
        -> (r: Result<(), SpaceError>)
        ensures
            final (self).deep_view().space_id == old(self).deep_view().space_id,
            ({
                let idx = record_id_index(old(self).deep_view().records, id.deep_view());
                match r {
                    Ok(()) => idx != -1 && final (self).deep_view().records == old(
                        self,
                    ).deep_view().records.update(
                        idx,
                        spec_insert(
                            old(self).deep_view().records[idx],
                            field@,
                            value.deep_view(),
                        ),
                    ),
                    Err(SpaceError::UnknownObject { id: missing }) => idx == -1 && missing@
                        == id.deep_view() && final (self).deep_view() == old(self).deep_view(),
                    Err(_) => false,
                }
            }),
    {
        proof {
            lemma_record_id_index(self.deep_view().records, id.deep_view());
        }
        let n = self.records.len();
        let mut i: usize = 0;
        while i < n
            invariant
                *self == *old(self),
                n == self.records@.len(),
                0 <= i <= n,
                forall|j: int|
                    0 <= j < i ==> !record_has_id(self.deep_view().records[j], id.deep_view()),
            decreases n - i,
        {
            if Self::check_has_id(&self.records[i], id.as_str()) {
                proof {
                    assert(record_has_id(self.deep_view().records[i as int], id.deep_view()));
                    assert(record_id_index(self.deep_view().records, id.deep_view()) == i);
                }
                let mut rec = self.records.remove(i);
                rec.insert(field, value);
                self.records.insert(i, rec);
                proof {
                    assert(self.deep_view().records =~= old(self).deep_view().records.update(
                        i as int,
                        spec_insert(
                            old(self).deep_view().records[i as int],
                            field@,
                            value.deep_view(),
                        ),
                    ));
                }
                return Ok(());
            }
            i = i + 1;
        }
        Err(SpaceError::UnknownObject { id: id.as_str().to_owned() })
    }
}

impl Object {
    /// Writes a value for a relation on this object, after checking it
    /// against the relation's declared format, and hands back the value
    /// previously stored in this snapshot of the object.
    pub fn set(&self, space: &mut Space, key: &Relation, value: RelationValue) -> (r: Result<
        Option<RelationValue>,
        SpaceError,
    >)
        requires
            !(key.deep_view().format is Select),
            !(key.deep_view().format is MultiSelect),
            !(key.deep_view().format is FileOrMedia),
            crate::relation::value_encodable(value.deep_view()),
        ensures
            ({
                let idx = record_id_index(old(space).deep_view().records, self.deep_view().id);
                let prev = spec_get_value(
                    old(space).deep_view().records,
                    self.deep_view().fields,
                    key.deep_view().key,
                    key.deep_view().format,
                );
                match r {
                    Ok(previous) => {
                        &&& crate::relation::spec_is_superset(
                            key.deep_view().format,
                            crate::relation::spec_value_format(value.deep_view()),
                        )
                        &&& idx != -1
                        &&& final (space).deep_view().records == old(
                            space,
                        ).deep_view().records.update(
                            idx,
                            spec_insert(
                                old(space).deep_view().records[idx],
                                key.deep_view().key,
                                crate::relation::spec_value_wire(value.deep_view()),
                            ),
                        )
                        &&& match previous {
                            None => prev == Ok::<
                                Option<crate::relation::RelationValueView>,
                                ProstConversionErrorView,
                            >(None),
                            Some(v) => prev == Ok::<
                                Option<crate::relation::RelationValueView>,
                                ProstConversionErrorView,
                            >(Some(v.deep_view())),
                        }
                    },
                    Err(SpaceError::IncompatibleValue(e)) => !crate::relation::spec_is_superset(
                        key.deep_view().format,
                        crate::relation::spec_value_format(value.deep_view()),
                    ) && final (space).deep_view() == old(space).deep_view() && e.deep_view().expected
                        == key.deep_view().format && e.deep_view().received
                        == crate::relation::spec_value_format(value.deep_view()),
                    Err(SpaceError::Conversion(e)) => prev == Err::<
                        Option<crate::relation::RelationValueView>,
                        ProstConversionErrorView,
                    >(e.deep_view()) && final (space).deep_view() == old(space).deep_view(),
                    Err(SpaceError::UnknownObject { id }) => idx == -1 && id@
                        == self.deep_view().id && crate::relation::spec_is_superset(
                        key.deep_view().format,
                        crate::relation::spec_value_format(value.deep_view()),
                    ) && final (space).deep_view() == old(space).deep_view(),
                    Err(_) => false,
                }
            }),
    {
        let previous = match self.get(space, key) {
            Ok(p) => p,
            Err(e) => {
                return Err(e);
            },
        };
        match key.validate(value) {
            Err(e) => Err(SpaceError::IncompatibleValue(e)),
            Ok(detail) => {
                let raw = detail.into_raw_parts();
                match space.set_relation_raw(&self.id, raw.0, raw.1) {
                    Ok(()) => Ok(previous),
                    Err(e) => Err(e),
                }
            },
        }
    }
}


/// Whether a record answers an object-type search for `name`.
pub open spec fn is_object_type_hit(
    rec: Seq<(Seq<char>, Option<ProstDataView>)>,
    name: Seq<char>,
) -> bool {
    &&& record_visible(rec)
    &&& record_has_layout(rec, Layout::ObjectType)
    &&& record_named(rec, name)
    &&& crate::object_type::spec_decode_object_type(rec) is Ok
}

/// The object types a search for `name` yields, before resolution, in
/// storage order.
pub open spec fn object_type_results(
    records: Seq<Seq<(Seq<char>, Option<ProstDataView>)>>,
    name: Seq<char>,
) -> Seq<ObjectTypeUnresolvedView> {
    records.filter(|r: Seq<(Seq<char>, Option<ProstDataView>)>| is_object_type_hit(r, name))
        .map_values(
        |r: Seq<(Seq<char>, Option<ProstDataView>)>|
            crate::object_type::spec_decode_object_type(r)->Ok_0,
    )
}

/// Search results over one more record, for object-type searches.
pub proof fn lemma_object_type_results_push(
    records: Seq<Seq<(Seq<char>, Option<ProstDataView>)>>,
    rec: Seq<(Seq<char>, Option<ProstDataView>)>,
    name: Seq<char>,
)
    ensures
        object_type_results(records.push(rec), name) == if is_object_type_hit(rec, name) {
            object_type_results(records, name).push(
                crate::object_type::spec_decode_object_type(rec)->Ok_0,
            )
        } else {
            object_type_results(records, name)
        },
{
    reveal(Seq::filter);
    let pred = |r: Seq<(Seq<char>, Option<ProstDataView>)>| is_object_type_hit(r, name);
    assert(records.push(rec).drop_last() =~= records);
    assert(records.push(rec).last() == rec);
    if pred(rec) {
        assert(records.push(rec).filter(pred) =~= records.filter(pred).push(rec));
        assert(object_type_results(records.push(rec), name) =~= object_type_results(
            records,
            name,
        ).push(crate::object_type::spec_decode_object_type(rec)->Ok_0));
    } else {
        assert(records.push(rec).filter(pred) =~= records.filter(pred));
        assert(object_type_results(records.push(rec), name) =~= object_type_results(
            records,
            name,
        ));
    }
}

/// Whether a record answers a fetch of relations by identifier.
pub open spec fn is_relation_fetch_hit(
    rec: Seq<(Seq<char>, Option<ProstDataView>)>,
    ids: Seq<Seq<char>>,
) -> bool {
    &&& record_visible(rec)
    &&& record_has_layout(rec, Layout::Relation)
    &&& record_id_in(rec, ids)
    &&& spec_decode_relation(rec) is Ok
}

/// The relations a fetch by identifiers yields, in storage order.
pub open spec fn relations_by_ids(
    records: Seq<Seq<(Seq<char>, Option<ProstDataView>)>>,
    ids: Seq<Seq<char>>,
) -> Seq<RelationView> {
    records.filter(|r: Seq<(Seq<char>, Option<ProstDataView>)>| is_relation_fetch_hit(r, ids))
        .map_values(|r: Seq<(Seq<char>, Option<ProstDataView>)>| spec_decode_relation(r)->Ok_0)
}

/// Fetch results over one more record, for relations.
pub proof fn lemma_relations_by_ids_push(
    records: Seq<Seq<(Seq<char>, Option<ProstDataView>)>>,
    rec: Seq<(Seq<char>, Option<ProstDataView>)>,
    ids: Seq<Seq<char>>,
)
    ensures
        relations_by_ids(records.push(rec), ids) == if is_relation_fetch_hit(rec, ids) {
            relations_by_ids(records, ids).push(spec_decode_relation(rec)->Ok_0)
        } else {
            relations_by_ids(records, ids)
        },
{
    reveal(Seq::filter);
    let pred = |r: Seq<(Seq<char>, Option<ProstDataView>)>| is_relation_fetch_hit(r, ids);
    assert(records.push(rec).drop_last() =~= records);
    assert(records.push(rec).last() == rec);
    if pred(rec) {
        assert(records.push(rec).filter(pred) =~= records.filter(pred).push(rec));
        assert(relations_by_ids(records.push(rec), ids) =~= relations_by_ids(records, ids).push(
            spec_decode_relation(rec)->Ok_0,
        ));
    } else {
        assert(records.push(rec).filter(pred) =~= records.filter(pred));
        assert(relations_by_ids(records.push(rec), ids) =~= relations_by_ids(records, ids));
    }
}

/// The name-and-format pairs of resolved relations, as a set.
pub open spec fn spec_rel_pairs(rels: Seq<RelationView>) -> Set<(Seq<char>, FormatView)> {
    rels.map_values(|r: RelationView| (r.name, r.format)).to_set()
}

/// The name-and-format pairs of requested relations, as a set.
pub open spec fn spec_spec_pairs(
    specs: Seq<crate::relation::RelationSpecView>,
) -> Set<(Seq<char>, FormatView)> {
    specs.map_values(|s: crate::relation::RelationSpecView| (s.name, s.format)).to_set()
}

impl Space {
    /// Reports whether a record's identifier is among the relation
    /// identifiers.
    #[verifier::loop_isolation(false)]
    fn check_id_in_rel(rec: &ProstStruct, ids: &Vec<RelationId>) -> (r: bool)
        ensures
            r == record_id_in(rec.deep_view(), ids.deep_view()),
    {
        match rec.get("id") {
            Some(v) => match &v.kind {
                Some(ProstData::Text(s)) => {
                    let n = ids.len();
                    let mut i: usize = 0;
                    while i < n
                        invariant
                            n == ids@.len(),
                            0 <= i <= n,
                            forall|j: int| 0 <= j < i ==> ids.deep_view()[j] != s@,
                        decreases n - i,
                    {
                        if crate::text::str_eq(ids[i].as_str(), s.as_str()) {
                            proof {
                                assert(ids.deep_view()[i as int] == s@);
                                assert(ids.deep_view().contains(s@));
                            }
                            return true;
                        }
                        i = i + 1;
                    }
                    proof {
                        if ids.deep_view().contains(s@) {
                            let j = choose|j: int|
                                0 <= j < ids.deep_view().len() && ids.deep_view()[j] == s@;
                            assert(false);
                        }
                    }
                    false
                },
                _ => false,
            },
            None => false,
        }
    }

    /// Fetches the visible relations whose identifiers are among `ids` and
    /// decodes them, in storage order.
    #[verifier::loop_isolation(false)]
    pub(crate) fn get_relations_by_ids(&self, ids: &Vec<RelationId>) -> (r: Vec<Relation>)
        ensures
            r.deep_view() == relations_by_ids(self.deep_view().records, ids.deep_view()),
    {
        let mut out: Vec<Relation> = Vec::new();
        let n = self.records.len();
        let mut i: usize = 0;
        while i < n
            invariant
                n == self.records@.len(),
                0 <= i <= n,
                out.deep_view() == relations_by_ids(
                    self.deep_view().records.take(i as int),
                    ids.deep_view(),
                ),
            decreases n - i,
        {
            let rec = &self.records[i];
            let ghost recv = rec.deep_view();
            proof {
                assert(self.deep_view().records[i as int] == recv);
                assert(self.deep_view().records.take(i as int + 1) =~= self.deep_view()
                    .records
                    .take(i as int)
                    .push(recv));
                lemma_relations_by_ids_push(
                    self.deep_view().records.take(i as int),
                    recv,
                    ids.deep_view(),
                );
            }
            if Self::check_visible(rec) && Self::check_layout(rec, Layout::Relation)
                && Self::check_id_in_rel(rec, ids) {
                proof {
                    lemma_layout_take(recv, Layout::Relation);
                }
                let copy = rec.clone();
                match Relation::try_from_prost(copy) {
                    Ok(rel) => {
                        let ghost out0 = out.deep_view();
                        out.push(rel);
                        proof {
                            assert(out.deep_view() =~= out0.push(rel.deep_view()));
                        }
                    },
                    Err(_) => (),
                }
            }
            i = i + 1;
        }
        proof {
            assert(self.deep_view().records.take(n as int) =~= self.deep_view().records);
        }
        out
    }

    /// Searches the space for visible object-type records matching `name`
    /// and decodes them, before resolution.
    #[verifier::loop_isolation(false)]
    fn search_object_types(&self, name: &str) -> (r: Vec<ObjectTypeUnresolved>)
        ensures
            r.deep_view() == object_type_results(self.deep_view().records, name@),
    {
        let mut out: Vec<ObjectTypeUnresolved> = Vec::new();
        let n = self.records.len();
        let mut i: usize = 0;
        while i < n
            invariant
                n == self.records@.len(),
                0 <= i <= n,
                out.deep_view() == object_type_results(
                    self.deep_view().records.take(i as int),
                    name@,
                ),
            decreases n - i,
        {
            let rec = &self.records[i];
            let ghost recv = rec.deep_view();
            proof {
                assert(self.deep_view().records[i as int] == recv);
                assert(self.deep_view().records.take(i as int + 1) =~= self.deep_view()
                    .records
                    .take(i as int)
                    .push(recv));
                lemma_object_type_results_push(
                    self.deep_view().records.take(i as int),
                    recv,
                    name@,
                );
            }
            if Self::check_visible(rec) && Self::check_layout(rec, Layout::ObjectType)
                && Self::check_named(rec, name) {
                proof {
                    lemma_layout_take(recv, Layout::ObjectType);
                }
                let copy = rec.clone();
                match ObjectTypeUnresolved::try_from_prost(copy) {
                    Ok(t) => {
                        let ghost out0 = out.deep_view();
                        out.push(t);
                        proof {
                            assert(out.deep_view() =~= out0.push(t.deep_view()));
                        }
                    },
                    Err(_) => (),
                }
            }
            i = i + 1;
        }
        proof {
            assert(self.deep_view().records.take(n as int) =~= self.deep_view().records);
        }
        out
    }

    /// Reports whether the requested relation set holds the given name and
    /// format pair.
    #[verifier::loop_isolation(false)]
    fn specs_contain_pair(specs: &Vec<RelationSpec>, name: &str, format: &RelationFormat) -> (r:
        bool)
        ensures
            r == spec_spec_pairs(specs.deep_view()).contains((name@, format.deep_view())),
    {
        let n = specs.len();
        let mut i: usize = 0;
        while i < n
            invariant
                n == specs@.len(),
                0 <= i <= n,
                forall|j: int|
                    0 <= j < i ==> (specs.deep_view()[j].name, specs.deep_view()[j].format) != (
                    name@,
                    format.deep_view(),
                ),
            decreases n - i,
        {
            if crate::text::str_eq(specs[i].name.as_str(), name) && specs[i].format.format_eq(
                format,
            ) {
                proof {
                    let mapped = specs.deep_view().map_values(
                        |s: crate::relation::RelationSpecView| (s.name, s.format),
                    );
                    assert(mapped[i as int] == (name@, format.deep_view()));
                    assert(mapped.contains((name@, format.deep_view())));
                }
                return true;
            }
            i = i + 1;
        }
        proof {
            let mapped = specs.deep_view().map_values(
                |s: crate::relation::RelationSpecView| (s.name, s.format),
            );
            if mapped.contains((name@, format.deep_view())) {
                let j = choose|j: int|
                    0 <= j < mapped.len() && mapped[j] == (name@, format.deep_view());
                assert(false);
            }
        }
        false
    }

    /// Reports whether the resolved relation set holds the given name and
    /// format pair.
    #[verifier::loop_isolation(false)]
    fn rels_contain_pair(rels: &Vec<Relation>, name: &str, format: &RelationFormat) -> (r: bool)
        ensures
            r == spec_rel_pairs(rels.deep_view()).contains((name@, format.deep_view())),
    {
        let n = rels.len();
        let mut i: usize = 0;
        while i < n
            invariant
                n == rels@.len(),
                0 <= i <= n,
                forall|j: int|
                    0 <= j < i ==> (rels.deep_view()[j].name, rels.deep_view()[j].format) != (
                    name@,
                    format.deep_view(),
                ),
            decreases n - i,
        {
            if crate::text::str_eq(rels[i].name(), name) && rels[i].format().format_eq(format) {
                proof {
                    let mapped = rels.deep_view().map_values(
                        |r2: RelationView| (r2.name, r2.format),
                    );
                    assert(mapped[i as int] == (name@, format.deep_view()));
                    assert(mapped.contains((name@, format.deep_view())));
                }
                return true;
            }
            i = i + 1;
        }
        proof {
            let mapped = rels.deep_view().map_values(|r2: RelationView| (r2.name, r2.format));
            if mapped.contains((name@, format.deep_view())) {
                let j = choose|j: int|
                    0 <= j < mapped.len() && mapped[j] == (name@, format.deep_view());
                assert(false);
            }
        }
        false
    }

    /// Decides whether the resolved relations carry exactly the requested
    /// set of name-and-format pairs.
    #[verifier::loop_isolation(false)]
    fn rel_pairs_equal(rels: &Vec<Relation>, specs: &Vec<RelationSpec>) -> (r: bool)
        ensures
            r == (spec_rel_pairs(rels.deep_view()) == spec_spec_pairs(specs.deep_view())),
    {
        let ghost relset = spec_rel_pairs(rels.deep_view());
        let ghost specset = spec_spec_pairs(specs.deep_view());
        let n = rels.len();
        let mut i: usize = 0;
        while i < n
            invariant
                n == rels@.len(),
                0 <= i <= n,
                forall|j: int|
                    0 <= j < i ==> specset.contains(
                        (rels.deep_view()[j].name, rels.deep_view()[j].format),
                    ),
            decreases n - i,
        {
            let name = rels[i].name();
            if !Self::specs_contain_pair(specs, name, rels[i].format()) {
                proof {
                    let mapped = rels.deep_view().map_values(
                        |r2: RelationView| (r2.name, r2.format),
                    );
                    assert(mapped[i as int] == (rels.deep_view()[i as int].name, rels.deep_view()[
                        i as int
                    ].format));
                    assert(mapped.contains(mapped[i as int]));
                    assert(relset.contains(mapped[i as int]));
                }
                return false;
            }
            i = i + 1;
        }
        let m = specs.len();
        let mut k: usize = 0;
        while k < m
            invariant
                m == specs@.len(),
                0 <= k <= m,
                forall|j: int|
                    0 <= j < rels.deep_view().len() ==> specset.contains(
                        (rels.deep_view()[j].name, rels.deep_view()[j].format),
                    ),
                forall|j: int|
                    0 <= j < k ==> relset.contains(
                        (specs.deep_view()[j].name, specs.deep_view()[j].format),
                    ),
            decreases m - k,
        {
            let name = specs[k].name.as_str();
            if !Self::rels_contain_pair(rels, name, &specs[k].format) {
                proof {
                    let mapped = specs.deep_view().map_values(
                        |s: crate::relation::RelationSpecView| (s.name, s.format),
                    );
                    assert(mapped[k as int] == (specs.deep_view()[k as int].name, specs.deep_view()[
                        k as int
                    ].format));
                    assert(mapped.contains(mapped[k as int]));
                    assert(specset.contains(mapped[k as int]));
                }
                return false;
            }
            k = k + 1;
        }
        proof {
            let rmapped = rels.deep_view().map_values(|r2: RelationView| (r2.name, r2.format));
            let smapped = specs.deep_view().map_values(
                |s: crate::relation::RelationSpecView| (s.name, s.format),
            );
            assert forall|p: (Seq<char>, FormatView)| relset.contains(p) implies specset.contains(
                p,
            ) by {
                let j = choose|j: int| 0 <= j < rmapped.len() && rmapped[j] == p;
                assert(specset.contains((rels.deep_view()[j].name, rels.deep_view()[j].format)));
            }
            assert forall|p: (Seq<char>, FormatView)| specset.contains(p) implies relset.contains(
                p,
            ) by {
                let j = choose|j: int| 0 <= j < smapped.len() && smapped[j] == p;
                assert(relset.contains((specs.deep_view()[j].name, specs.deep_view()[j].format)));
            }
            assert(relset =~= specset);
        }
        true
    }

    /// Searches the space for an object type by name, resolves its
    /// recommended relations, and validates them against the request: the
    /// resolved set of name-and-format pairs must equal the requested set
    /// exactly.
    pub fn get_object_type(&self, object_type_spec: &ObjectTypeSpec) -> (r: Result<
        Option<ObjectType>,
        SpaceError,
    >)
        ensures
            ({
                let hits = object_type_results(self.deep_view().records, object_type_spec.name@);
                match r {
                    Ok(None) => hits.len() == 0,
                    Ok(Some(t)) => hits.len() == 1 && {
                        let rels = relations_by_ids(
                            self.deep_view().records,
                            hits[0].recommended_relations,
                        );
                        &&& t.deep_view().id == hits[0].id
                        &&& t.deep_view().name == hits[0].name
                        &&& t.deep_view().unique_key == hits[0].unique_key
                        &&& t.deep_view().recommended_relations == rels
                        &&& spec_rel_pairs(rels) == spec_spec_pairs(
                            object_type_spec.recommended_relations.deep_view(),
                        )
                    },
                    Err(SpaceError::RecommendedRelationsMismatch { name }) => hits.len() == 1
                        && name@ == object_type_spec.name@ && spec_rel_pairs(
                        relations_by_ids(
                            self.deep_view().records,
                            hits[0].recommended_relations,
                        ),
                    ) != spec_spec_pairs(object_type_spec.recommended_relations.deep_view()),
                    Err(SpaceError::AmbiguousEntity { name }) => hits.len() >= 2 && name@
                        == object_type_spec.name@,
                    Err(_) => false,
                }
            }),
    {
        let mut object_types = self.search_object_types(object_type_spec.name.as_str());
        if object_types.len() == 0 {
            Ok(None)
        } else if object_types.len() == 1 {
            let unresolved = object_types.remove(0);
            proof {
                assert(unresolved.deep_view() == object_type_results(
                    self.deep_view().records,
                    object_type_spec.name@,
                )[0]);
            }
            let rels = self.get_relations_by_ids(&unresolved.recommended_relations);
            if Self::rel_pairs_equal(&rels, &object_type_spec.recommended_relations) {
                Ok(Some(unresolved.resolve(rels)))
            } else {
                Err(
                    SpaceError::RecommendedRelationsMismatch {
                        name: object_type_spec.name.clone(),
                    },
                )
            }
        } else {
            Err(SpaceError::AmbiguousEntity { name: object_type_spec.name.clone() })
        }
    }
}


/// Decoding a list of text slots as relation identifiers yields exactly
/// the texts.
proof fn lemma_decode_text_slots_rel(ids: Seq<Seq<char>>)
    ensures
        crate::prost_ext::spec_decode_slots::<RelationId>(
            Seq::new(ids.len(), |i: int| Some(ProstDataView::Text(ids[i]))),
        ) == Ok::<Seq<Seq<char>>, ProstConversionErrorView>(ids),
    decreases ids.len(),
{
    let slots = Seq::new(ids.len(), |i: int| Some(ProstDataView::Text(ids[i])));
    if ids.len() == 0 {
        assert(crate::prost_ext::spec_decode_slots::<RelationId>(slots) == Ok::<
            Seq<Seq<char>>,
            ProstConversionErrorView,
        >(Seq::empty()));
        assert(ids =~= Seq::<Seq<char>>::empty());
    } else {
        lemma_decode_text_slots_rel(ids.drop_first());
        assert(slots.drop_first() =~= Seq::new(
            ids.drop_first().len(),
            |i: int| Some(ProstDataView::Text(ids.drop_first()[i])),
        ));
        assert(seq![ids[0]] + ids.drop_first() =~= ids);
    }
}

/// A relation found under a name search carries a name that matches the
/// searched name up to case: the decoded name is the record's name field.
pub proof fn lemma_relation_hit_name(rec: Seq<(Seq<char>, Option<ProstDataView>)>, q: Seq<char>)
    requires
        is_relation_hit(rec, q),
    ensures
        crate::text::fold_eq(spec_decode_relation(rec)->Ok_0.name, q),
{
    reveal_strlit("layout");
    reveal_strlit("id");
    reveal_strlit("name");
    assert("layout"@.len() == 6);
    assert("id"@.len() == 2);
    assert("name"@.len() == 4);
    let d1 = spec_remove(rec, "layout"@);
    let d2 = spec_remove(d1, "id"@);
    crate::prost_ext::lemma_lookup_remove(rec, "layout"@, "name"@);
    crate::prost_ext::lemma_lookup_remove(d1, "id"@, "name"@);
    match spec_lookup(rec, "name"@) {
        Some(Some(ProstDataView::Text(s))) => {
            assert(spec_lookup(d2, "name"@) == Some(Some(ProstDataView::Text(s))));
        },
        _ => {
            assert(false);
        },
    }
}

/// The wire record the backend materializes for a created object type.
pub open spec fn object_type_record_shape(
    name: Seq<char>,
    id_token: Seq<char>,
    key_token: Seq<char>,
    rel_ids: Seq<Seq<char>>,
    space_id: Seq<char>,
) -> Seq<(Seq<char>, Option<ProstDataView>)> {
    seq![
        ("layout"@, Some(ProstDataView::Number(spec_number_bits(4)))),
        ("id"@, Some(ProstDataView::Text(id_token))),
        ("name"@, Some(ProstDataView::Text(name))),
        ("uniqueKey"@, Some(ProstDataView::Text(key_token))),
        (
            "recommendedRelations"@,
            Some(
                ProstDataView::List(
                    Seq::new(rel_ids.len(), |j: int| Some(ProstDataView::Text(rel_ids[j]))),
                ),
            ),
        ),
        ("spaceId"@, Some(ProstDataView::Text(space_id))),
    ]
}

/// A freshly built object-type record decodes back to the requested type:
/// the name echoes the request and the recommended relations are exactly
/// the referenced identifiers.
#[verifier::rlimit(100)]
proof fn lemma_object_type_record_decodes(
    recv: Seq<(Seq<char>, Option<ProstDataView>)>,
    name: Seq<char>,
    id_token: Seq<char>,
    key_token: Seq<char>,
    rel_ids: Seq<Seq<char>>,
    space_id: Seq<char>,
)
    requires
        recv == object_type_record_shape(name, id_token, key_token, rel_ids, space_id),
    ensures
        is_object_type_hit(recv, name),
        crate::object_type::spec_decode_object_type(recv) == Ok::<
            ObjectTypeUnresolvedView,
            ProstConversionErrorView,
        >(
            ObjectTypeUnresolvedView {
                id: id_token,
                name,
                unique_key: key_token,
                recommended_relations: rel_ids,
            },
        ),
{
    reveal_strlit("layout");
    reveal_strlit("id");
    reveal_strlit("name");
    reveal_strlit("uniqueKey");
    reveal_strlit("recommendedRelations");
    reveal_strlit("spaceId");
    reveal_strlit("isHidden");
    assert("layout"@.len() == 6);
    assert("id"@.len() == 2);
    assert("name"@.len() == 4);
    assert("uniqueKey"@.len() == 9);
    assert("recommendedRelations"@.len() == 20);
    assert("spaceId"@.len() == 7);
    assert("isHidden"@.len() == 8);
    reveal_with_fuel(crate::prost_ext::key_index, 10);
    crate::number::lemma_number_bits_trunc(4);
    crate::text::lemma_fold_eq_refl(name);
    lemma_decode_text_slots_rel(rel_ids);
    let lay = ("layout"@, Some(ProstDataView::Number(spec_number_bits(4))));
    let idp = ("id"@, Some(ProstDataView::Text(id_token)));
    let nmp = ("name"@, Some(ProstDataView::Text(name)));
    let ukp = ("uniqueKey"@, Some(ProstDataView::Text(key_token)));
    let rrp = (
        "recommendedRelations"@,
        Some(
            ProstDataView::List(
                Seq::new(rel_ids.len(), |j: int| Some(ProstDataView::Text(rel_ids[j]))),
            ),
        ),
    );
    let spp = ("spaceId"@, Some(ProstDataView::Text(space_id)));
    let d1 = seq![idp, nmp, ukp, rrp, spp];
    assert(spec_remove(recv, "layout"@) =~= d1);
    let d2 = seq![nmp, ukp, rrp, spp];
    assert(spec_remove(d1, "id"@) =~= d2);
    let d3 = seq![ukp, rrp, spp];
    assert(spec_remove(d2, "name"@) =~= d3);
    let d4 = seq![rrp, spp];
    assert(spec_remove(d3, "uniqueKey"@) =~= d4);
    assert(spec_lookup(recv, "name"@) == Some(nmp.1));
    assert(spec_lookup(recv, "layout"@) == Some(lay.1));
    assert(clamp_i32_spec(spec_trunc_i64(spec_number_bits(4))) == 4);
    lemma_lookup_none_by_len(recv, "isHidden"@);
    assert(crate::object_type::spec_decode_object_type(recv) == Ok::<
        ObjectTypeUnresolvedView,
        ProstConversionErrorView,
    >(
        ObjectTypeUnresolvedView {
            id: id_token,
            name,
            unique_key: key_token,
            recommended_relations: rel_ids,
        },
    ));
    assert(is_object_type_hit(recv, name));
}

impl Space {
    /// Creates an object type in the space.  Every requested relation is
    /// first reconciled in turn — fetched if the space has it, created
    /// otherwise — and the new type is then materialized referencing their
    /// identifiers; the engine decodes the echoed record and attaches the
    /// reconciled relations.
    #[verifier::loop_isolation(false)]
    pub fn create_object_type(&mut self, object_type_spec: &ObjectTypeSpec) -> (r: Result<
        ObjectType,
        SpaceError,
    >)
        ensures
            final (self).deep_view().space_id == old(self).deep_view().space_id,
            old(self).deep_view().records.is_prefix_of(final (self).deep_view().records),
            ({
                let specs = object_type_spec.recommended_relations.deep_view();
                match r {
                    Ok(t) => {
                        let recs = final (self).deep_view().records;
                        let rels = t.deep_view().recommended_relations;
                        &&& recs.len() >= old(self).deep_view().records.len() + 1
                        &&& is_object_type_hit(recs.last(), object_type_spec.name@)
                        &&& crate::object_type::spec_decode_object_type(recs.last()) == Ok::<
                            ObjectTypeUnresolvedView,
                            ProstConversionErrorView,
                        >(
                            ObjectTypeUnresolvedView {
                                id: t.deep_view().id,
                                name: t.deep_view().name,
                                unique_key: t.deep_view().unique_key,
                                recommended_relations: rels.map_values(
                                    |v: RelationView| v.id,
                                ),
                            },
                        )
                        &&& t.deep_view().name == object_type_spec.name@
                        &&& rels.len() == specs.len()
                        &&& forall|j: int|
                            0 <= j < rels.len() ==> crate::text::fold_eq(
                                rels[j].name,
                                specs[j].name,
                            ) && rels[j].format == specs[j].format
                    },
                    Err(SpaceError::FormatMismatch { name, expected, received }) => exists|j: int|
                        0 <= j < specs.len() && name@ == specs[j].name && {
                            let hits = relation_results(
                                final (self).deep_view().records,
                                specs[j].name,
                            );
                            hits.len() == 1 && hits[0].format != specs[j].format
                                && expected.deep_view() == hits[0].format && received.deep_view()
                                == specs[j].format
                        },
                    Err(SpaceError::AmbiguousEntity { name }) => exists|j: int|
                        0 <= j < specs.len() && name@ == specs[j].name && relation_results(
                            final (self).deep_view().records,
                            specs[j].name,
                        ).len() >= 2,
                    Err(_) => false,
                }
            }),
    {
        let ghost specsv = object_type_spec.recommended_relations.deep_view();
        let mut rels: Vec<Relation> = Vec::new();
        let mut ids: Vec<RelationId> = Vec::new();
        let n = object_type_spec.recommended_relations.len();
        let mut i: usize = 0;
        while i < n
            invariant
                n == specsv.len(),
                0 <= i <= n,
                rels@.len() == i,
                ids@.len() == i,
                self.deep_view().space_id == old(self).deep_view().space_id,
                old(self).deep_view().records.is_prefix_of(self.deep_view().records),
                forall|j: int|
                    0 <= j < i ==> crate::text::fold_eq(
                        rels.deep_view()[j].name,
                        specsv[j].name,
                    ) && rels.deep_view()[j].format == specsv[j].format,
                forall|j: int| 0 <= j < i ==> ids.deep_view()[j] == rels.deep_view()[j].id,
            decreases n - i,
        {
            let ghost pre = self.deep_view().records;
            let sp = &object_type_spec.recommended_relations[i];
            match self.obtain_relation(sp) {
                Err(e) => {
                    proof {
                        assert(sp.deep_view() == specsv[i as int]);
                        match &e {
                            SpaceError::FormatMismatch { name, expected, received } => {
                                let hits = relation_results(
                                    self.deep_view().records,
                                    specsv[i as int].name,
                                );
                                assert(name@ == specsv[i as int].name && hits.len() == 1
                                    && hits[0].format != specsv[i as int].format
                                    && expected.deep_view() == hits[0].format
                                    && received.deep_view() == specsv[i as int].format);
                            },
                            SpaceError::AmbiguousEntity { name } => {
                                assert(name@ == specsv[i as int].name && relation_results(
                                    self.deep_view().records,
                                    specsv[i as int].name,
                                ).len() >= 2);
                            },
                            _ => {
                                assert(false);
                            },
                        }
                    }
                    return Err(e);
                },
                Ok(rel) => {
                    proof {
                        if relation_results(pre, sp.deep_view().name).len() == 1 {
                            let pred = |rc: Seq<(Seq<char>, Option<ProstDataView>)>|
                                is_relation_hit(rc, sp.deep_view().name);
                            let filtered = pre.filter(pred);
                            pre.lemma_filter_pred(pred, 0);
                            assert(pred(filtered[0]));
                            lemma_relation_hit_name(filtered[0], sp.deep_view().name);
                        } else {
                            crate::text::lemma_fold_eq_refl(sp.deep_view().name);
                        }
                        lemma_prefix_step(pre, self.deep_view().records, old(self).deep_view().records);
                    }
                    let id = rel.id();
                    let ghost ids0 = ids.deep_view();
                    let ghost rels0 = rels.deep_view();
                    ids.push(id);
                    rels.push(rel);
                    proof {
                        assert(ids.deep_view() =~= ids0.push(id.deep_view()));
                        assert(rels.deep_view() =~= rels0.push(rel.deep_view()));
                    }
                    i = i + 1;
                },
            }
        }
        let id_token = counter_token("tid", self.counter);
        let key_token = counter_token("tuk", self.counter);
        self.counter = if self.counter == u64::MAX {
            0
        } else {
            self.counter + 1
        };
        let layout_bits = number_bits_of_i64(4);
        let mut vals: Vec<ProstValue> = Vec::new();
        let m = ids.len();
        let mut j: usize = 0;
        while j < m
            invariant
                m == ids@.len(),
                0 <= j <= m,
                vals@.len() == j,
                forall|q: int|
                    0 <= q < j ==> vals@[q].deep_view() == Some(
                        ProstDataView::Text(ids.deep_view()[q]),
                    ),
            decreases m - j,
        {
            let idc = ids[j].clone();
            vals.push(idc.into_prost());
            j = j + 1;
        }
        proof {
            assert(vals.deep_view() =~= Seq::new(
                ids.deep_view().len(),
                |q: int| Some(ProstDataView::Text(ids.deep_view()[q])),
            ));
        }
        let mut fields: Vec<(String, ProstValue)> = Vec::new();
        fields.push(("layout".to_owned(), layout_bits.into_prost()));
        fields.push(("id".to_owned(), id_token.into_prost()));
        fields.push(("name".to_owned(), object_type_spec.name.clone().into_prost()));
        fields.push(("uniqueKey".to_owned(), key_token.into_prost()));
        fields.push(("recommendedRelations".to_owned(), vals.into_prost()));
        fields.push(("spaceId".to_owned(), self.space_id.clone().into_prost()));
        let rec = ProstStruct::from_fields(fields);
        let ghost recv = rec.deep_view();
        proof {
            assert(recv =~= object_type_record_shape(
                object_type_spec.name@,
                id_token@,
                key_token@,
                ids.deep_view(),
                old(self).deep_view().space_id,
            ));
            lemma_object_type_record_decodes(
                recv,
                object_type_spec.name@,
                id_token@,
                key_token@,
                ids.deep_view(),
                old(self).deep_view().space_id,
            );
        }
        let response = rec.clone();
        let ghost rold = self.deep_view().records;
        self.records.push(rec);
        proof {
            assert(self.deep_view().records =~= rold.push(recv));
            assert(self.deep_view().records.drop_last() =~= rold);
            assert(rold.is_prefix_of(self.deep_view().records));
            lemma_prefix_step(rold, self.deep_view().records, old(self).deep_view().records);
        }
        match ObjectTypeUnresolved::try_from_prost(response) {
            Ok(unresolved) => {
                let t = unresolved.resolve(rels);
                proof {
                    assert(t.deep_view().recommended_relations.map_values(
                        |v: RelationView| v.id,
                    ) =~= ids.deep_view());
                }
                Ok(t)
            },
            Err(e) => {
                proof {
                    assert(false);
                }
                Err(SpaceError::Conversion(e))
            },
        }
    }

    /// Fetches the object type named in the request, creating it when the
    /// space has none: the get-or-create reconciliation for object types.
    pub fn obtain_object_type(&mut self, object_type_spec: &ObjectTypeSpec) -> (r: Result<
        ObjectType,
        SpaceError,
    >)
        ensures
            final (self).deep_view().space_id == old(self).deep_view().space_id,
            old(self).deep_view().records.is_prefix_of(final (self).deep_view().records),
            ({
                let hits = object_type_results(
                    old(self).deep_view().records,
                    object_type_spec.name@,
                );
                match r {
                    Ok(t) => {
                        ||| (hits.len() == 1 && final (self).deep_view() == old(self).deep_view()
                            && t.deep_view().id == hits[0].id && spec_rel_pairs(
                            t.deep_view().recommended_relations,
                        ) == spec_spec_pairs(object_type_spec.recommended_relations.deep_view()))
                        ||| (hits.len() == 0 && {
                            let recs = final (self).deep_view().records;
                            let rels = t.deep_view().recommended_relations;
                            let specs = object_type_spec.recommended_relations.deep_view();
                            &&& recs.len() >= old(self).deep_view().records.len() + 1
                            &&& is_object_type_hit(recs.last(), object_type_spec.name@)
                            &&& t.deep_view().name == object_type_spec.name@
                            &&& rels.len() == specs.len()
                            &&& forall|j: int|
                                0 <= j < rels.len() ==> crate::text::fold_eq(
                                    rels[j].name,
                                    specs[j].name,
                                ) && rels[j].format == specs[j].format
                        })
                    },
                    Err(SpaceError::RecommendedRelationsMismatch { name }) => final (self).deep_view()
                        == old(self).deep_view() && hits.len() == 1 && name@
                        == object_type_spec.name@ && spec_rel_pairs(
                        relations_by_ids(
                            old(self).deep_view().records,
                            hits[0].recommended_relations,
                        ),
                    ) != spec_spec_pairs(object_type_spec.recommended_relations.deep_view()),
                    Err(SpaceError::AmbiguousEntity { name }) => {
                        ||| (final (self).deep_view() == old(self).deep_view() && hits.len() >= 2
                            && name@ == object_type_spec.name@)
                        ||| (hits.len() == 0 && exists|j: int|
                            0 <= j < object_type_spec.recommended_relations.deep_view().len()
                                && name@
                                == object_type_spec.recommended_relations.deep_view()[j].name
                                && relation_results(
                                final (self).deep_view().records,
                                object_type_spec.recommended_relations.deep_view()[j].name,
                            ).len() >= 2)
                    },
                    Err(SpaceError::FormatMismatch { name, expected, received }) => hits.len()
                        == 0 && exists|j: int|
                        0 <= j < object_type_spec.recommended_relations.deep_view().len() && name@
                            == object_type_spec.recommended_relations.deep_view()[j].name && {
                            let rhits = relation_results(
                                final (self).deep_view().records,
                                object_type_spec.recommended_relations.deep_view()[j].name,
                            );
                            rhits.len() == 1 && rhits[0].format
                                != object_type_spec.recommended_relations.deep_view()[j].format
                                && expected.deep_view() == rhits[0].format && received.deep_view()
                                == object_type_spec.recommended_relations.deep_view()[j].format
                        },
                    Err(_) => false,
                }
            }),
    {
        match self.get_object_type(object_type_spec) {
            Err(e) => Err(e),
            Ok(Some(object_type)) => Ok(object_type),
            Ok(None) => self.create_object_type(object_type_spec),
        }
    }
}

/// Prefix facts compose across one reconciliation step: what extends a
/// sequence that extends a prefix still extends that prefix.
proof fn lemma_prefix_step(
    mid: Seq<Seq<(Seq<char>, Option<ProstDataView>)>>,
    cur: Seq<Seq<(Seq<char>, Option<ProstDataView>)>>,
    base: Seq<Seq<(Seq<char>, Option<ProstDataView>)>>,
)
    requires
        base.is_prefix_of(mid),
        mid == cur || (cur.len() == mid.len() + 1 && cur.drop_last() == mid),
    ensures
        base.is_prefix_of(cur),
{
    if cur != mid {
        assert(cur.subrange(0, base.len() as int) =~= mid.subrange(0, base.len() as int));
    }
}


/// The unresolved object types a fetch by identifiers yields, in storage
/// order.
pub open spec fn object_types_by_ids(
    records: Seq<Seq<(Seq<char>, Option<ProstDataView>)>>,
    ids: Seq<Seq<char>>,
) -> Seq<ObjectTypeUnresolvedView> {
    records.filter(
        |r: Seq<(Seq<char>, Option<ProstDataView>)>|
            record_visible(r) && record_has_layout(r, Layout::ObjectType) && record_id_in(r, ids)
                && crate::object_type::spec_decode_object_type(r) is Ok,
    ).map_values(
        |r: Seq<(Seq<char>, Option<ProstDataView>)>|
            crate::object_type::spec_decode_object_type(r)->Ok_0,
    )
}

/// Fetch results over one more record, for object types.
proof fn lemma_object_types_by_ids_push(
    records: Seq<Seq<(Seq<char>, Option<ProstDataView>)>>,
    rec: Seq<(Seq<char>, Option<ProstDataView>)>,
    ids: Seq<Seq<char>>,
)
    ensures
        object_types_by_ids(records.push(rec), ids) == if record_visible(rec)
            && record_has_layout(rec, Layout::ObjectType) && record_id_in(rec, ids)
            && crate::object_type::spec_decode_object_type(rec) is Ok {
            object_types_by_ids(records, ids).push(
                crate::object_type::spec_decode_object_type(rec)->Ok_0,
            )
        } else {
            object_types_by_ids(records, ids)
        },
{
    reveal(Seq::filter);
    let pred = |r: Seq<(Seq<char>, Option<ProstDataView>)>|
        record_visible(r) && record_has_layout(r, Layout::ObjectType) && record_id_in(r, ids)
            && crate::object_type::spec_decode_object_type(r) is Ok;
    assert(records.push(rec).drop_last() =~= records);
    assert(records.push(rec).last() == rec);
    if pred(rec) {
        assert(records.push(rec).filter(pred) =~= records.filter(pred).push(rec));
        assert(object_types_by_ids(records.push(rec), ids) =~= object_types_by_ids(
            records,
            ids,
        ).push(crate::object_type::spec_decode_object_type(rec)->Ok_0));
    } else {
        assert(records.push(rec).filter(pred) =~= records.filter(pred));
        assert(object_types_by_ids(records.push(rec), ids) =~= object_types_by_ids(records, ids));
    }
}

impl Space {
    /// Fetches the unresolved object types whose identifiers are among
    /// `ids`, in storage order.
    #[verifier::loop_isolation(false)]
    fn get_object_types_by_ids(&self, ids: &Vec<ObjectId>) -> (r: Vec<ObjectTypeUnresolved>)
        ensures
            r.deep_view() == object_types_by_ids(self.deep_view().records, ids.deep_view()),
    {
        let mut out: Vec<ObjectTypeUnresolved> = Vec::new();
        let n = self.records.len();
        let mut i: usize = 0;
        while i < n
            invariant
                n == self.records@.len(),
                0 <= i <= n,
                out.deep_view() == object_types_by_ids(
                    self.deep_view().records.take(i as int),
                    ids.deep_view(),
                ),
            decreases n - i,
        {
            let rec = &self.records[i];
            let ghost recv = rec.deep_view();
            proof {
                assert(self.deep_view().records[i as int] == recv);
                assert(self.deep_view().records.take(i as int + 1) =~= self.deep_view()
                    .records
                    .take(i as int)
                    .push(recv));
                lemma_object_types_by_ids_push(
                    self.deep_view().records.take(i as int),
                    recv,
                    ids.deep_view(),
                );
            }
            if Self::check_visible(rec) && Self::check_layout(rec, Layout::ObjectType)
                && Self::check_id_in(rec, ids) {
                proof {
                    lemma_layout_take(recv, Layout::ObjectType);
                }
                let copy = rec.clone();
                match ObjectTypeUnresolved::try_from_prost(copy) {
                    Ok(t) => {
                        let ghost out0 = out.deep_view();
                        out.push(t);
                        proof {
                            assert(out.deep_view() =~= out0.push(t.deep_view()));
                        }
                    },
                    Err(_) => (),
                }
            }
            i = i + 1;
        }
        proof {
            assert(self.deep_view().records.take(n as int) =~= self.deep_view().records);
        }
        out
    }
}

impl Object {
    /// Resolves this object's declared type into the full object type,
    /// fetching its record and its recommended relations from the space.
    pub fn ty(&self, space: &Space) -> (r: Result<ObjectType, SpaceError>)
        ensures
            ({
                let matches = object_types_by_ids(
                    space.deep_view().records,
                    seq![self.deep_view().ty],
                );
                match r {
                    Ok(t) => matches.len() >= 1 && t.deep_view().id == matches[0].id
                        && t.deep_view().name == matches[0].name
                        && t.deep_view().recommended_relations == relations_by_ids(
                        space.deep_view().records,
                        matches[0].recommended_relations,
                    ),
                    Err(SpaceError::UnknownObject { id }) => matches.len() == 0 && id@
                        == self.deep_view().ty,
                    Err(_) => false,
                }
            }),
    {
        let mut ids: Vec<ObjectId> = Vec::new();
        ids.push(self.ty.clone().into_object_id());
        proof {
            assert(ids.deep_view() =~= seq![self.deep_view().ty]);
        }
        let mut types = space.get_object_types_by_ids(&ids);
        if types.len() == 0 {
            Err(SpaceError::UnknownObject { id: self.ty.as_str().to_owned() })
        } else {
            let unresolved = types.remove(0);
            proof {
                assert(unresolved.deep_view() == object_types_by_ids(
                    space.deep_view().records,
                    seq![self.deep_view().ty],
                )[0]);
            }
            let rels = space.get_relations_by_ids(&unresolved.recommended_relations);
            Ok(unresolved.resolve(rels))
        }
    }
}

} // verus!
