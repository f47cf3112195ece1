//! The library's general laws, stated and proved once for all inputs.
//!
//! Each proof function here is a statement about the specification
//! functions that the public contracts speak of, so together with those
//! contracts it pins down how the executable operations behave.

use crate::object::ObjectView;
use crate::prost_ext::{ProstConversionErrorView, ProstDataView};
use crate::relation::{
    spec_decode_relation, spec_is_superset, spec_value_format, FormatView, RelationValueView,
    RelationView,
};
use crate::space::{
    is_object_hit, is_object_type_hit, is_relation_hit, lemma_relation_results_push,
    object_results, object_type_results, relation_results,
};
use vstd::prelude::*;

verus! {

/// The subset rule is reflexive: every format is a superset of itself.
pub proof fn lemma_is_superset_reflexive(a: FormatView)
    ensures
        spec_is_superset(a, a),
{
}

/// An object-reference format with an empty allowed set is the wildcard:
/// it is a superset of every object-reference format.
pub proof fn lemma_is_superset_wildcard(types: Set<Seq<char>>)
    ensures
        spec_is_superset(
            FormatView::Object { types: Set::empty() },
            FormatView::Object { types },
        ),
{
}

/// A non-wildcard object-reference format is not a superset of a strict
/// extension of its allowed set: adding an allowed type that it does not
/// already have breaks the subset rule.
pub proof fn lemma_is_superset_proper_extension(
    types: Set<Seq<char>>,
    more: Set<Seq<char>>,
    witness: Seq<char>,
    fresh: Seq<char>,
)
    requires
        types.contains(witness),
        more.contains(fresh),
        !types.contains(fresh),
    ensures
        !spec_is_superset(
            FormatView::Object { types },
            FormatView::Object { types: types.union(more) },
        ),
{
    assert(types.union(more).contains(fresh));
    assert(!(types =~= Set::<Seq<char>>::empty()));
}

/// Every value is accepted by a relation whose declared format is the
/// value's own inferred format: the validator round-trips.
pub proof fn lemma_validate_round_trip(v: RelationValueView)
    ensures
        spec_is_superset(spec_value_format(v), spec_value_format(v)),
{
    lemma_is_superset_reflexive(spec_value_format(v));
}

/// A scalar declared format accepts no value of a different inferred
/// format: for formats without an allowed-type set, unequal means
/// rejected.
pub proof fn lemma_scalar_mismatch_rejected(f: FormatView, v: RelationValueView)
    requires
        !(f is Object),
        f != spec_value_format(v),
    ensures
        !spec_is_superset(f, spec_value_format(v)),
{
}

/// Reconciliation is idempotent.  After one obtain-relation call succeeds
/// on a request — by finding the single existing relation of that name or
/// by creating a fresh one — the space holds exactly one relation
/// answering the request's name, namely the relation the call returned,
/// with the requested format.  A second obtain with the same request
/// therefore takes the found branch: it returns the same relation, same
/// identifier first of all, and performs no second create.
pub proof fn lemma_obtain_relation_idempotent(
    records0: Seq<Seq<(Seq<char>, Option<ProstDataView>)>>,
    records1: Seq<Seq<(Seq<char>, Option<ProstDataView>)>>,
    name: Seq<char>,
    format: FormatView,
    relv: RelationView,
)
    requires
        ({
            ||| (relation_results(records0, name).len() == 1 && records1 == records0 && relv
                == relation_results(records0, name)[0] && relv.format == format)
            ||| (relation_results(records0, name).len() == 0 && records1.len() == records0.len()
                + 1 && records1.drop_last() == records0 && is_relation_hit(records1.last(), name)
                && spec_decode_relation(records1.last()) == Ok::<
                RelationView,
                ProstConversionErrorView,
            >(relv) && relv.format == format)
        }),
    ensures
        relation_results(records1, name).len() == 1,
        relation_results(records1, name)[0] == relv,
        relation_results(records1, name)[0].format == format,
{
    if relation_results(records0, name).len() == 0 {
        assert(records1 =~= records0.push(records1.last()));
        lemma_relation_results_push(records0, records1.last(), name);
    }
}

/// A sequence filtered by a predicate is unchanged when an element that
/// fails the predicate is removed.
pub proof fn lemma_filter_skips_unsatisfying<A>(s: Seq<A>, pred: spec_fn(A) -> bool, i: int)
    requires
        0 <= i < s.len(),
        !pred(s[i]),
    ensures
        s.remove(i).filter(pred) == s.filter(pred),
    decreases s.len(),
{
    reveal(Seq::filter);
    if i == s.len() - 1 {
        assert(s.remove(i) =~= s.drop_last());
    } else {
        lemma_filter_skips_unsatisfying(s.drop_last(), pred, i);
        assert(s.remove(i).drop_last() =~= s.drop_last().remove(i));
        assert(s.remove(i).last() == s.last());
    }
}

/// Hidden records never reach search results: a relation search yields
/// the same relations whether or not a hidden record is in the space, even
/// one whose name matches the search.
pub proof fn lemma_hidden_never_found(
    records: Seq<Seq<(Seq<char>, Option<ProstDataView>)>>,
    name: Seq<char>,
    i: int,
)
    requires
        0 <= i < records.len(),
        !crate::space::record_visible(records[i]),
    ensures
        relation_results(records.remove(i), name) == relation_results(records, name),
{
    let pred = |r: Seq<(Seq<char>, Option<ProstDataView>)>| is_relation_hit(r, name);
    lemma_filter_skips_unsatisfying(records, pred, i);
}


/// Hidden records never reach object search results either.
pub proof fn lemma_hidden_object_never_found(
    records: Seq<Seq<(Seq<char>, Option<ProstDataView>)>>,
    name: Seq<char>,
    ty: Seq<char>,
    i: int,
)
    requires
        0 <= i < records.len(),
        !crate::space::record_visible(records[i]),
    ensures
        object_results(records.remove(i), name, ty) == object_results(records, name, ty),
{
    let pred = |r: Seq<(Seq<char>, Option<ProstDataView>)>| is_object_hit(r, name, ty);
    lemma_filter_skips_unsatisfying(records, pred, i);
}

/// Hidden records never reach object-type search results either.
pub proof fn lemma_hidden_object_type_never_found(
    records: Seq<Seq<(Seq<char>, Option<ProstDataView>)>>,
    name: Seq<char>,
    i: int,
)
    requires
        0 <= i < records.len(),
        !crate::space::record_visible(records[i]),
    ensures
        object_type_results(records.remove(i), name) == object_type_results(records, name),
{
    let pred = |r: Seq<(Seq<char>, Option<ProstDataView>)>| is_object_type_hit(r, name);
    lemma_filter_skips_unsatisfying(records, pred, i);
}

} // verus!
