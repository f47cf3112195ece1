//! A typed client library for a remote object-graph service.
//!
//! The backend stores loosely typed records (bags of dynamically kinded
//! values) and performs no validation of its own.  This crate supplies the
//! schema layer on top of that: a codec between wire values and typed domain
//! values, a closed model of relation formats with a subset rule, a validator
//! that guards every write, and idempotent get-or-create reconciliation for
//! relations, object types and objects.

mod client;
mod laws;
mod number;
mod object;
mod object_type;
mod prost_ext;
mod relation;
mod request;
mod space;
mod text;
mod unique_key;

pub use client::{NetworkMode, NetworkSync};
pub use laws::{
    lemma_hidden_never_found, lemma_hidden_object_never_found,
    lemma_hidden_object_type_never_found, lemma_is_superset_proper_extension, lemma_is_superset_reflexive,
    lemma_is_superset_wildcard, lemma_obtain_relation_idempotent, lemma_scalar_mismatch_rejected,
    lemma_validate_round_trip,
};
pub use object::{Layout, Object, ObjectDescription, ObjectId, ObjectSpec, ObjectView};
pub use object_type::{
    ObjectType, ObjectTypeId, ObjectTypeSpec, ObjectTypeSpecView, ObjectTypeUnresolved,
    ObjectTypeUnresolvedView, ObjectTypeView,
};
pub use prost_ext::{
    IntoProstValue, ProstConversionError, ProstConversionErrorView, ProstData, ProstDataView,
    ProstEnum, ProstKind, ProstStruct, ProstValue, TryFromProst,
};
pub use relation::{
    FormatView, IncompatibleRelationValue, IncompatibleRelationValueView, Relation,
    RelationDetail, RelationDetailView, RelationFormat, RelationId, RelationKey, RelationSpec,
    RelationSpecView, RelationValue, RelationValueView, RelationView, WireRelationFormat,
};
pub use request::RequestWithToken;
pub use space::{Space, SpaceError, SpaceErrorView, SpaceView};
pub use unique_key::UniqueKey;
