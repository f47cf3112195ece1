//! The stable key that identifies an object type across spaces.

use crate::prost_ext::{
    ProstConversionError, ProstConversionErrorView, ProstData, ProstDataView, TryFromProst,
};
use vstd::prelude::*;

verus! {

/// An object type's stable key, distinct from its per-space identifier.
#[derive(Debug)]
pub struct UniqueKey(pub(crate) String);

impl DeepView for UniqueKey {
    type V = Seq<char>;

    closed spec fn deep_view(&self) -> Seq<char> {
        self.0@
    }
}

impl Clone for UniqueKey {
    /// Copies the key; the copy holds the same token.
    fn clone(&self) -> (r: Self)
        ensures
            r.deep_view() == self.deep_view(),
    {
        UniqueKey(self.0.clone())
    }
}

impl UniqueKey {
    /// The key's token.
    pub fn as_str(&self) -> (r: &str)
        ensures
            r@ == self.deep_view(),
    {
        self.0.as_str()
    }
}

impl TryFromProst for UniqueKey {
    open spec fn spec_try_from_prost(data: ProstDataView) -> Result<
        Seq<char>,
        ProstConversionErrorView,
    > {
        String::spec_try_from_prost(data)
    }

    fn try_from_prost(data: ProstData) -> (r: Result<Self, ProstConversionError>) {
        match String::try_from_prost(data) {
            Ok(s) => Ok(UniqueKey(s)),
            Err(e) => Err(e),
        }
    }
}

} // verus!
