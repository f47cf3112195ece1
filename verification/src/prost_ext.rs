//! The wire document format and its consuming decoder.
//!
//! The backend speaks a dynamically kinded value language — the protobuf
//! well-known `Struct`/`Value` shapes: a value is null, a number, a text, a
//! boolean, a nested document or a list, and a document is a bag of named
//! values.  This module models those shapes with plain data and gives the
//! decoding discipline the rest of the library relies on: a `take` removes a
//! field and interprets it, so the fields left over after decoding the known
//! schema fields are exactly the residual bag of relation values.

use crate::number::{clamp_i32, clamp_i32_spec, spec_trunc_i64, trunc_i64};
use crate::text::str_eq;
use vstd::prelude::*;

verus! {

broadcast use vstd::std_specs::vec::axiom_vec_index_decreases;

/// The payload of one wire value.
#[derive(Debug)]
pub enum ProstData {
    /// An explicit null.
    Null,
    /// A number, held as the 64 bits of its double-precision encoding.
    Number(u64),
    /// A text.
    Text(String),
    /// A boolean.
    Bool(bool),
    /// A nested document.
    Document(ProstStruct),
    /// An ordered list of values.
    List(Vec<ProstValue>),
}

/// One wire value: a slot that either carries a payload or is empty.
#[derive(Debug)]
pub struct ProstValue {
    /// The payload, if the slot carries one.
    pub kind: Option<ProstData>,
}

/// A wire document: a bag of named values.
#[derive(Debug)]
pub struct ProstStruct {
    fields: Vec<(String, ProstValue)>,
}

/// The mathematical shape of a wire payload.
pub enum ProstDataView {
    /// An explicit null.
    Null,
    /// A number's 64-bit encoding.
    Number(u64),
    /// A text.
    Text(Seq<char>),
    /// A boolean.
    Bool(bool),
    /// A nested document: named slots in order.
    Document(Seq<(Seq<char>, Option<ProstDataView>)>),
    /// A list of slots.
    List(Seq<Option<ProstDataView>>),
}

impl ProstData {
    /// The mathematical shape of this payload.
    pub closed spec fn data_view(&self) -> ProstDataView
        decreases self,
    {
        match self {
            ProstData::Null => ProstDataView::Null,
            ProstData::Number(bits) => ProstDataView::Number(*bits),
            ProstData::Text(s) => ProstDataView::Text(s@),
            ProstData::Bool(b) => ProstDataView::Bool(*b),
            ProstData::Document(doc) => ProstDataView::Document(
                Seq::new(
                    doc.fields@.len(),
                    |i: int|
                        if 0 <= i < doc.fields@.len() {
                            (doc.fields@[i].0@, doc.fields@[i].1.value_view())
                        } else {
                            (Seq::empty(), None)
                        },
                ),
            ),
            ProstData::List(vals) => ProstDataView::List(
                Seq::new(
                    vals@.len(),
                    |i: int|
                        if 0 <= i < vals@.len() {
                            vals[i].value_view()
                        } else {
                            None
                        },
                ),
            ),
        }
    }
}

impl ProstValue {
    /// The mathematical shape of this slot.
    pub closed spec fn value_view(&self) -> Option<ProstDataView>
        decreases self,
    {
        match &self.kind {
            Some(d) => Some(d.data_view()),
            None => None,
        }
    }
}

impl ProstStruct {
    /// The named slots of this document, in order.
    pub closed spec fn doc_view(&self) -> Seq<(Seq<char>, Option<ProstDataView>)> {
        Seq::new(
            self.fields@.len(),
            |i: int|
                if 0 <= i < self.fields@.len() {
                    (self.fields@[i].0@, self.fields@[i].1.value_view())
                } else {
                    (Seq::empty(), None)
                },
        )
    }
}

impl DeepView for ProstData {
    type V = ProstDataView;

    open spec fn deep_view(&self) -> ProstDataView {
        self.data_view()
    }
}

impl DeepView for ProstValue {
    type V = Option<ProstDataView>;

    open spec fn deep_view(&self) -> Option<ProstDataView> {
        self.value_view()
    }
}

impl DeepView for ProstStruct {
    type V = Seq<(Seq<char>, Option<ProstDataView>)>;

    open spec fn deep_view(&self) -> Seq<(Seq<char>, Option<ProstDataView>)> {
        self.doc_view()
    }
}

/// A list payload's shape is the sequence of its slots' shapes.
pub proof fn lemma_list_view(vals: Vec<ProstValue>)
    ensures
        ProstData::List(vals).deep_view() == ProstDataView::List(vals.deep_view()),
{
    assert(ProstData::List(vals).data_view()->List_0 =~= vals.deep_view());
}

/// The kind of a wire payload, used to report a decoding mismatch.
#[derive(Debug, Clone, Copy, PartialEq, Eq, Structural)]
pub enum ProstKind {
    /// An explicit null.
    Null,
    /// A number.
    Number,
    /// A text.
    Text,
    /// A boolean.
    Bool,
    /// A nested document.
    Document,
    /// A list.
    List,
}

/// Why a wire value could not be decoded into the requested shape.
#[derive(Debug)]
pub enum ProstConversionError {
    /// The named field is not in the document.
    MissingStructField(String),
    /// The field is there but its slot carries no payload.
    KindIsEmpty,
    /// The payload has the wrong kind for the requested shape.
    IncorrectKind {
        /// The kind the decoder asked for.
        expected: ProstKind,
        /// The kind the wire value actually has.
        received: ProstKind,
    },
    /// A number stood where an enum discriminant was expected, but it does
    /// not name a member of the target enum.
    InvalidEnumValue(i32),
}

/// The mathematical shape of a conversion error.
pub enum ProstConversionErrorView {
    /// The named field is not in the document.
    MissingStructField(Seq<char>),
    /// The field's slot carries no payload.
    KindIsEmpty,
    /// The payload has the wrong kind.
    IncorrectKind {
        /// The kind the decoder asked for.
        expected: ProstKind,
        /// The kind the wire value actually has.
        received: ProstKind,
    },
    /// The number does not name a member of the target enum.
    InvalidEnumValue(i32),
}

impl DeepView for ProstConversionError {
    type V = ProstConversionErrorView;

    open spec fn deep_view(&self) -> ProstConversionErrorView {
        match self {
            ProstConversionError::MissingStructField(f) => ProstConversionErrorView::MissingStructField(
                f@,
            ),
            ProstConversionError::KindIsEmpty => ProstConversionErrorView::KindIsEmpty,
            ProstConversionError::IncorrectKind { expected, received } => (ProstConversionErrorView::IncorrectKind {
                expected: *expected,
                received: *received,
            }),
            ProstConversionError::InvalidEnumValue(n) => ProstConversionErrorView::InvalidEnumValue(
                *n,
            ),
        }
    }
}

/// A `Result` with both sides taken to their mathematical shapes.
pub open spec fn deep_res<T: DeepView, E: DeepView>(r: Result<T, E>) -> Result<T::V, E::V> {
    match r {
        Ok(t) => Ok(t.deep_view()),
        Err(e) => Err(e.deep_view()),
    }
}

impl ProstData {
    /// The kind of this payload.
    pub open spec fn kind_spec(&self) -> ProstKind {
        view_kind(self.deep_view())
    }

    /// Reports the kind of this payload.
    pub fn kind(&self) -> (r: ProstKind)
        ensures
            r == self.kind_spec(),
    {
        match self {
            ProstData::Null => ProstKind::Null,
            ProstData::Number(_) => ProstKind::Number,
            ProstData::Text(_) => ProstKind::Text,
            ProstData::Bool(_) => ProstKind::Bool,
            ProstData::Document(_) => ProstKind::Document,
            ProstData::List(_) => ProstKind::List,
        }
    }
}

/// The kind of a payload shape.
pub open spec fn view_kind(d: ProstDataView) -> ProstKind {
    match d {
        ProstDataView::Null => ProstKind::Null,
        ProstDataView::Number(_) => ProstKind::Number,
        ProstDataView::Text(_) => ProstKind::Text,
        ProstDataView::Bool(_) => ProstKind::Bool,
        ProstDataView::Document(_) => ProstKind::Document,
        ProstDataView::List(_) => ProstKind::List,
    }
}

/// The index of the first slot named `key`, or -1 if there is none.
pub open spec fn key_index(s: Seq<(Seq<char>, Option<ProstDataView>)>, key: Seq<char>) -> int
    decreases s.len(),
{
    if s.len() == 0 {
        -1
    } else if s[0].0 == key {
        0
    } else {
        let r = key_index(s.drop_first(), key);
        if r == -1 {
            -1
        } else {
            r + 1
        }
    }
}

/// What `key_index` finds: either no slot has the name, or the returned
/// index is the first slot that does.
pub proof fn lemma_key_index(s: Seq<(Seq<char>, Option<ProstDataView>)>, key: Seq<char>)
    ensures
        key_index(s, key) == -1 ==> forall|i: int| 0 <= i < s.len() ==> s[i].0 != key,
        key_index(s, key) != -1 ==> {
            let k = key_index(s, key);
            &&& 0 <= k < s.len()
            &&& s[k].0 == key
            &&& forall|i: int| 0 <= i < k ==> s[i].0 != key
        },
    decreases s.len(),
{
    if s.len() > 0 && s[0].0 != key {
        lemma_key_index(s.drop_first(), key);
        assert(forall|i: int| 0 < i < s.len() ==> s[i] == s.drop_first()[i - 1]);
    }
}

/// The slot named `key`, if any.
pub open spec fn spec_lookup(
    s: Seq<(Seq<char>, Option<ProstDataView>)>,
    key: Seq<char>,
) -> Option<Option<ProstDataView>> {
    let k = key_index(s, key);
    if k == -1 {
        None
    } else {
        Some(s[k].1)
    }
}

/// The document without its slot named `key` (unchanged if there is none).
pub open spec fn spec_remove(
    s: Seq<(Seq<char>, Option<ProstDataView>)>,
    key: Seq<char>,
) -> Seq<(Seq<char>, Option<ProstDataView>)> {
    let k = key_index(s, key);
    if k == -1 {
        s
    } else {
        s.remove(k)
    }
}

/// The document with the slot named `key` set to `value`: replaced in place
/// if the name is already there, appended otherwise.
pub open spec fn spec_insert(
    s: Seq<(Seq<char>, Option<ProstDataView>)>,
    key: Seq<char>,
    value: Option<ProstDataView>,
) -> Seq<(Seq<char>, Option<ProstDataView>)> {
    let k = key_index(s, key);
    if k == -1 {
        s.push((key, value))
    } else {
        s.update(k, (key, value))
    }
}

/// Whether all slot names of a document are distinct.
pub open spec fn doc_wf(s: Seq<(Seq<char>, Option<ProstDataView>)>) -> bool {
    forall|i: int, j: int| 0 <= i < j < s.len() ==> s[i].0 != s[j].0
}

impl ProstStruct {
    /// Whether all field names are distinct.
    pub open spec fn wf(self) -> bool {
        doc_wf(self.deep_view())
    }

    /// An empty document.
    pub fn new() -> (r: ProstStruct)
        ensures
            r.deep_view() == Seq::<(Seq<char>, Option<ProstDataView>)>::empty(),
            r.wf(),
    {
        let r = ProstStruct { fields: Vec::new() };
        proof {
            assert(r.deep_view() =~= Seq::<(Seq<char>, Option<ProstDataView>)>::empty());
        }
        r
    }

    /// How many fields the document has.
    pub fn len(&self) -> (r: usize)
        ensures
            r == self.deep_view().len(),
    {
        self.fields.len()
    }

    /// Finds the position of the field named `field`, if any.
    fn find(&self, field: &str) -> (r: Option<usize>)
        ensures
            match r {
                Some(i) => i == key_index(self.deep_view(), field@),
                None => key_index(self.deep_view(), field@) == -1,
            },
    {
        proof {
            lemma_key_index(self.deep_view(), field@);
        }
        let n = self.fields.len();
        let mut i: usize = 0;
        while i < n
            invariant
                n == self.deep_view().len(),
                n == self.fields@.len(),
                0 <= i <= n,
                forall|j: int| 0 <= j < i ==> self.deep_view()[j].0 != field@,
                key_index(self.deep_view(), field@) == -1 || key_index(self.deep_view(), field@)
                    >= i,
            decreases n - i,
        {
            proof {
                lemma_key_index(self.deep_view(), field@);
            }
            if str_eq(self.fields[i].0.as_str(), field) {
                proof {
                    assert(self.deep_view()[i as int].0 == self.fields@[i as int].0@);
                    lemma_key_index(self.deep_view(), field@);
                }
                return Some(i);
            }
            i = i + 1;
        }
        None
    }

    /// Reads the field named `field` without removing it.
    pub fn get(&self, field: &str) -> (r: Option<&ProstValue>)
        ensures
            match r {
                Some(v) => spec_lookup(self.deep_view(), field@) == Some(v.deep_view()),
                None => spec_lookup(self.deep_view(), field@) is None,
            },
    {
        proof {
            lemma_key_index(self.deep_view(), field@);
        }
        match self.find(field) {
            Some(i) => Some(&self.fields[i].1),
            None => None,
        }
    }

    /// Removes the field named `field` and hands back its payload; the
    /// document keeps every other field in order.  The reported error says
    /// whether the field was missing or its slot was empty (an empty slot is
    /// removed all the same).
    pub fn take_inner(&mut self, field: &str) -> (r: Result<ProstData, ProstConversionError>)
        ensures
            final (self).deep_view() == spec_remove(old(self).deep_view(), field@),
            old(self).wf() ==> final (self).wf(),
            match r {
                Ok(d) => spec_lookup(old(self).deep_view(), field@) == Some(Some(d.deep_view())),
                Err(ProstConversionError::MissingStructField(f)) => f@ == field@ && spec_lookup(
                    old(self).deep_view(),
                    field@,
                ) is None,
                Err(ProstConversionError::KindIsEmpty) => spec_lookup(
                    old(self).deep_view(),
                    field@,
                ) == Some(None::<ProstDataView>),
                Err(_) => false,
            },
    {
        proof {
            lemma_key_index(self.deep_view(), field@);
        }
        match self.find(field) {
            None => Err(ProstConversionError::MissingStructField(field.to_owned())),
            Some(i) => {
                let pair = self.fields.remove(i);
                proof {
                    assert(self.deep_view() =~= old(self).deep_view().remove(i as int));
                    if old(self).wf() {
                        lemma_remove_keeps_wf(old(self).deep_view(), i as int);
                    }
                }
                match pair.1.kind {
                    Some(d) => Ok(d),
                    None => Err(ProstConversionError::KindIsEmpty),
                }
            },
        }
    }

    /// Adds or replaces the field named `field`.
    pub fn insert(&mut self, field: String, value: ProstValue)
        ensures
            final (self).deep_view() == spec_insert(
                old(self).deep_view(),
                field@,
                value.deep_view(),
            ),
            old(self).wf() ==> final (self).wf(),
    {
        proof {
            lemma_key_index(self.deep_view(), field@);
        }
        let ghost gfield = field@;
        let ghost gvalue = value.deep_view();
        match self.find(field.as_str()) {
            Some(i) => {
                self.fields.set(i, (field, value));
                proof {
                    assert(self.deep_view() =~= old(self).deep_view().update(
                        i as int,
                        (gfield, gvalue),
                    ));
                    if old(self).wf() {
                        lemma_update_keeps_wf(old(self).deep_view(), i as int, (gfield, gvalue));
                    }
                }
            },
            None => {
                self.fields.push((field, value));
                proof {
                    assert(self.deep_view() =~= old(self).deep_view().push((gfield, gvalue)));
                    if old(self).wf() {
                        lemma_key_index(old(self).deep_view(), gfield);
                        assert(doc_wf(self.deep_view()));
                    }
                }
            },
        }
    }
}

/// Removing a slot keeps the remaining names distinct.
proof fn lemma_remove_keeps_wf(s: Seq<(Seq<char>, Option<ProstDataView>)>, i: int)
    requires
        0 <= i < s.len(),
        doc_wf(s),
    ensures
        doc_wf(s.remove(i)),
{
    let t = s.remove(i);
    assert forall|a: int, b: int| 0 <= a < b < t.len() implies t[a].0 != t[b].0 by {
        let a0 = if a < i {
            a
        } else {
            a + 1
        };
        let b0 = if b < i {
            b
        } else {
            b + 1
        };
        assert(t[a] == s[a0]);
        assert(t[b] == s[b0]);
    }
}

/// Replacing a slot's value keeps the names distinct, provided the new name
/// is the one that stood there.
proof fn lemma_update_keeps_wf(
    s: Seq<(Seq<char>, Option<ProstDataView>)>,
    i: int,
    p: (Seq<char>, Option<ProstDataView>),
)
    requires
        0 <= i < s.len(),
        p.0 == s[i].0,
        doc_wf(s),
    ensures
        doc_wf(s.update(i, p)),
{
}

/// Decoding a typed value out of a wire payload.
///
/// A decode either produces the typed value or reports why the payload does
/// not have the requested shape; `spec_try_from_prost` is the mathematical
/// statement of that decision.
pub trait TryFromProst: DeepView + Sized {
    /// What decoding yields on each payload shape.
    spec fn spec_try_from_prost(data: ProstDataView) -> Result<Self::V, ProstConversionErrorView>;

    /// Decodes a wire payload into this type.
    fn try_from_prost(data: ProstData) -> (r: Result<Self, ProstConversionError>)
        ensures
            deep_res(r) == Self::spec_try_from_prost(data.deep_view()),
    ;
}

impl TryFromProst for String {
    open spec fn spec_try_from_prost(data: ProstDataView) -> Result<
        Seq<char>,
        ProstConversionErrorView,
    > {
        match data {
            ProstDataView::Text(s) => Ok(s),
            _ => Err(
                ProstConversionErrorView::IncorrectKind {
                    expected: ProstKind::Text,
                    received: view_kind(data),
                },
            ),
        }
    }

    fn try_from_prost(data: ProstData) -> (r: Result<Self, ProstConversionError>) {
        match data {
            ProstData::Text(s) => Ok(s),
            d => Err(
                ProstConversionError::IncorrectKind {
                    expected: ProstKind::Text,
                    received: d.kind(),
                },
            ),
        }
    }
}

impl TryFromProst for u64 {
    open spec fn spec_try_from_prost(data: ProstDataView) -> Result<
        u64,
        ProstConversionErrorView,
    > {
        match data {
            ProstDataView::Number(bits) => Ok(bits),
            _ => Err(
                ProstConversionErrorView::IncorrectKind {
                    expected: ProstKind::Number,
                    received: view_kind(data),
                },
            ),
        }
    }

    fn try_from_prost(data: ProstData) -> (r: Result<Self, ProstConversionError>) {
        match data {
            ProstData::Number(bits) => Ok(bits),
            d => Err(
                ProstConversionError::IncorrectKind {
                    expected: ProstKind::Number,
                    received: d.kind(),
                },
            ),
        }
    }
}

impl TryFromProst for bool {
    open spec fn spec_try_from_prost(data: ProstDataView) -> Result<
        bool,
        ProstConversionErrorView,
    > {
        match data {
            ProstDataView::Bool(b) => Ok(b),
            _ => Err(
                ProstConversionErrorView::IncorrectKind {
                    expected: ProstKind::Bool,
                    received: view_kind(data),
                },
            ),
        }
    }

    fn try_from_prost(data: ProstData) -> (r: Result<Self, ProstConversionError>) {
        match data {
            ProstData::Bool(b) => Ok(b),
            d => Err(
                ProstConversionError::IncorrectKind {
                    expected: ProstKind::Bool,
                    received: d.kind(),
                },
            ),
        }
    }
}

/// Element-wise decoding of a list's slots, stopping at the first failure.
/// An empty slot fails the whole list.
pub open spec fn spec_decode_slots<T: TryFromProst>(vals: Seq<Option<ProstDataView>>) -> Result<
    Seq<T::V>,
    ProstConversionErrorView,
>
    decreases vals.len(),
{
    if vals.len() == 0 {
        Ok(Seq::empty())
    } else {
        match vals[0] {
            None => Err(ProstConversionErrorView::KindIsEmpty),
            Some(d) => match T::spec_try_from_prost(d) {
                Err(e) => Err(e),
                Ok(t) => match spec_decode_slots::<T>(vals.drop_first()) {
                    Err(e) => Err(e),
                    Ok(ts) => Ok(seq![t] + ts),
                },
            },
        }
    }
}

impl<T: TryFromProst> TryFromProst for Vec<T> {
    open spec fn spec_try_from_prost(data: ProstDataView) -> Result<
        Seq<T::V>,
        ProstConversionErrorView,
    > {
        match data {
            ProstDataView::List(vals) => spec_decode_slots::<T>(vals),
            _ => Err(
                ProstConversionErrorView::IncorrectKind {
                    expected: ProstKind::List,
                    received: view_kind(data),
                },
            ),
        }
    }

    fn try_from_prost(data: ProstData) -> (r: Result<Self, ProstConversionError>) {
        match data {
            ProstData::List(vals) => {
                proof {
                    lemma_list_view(vals);
                }
                decode_slots::<T>(vals)
            },
            d => Err(
                ProstConversionError::IncorrectKind {
                    expected: ProstKind::List,
                    received: d.kind(),
                },
            ),
        }
    }
}

/// Decodes each slot of a list in order, stopping at the first failure.
#[verifier::loop_isolation(false)]
fn decode_slots<T: TryFromProst>(vals: Vec<ProstValue>) -> (r: Result<
    Vec<T>,
    ProstConversionError,
>)
    ensures
        deep_res(r) == spec_decode_slots::<T>(vals.deep_view()),
{
    let ghost orig = vals.deep_view();
    let mut vals = vals;
    let mut out: Vec<T> = Vec::new();
    while vals.len() > 0
        invariant
            spec_decode_slots::<T>(orig) == (match spec_decode_slots::<T>(vals.deep_view()) {
                Ok(ts) => Ok::<Seq<T::V>, ProstConversionErrorView>(out.deep_view() + ts),
                Err(e) => Err::<Seq<T::V>, ProstConversionErrorView>(e),
            }),
        decreases vals.len(),
    {
        let ghost cur = vals.deep_view();
        let v = vals.remove(0);
        proof {
            assert(v.deep_view() == cur[0]);
            assert(vals.deep_view() =~= cur.drop_first());
        }
        match v.kind {
            None => {
                return Err(ProstConversionError::KindIsEmpty);
            },
            Some(d) => {
                match T::try_from_prost(d) {
                    Err(e) => {
                        return Err(e);
                    },
                    Ok(t) => {
                        let ghost out0 = out.deep_view();
                        out.push(t);
                        proof {
                            assert(out.deep_view() =~= out0.push(t.deep_view()));
                            assert forall|ts: Seq<T::V>|
                                out0 + (seq![t.deep_view()] + ts) =~= out.deep_view() + ts by {}
                        }
                    },
                }
            },
        }
    }
    proof {
        assert(spec_decode_slots::<T>(vals.deep_view()) == Ok::<
            Seq<T::V>,
            ProstConversionErrorView,
        >(Seq::empty()));
        assert(out.deep_view() + Seq::<T::V>::empty() =~= out.deep_view());
    }
    Ok(out)
}

/// Encoding a typed value into a wire value.
pub trait IntoProstValue: DeepView + Sized {
    /// The wire slot an encoded value occupies.
    spec fn spec_into_prost(v: Self::V) -> Option<ProstDataView>;

    /// Encodes this value as a wire value.
    fn into_prost(self) -> (r: ProstValue)
        ensures
            r.deep_view() == Self::spec_into_prost(self.deep_view()),
    ;
}

impl IntoProstValue for String {
    open spec fn spec_into_prost(v: Seq<char>) -> Option<ProstDataView> {
        Some(ProstDataView::Text(v))
    }

    fn into_prost(self) -> (r: ProstValue) {
        ProstValue { kind: Some(ProstData::Text(self)) }
    }
}

impl IntoProstValue for u64 {
    open spec fn spec_into_prost(v: u64) -> Option<ProstDataView> {
        Some(ProstDataView::Number(v))
    }

    fn into_prost(self) -> (r: ProstValue) {
        ProstValue { kind: Some(ProstData::Number(self)) }
    }
}

impl IntoProstValue for bool {
    open spec fn spec_into_prost(v: bool) -> Option<ProstDataView> {
        Some(ProstDataView::Bool(v))
    }

    fn into_prost(self) -> (r: ProstValue) {
        ProstValue { kind: Some(ProstData::Bool(self)) }
    }
}

impl IntoProstValue for Vec<ProstValue> {
    open spec fn spec_into_prost(v: Seq<Option<ProstDataView>>) -> Option<ProstDataView> {
        Some(ProstDataView::List(v))
    }

    fn into_prost(self) -> (r: ProstValue) {
        proof {
            lemma_list_view(self);
        }
        ProstValue { kind: Some(ProstData::List(self)) }
    }
}

/// An enum transported on the wire as a numeric discriminant.
pub trait ProstEnum: Sized {
    /// Which discriminants name a member, and which member each names.
    spec fn spec_of_code(code: i32) -> Option<Self>;

    /// Looks up the member a discriminant names.
    fn of_code(code: i32) -> (r: Option<Self>)
        ensures
            r == Self::spec_of_code(code),
    ;
}

/// Taking a field's payload out of a document: the field's slot, or the
/// error saying whether the field was missing or empty.
pub open spec fn spec_take_data(
    s: Seq<(Seq<char>, Option<ProstDataView>)>,
    key: Seq<char>,
) -> Result<ProstDataView, ProstConversionErrorView> {
    match spec_lookup(s, key) {
        None => Err(ProstConversionErrorView::MissingStructField(key)),
        Some(None) => Err(ProstConversionErrorView::KindIsEmpty),
        Some(Some(d)) => Ok(d),
    }
}

/// Taking a field and decoding it as `T`.
pub open spec fn spec_take<T: TryFromProst>(
    s: Seq<(Seq<char>, Option<ProstDataView>)>,
    key: Seq<char>,
) -> Result<T::V, ProstConversionErrorView> {
    match spec_take_data(s, key) {
        Err(e) => Err(e),
        Ok(d) => T::spec_try_from_prost(d),
    }
}

/// Taking a field that may be absent: absence yields `None` instead of an
/// error.
pub open spec fn spec_take_optional<T: TryFromProst>(
    s: Seq<(Seq<char>, Option<ProstDataView>)>,
    key: Seq<char>,
) -> Result<Option<T::V>, ProstConversionErrorView> {
    match spec_lookup(s, key) {
        None => Ok(None),
        Some(None) => Err(ProstConversionErrorView::KindIsEmpty),
        Some(Some(d)) => match T::spec_try_from_prost(d) {
            Ok(t) => Ok(Some(t)),
            Err(e) => Err(e),
        },
    }
}

/// Taking a numeric field and reading it as an enum discriminant: the
/// number is truncated to an integer and must name a member of `E`.
pub open spec fn spec_take_enum<E: ProstEnum>(
    s: Seq<(Seq<char>, Option<ProstDataView>)>,
    key: Seq<char>,
) -> Result<E, ProstConversionErrorView> {
    match spec_take_data(s, key) {
        Err(e) => Err(e),
        Ok(d) => match d {
            ProstDataView::Number(bits) => {
                let code = clamp_i32_spec(spec_trunc_i64(bits));
                match E::spec_of_code(code) {
                    Some(e) => Ok(e),
                    None => Err(ProstConversionErrorView::InvalidEnumValue(code)),
                }
            },
            _ => Err(
                ProstConversionErrorView::IncorrectKind {
                    expected: ProstKind::Number,
                    received: view_kind(d),
                },
            ),
        },
    }
}

impl ProstStruct {
    /// Removes the field named `field` and decodes it as `T`.
    pub fn take<T: TryFromProst>(&mut self, field: &str) -> (r: Result<T, ProstConversionError>)
        ensures
            final (self).deep_view() == spec_remove(old(self).deep_view(), field@),
            old(self).wf() ==> final (self).wf(),
            deep_res(r) == spec_take::<T>(old(self).deep_view(), field@),
    {
        match self.take_inner(field) {
            Err(e) => Err(e),
            Ok(d) => T::try_from_prost(d),
        }
    }

    /// Removes the field named `field` and decodes it as `T`; a missing
    /// field yields `None` rather than an error.
    pub fn take_optional<T: TryFromProst>(&mut self, field: &str) -> (r: Result<
        Option<T>,
        ProstConversionError,
    >)
        ensures
            final (self).deep_view() == spec_remove(old(self).deep_view(), field@),
            old(self).wf() ==> final (self).wf(),
            deep_res(r) == spec_take_optional::<T>(old(self).deep_view(), field@),
    {
        match self.take_inner(field) {
            Ok(d) => match T::try_from_prost(d) {
                Ok(t) => Ok(Some(t)),
                Err(e) => Err(e),
            },
            Err(ProstConversionError::MissingStructField(_)) => Ok(None),
            Err(e) => Err(e),
        }
    }

    /// Removes the numeric field named `field` and reads it as a
    /// discriminant of the enum `E`.
    pub fn take_enum<E: ProstEnum>(&mut self, field: &str) -> (r: Result<
        E,
        ProstConversionError,
    >)
        ensures
            final (self).deep_view() == spec_remove(old(self).deep_view(), field@),
            old(self).wf() ==> final (self).wf(),
            match r {
                Ok(e) => spec_take_enum::<E>(old(self).deep_view(), field@) == Ok::<
                    E,
                    ProstConversionErrorView,
                >(e),
                Err(err) => spec_take_enum::<E>(old(self).deep_view(), field@) == Err::<
                    E,
                    ProstConversionErrorView,
                >(err.deep_view()),
            },
    {
        match self.take_inner(field) {
            Err(e) => Err(e),
            Ok(ProstData::Number(bits)) => {
                let code = clamp_i32(trunc_i64(bits));
                match E::of_code(code) {
                    Some(e) => Ok(e),
                    None => Err(ProstConversionError::InvalidEnumValue(code)),
                }
            },
            Ok(d) => Err(
                ProstConversionError::IncorrectKind {
                    expected: ProstKind::Number,
                    received: d.kind(),
                },
            ),
        }
    }
}

impl ProstValue {
    /// Copies this slot.
    #[verifier::loop_isolation(false)]
    fn clone_value(&self) -> (r: ProstValue)
        ensures
            r.deep_view() == self.deep_view(),
        decreases *self,
    {
        match &self.kind {
            None => ProstValue { kind: None },
            Some(d) => ProstValue { kind: Some(d.clone_data()) },
        }
    }
}

impl ProstData {
    /// Copies this payload.
    #[verifier::loop_isolation(false)]
    fn clone_data(&self) -> (r: ProstData)
        ensures
            r.deep_view() == self.deep_view(),
        decreases *self,
    {
        match self {
            ProstData::Null => ProstData::Null,
            ProstData::Number(bits) => ProstData::Number(*bits),
            ProstData::Text(s) => ProstData::Text(s.clone()),
            ProstData::Bool(b) => ProstData::Bool(*b),
            ProstData::Document(doc) => {
                let mut out: Vec<(String, ProstValue)> = Vec::new();
                let n = doc.fields.len();
                let mut i: usize = 0;
                while i < n
                    invariant
                        n == doc.fields@.len(),
                        0 <= i <= n,
                        out@.len() == i,
                        forall|j: int|
                            0 <= j < i ==> out@[j].0@ == doc.fields@[j].0@ && out@[j].1.deep_view()
                                == doc.fields@[j].1.deep_view(),
                    decreases n - i,
                {
                    proof {
                        assert(decreases_to!(doc.fields => doc.fields[i as int]));
                    }
                    let name = doc.fields[i].0.clone();
                    let value = doc.fields[i].1.clone_value();
                    out.push((name, value));
                    i = i + 1;
                }
                let r = ProstData::Document(ProstStruct { fields: out });
                proof {
                    assert(r.deep_view()->Document_0 =~= self.deep_view()->Document_0);
                }
                r
            },
            ProstData::List(vals) => {
                let mut out: Vec<ProstValue> = Vec::new();
                let n = vals.len();
                let mut i: usize = 0;
                while i < n
                    invariant
                        n == vals@.len(),
                        0 <= i <= n,
                        out@.len() == i,
                        forall|j: int| 0 <= j < i ==> out@[j].deep_view() == vals@[j].deep_view(),
                    decreases n - i,
                {
                    proof {
                        assert(decreases_to!(*vals => vals[i as int]));
                    }
                    let value = vals[i].clone_value();
                    out.push(value);
                    i = i + 1;
                }
                let r = ProstData::List(out);
                proof {
                    assert(r.deep_view()->List_0 =~= self.deep_view()->List_0);
                }
                r
            },
        }
    }
}

impl Clone for ProstValue {
    /// Copies the slot; the copy has the same shape.
    fn clone(&self) -> (r: Self)
        ensures
            r.deep_view() == self.deep_view(),
    {
        self.clone_value()
    }
}

impl Clone for ProstData {
    /// Copies the payload; the copy has the same shape.
    fn clone(&self) -> (r: Self)
        ensures
            r.deep_view() == self.deep_view(),
    {
        self.clone_data()
    }
}

impl Clone for ProstStruct {
    /// Copies the document; the copy has the same shape.
    fn clone(&self) -> (r: Self)
        ensures
            r.deep_view() == self.deep_view(),
    {
        let d = ProstData::Document(ProstStruct { fields: self.clone_fields() });
        match d {
            ProstData::Document(doc) => {
                proof {
                    assert(doc.deep_view() =~= self.deep_view());
                }
                doc
            },
            _ => ProstStruct { fields: Vec::new() },
        }
    }
}

impl ProstStruct {
    /// Copies the raw field pairs of this document.
    #[verifier::loop_isolation(false)]
    fn clone_fields(&self) -> (r: Vec<(String, ProstValue)>)
        ensures
            r@.len() == self.fields@.len(),
            forall|j: int|
                0 <= j < r@.len() ==> r@[j].0@ == self.fields@[j].0@ && r@[j].1.deep_view()
                    == self.fields@[j].1.deep_view(),
    {
        let mut out: Vec<(String, ProstValue)> = Vec::new();
        let n = self.fields.len();
        let mut i: usize = 0;
        while i < n
            invariant
                n == self.fields@.len(),
                0 <= i <= n,
                out@.len() == i,
                forall|j: int|
                    0 <= j < i ==> out@[j].0@ == self.fields@[j].0@ && out@[j].1.deep_view()
                        == self.fields@[j].1.deep_view(),
            decreases n - i,
        {
            proof {
                assert(decreases_to!(self.fields => self.fields[i as int]));
            }
            let name = self.fields[i].0.clone();
            let value = self.fields[i].1.clone_value();
            out.push((name, value));
            i = i + 1;
        }
        out
    }
}


/// A slot's shape is its payload's shape, when it has one.
pub broadcast proof fn lemma_value_view(v: ProstValue)
    ensures
        #[trigger] v.deep_view() == match v.kind {
            Some(d) => Some(d.deep_view()),
            None => None::<ProstDataView>,
        },
{
}

/// A payload's shape follows its variant.
pub broadcast proof fn lemma_data_view(d: ProstData)
    ensures
        #[trigger] d.deep_view() == match d {
            ProstData::Null => ProstDataView::Null,
            ProstData::Number(bits) => ProstDataView::Number(bits),
            ProstData::Text(s) => ProstDataView::Text(s@),
            ProstData::Bool(b) => ProstDataView::Bool(b),
            ProstData::Document(doc) => ProstDataView::Document(doc.deep_view()),
            ProstData::List(vals) => ProstDataView::List(vals.deep_view()),
        },
{
    match d {
        ProstData::Document(doc) => {
            assert(d.data_view()->Document_0 =~= doc.deep_view());
        },
        ProstData::List(vals) => {
            assert(d.data_view()->List_0 =~= vals.deep_view());
        },
        _ => (),
    }
}


impl ProstStruct {
    /// Builds a document from named fields, in order.
    pub fn from_fields(fields: Vec<(String, ProstValue)>) -> (r: ProstStruct)
        ensures
            r.deep_view() == fields.deep_view(),
    {
        let r = ProstStruct { fields };
        proof {
            assert(r.deep_view() =~= r.fields.deep_view());
        }
        r
    }
}


/// Removing a slot of another name keeps a name's first occurrence, with
/// its position shifted down when it stood after the removed slot.
pub proof fn lemma_key_index_remove(
    s: Seq<(Seq<char>, Option<ProstDataView>)>,
    i: int,
    key: Seq<char>,
)
    requires
        0 <= i < s.len(),
        s[i].0 != key,
    ensures
        key_index(s.remove(i), key) == if key_index(s, key) == -1 {
            -1
        } else if key_index(s, key) < i {
            key_index(s, key)
        } else {
            key_index(s, key) - 1
        },
        key_index(s, key) != -1 ==> s.remove(i)[key_index(s.remove(i), key)] == s[key_index(
            s,
            key,
        )],
    decreases s.len(),
{
    lemma_key_index(s, key);
    lemma_key_index(s.remove(i), key);
    let t = s.remove(i);
    if i == 0 {
        assert(t =~= s.drop_first());
    } else {
        assert(t[0] == s[0]);
        lemma_key_index_remove(s.drop_first(), i - 1, key);
        assert(t.drop_first() =~= s.drop_first().remove(i - 1));
    }
}

/// Looking a name up after removing another name's slot gives the same
/// answer as before.
pub proof fn lemma_lookup_remove(
    s: Seq<(Seq<char>, Option<ProstDataView>)>,
    key: Seq<char>,
    key2: Seq<char>,
)
    requires
        key2 != key,
    ensures
        spec_lookup(spec_remove(s, key), key2) == spec_lookup(s, key2),
{
    lemma_key_index(s, key);
    let k = key_index(s, key);
    if k != -1 {
        lemma_key_index_remove(s, k, key2);
    }
}


impl ProstStruct {
    /// Hands out the document's named fields, in order.
    pub fn into_fields(self) -> (r: Vec<(String, ProstValue)>)
        ensures
            r.deep_view() == self.deep_view(),
    {
        let r = self.fields;
        proof {
            assert(r.deep_view() =~= ProstStruct { fields: r }.deep_view());
        }
        r
    }
}

} // verus!
