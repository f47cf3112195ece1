//! Relations: schema field definitions and their typed values.
//!
//! A relation pairs a human-readable name with a storage key and a declared
//! format.  The format model is a closed set of scalar formats plus an
//! object-reference format carrying the set of allowed type identifiers; an
//! empty set is a wildcard.  The subset rule between formats is the single
//! type-safety judgement of the whole system: the backend itself accepts
//! anything, so every write is checked here first.

use crate::number::{number_bits_of_i64, spec_number_bits, spec_trunc_i64};
use crate::object::{Object, ObjectId, ObjectView};
use crate::object_type::ObjectTypeId;
use crate::prost_ext::{
    spec_remove, spec_take, spec_take_enum, spec_take_optional, IntoProstValue,
    ProstConversionError, ProstConversionErrorView, ProstData, ProstDataView, ProstEnum,
    ProstStruct, ProstValue, TryFromProst,
};
use crate::text::str_eq;
use vstd::prelude::*;

verus! {

/// What a caller asks for when it wants a relation: a name and a format.
#[derive(Debug)]
pub struct RelationSpec {
    /// The name of the relation.
    pub name: String,
    /// The format values of the relation must have.
    pub format: RelationFormat,
}

/// The mathematical shape of a relation request.
pub struct RelationSpecView {
    /// The requested name.
    pub name: Seq<char>,
    /// The requested format.
    pub format: FormatView,
}

impl DeepView for RelationSpec {
    type V = RelationSpecView;

    open spec fn deep_view(&self) -> RelationSpecView {
        RelationSpecView { name: self.name@, format: self.format.deep_view() }
    }
}

impl Clone for RelationSpec {
    /// Copies the request; the copy has the same shape.
    fn clone(&self) -> (r: Self)
        ensures
            r.deep_view() == self.deep_view(),
    {
        RelationSpec { name: self.name.clone(), format: self.format.clone() }
    }
}

/// The closed set of relation formats.
#[derive(Debug)]
pub enum RelationFormat {
    /// Free text.
    Text,
    /// A number.
    Number,
    /// A single choice.
    Select,
    /// Several choices.
    MultiSelect,
    /// A point in time.
    Date,
    /// A file or media attachment.
    FileOrMedia,
    /// A yes/no mark.
    Checkbox,
    /// A web address.
    Url,
    /// An email address.
    Email,
    /// A phone number.
    Phone,
    /// A reference to objects, restricted to the given types; an empty list
    /// allows any type.
    Object {
        /// The allowed object types.
        types: Vec<ObjectTypeId>,
    },
}

/// The mathematical shape of a relation format.  An object-reference format
/// carries the set of allowed type identifiers.
pub enum FormatView {
    /// Free text.
    Text,
    /// A number.
    Number,
    /// A single choice.
    Select,
    /// Several choices.
    MultiSelect,
    /// A point in time.
    Date,
    /// A file or media attachment.
    FileOrMedia,
    /// A yes/no mark.
    Checkbox,
    /// A web address.
    Url,
    /// An email address.
    Email,
    /// A phone number.
    Phone,
    /// A reference to objects of the allowed types; the empty set is the
    /// wildcard.
    Object {
        /// The allowed object types' identifiers.
        types: Set<Seq<char>>,
    },
}

impl DeepView for RelationFormat {
    type V = FormatView;

    open spec fn deep_view(&self) -> FormatView {
        match self {
            RelationFormat::Text => FormatView::Text,
            RelationFormat::Number => FormatView::Number,
            RelationFormat::Select => FormatView::Select,
            RelationFormat::MultiSelect => FormatView::MultiSelect,
            RelationFormat::Date => FormatView::Date,
            RelationFormat::FileOrMedia => FormatView::FileOrMedia,
            RelationFormat::Checkbox => FormatView::Checkbox,
            RelationFormat::Url => FormatView::Url,
            RelationFormat::Email => FormatView::Email,
            RelationFormat::Phone => FormatView::Phone,
            RelationFormat::Object { types } => FormatView::Object {
                types: types.deep_view().to_set(),
            },
        }
    }
}

/// Copies a list of type identifiers.
fn clone_type_ids(types: &Vec<ObjectTypeId>) -> (r: Vec<ObjectTypeId>)
    ensures
        r.deep_view() == types.deep_view(),
{
    let mut out: Vec<ObjectTypeId> = Vec::new();
    let n = types.len();
    let mut i: usize = 0;
    while i < n
        invariant
            n == types@.len(),
            0 <= i <= n,
            out@.len() == i,
            forall|j: int| 0 <= j < i ==> out@[j].deep_view() == types@[j].deep_view(),
        decreases n - i,
    {
        let id = types[i].clone();
        out.push(id);
        i = i + 1;
    }
    proof {
        assert(out.deep_view() =~= types.deep_view());
    }
    out
}

impl Clone for RelationFormat {
    /// Copies the format; the copy has the same shape.
    fn clone(&self) -> (r: Self)
        ensures
            r.deep_view() == self.deep_view(),
    {
        match self {
            RelationFormat::Text => RelationFormat::Text,
            RelationFormat::Number => RelationFormat::Number,
            RelationFormat::Select => RelationFormat::Select,
            RelationFormat::MultiSelect => RelationFormat::MultiSelect,
            RelationFormat::Date => RelationFormat::Date,
            RelationFormat::FileOrMedia => RelationFormat::FileOrMedia,
            RelationFormat::Checkbox => RelationFormat::Checkbox,
            RelationFormat::Url => RelationFormat::Url,
            RelationFormat::Email => RelationFormat::Email,
            RelationFormat::Phone => RelationFormat::Phone,
            RelationFormat::Object { types } => RelationFormat::Object {
                types: clone_type_ids(types),
            },
        }
    }
}

/// The subset rule between formats: scalar formats must be identical, and
/// an object-reference format is a superset of another when its allowed
/// set is empty (the wildcard) or contains the other's allowed set.
pub open spec fn spec_is_superset(a: FormatView, b: FormatView) -> bool {
    match (a, b) {
        (FormatView::Object { types: ts }, FormatView::Object { types: os }) => ts
            =~= Set::empty() || os.subset_of(ts),
        _ => a == b,
    }
}

/// Whether a list of type identifiers contains the given token.
fn type_ids_contain(types: &Vec<ObjectTypeId>, token: &str) -> (r: bool)
    ensures
        r == types.deep_view().contains(token@),
{
    let n = types.len();
    let mut i: usize = 0;
    while i < n
        invariant
            n == types@.len(),
            0 <= i <= n,
            forall|j: int| 0 <= j < i ==> types.deep_view()[j] != token@,
        decreases n - i,
    {
        if str_eq(types[i].as_str(), token) {
            proof {
                assert(types.deep_view()[i as int] == token@);
            }
            return true;
        }
        i = i + 1;
    }
    proof {
        if types.deep_view().contains(token@) {
            let j = choose|j: int| 0 <= j < types.deep_view().len() && types.deep_view()[j] == token@;
            assert(false);
        }
    }
    false
}

/// Whether every identifier of `a` is also in `b`.
fn type_ids_subset(a: &Vec<ObjectTypeId>, b: &Vec<ObjectTypeId>) -> (r: bool)
    ensures
        r == a.deep_view().to_set().subset_of(b.deep_view().to_set()),
{
    let n = a.len();
    let mut i: usize = 0;
    while i < n
        invariant
            n == a@.len(),
            0 <= i <= n,
            forall|j: int| 0 <= j < i ==> b.deep_view().contains(a.deep_view()[j]),
        decreases n - i,
    {
        if !type_ids_contain(b, a[i].as_str()) {
            proof {
                assert(a.deep_view().contains(a.deep_view()[i as int]));
                assert(a.deep_view().to_set().contains(a.deep_view()[i as int]));
            }
            return false;
        }
        i = i + 1;
    }
    proof {
        assert forall|t: Seq<char>| a.deep_view().to_set().contains(t) implies b.deep_view()
            .to_set()
            .contains(t) by {
            let j = choose|j: int| 0 <= j < a.deep_view().len() && a.deep_view()[j] == t;
        }
    }
    true
}

impl RelationFormat {
    /// Decides the subset rule between this format and another.
    pub fn is_superset(&self, other: &RelationFormat) -> (r: bool)
        ensures
            r == spec_is_superset(self.deep_view(), other.deep_view()),
    {
        match (self, other) {
            (
                RelationFormat::Object { types: self_types },
                RelationFormat::Object { types: other_types },
            ) => {
                if self_types.is_empty() {
                    proof {
                        assert(self_types.deep_view().to_set() =~= Set::empty());
                    }
                    true
                } else {
                    proof {
                        assert(self_types.deep_view().contains(self_types.deep_view()[0]));
                        assert(self_types.deep_view().to_set().contains(
                            self_types.deep_view()[0],
                        ));
                        assert(!(self_types.deep_view().to_set() =~= Set::empty()));
                    }
                    type_ids_subset(other_types, self_types)
                }
            },
            (a, b) => a.same_scalar(b),
        }
    }

    /// Compares two formats for equality of shape.
    pub fn format_eq(&self, other: &RelationFormat) -> (r: bool)
        ensures
            r == (self.deep_view() == other.deep_view()),
    {
        match (self, other) {
            (
                RelationFormat::Object { types: self_types },
                RelationFormat::Object { types: other_types },
            ) => {
                let fwd = type_ids_subset(self_types, other_types);
                let bwd = type_ids_subset(other_types, self_types);
                proof {
                    if fwd && bwd {
                        assert(self_types.deep_view().to_set() =~= other_types.deep_view()
                            .to_set());
                    }
                    if self.deep_view() == other.deep_view() {
                        assert(self_types.deep_view().to_set() == other_types.deep_view()
                            .to_set());
                    }
                }
                fwd && bwd
            },
            (a, b) => a.same_scalar(b),
        }
    }

    /// Compares the scalar cases of two formats; an object-reference format
    /// matches nothing here.
    fn same_scalar(&self, other: &RelationFormat) -> (r: bool)
        ensures
            r == if !(*self is Object) && !(*other is Object) {
                self.deep_view() == other.deep_view()
            } else {
                false
            },
    {
        match (self, other) {
            (RelationFormat::Text, RelationFormat::Text) => true,
            (RelationFormat::Number, RelationFormat::Number) => true,
            (RelationFormat::Select, RelationFormat::Select) => true,
            (RelationFormat::MultiSelect, RelationFormat::MultiSelect) => true,
            (RelationFormat::Date, RelationFormat::Date) => true,
            (RelationFormat::FileOrMedia, RelationFormat::FileOrMedia) => true,
            (RelationFormat::Checkbox, RelationFormat::Checkbox) => true,
            (RelationFormat::Url, RelationFormat::Url) => true,
            (RelationFormat::Email, RelationFormat::Email) => true,
            (RelationFormat::Phone, RelationFormat::Phone) => true,
            _ => false,
        }
    }
}

/// The wire discriminants of relation formats, as the backend transports
/// them.  The discriminants this library does not work with (emoji and
/// relation-list formats) are not members, so decoding them reports an
/// invalid enum value.
#[derive(Debug, Clone, Copy, PartialEq, Eq, Structural)]
pub enum WireRelationFormat {
    /// Long text (decoded as the text format).
    Longtext,
    /// Short text (decoded as the text format).
    Shorttext,
    /// A number.
    Number,
    /// A single choice.
    Status,
    /// Several choices.
    Tag,
    /// A point in time.
    Date,
    /// A file attachment.
    File,
    /// A yes/no mark.
    Checkbox,
    /// A web address.
    Url,
    /// An email address.
    Email,
    /// A phone number.
    Phone,
    /// A reference to objects.
    Object,
}

impl ProstEnum for WireRelationFormat {
    open spec fn spec_of_code(code: i32) -> Option<WireRelationFormat> {
        if code == 0 {
            Some(WireRelationFormat::Longtext)
        } else if code == 1 {
            Some(WireRelationFormat::Shorttext)
        } else if code == 2 {
            Some(WireRelationFormat::Number)
        } else if code == 3 {
            Some(WireRelationFormat::Status)
        } else if code == 4 {
            Some(WireRelationFormat::Tag)
        } else if code == 5 {
            Some(WireRelationFormat::Date)
        } else if code == 6 {
            Some(WireRelationFormat::File)
        } else if code == 7 {
            Some(WireRelationFormat::Checkbox)
        } else if code == 8 {
            Some(WireRelationFormat::Url)
        } else if code == 9 {
            Some(WireRelationFormat::Email)
        } else if code == 10 {
            Some(WireRelationFormat::Phone)
        } else if code == 100 {
            Some(WireRelationFormat::Object)
        } else {
            None
        }
    }

    fn of_code(code: i32) -> (r: Option<WireRelationFormat>) {
        if code == 0 {
            Some(WireRelationFormat::Longtext)
        } else if code == 1 {
            Some(WireRelationFormat::Shorttext)
        } else if code == 2 {
            Some(WireRelationFormat::Number)
        } else if code == 3 {
            Some(WireRelationFormat::Status)
        } else if code == 4 {
            Some(WireRelationFormat::Tag)
        } else if code == 5 {
            Some(WireRelationFormat::Date)
        } else if code == 6 {
            Some(WireRelationFormat::File)
        } else if code == 7 {
            Some(WireRelationFormat::Checkbox)
        } else if code == 8 {
            Some(WireRelationFormat::Url)
        } else if code == 9 {
            Some(WireRelationFormat::Email)
        } else if code == 10 {
            Some(WireRelationFormat::Phone)
        } else if code == 100 {
            Some(WireRelationFormat::Object)
        } else {
            None
        }
    }
}

/// The format a wire discriminant stands for, together with the allowed
/// types read from the record (used only by the object case).
pub open spec fn spec_format_of(
    internal: WireRelationFormat,
    object_types: Option<Seq<Seq<char>>>,
) -> FormatView {
    match internal {
        WireRelationFormat::Longtext => FormatView::Text,
        WireRelationFormat::Shorttext => FormatView::Text,
        WireRelationFormat::Number => FormatView::Number,
        WireRelationFormat::Status => FormatView::Select,
        WireRelationFormat::Tag => FormatView::MultiSelect,
        WireRelationFormat::Date => FormatView::Date,
        WireRelationFormat::File => FormatView::FileOrMedia,
        WireRelationFormat::Checkbox => FormatView::Checkbox,
        WireRelationFormat::Url => FormatView::Url,
        WireRelationFormat::Email => FormatView::Email,
        WireRelationFormat::Phone => FormatView::Phone,
        WireRelationFormat::Object => FormatView::Object {
            types: match object_types {
                Some(ts) => ts.to_set(),
                None => Set::empty(),
            },
        },
    }
}

impl RelationFormat {
    /// Builds the format a wire discriminant stands for.
    pub fn from_internal(
        internal: WireRelationFormat,
        object_types: Option<Vec<ObjectTypeId>>,
    ) -> (r: RelationFormat)
        ensures
            r.deep_view() == spec_format_of(internal, spec_opt_ids(object_types)),
    {
        match internal {
            WireRelationFormat::Longtext => RelationFormat::Text,
            WireRelationFormat::Shorttext => RelationFormat::Text,
            WireRelationFormat::Number => RelationFormat::Number,
            WireRelationFormat::Status => RelationFormat::Select,
            WireRelationFormat::Tag => RelationFormat::MultiSelect,
            WireRelationFormat::Date => RelationFormat::Date,
            WireRelationFormat::File => RelationFormat::FileOrMedia,
            WireRelationFormat::Checkbox => RelationFormat::Checkbox,
            WireRelationFormat::Url => RelationFormat::Url,
            WireRelationFormat::Email => RelationFormat::Email,
            WireRelationFormat::Phone => RelationFormat::Phone,
            WireRelationFormat::Object => {
                let types = match object_types {
                    Some(ts) => ts,
                    None => Vec::new(),
                };
                proof {
                    if types@.len() == 0 {
                        assert(types.deep_view().to_set() =~= Set::empty());
                        assert(Seq::<Seq<char>>::empty().to_set() =~= Set::empty());
                    }
                }
                RelationFormat::Object { types }
            },
        }
    }

    /// The wire discriminant this format is transported as.
    pub open spec fn spec_code(&self) -> i64 {
        match self {
            RelationFormat::Text => 0,
            RelationFormat::Number => 2,
            RelationFormat::Select => 3,
            RelationFormat::MultiSelect => 4,
            RelationFormat::Date => 5,
            RelationFormat::FileOrMedia => 6,
            RelationFormat::Checkbox => 7,
            RelationFormat::Url => 8,
            RelationFormat::Email => 9,
            RelationFormat::Phone => 10,
            RelationFormat::Object { .. } => 100,
        }
    }

    /// Reports the wire discriminant of this format.
    pub fn code(&self) -> (r: i64)
        ensures
            r == self.spec_code(),
    {
        match self {
            RelationFormat::Text => 0,
            RelationFormat::Number => 2,
            RelationFormat::Select => 3,
            RelationFormat::MultiSelect => 4,
            RelationFormat::Date => 5,
            RelationFormat::FileOrMedia => 6,
            RelationFormat::Checkbox => 7,
            RelationFormat::Url => 8,
            RelationFormat::Email => 9,
            RelationFormat::Phone => 10,
            RelationFormat::Object { .. } => 100,
        }
    }
}

/// The views of an optional list of type identifiers.
pub open spec fn spec_opt_ids(object_types: Option<Vec<ObjectTypeId>>) -> Option<Seq<Seq<char>>> {
    match object_types {
        Some(ts) => Some(ts.deep_view()),
        None => None,
    }
}

/// The identifier of a relation.  A relation is itself an object on the
/// server side, so this wraps an object identifier.
#[derive(Debug)]
pub struct RelationId(pub(crate) ObjectId);

impl DeepView for RelationId {
    type V = Seq<char>;

    closed spec fn deep_view(&self) -> Seq<char> {
        self.0.deep_view()
    }
}

impl Clone for RelationId {
    /// Copies the identifier; the copy holds the same token.
    fn clone(&self) -> (r: Self)
        ensures
            r.deep_view() == self.deep_view(),
    {
        RelationId(self.0.clone())
    }
}

impl RelationId {
    /// The identifier's token.
    pub fn as_str(&self) -> (r: &str)
        ensures
            r@ == self.deep_view(),
    {
        self.0.as_str()
    }

    /// The relation's identity as a plain object identifier.
    pub fn into_object_id(self) -> (r: ObjectId)
        ensures
            r.deep_view() == self.deep_view(),
    {
        self.0
    }
}

impl TryFromProst for RelationId {
    open spec fn spec_try_from_prost(data: ProstDataView) -> Result<
        Seq<char>,
        ProstConversionErrorView,
    > {
        ObjectId::spec_try_from_prost(data)
    }

    fn try_from_prost(data: ProstData) -> (r: Result<Self, ProstConversionError>) {
        match ObjectId::try_from_prost(data) {
            Ok(id) => Ok(RelationId(id)),
            Err(e) => Err(e),
        }
    }
}

impl IntoProstValue for RelationId {
    open spec fn spec_into_prost(v: Seq<char>) -> Option<ProstDataView> {
        Some(ProstDataView::Text(v))
    }

    fn into_prost(self) -> (r: ProstValue) {
        self.0.into_prost()
    }
}

/// The storage key of a relation: the token that indexes its value inside
/// an object's field bag.  Distinct from the relation's name and id.
#[derive(Debug)]
pub struct RelationKey(pub(crate) String);

impl DeepView for RelationKey {
    type V = Seq<char>;

    closed spec fn deep_view(&self) -> Seq<char> {
        self.0@
    }
}

impl Clone for RelationKey {
    /// Copies the key; the copy holds the same token.
    fn clone(&self) -> (r: Self)
        ensures
            r.deep_view() == self.deep_view(),
    {
        RelationKey(self.0.clone())
    }
}

impl RelationKey {
    /// The key's token.
    pub fn as_str(&self) -> (r: &str)
        ensures
            r@ == self.deep_view(),
    {
        self.0.as_str()
    }
}

impl TryFromProst for RelationKey {
    open spec fn spec_try_from_prost(data: ProstDataView) -> Result<
        Seq<char>,
        ProstConversionErrorView,
    > {
        String::spec_try_from_prost(data)
    }

    fn try_from_prost(data: ProstData) -> (r: Result<Self, ProstConversionError>) {
        match String::try_from_prost(data) {
            Ok(s) => Ok(RelationKey(s)),
            Err(e) => Err(e),
        }
    }
}

/// A typed value for a relation.
#[derive(Debug)]
pub enum RelationValue {
    /// Free text.
    Text(String),
    /// A number, held as the 64 bits of its double-precision encoding.
    Number(u64),
    /// A point in time, as seconds since the Unix epoch.
    Date(i64),
    /// A yes/no mark.
    Checkbox(bool),
    /// A web address.
    Url(String),
    /// An email address.
    Email(String),
    /// A phone number.
    Phone(String),
    /// Referenced objects.
    Object(Vec<Object>),
}

/// The mathematical shape of a relation value.
pub enum RelationValueView {
    /// Free text.
    Text(Seq<char>),
    /// A number's 64-bit encoding.
    Number(u64),
    /// Seconds since the Unix epoch.
    Date(i64),
    /// A yes/no mark.
    Checkbox(bool),
    /// A web address.
    Url(Seq<char>),
    /// An email address.
    Email(Seq<char>),
    /// A phone number.
    Phone(Seq<char>),
    /// Referenced objects.
    Object(Seq<ObjectView>),
}

impl DeepView for RelationValue {
    type V = RelationValueView;

    open spec fn deep_view(&self) -> RelationValueView {
        match self {
            RelationValue::Text(s) => RelationValueView::Text(s@),
            RelationValue::Number(bits) => RelationValueView::Number(*bits),
            RelationValue::Date(ts) => RelationValueView::Date(*ts),
            RelationValue::Checkbox(b) => RelationValueView::Checkbox(*b),
            RelationValue::Url(s) => RelationValueView::Url(s@),
            RelationValue::Email(s) => RelationValueView::Email(s@),
            RelationValue::Phone(s) => RelationValueView::Phone(s@),
            RelationValue::Object(objs) => RelationValueView::Object(objs.deep_view()),
        }
    }
}

/// Copies a list of objects.
fn clone_objects(objs: &Vec<Object>) -> (r: Vec<Object>)
    ensures
        r.deep_view() == objs.deep_view(),
{
    let mut out: Vec<Object> = Vec::new();
    let n = objs.len();
    let mut i: usize = 0;
    while i < n
        invariant
            n == objs@.len(),
            0 <= i <= n,
            out@.len() == i,
            forall|j: int| 0 <= j < i ==> out@[j].deep_view() == objs@[j].deep_view(),
        decreases n - i,
    {
        let o = objs[i].clone();
        out.push(o);
        i = i + 1;
    }
    proof {
        assert(out.deep_view() =~= objs.deep_view());
    }
    out
}

impl Clone for RelationValue {
    /// Copies the value; the copy has the same shape.
    fn clone(&self) -> (r: Self)
        ensures
            r.deep_view() == self.deep_view(),
    {
        match self {
            RelationValue::Text(s) => RelationValue::Text(s.clone()),
            RelationValue::Number(bits) => RelationValue::Number(*bits),
            RelationValue::Date(ts) => RelationValue::Date(*ts),
            RelationValue::Checkbox(b) => RelationValue::Checkbox(*b),
            RelationValue::Url(s) => RelationValue::Url(s.clone()),
            RelationValue::Email(s) => RelationValue::Email(s.clone()),
            RelationValue::Phone(s) => RelationValue::Phone(s.clone()),
            RelationValue::Object(objs) => RelationValue::Object(clone_objects(objs)),
        }
    }
}

/// The format a value infers: the total map from value shapes to formats.
/// A list of objects infers an object-reference format allowing exactly the
/// referenced objects' current types.
pub open spec fn spec_value_format(v: RelationValueView) -> FormatView {
    match v {
        RelationValueView::Text(_) => FormatView::Text,
        RelationValueView::Number(_) => FormatView::Number,
        RelationValueView::Date(_) => FormatView::Date,
        RelationValueView::Checkbox(_) => FormatView::Checkbox,
        RelationValueView::Url(_) => FormatView::Url,
        RelationValueView::Email(_) => FormatView::Email,
        RelationValueView::Phone(_) => FormatView::Phone,
        RelationValueView::Object(objs) => FormatView::Object {
            types: objs.map_values(|o: ObjectView| o.ty).to_set(),
        },
    }
}

impl RelationValue {
    /// Computes the format this value infers.
    pub fn format(&self) -> (r: RelationFormat)
        ensures
            r.deep_view() == spec_value_format(self.deep_view()),
    {
        match self {
            RelationValue::Text(_) => RelationFormat::Text,
            RelationValue::Number(_) => RelationFormat::Number,
            RelationValue::Date(_) => RelationFormat::Date,
            RelationValue::Checkbox(_) => RelationFormat::Checkbox,
            RelationValue::Url(_) => RelationFormat::Url,
            RelationValue::Email(_) => RelationFormat::Email,
            RelationValue::Phone(_) => RelationFormat::Phone,
            RelationValue::Object(objs) => {
                let mut types: Vec<ObjectTypeId> = Vec::new();
                let n = objs.len();
                let mut i: usize = 0;
                while i < n
                    invariant
                        n == objs@.len(),
                        0 <= i <= n,
                        types@.len() == i,
                        forall|j: int|
                            0 <= j < i ==> types@[j].deep_view() == objs@[j].deep_view().ty,
                    decreases n - i,
                {
                    let t = objs[i].type_id();
                    types.push(t);
                    i = i + 1;
                }
                proof {
                    assert(types.deep_view() =~= objs.deep_view().map_values(
                        |o: ObjectView| o.ty,
                    ));
                }
                RelationFormat::Object { types }
            },
        }
    }
}

/// Whether a value can be written to the wire exactly.  The one limit is a
/// date's timestamp, which travels as a double-precision number and must
/// lie in the range that format represents exactly.
pub open spec fn value_encodable(v: RelationValueView) -> bool {
    match v {
        RelationValueView::Date(ts) => -0x10000000000000 <= ts <= 0x10000000000000,
        _ => true,
    }
}

/// The wire slot an encoded relation value occupies: texts stay texts, a
/// date becomes the number of its timestamp, and referenced objects become
/// the list of their identifier tokens.
pub open spec fn spec_value_wire(v: RelationValueView) -> Option<ProstDataView> {
    match v {
        RelationValueView::Text(s) => Some(ProstDataView::Text(s)),
        RelationValueView::Number(bits) => Some(ProstDataView::Number(bits)),
        RelationValueView::Date(ts) => Some(ProstDataView::Number(spec_number_bits(ts as int))),
        RelationValueView::Checkbox(b) => Some(ProstDataView::Bool(b)),
        RelationValueView::Url(s) => Some(ProstDataView::Text(s)),
        RelationValueView::Email(s) => Some(ProstDataView::Text(s)),
        RelationValueView::Phone(s) => Some(ProstDataView::Text(s)),
        RelationValueView::Object(objs) => Some(
            ProstDataView::List(
                Seq::new(objs.len(), |i: int| Some(ProstDataView::Text(objs[i].id))),
            ),
        ),
    }
}

impl RelationValue {
    /// Encodes this value as a wire value.
    pub fn into_prost(self) -> (r: ProstValue)
        requires
            value_encodable(self.deep_view()),
        ensures
            r.deep_view() == spec_value_wire(self.deep_view()),
    {
        match self {
            RelationValue::Text(s) => s.into_prost(),
            RelationValue::Number(bits) => bits.into_prost(),
            RelationValue::Date(ts) => number_bits_of_i64(ts).into_prost(),
            RelationValue::Checkbox(b) => b.into_prost(),
            RelationValue::Url(s) => s.into_prost(),
            RelationValue::Email(s) => s.into_prost(),
            RelationValue::Phone(s) => s.into_prost(),
            RelationValue::Object(objs) => {
                let ghost objsv = objs.deep_view();
                let mut out: Vec<ProstValue> = Vec::new();
                let n = objs.len();
                let mut i: usize = 0;
                while i < n
                    invariant
                        n == objsv.len(),
                        objs.deep_view() == objsv,
                        objs@.len() == n,
                        0 <= i <= n,
                        out@.len() == i,
                        forall|j: int|
                            0 <= j < i ==> out@[j].deep_view() == Some(
                                ProstDataView::Text(objsv[j].id),
                            ),
                    decreases n - i,
                {
                    proof {
                        assert(objs@[i as int].deep_view() == objsv[i as int]);
                    }
                    let id = objs[i].id();
                    out.push(id.into_prost());
                    i = i + 1;
                }
                let ghost outv = out.deep_view();
                let r = out.into_prost();
                proof {
                    assert(outv =~= Seq::new(
                        objsv.len(),
                        |j: int| Some(ProstDataView::Text(objsv[j].id)),
                    ));
                }
                r
            },
        }
    }
}

/// The report that a value's inferred format is not accepted by a
/// relation's declared format.
#[derive(Debug)]
pub struct IncompatibleRelationValue {
    pub(crate) expected: RelationFormat,
    pub(crate) received: RelationFormat,
}

/// The mathematical shape of an incompatibility report.
pub struct IncompatibleRelationValueView {
    /// The relation's declared format.
    pub expected: FormatView,
    /// The format the value inferred.
    pub received: FormatView,
}

impl DeepView for IncompatibleRelationValue {
    type V = IncompatibleRelationValueView;

    closed spec fn deep_view(&self) -> IncompatibleRelationValueView {
        IncompatibleRelationValueView {
            expected: self.expected.deep_view(),
            received: self.received.deep_view(),
        }
    }
}

impl IncompatibleRelationValue {
    /// The format the relation declares.
    pub fn expected(&self) -> (r: &RelationFormat)
        ensures
            r.deep_view() == self.deep_view().expected,
    {
        &self.expected
    }

    /// The format the rejected value inferred.
    pub fn received(&self) -> (r: &RelationFormat)
        ensures
            r.deep_view() == self.deep_view().received,
    {
        &self.received
    }
}

/// A schema field definition: an identifier, a name, a storage key and a
/// declared format.
#[derive(Debug)]
pub struct Relation {
    pub(crate) id: RelationId,
    pub(crate) name: String,
    pub(crate) relation_key: RelationKey,
    pub(crate) format: RelationFormat,
}

/// The mathematical shape of a relation.
pub struct RelationView {
    /// The identifier token.
    pub id: Seq<char>,
    /// The human-readable name.
    pub name: Seq<char>,
    /// The storage key.
    pub key: Seq<char>,
    /// The declared format.
    pub format: FormatView,
}

impl DeepView for Relation {
    type V = RelationView;

    closed spec fn deep_view(&self) -> RelationView {
        RelationView {
            id: self.id.deep_view(),
            name: self.name@,
            key: self.relation_key.deep_view(),
            format: self.format.deep_view(),
        }
    }
}

impl Clone for Relation {
    /// Copies the relation; the copy has the same shape.
    fn clone(&self) -> (r: Self)
        ensures
            r.deep_view() == self.deep_view(),
    {
        Relation {
            id: self.id.clone(),
            name: self.name.clone(),
            relation_key: self.relation_key.clone(),
            format: self.format.clone(),
        }
    }
}

impl Relation {
    /// The relation's identifier.
    pub fn id(&self) -> (r: RelationId)
        ensures
            r.deep_view() == self.deep_view().id,
    {
        self.id.clone()
    }

    /// The relation's identifier, consuming the relation.
    pub fn into_id(self) -> (r: RelationId)
        ensures
            r.deep_view() == self.deep_view().id,
    {
        self.id
    }

    /// The relation's name.
    pub fn name(&self) -> (r: &str)
        ensures
            r@ == self.deep_view().name,
    {
        self.name.as_str()
    }

    /// The relation's declared format.
    pub fn format(&self) -> (r: &RelationFormat)
        ensures
            r.deep_view() == self.deep_view().format,
    {
        &self.format
    }

    /// The relation's storage key.
    pub fn key(&self) -> (r: &RelationKey)
        ensures
            r.deep_view() == self.deep_view().key,
    {
        &self.relation_key
    }

    /// The request that would ask for this relation, consuming it.
    pub fn into_spec(self) -> (r: RelationSpec)
        ensures
            r.deep_view().name == self.deep_view().name,
            r.deep_view().format == self.deep_view().format,
    {
        RelationSpec { name: self.name, format: self.format }
    }

    /// The request that would ask for this relation.
    pub fn as_spec(&self) -> (r: RelationSpec)
        ensures
            r.deep_view().name == self.deep_view().name,
            r.deep_view().format == self.deep_view().format,
    {
        RelationSpec { name: self.name.clone(), format: self.format.clone() }
    }

    /// Checks a value against this relation's declared format.  On success
    /// the result is the write-ready pairing of the relation's storage key
    /// with the value; on failure the report carries both formats.  This is
    /// the only type-safety enforcement in the system: the backend accepts
    /// mismatched values silently, so every write goes through here.
    pub fn validate(&self, value: RelationValue) -> (r: Result<
        RelationDetail,
        IncompatibleRelationValue,
    >)
        ensures
            match r {
                Ok(d) => spec_is_superset(
                    self.deep_view().format,
                    spec_value_format(value.deep_view()),
                ) && d.deep_view().key == self.deep_view().key && d.deep_view().value
                    == value.deep_view(),
                Err(e) => !spec_is_superset(
                    self.deep_view().format,
                    spec_value_format(value.deep_view()),
                ) && e.deep_view().expected == self.deep_view().format && e.deep_view().received
                    == spec_value_format(value.deep_view()),
            },
    {
        let received_format = value.format();
        if self.format.is_superset(&received_format) {
            Ok(RelationDetail { key: self.relation_key.clone(), value })
        } else {
            Err(IncompatibleRelationValue { expected: self.format.clone(), received: received_format })
        }
    }
}

/// A validated, write-ready relation value: the storage key to write under
/// and the value to write.  Obtainable only through `Relation::validate`.
#[derive(Debug)]
pub struct RelationDetail {
    pub(crate) key: RelationKey,
    pub(crate) value: RelationValue,
}

/// The mathematical shape of a validated, write-ready value.
pub struct RelationDetailView {
    /// The storage key to write under.
    pub key: Seq<char>,
    /// The value to write.
    pub value: RelationValueView,
}

impl DeepView for RelationDetail {
    type V = RelationDetailView;

    closed spec fn deep_view(&self) -> RelationDetailView {
        RelationDetailView { key: self.relation_detail_key(), value: self.value.deep_view() }
    }
}

impl RelationDetail {
    /// The storage key of this detail.
    closed spec fn relation_detail_key(&self) -> Seq<char> {
        self.key.deep_view()
    }

    /// Hands out the raw field name and wire value to write.
    pub fn into_raw_parts(self) -> (r: (String, ProstValue))
        requires
            value_encodable(self.deep_view().value),
        ensures
            r.0@ == self.deep_view().key,
            r.1.deep_view() == spec_value_wire(self.deep_view().value),
    {
        (self.key.0, self.value.into_prost())
    }
}

/// What decoding a layout-checked wire record into a relation yields.
pub open spec fn spec_decode_relation(rec: Seq<(Seq<char>, Option<ProstDataView>)>) -> Result<
    RelationView,
    ProstConversionErrorView,
> {
    let d1 = spec_remove(rec, "layout"@);
    match spec_take::<RelationId>(d1, "id"@) {
        Err(e) => Err(e),
        Ok(id) => {
            let d2 = spec_remove(d1, "id"@);
            match spec_take::<String>(d2, "name"@) {
                Err(e) => Err(e),
                Ok(name) => {
                    let d3 = spec_remove(d2, "name"@);
                    match spec_take::<RelationKey>(d3, "relationKey"@) {
                        Err(e) => Err(e),
                        Ok(key) => {
                            let d4 = spec_remove(d3, "relationKey"@);
                            match spec_take_enum::<WireRelationFormat>(d4, "relationFormat"@) {
                                Err(e) => Err(e),
                                Ok(internal) => {
                                    let d5 = spec_remove(d4, "relationFormat"@);
                                    match spec_take_optional::<Vec<ObjectTypeId>>(
                                        d5,
                                        "relationFormatObjectTypes"@,
                                    ) {
                                        Err(e) => Err(e),
                                        Ok(types) => Ok(
                                            RelationView {
                                                id,
                                                name,
                                                key,
                                                format: spec_format_of(internal, types),
                                            },
                                        ),
                                    }
                                },
                            }
                        },
                    }
                },
            }
        },
    }
}

impl Relation {
    /// Decodes a wire record into a relation.  The record must already have
    /// been confirmed to carry the relation layout — searches filter by
    /// layout before decoding.
    pub fn try_from_prost(input: ProstStruct) -> (r: Result<Relation, ProstConversionError>)
        requires
            spec_take_enum::<crate::object::Layout>(input.deep_view(), "layout"@) == Ok::<
                crate::object::Layout,
                ProstConversionErrorView,
            >(crate::object::Layout::Relation),
        ensures
            match r {
                Ok(rel) => spec_decode_relation(input.deep_view()) == Ok::<
                    RelationView,
                    ProstConversionErrorView,
                >(rel.deep_view()),
                Err(e) => spec_decode_relation(input.deep_view()) == Err::<
                    RelationView,
                    ProstConversionErrorView,
                >(e.deep_view()),
            },
    {
        let mut value = input;
        match value.take_enum::<crate::object::Layout>("layout") {
            Ok(_) => (),
            Err(_) => {
                proof {
                    assert(false);
                }
            },
        }
        match value.take::<RelationId>("id") {
            Err(e) => Err(e),
            Ok(id) => match value.take::<String>("name") {
                Err(e) => Err(e),
                Ok(name) => match value.take::<RelationKey>("relationKey") {
                    Err(e) => Err(e),
                    Ok(relation_key) => match value.take_enum::<WireRelationFormat>(
                        "relationFormat",
                    ) {
                        Err(e) => Err(e),
                        Ok(internal) => match value.take_optional::<Vec<ObjectTypeId>>(
                            "relationFormatObjectTypes",
                        ) {
                            Err(e) => Err(e),
                            Ok(object_types) => Ok(
                                Relation {
                                    id,
                                    name,
                                    relation_key,
                                    format: RelationFormat::from_internal(internal, object_types),
                                },
                            ),
                        },
                    },
                },
            },
        }
    }
}


/// The create-request details for a relation: its name and format
/// discriminant, with the allowed types when the format is an object
/// reference.
pub open spec fn spec_relation_details(
    name: Seq<char>,
    format: &RelationFormat,
) -> Seq<(Seq<char>, Option<ProstDataView>)> {
    let base = seq![
        ("name"@, Some(ProstDataView::Text(name))),
        (
            "relationFormat"@,
            Some(
                ProstDataView::Number(
                    crate::number::spec_number_bits(format.spec_code() as int),
                ),
            ),
        ),
    ];
    match format {
        RelationFormat::Object { types } => base.push(
            (
                "relationFormatObjectTypes"@,
                Some(
                    ProstDataView::List(
                        Seq::new(
                            types.deep_view().len(),
                            |j: int| Some(ProstDataView::Text(types.deep_view()[j])),
                        ),
                    ),
                ),
            ),
        ),
        _ => base,
    }
}

impl RelationSpec {
    /// Builds the wire details a create-relation request carries.
    pub fn to_details(&self) -> (r: ProstStruct)
        ensures
            r.deep_view() == spec_relation_details(self.name@, &self.format),
    {
        let code = self.format.code();
        let format_bits = number_bits_of_i64(code);
        let mut fields: Vec<(String, ProstValue)> = Vec::new();
        fields.push(("name".to_owned(), self.name.clone().into_prost()));
        fields.push(("relationFormat".to_owned(), format_bits.into_prost()));
        match &self.format {
            RelationFormat::Object { types } => {
                let mut vals: Vec<ProstValue> = Vec::new();
                let n = types.len();
                let mut i: usize = 0;
                while i < n
                    invariant
                        n == types@.len(),
                        0 <= i <= n,
                        vals@.len() == i,
                        forall|j: int|
                            0 <= j < i ==> vals@[j].deep_view() == Some(
                                ProstDataView::Text(types.deep_view()[j]),
                            ),
                    decreases n - i,
                {
                    let t = types[i].clone();
                    vals.push(t.into_prost());
                    i = i + 1;
                }
                proof {
                    assert(vals.deep_view() =~= Seq::new(
                        types.deep_view().len(),
                        |j: int| Some(ProstDataView::Text(types.deep_view()[j])),
                    ));
                }
                fields.push(("relationFormatObjectTypes".to_owned(), vals.into_prost()));
            },
            _ => (),
        }
        let r = ProstStruct::from_fields(fields);
        proof {
            assert(r.deep_view() =~= spec_relation_details(self.name@, &self.format));
        }
        r
    }
}

} // verus!
