//! The container format of the persisted entities: one binary Ion struct per
//! entity, its fields in a fixed order, children nested as lists of blobs.

use ion_rs::element::{Element, List, Sequence};
use ion_rs::types::IntAccess;
use ion_rs::IonType;
use vstd::prelude::*;
use vstd::string::StringExecFns;

verus! {

/// The value of one field of a persisted struct.
#[derive(Debug)]
pub enum IonField {
    Text(String),
    Flag(bool),
    Int(i64),
    Blobs(Vec<Vec<u8>>),
}

/// Mathematical value of an [`IonField`].
pub enum FieldView {
    Text(Seq<char>),
    Flag(bool),
    Int(i64),
    Blobs(Seq<Seq<u8>>),
}

/// A named field of a persisted struct.
#[derive(Debug)]
pub struct IonEntry {
    pub name: String,
    pub value: IonField,
}

impl View for IonField {
    type V = FieldView;

    open spec fn view(&self) -> FieldView {
        match self {
            IonField::Text(s) => FieldView::Text(s@),
            IonField::Flag(b) => FieldView::Flag(*b),
            IonField::Int(i) => FieldView::Int(*i),
            IonField::Blobs(bs) => FieldView::Blobs(bs@.map_values(|b: Vec<u8>| b@)),
        }
    }
}

impl View for IonEntry {
    type V = (Seq<char>, FieldView);

    open spec fn view(&self) -> (Seq<char>, FieldView) {
        (self.name@, self.value@)
    }
}

pub open spec fn entries_view(v: Seq<IonEntry>) -> Seq<(Seq<char>, FieldView)> {
    v.map_values(|e: IonEntry| e@)
}

/// Every field has a non-empty name.
pub open spec fn names_nonempty(fields: Seq<(Seq<char>, FieldView)>) -> bool {
    forall|k: int| 0 <= k < fields.len() ==> (#[trigger] fields[k]).0.len() > 0
}

/// The binary Ion encoding of a struct with these fields, in this order.
pub uninterp spec fn ion_struct_bytes(fields: Seq<(Seq<char>, FieldView)>) -> Seq<u8>;

/// Relies on `ion_rs::element::Element::to_binary`, applied to the struct that
/// `StructBuilder::with_fields` builds from these fields: the bytes depend on
/// the field names and values, in order, alone, and writing them into a `Vec`
/// does not fail (the writer only steps into a struct and into lists, and sets
/// field names inside the struct).
#[verifier::external_body]
pub(crate) fn write_ion_struct(fields: &Vec<IonEntry>) -> (r: Option<Vec<u8>>)
    ensures
        r is Some,
        r matches Some(b) ==> b@ == ion_struct_bytes(entries_view(fields@)),
{
    let fields = fields.iter().map(|f| (f.name.as_str(), match &f.value {
        IonField::Text(s) => Element::string(s.as_str()),
        IonField::Flag(b) => Element::boolean(*b),
        IonField::Int(i) => Element::integer(*i),
        IonField::Blobs(bs) => List::from(Sequence::new(bs.iter().map(Element::blob))).into(),
    }));
    Element::from(Element::struct_builder().with_fields(fields).build()).to_binary().ok()
}

/// Relies on `ion_rs::element::Element::read_one` and `Struct::fields`, on
/// bytes that `to_binary` wrote for a struct: they read back as that struct,
/// its fields in the order written (`Struct` keeps fields in insertion order,
/// and the reader inserts them in stream order); strings, booleans, `i64`
/// integers, lists and blobs come back unchanged, and a field name with text
/// keeps it. Other bytes are not admitted: on some malformed input the reader
/// panics.
#[verifier::external_body]
pub(crate) fn read_ion_struct(data: &[u8]) -> (r: Option<Vec<IonEntry>>)
    requires
        exists|fs: Seq<(Seq<char>, FieldView)>|
            #![trigger ion_struct_bytes(fs)]
            ion_struct_bytes(fs) == data@ && names_nonempty(fs),
    ensures
        forall|fs: Seq<(Seq<char>, FieldView)>|
            #![trigger ion_struct_bytes(fs)]
            ion_struct_bytes(fs) == data@ && names_nonempty(fs) ==> r is Some && entries_view(
                r->Some_0@,
            ) == fs,
{
    Element::read_one(data).ok()?.as_struct()?.fields().map(|(name, v)| Some(IonEntry {
        name: name.text()?.to_string(),
        value: match v.ion_type() {
            IonType::String => IonField::Text(v.as_string()?.to_string()),
            IonType::Bool => IonField::Flag(v.as_bool()?),
            IonType::Int => IonField::Int(v.as_i64()?),
            IonType::List => IonField::Blobs(v.as_sequence()?.elements().map(|b| b.as_blob().map(|b| b.to_vec())).collect::<Option<_>>()?),
            _ => return None,
        },
    })).collect()
}

/// Why an entity could not be encoded or decoded.
#[derive(Debug, Clone, Copy, PartialEq, Eq, Structural)]
pub enum CodecError {
    /// The Ion layer could not write or read the bytes.
    IonFailure,
    /// The bytes hold Ion, but not the fields this entity is made of.
    UnexpectedLayout,
}

pub open spec fn text_of(f: FieldView) -> Option<Seq<char>> {
    match f {
        FieldView::Text(s) => Some(s),
        _ => None,
    }
}

pub open spec fn flag_of(f: FieldView) -> Option<bool> {
    match f {
        FieldView::Flag(b) => Some(b),
        _ => None,
    }
}

pub open spec fn int_of(f: FieldView) -> Option<i64> {
    match f {
        FieldView::Int(i) => Some(i),
        _ => None,
    }
}

pub(crate) fn entry(name: &str, value: IonField) -> (r: IonEntry)
    ensures
        r@ == (name@, value@),
{
    IonEntry { name: String::from_str(name), value }
}

/// The text held by field `k`, if it holds text.
pub(crate) fn text_at(es: &Vec<IonEntry>, k: usize) -> (r: Option<String>)
    requires
        k < es@.len(),
    ensures
        match r {
            Some(s) => text_of(es@[k as int]@.1) == Some(s@),
            None => text_of(es@[k as int]@.1) is None,
        },
{
    match &es[k].value {
        IonField::Text(s) => Some(s.clone()),
        _ => None,
    }
}

/// The flag held by field `k`, if it holds one.
pub(crate) fn flag_at(es: &Vec<IonEntry>, k: usize) -> (r: Option<bool>)
    requires
        k < es@.len(),
    ensures
        r == flag_of(es@[k as int]@.1),
{
    match &es[k].value {
        IonField::Flag(b) => Some(*b),
        _ => None,
    }
}

/// The integer held by field `k`, if it holds one.
pub(crate) fn int_at(es: &Vec<IonEntry>, k: usize) -> (r: Option<i64>)
    requires
        k < es@.len(),
    ensures
        r == int_of(es@[k as int]@.1),
{
    match &es[k].value {
        IonField::Int(i) => Some(*i),
        _ => None,
    }
}

/// The blobs held by field `k`, if it holds a list of them.
pub(crate) fn blobs_at(es: &Vec<IonEntry>, k: usize) -> (r: Option<&Vec<Vec<u8>>>)
    requires
        k < es@.len(),
    ensures
        match r {
            Some(bs) => es@[k as int]@.1 == FieldView::Blobs(bs@.map_values(|b: Vec<u8>| b@)),
            None => !(es@[k as int]@.1 is Blobs),
        },
{
    match &es[k].value {
        IonField::Blobs(bs) => Some(bs),
        _ => None,
    }
}

} // verus!
