//! Field values: what one cell of a row holds.

use vstd::prelude::*;

verus! {

/// One value of one leaf column. A float is held by its bit pattern.
#[derive(Debug, PartialEq, Eq)]
pub enum Field {
    Null,
    Bool(bool),
    Int(i32),
    UInt(u32),
    Long(i64),
    ULong(u64),
    Float(u32),
    Double(u64),
    Str(String),
}

/// A field value with its text as a sequence of characters.
pub enum FieldView {
    Null,
    Bool(bool),
    Int(i32),
    UInt(u32),
    Long(i64),
    ULong(u64),
    Float(u32),
    Double(u64),
    Str(Seq<char>),
}

impl View for Field {
    type V = FieldView;

    open spec fn view(&self) -> FieldView {
        match *self {
            Field::Null => FieldView::Null,
            Field::Bool(v) => FieldView::Bool(v),
            Field::Int(v) => FieldView::Int(v),
            Field::UInt(v) => FieldView::UInt(v),
            Field::Long(v) => FieldView::Long(v),
            Field::ULong(v) => FieldView::ULong(v),
            Field::Float(v) => FieldView::Float(v),
            Field::Double(v) => FieldView::Double(v),
            Field::Str(v) => FieldView::Str(v@),
        }
    }
}

impl Clone for Field {
    fn clone(&self) -> (copy: Self)
        ensures
            copy@ == self@,
    {
        match self {
            Field::Null => Field::Null,
            Field::Bool(v) => Field::Bool(*v),
            Field::Int(v) => Field::Int(*v),
            Field::UInt(v) => Field::UInt(*v),
            Field::Long(v) => Field::Long(*v),
            Field::ULong(v) => Field::ULong(*v),
            Field::Float(v) => Field::Float(*v),
            Field::Double(v) => Field::Double(*v),
            Field::Str(v) => Field::Str(v.clone()),
        }
    }
}

/// The views of a lane of fields, in order.
pub open spec fn field_views(lane: Seq<Field>) -> Seq<FieldView> {
    lane.map_values(|f: Field| f@)
}

impl Field {
    /// Whether the field is absent.
    pub fn is_null(&self) -> (null: bool)
        ensures
            null == (self@ is Null),
    {
        match self {
            Field::Null => true,
            _ => false,
        }
    }
}

} // verus!
