//! The protocol of a persistable type, and the types that follow it out of
//! the box.

use crate::error::PersistError;
use crate::field::{Field, FieldView};
use crate::row::{lemma_extended_concat, lemma_extended_one, RowBuffer};
use crate::schema::{leaf_views, primitive_leaf, Leaf, LeafView, LogicalType, PhysicalType, Repetition};
use crate::text::{child_name_chars, decimal_chars, indexed_name, opt_chars};
use vstd::prelude::*;
use vstd::string::*;

verus! {

/// A type whose values can be written as rows: it lays out its leaf columns
/// under a name, and hands out one field per leaf for each value.
///
/// A type implemented outside verified code keeps the default
/// specifications, and nothing is proved of it.
pub trait Persistable {
    /// Whether the type has to be given a name to lay out its leaves.
    open spec fn needs_name() -> bool {
        false
    }

    /// The number of leaves, whatever the name.
    open spec fn width() -> nat {
        0
    }

    /// The leaves laid out under `prefix`, with the repetition and logical
    /// type handed down.
    open spec fn leaves(
        prefix: Option<Seq<char>>,
        repetition: Option<Repetition>,
        logical_type: Option<LogicalType>,
    ) -> Seq<LeafView> {
        Seq::empty()
    }

    /// The fields of a value, one per leaf, in the order of the leaves.
    open spec fn cells(&self) -> Seq<FieldView> {
        Seq::empty()
    }

    /// Whether the value can be written: `append` succeeds on such a value,
    /// and on no other.
    open spec fn writable(&self) -> bool {
        true
    }

    /// The fields that `append` pushes: those of the value where it can be
    /// written, else those that come before the part that cannot.
    open spec fn written(&self) -> Seq<FieldView> {
        self.cells()
    }

    /// Appends the type's leaves to `fields`.
    fn schema(
        fields: &mut Vec<Leaf>,
        prefix: Option<&str>,
        repetition_override: Option<Repetition>,
        logical_type: Option<LogicalType>,
    )
        requires
            Self::needs_name() ==> prefix is Some,
        ensures
            leaf_views(final(fields)@) == leaf_views(old(fields)@) + Self::leaves(
                opt_chars(prefix),
                repetition_override,
                logical_type,
            ),
            Self::leaves(opt_chars(prefix), repetition_override, logical_type).len()
                == Self::width(),
    ;

    /// Pushes the value's fields, one per leaf. Where a part of the value
    /// cannot be written, the fields before that part are pushed, and the
    /// call fails.
    fn append(&self, rows: &mut RowBuffer) -> (result: Result<(), PersistError>)
        ensures
            result is Ok <==> self.writable(),
            final(rows)@ == old(rows)@.extended(self.written()),
            self.writable() ==> self.written() == self.cells(),
            self.writable() ==> self.cells().len() == Self::width(),
    ;

    /// The number of leaves that `schema` appends.
    fn field_count() -> (count: usize)
        ensures
            count == Self::width(),
    ;
}

/// The name of an optional prefix, empty where there is none.
pub open spec fn name_of(prefix: Option<Seq<char>>) -> Seq<char> {
    match prefix {
        Some(p) => p,
        None => Seq::empty(),
    }
}

/// The single leaf of a primitive.
pub open spec fn single_leaf(
    prefix: Option<Seq<char>>,
    physical_type: PhysicalType,
    repetition: Option<Repetition>,
    logical_type: Option<LogicalType>,
) -> Seq<LeafView> {
    seq![primitive_leaf(name_of(prefix), physical_type, repetition, logical_type)]
}

/// Appends the single leaf of a primitive to `fields`.
pub fn push_leaf(
    fields: &mut Vec<Leaf>,
    prefix: Option<&str>,
    physical_type: PhysicalType,
    repetition_override: Option<Repetition>,
    logical_type: Option<LogicalType>,
)
    requires
        prefix is Some,
    ensures
        leaf_views(final(fields)@) == leaf_views(old(fields)@) + single_leaf(
            opt_chars(prefix),
            physical_type,
            repetition_override,
            logical_type,
        ),
{
    let name = match prefix {
        Some(name) => name,
        None => "",
    };
    let leaf = Leaf::primitive(name, physical_type, repetition_override, logical_type);
    let ghost before = fields@;
    fields.push(leaf);
    assert(leaf_views(fields@) =~= leaf_views(before) + single_leaf(
        opt_chars(prefix),
        physical_type,
        repetition_override,
        logical_type,
    ));
}

/// Pushes one field.
pub fn push_cell(rows: &mut RowBuffer, field: Field)
    ensures
        final(rows)@ == old(rows)@.extended(seq![field@]),
{
    proof {
        lemma_extended_one(rows@, field@);
    }
    rows.push(field);
}

impl Persistable for bool {
    open spec fn needs_name() -> bool {
        true
    }

    open spec fn width() -> nat {
        1
    }

    open spec fn leaves(
        prefix: Option<Seq<char>>,
        repetition: Option<Repetition>,
        logical_type: Option<LogicalType>,
    ) -> Seq<LeafView> {
        single_leaf(prefix, PhysicalType::Bool, repetition, logical_type)
    }

    open spec fn cells(&self) -> Seq<FieldView> {
        seq![FieldView::Bool(*self)]
    }

    open spec fn writable(&self) -> bool {
        true
    }

    open spec fn written(&self) -> Seq<FieldView> {
        self.cells()
    }

    fn schema(
        fields: &mut Vec<Leaf>,
        prefix: Option<&str>,
        repetition_override: Option<Repetition>,
        logical_type: Option<LogicalType>,
    ) {
        push_leaf(fields, prefix, PhysicalType::Bool, repetition_override, logical_type);
    }

    fn append(&self, rows: &mut RowBuffer) -> (result: Result<(), PersistError>)
        ensures
            result is Ok,
    {
        push_cell(rows, Field::Bool(*self));
        Ok(())
    }

    fn field_count() -> (count: usize) {
        1
    }
}


impl Persistable for i16 {
    open spec fn needs_name() -> bool {
        true
    }

    open spec fn width() -> nat {
        1
    }

    open spec fn leaves(
        prefix: Option<Seq<char>>,
        repetition: Option<Repetition>,
        logical_type: Option<LogicalType>,
    ) -> Seq<LeafView> {
        single_leaf(prefix, PhysicalType::Int32, repetition, logical_type)
    }

    open spec fn cells(&self) -> Seq<FieldView> {
        seq![FieldView::Int(*self as i32)]
    }

    open spec fn writable(&self) -> bool {
        true
    }

    open spec fn written(&self) -> Seq<FieldView> {
        self.cells()
    }

    fn schema(
        fields: &mut Vec<Leaf>,
        prefix: Option<&str>,
        repetition_override: Option<Repetition>,
        logical_type: Option<LogicalType>,
    ) {
        push_leaf(fields, prefix, PhysicalType::Int32, repetition_override, logical_type);
    }

    fn append(&self, rows: &mut RowBuffer) -> (result: Result<(), PersistError>)
        ensures
            result is Ok,
    {
        push_cell(rows, Field::Int(*self as i32));
        Ok(())
    }

    fn field_count() -> (count: usize) {
        1
    }
}

impl Persistable for i32 {
    open spec fn needs_name() -> bool {
        true
    }

    open spec fn width() -> nat {
        1
    }

    open spec fn leaves(
        prefix: Option<Seq<char>>,
        repetition: Option<Repetition>,
        logical_type: Option<LogicalType>,
    ) -> Seq<LeafView> {
        single_leaf(prefix, PhysicalType::Int32, repetition, logical_type)
    }

    open spec fn cells(&self) -> Seq<FieldView> {
        seq![FieldView::Int(*self)]
    }

    open spec fn writable(&self) -> bool {
        true
    }

    open spec fn written(&self) -> Seq<FieldView> {
        self.cells()
    }

    fn schema(
        fields: &mut Vec<Leaf>,
        prefix: Option<&str>,
        repetition_override: Option<Repetition>,
        logical_type: Option<LogicalType>,
    ) {
        push_leaf(fields, prefix, PhysicalType::Int32, repetition_override, logical_type);
    }

    fn append(&self, rows: &mut RowBuffer) -> (result: Result<(), PersistError>)
        ensures
            result is Ok,
    {
        push_cell(rows, Field::Int(*self));
        Ok(())
    }

    fn field_count() -> (count: usize) {
        1
    }
}

impl Persistable for u16 {
    open spec fn needs_name() -> bool {
        true
    }

    open spec fn width() -> nat {
        1
    }

    open spec fn leaves(
        prefix: Option<Seq<char>>,
        repetition: Option<Repetition>,
        logical_type: Option<LogicalType>,
    ) -> Seq<LeafView> {
        single_leaf(prefix, PhysicalType::Int32, repetition, logical_type)
    }

    open spec fn cells(&self) -> Seq<FieldView> {
        seq![FieldView::UInt(*self as u32)]
    }

    open spec fn writable(&self) -> bool {
        true
    }

    open spec fn written(&self) -> Seq<FieldView> {
        self.cells()
    }

    fn schema(
        fields: &mut Vec<Leaf>,
        prefix: Option<&str>,
        repetition_override: Option<Repetition>,
        logical_type: Option<LogicalType>,
    ) {
        push_leaf(fields, prefix, PhysicalType::Int32, repetition_override, logical_type);
    }

    fn append(&self, rows: &mut RowBuffer) -> (result: Result<(), PersistError>)
        ensures
            result is Ok,
    {
        push_cell(rows, Field::UInt(*self as u32));
        Ok(())
    }

    fn field_count() -> (count: usize) {
        1
    }
}

impl Persistable for u32 {
    open spec fn needs_name() -> bool {
        true
    }

    open spec fn width() -> nat {
        1
    }

    open spec fn leaves(
        prefix: Option<Seq<char>>,
        repetition: Option<Repetition>,
        logical_type: Option<LogicalType>,
    ) -> Seq<LeafView> {
        single_leaf(prefix, PhysicalType::Int32, repetition, logical_type)
    }

    open spec fn cells(&self) -> Seq<FieldView> {
        seq![FieldView::UInt(*self)]
    }

    open spec fn writable(&self) -> bool {
        true
    }

    open spec fn written(&self) -> Seq<FieldView> {
        self.cells()
    }

    fn schema(
        fields: &mut Vec<Leaf>,
        prefix: Option<&str>,
        repetition_override: Option<Repetition>,
        logical_type: Option<LogicalType>,
    ) {
        push_leaf(fields, prefix, PhysicalType::Int32, repetition_override, logical_type);
    }

    fn append(&self, rows: &mut RowBuffer) -> (result: Result<(), PersistError>)
        ensures
            result is Ok,
    {
        push_cell(rows, Field::UInt(*self));
        Ok(())
    }

    fn field_count() -> (count: usize) {
        1
    }
}

impl Persistable for i64 {
    open spec fn needs_name() -> bool {
        true
    }

    open spec fn width() -> nat {
        1
    }

    open spec fn leaves(
        prefix: Option<Seq<char>>,
        repetition: Option<Repetition>,
        logical_type: Option<LogicalType>,
    ) -> Seq<LeafView> {
        single_leaf(prefix, PhysicalType::Int64, repetition, logical_type)
    }

    open spec fn cells(&self) -> Seq<FieldView> {
        seq![FieldView::Long(*self)]
    }

    open spec fn writable(&self) -> bool {
        true
    }

    open spec fn written(&self) -> Seq<FieldView> {
        self.cells()
    }

    fn schema(
        fields: &mut Vec<Leaf>,
        prefix: Option<&str>,
        repetition_override: Option<Repetition>,
        logical_type: Option<LogicalType>,
    ) {
        push_leaf(fields, prefix, PhysicalType::Int64, repetition_override, logical_type);
    }

    fn append(&self, rows: &mut RowBuffer) -> (result: Result<(), PersistError>)
        ensures
            result is Ok,
    {
        push_cell(rows, Field::Long(*self));
        Ok(())
    }

    fn field_count() -> (count: usize) {
        1
    }
}

impl Persistable for isize {
    open spec fn needs_name() -> bool {
        true
    }

    open spec fn width() -> nat {
        1
    }

    open spec fn leaves(
        prefix: Option<Seq<char>>,
        repetition: Option<Repetition>,
        logical_type: Option<LogicalType>,
    ) -> Seq<LeafView> {
        single_leaf(prefix, PhysicalType::Int64, repetition, logical_type)
    }

    open spec fn cells(&self) -> Seq<FieldView> {
        seq![FieldView::Long(*self as i64)]
    }

    open spec fn writable(&self) -> bool {
        true
    }

    open spec fn written(&self) -> Seq<FieldView> {
        self.cells()
    }

    fn schema(
        fields: &mut Vec<Leaf>,
        prefix: Option<&str>,
        repetition_override: Option<Repetition>,
        logical_type: Option<LogicalType>,
    ) {
        push_leaf(fields, prefix, PhysicalType::Int64, repetition_override, logical_type);
    }

    fn append(&self, rows: &mut RowBuffer) -> (result: Result<(), PersistError>)
        ensures
            result is Ok,
    {
        push_cell(rows, Field::Long(*self as i64));
        Ok(())
    }

    fn field_count() -> (count: usize) {
        1
    }
}

impl Persistable for u64 {
    open spec fn needs_name() -> bool {
        true
    }

    open spec fn width() -> nat {
        1
    }

    open spec fn leaves(
        prefix: Option<Seq<char>>,
        repetition: Option<Repetition>,
        logical_type: Option<LogicalType>,
    ) -> Seq<LeafView> {
        single_leaf(prefix, PhysicalType::Int64, repetition, logical_type)
    }

    open spec fn cells(&self) -> Seq<FieldView> {
        seq![FieldView::ULong(*self)]
    }

    open spec fn writable(&self) -> bool {
        true
    }

    open spec fn written(&self) -> Seq<FieldView> {
        self.cells()
    }

    fn schema(
        fields: &mut Vec<Leaf>,
        prefix: Option<&str>,
        repetition_override: Option<Repetition>,
        logical_type: Option<LogicalType>,
    ) {
        push_leaf(fields, prefix, PhysicalType::Int64, repetition_override, logical_type);
    }

    fn append(&self, rows: &mut RowBuffer) -> (result: Result<(), PersistError>)
        ensures
            result is Ok,
    {
        push_cell(rows, Field::ULong(*self));
        Ok(())
    }

    fn field_count() -> (count: usize) {
        1
    }
}

impl Persistable for usize {
    open spec fn needs_name() -> bool {
        true
    }

    open spec fn width() -> nat {
        1
    }

    open spec fn leaves(
        prefix: Option<Seq<char>>,
        repetition: Option<Repetition>,
        logical_type: Option<LogicalType>,
    ) -> Seq<LeafView> {
        single_leaf(prefix, PhysicalType::Int64, repetition, logical_type)
    }

    open spec fn cells(&self) -> Seq<FieldView> {
        seq![FieldView::ULong(*self as u64)]
    }

    open spec fn writable(&self) -> bool {
        true
    }

    open spec fn written(&self) -> Seq<FieldView> {
        self.cells()
    }

    fn schema(
        fields: &mut Vec<Leaf>,
        prefix: Option<&str>,
        repetition_override: Option<Repetition>,
        logical_type: Option<LogicalType>,
    ) {
        push_leaf(fields, prefix, PhysicalType::Int64, repetition_override, logical_type);
    }

    fn append(&self, rows: &mut RowBuffer) -> (result: Result<(), PersistError>)
        ensures
            result is Ok,
    {
        push_cell(rows, Field::ULong(*self as u64));
        Ok(())
    }

    fn field_count() -> (count: usize) {
        1
    }
}

/// A 32-bit float, held by its bit pattern.
#[derive(Clone, Copy, Debug, PartialEq, Eq, Structural)]
pub struct Float(pub u32);

/// A 64-bit float, held by its bit pattern.
#[derive(Clone, Copy, Debug, PartialEq, Eq, Structural)]
pub struct Double(pub u64);

impl Persistable for Float {
    open spec fn needs_name() -> bool {
        true
    }

    open spec fn width() -> nat {
        1
    }

    open spec fn leaves(
        prefix: Option<Seq<char>>,
        repetition: Option<Repetition>,
        logical_type: Option<LogicalType>,
    ) -> Seq<LeafView> {
        single_leaf(prefix, PhysicalType::Float, repetition, logical_type)
    }

    open spec fn cells(&self) -> Seq<FieldView> {
        seq![FieldView::Float(self.0)]
    }

    open spec fn writable(&self) -> bool {
        true
    }

    open spec fn written(&self) -> Seq<FieldView> {
        self.cells()
    }

    fn schema(
        fields: &mut Vec<Leaf>,
        prefix: Option<&str>,
        repetition_override: Option<Repetition>,
        logical_type: Option<LogicalType>,
    ) {
        push_leaf(fields, prefix, PhysicalType::Float, repetition_override, logical_type);
    }

    fn append(&self, rows: &mut RowBuffer) -> (result: Result<(), PersistError>)
        ensures
            result is Ok,
    {
        push_cell(rows, Field::Float(self.0));
        Ok(())
    }

    fn field_count() -> (count: usize) {
        1
    }
}

impl Persistable for Double {
    open spec fn needs_name() -> bool {
        true
    }

    open spec fn width() -> nat {
        1
    }

    open spec fn leaves(
        prefix: Option<Seq<char>>,
        repetition: Option<Repetition>,
        logical_type: Option<LogicalType>,
    ) -> Seq<LeafView> {
        single_leaf(prefix, PhysicalType::Double, repetition, logical_type)
    }

    open spec fn cells(&self) -> Seq<FieldView> {
        seq![FieldView::Double(self.0)]
    }

    open spec fn writable(&self) -> bool {
        true
    }

    open spec fn written(&self) -> Seq<FieldView> {
        self.cells()
    }

    fn schema(
        fields: &mut Vec<Leaf>,
        prefix: Option<&str>,
        repetition_override: Option<Repetition>,
        logical_type: Option<LogicalType>,
    ) {
        push_leaf(fields, prefix, PhysicalType::Double, repetition_override, logical_type);
    }

    fn append(&self, rows: &mut RowBuffer) -> (result: Result<(), PersistError>)
        ensures
            result is Ok,
    {
        push_cell(rows, Field::Double(self.0));
        Ok(())
    }

    fn field_count() -> (count: usize) {
        1
    }
}

impl Persistable for String {
    open spec fn needs_name() -> bool {
        true
    }

    open spec fn width() -> nat {
        1
    }

    open spec fn leaves(
        prefix: Option<Seq<char>>,
        repetition: Option<Repetition>,
        logical_type: Option<LogicalType>,
    ) -> Seq<LeafView> {
        single_leaf(prefix, PhysicalType::ByteArray, repetition, Some(LogicalType::String))
    }

    open spec fn cells(&self) -> Seq<FieldView> {
        seq![FieldView::Str(self@)]
    }

    open spec fn writable(&self) -> bool {
        true
    }

    open spec fn written(&self) -> Seq<FieldView> {
        self.cells()
    }

    fn schema(
        fields: &mut Vec<Leaf>,
        prefix: Option<&str>,
        repetition_override: Option<Repetition>,
        logical_type: Option<LogicalType>,
    ) {
        push_leaf(
            fields,
            prefix,
            PhysicalType::ByteArray,
            repetition_override,
            Some(LogicalType::String),
        );
    }

    fn append(&self, rows: &mut RowBuffer) -> (result: Result<(), PersistError>)
        ensures
            result is Ok,
    {
        push_cell(rows, Field::Str(self.clone()));
        Ok(())
    }

    fn field_count() -> (count: usize) {
        1
    }
}

impl Persistable for &str {
    open spec fn needs_name() -> bool {
        true
    }

    open spec fn width() -> nat {
        1
    }

    open spec fn leaves(
        prefix: Option<Seq<char>>,
        repetition: Option<Repetition>,
        logical_type: Option<LogicalType>,
    ) -> Seq<LeafView> {
        single_leaf(prefix, PhysicalType::ByteArray, repetition, Some(LogicalType::String))
    }

    open spec fn cells(&self) -> Seq<FieldView> {
        seq![FieldView::Str(self@)]
    }

    open spec fn writable(&self) -> bool {
        true
    }

    open spec fn written(&self) -> Seq<FieldView> {
        self.cells()
    }

    fn schema(
        fields: &mut Vec<Leaf>,
        prefix: Option<&str>,
        repetition_override: Option<Repetition>,
        logical_type: Option<LogicalType>,
    ) {
        push_leaf(
            fields,
            prefix,
            PhysicalType::ByteArray,
            repetition_override,
            Some(LogicalType::String),
        );
    }

    fn append(&self, rows: &mut RowBuffer) -> (result: Result<(), PersistError>)
        ensures
            result is Ok,
    {
        push_cell(rows, Field::Str((*self).to_owned()));
        Ok(())
    }

    fn field_count() -> (count: usize) {
        1
    }
}

/// A collection flattened to one string: the text that stands for a
/// sequence, a set or a map.
#[derive(Debug, PartialEq, Eq)]
pub struct Summary {
    pub text: String,
}

impl Summary {
    /// The summary that holds `text`.
    pub fn new(text: String) -> (summary: Summary)
        ensures
            summary.text == text,
    {
        Summary { text }
    }
}

impl Persistable for Summary {
    open spec fn needs_name() -> bool {
        true
    }

    open spec fn width() -> nat {
        1
    }

    open spec fn leaves(
        prefix: Option<Seq<char>>,
        repetition: Option<Repetition>,
        logical_type: Option<LogicalType>,
    ) -> Seq<LeafView> {
        single_leaf(prefix, PhysicalType::ByteArray, repetition, Some(LogicalType::String))
    }

    open spec fn cells(&self) -> Seq<FieldView> {
        seq![FieldView::Str(self.text@)]
    }

    open spec fn writable(&self) -> bool {
        true
    }

    open spec fn written(&self) -> Seq<FieldView> {
        self.cells()
    }

    fn schema(
        fields: &mut Vec<Leaf>,
        prefix: Option<&str>,
        repetition_override: Option<Repetition>,
        logical_type: Option<LogicalType>,
    ) {
        push_leaf(
            fields,
            prefix,
            PhysicalType::ByteArray,
            repetition_override,
            Some(LogicalType::String),
        );
    }

    fn append(&self, rows: &mut RowBuffer) -> (result: Result<(), PersistError>)
        ensures
            result is Ok,
    {
        push_cell(rows, Field::Str(self.text.clone()));
        Ok(())
    }

    fn field_count() -> (count: usize) {
        1
    }
}

/// `count` nulls.
pub open spec fn nulls(count: nat) -> Seq<FieldView> {
    Seq::new(count, |i: int| FieldView::Null)
}

impl<T: Persistable> Persistable for Option<T> {
    open spec fn needs_name() -> bool {
        T::needs_name()
    }

    open spec fn width() -> nat {
        T::width()
    }

    open spec fn leaves(
        prefix: Option<Seq<char>>,
        repetition: Option<Repetition>,
        logical_type: Option<LogicalType>,
    ) -> Seq<LeafView> {
        T::leaves(prefix, Some(Repetition::Optional), logical_type)
    }

    open spec fn cells(&self) -> Seq<FieldView> {
        match self {
            Some(value) => value.cells(),
            None => nulls(T::width()),
        }
    }

    open spec fn writable(&self) -> bool {
        match self {
            Some(value) => value.writable(),
            None => true,
        }
    }

    open spec fn written(&self) -> Seq<FieldView> {
        match self {
            Some(value) => value.written(),
            None => nulls(T::width()),
        }
    }

    fn schema(
        fields: &mut Vec<Leaf>,
        prefix: Option<&str>,
        repetition_override: Option<Repetition>,
        logical_type: Option<LogicalType>,
    ) {
        T::schema(fields, prefix, Some(Repetition::Optional), logical_type);
    }

    fn append(&self, rows: &mut RowBuffer) -> (result: Result<(), PersistError>)
        ensures
            self is None ==> result is Ok,
    {
        match self {
            Some(value) => value.append(rows),
            None => {
                let count = T::field_count();
                let mut i: usize = 0;
                assert(nulls(0) =~= Seq::<FieldView>::empty());
                while i < count
                    invariant
                        i <= count,
                        rows@ == old(rows)@.extended(nulls(i as nat)),
                    decreases count - i,
                {
                    rows.push(Field::Null);
                    proof {
                        assert(nulls((i + 1) as nat).drop_last() =~= nulls(i as nat));
                    }
                    i += 1;
                }
                Ok(())
            },
        }
    }

    fn field_count() -> (count: usize) {
        let mut fields: Vec<Leaf> = Vec::new();
        Self::schema(&mut fields, Some("any"), None, None);
        assert(leaf_views(fields@).len() == fields@.len());
        fields.len()
    }
}

/// An absent optional value is as many nulls as the type has leaves, and
/// nothing else.
pub proof fn lemma_absent_is_nulls<T: Persistable>()
    ensures
        None::<T>.cells().len() == T::width(),
        forall|i: int| 0 <= i < T::width() ==> #[trigger] None::<T>.cells()[i] is Null,
{
}

/// The name handed to the member of a pair: the prefix and the member's
/// ordinal, or no name where the pair has none.
pub open spec fn member_prefix(prefix: Option<Seq<char>>, ordinal: nat) -> Option<Seq<char>> {
    match prefix {
        Some(p) => Some(child_name_chars(Some(p), decimal_chars(ordinal))),
        None => None,
    }
}

impl<X: Persistable, Y: Persistable> Persistable for (X, Y) {
    open spec fn needs_name() -> bool {
        X::needs_name() || Y::needs_name()
    }

    open spec fn width() -> nat {
        X::width() + Y::width()
    }

    open spec fn leaves(
        prefix: Option<Seq<char>>,
        repetition: Option<Repetition>,
        logical_type: Option<LogicalType>,
    ) -> Seq<LeafView> {
        X::leaves(member_prefix(prefix, 0), repetition, logical_type) + Y::leaves(
            member_prefix(prefix, 1),
            repetition,
            logical_type,
        )
    }

    open spec fn cells(&self) -> Seq<FieldView> {
        self.0.cells() + self.1.cells()
    }

    open spec fn writable(&self) -> bool {
        self.0.writable() && self.1.writable()
    }

    open spec fn written(&self) -> Seq<FieldView> {
        if self.0.writable() {
            self.0.cells() + self.1.written()
        } else {
            self.0.written()
        }
    }

    fn schema(
        fields: &mut Vec<Leaf>,
        prefix: Option<&str>,
        repetition_override: Option<Repetition>,
        logical_type: Option<LogicalType>,
    ) {
        let ghost before = leaf_views(fields@);
        match prefix {
            None => {
                X::schema(fields, None, repetition_override, logical_type);
                Y::schema(fields, None, repetition_override, logical_type);
            },
            Some(p) => {
                let first = indexed_name(Some(p), 0);
                X::schema(fields, Some(first.as_str()), repetition_override, logical_type);
                let second = indexed_name(Some(p), 1);
                Y::schema(fields, Some(second.as_str()), repetition_override, logical_type);
            },
        }
        assert(leaf_views(fields@) =~= before + Self::leaves(
            opt_chars(prefix),
            repetition_override,
            logical_type,
        ));
    }

    fn append(&self, rows: &mut RowBuffer) -> (result: Result<(), PersistError>) {
        proof {
            lemma_extended_concat(rows@, self.0.cells(), self.1.written());
        }
        self.0.append(rows)?;
        self.1.append(rows)?;
        Ok(())
    }

    fn field_count() -> (count: usize) {
        let mut fields: Vec<Leaf> = Vec::new();
        Self::schema(&mut fields, Some("any"), None, None);
        assert(leaf_views(fields@).len() == fields@.len());
        fields.len()
    }
}

/// The leaves of the first `count` elements of an array: each element's
/// leaves under the prefix and the element's ordinal.
pub open spec fn array_leaves<T: Persistable>(
    count: nat,
    prefix: Option<Seq<char>>,
    repetition: Option<Repetition>,
    logical_type: Option<LogicalType>,
) -> Seq<LeafView>
    decreases count,
{
    if count == 0 {
        Seq::empty()
    } else {
        array_leaves::<T>((count - 1) as nat, prefix, repetition, logical_type) + T::leaves(
            Some(child_name_chars(prefix, decimal_chars((count - 1) as nat))),
            repetition,
            logical_type,
        )
    }
}

/// The fields of the elements of an array, element after element.
pub open spec fn array_cells<T: Persistable>(items: Seq<T>) -> Seq<FieldView>
    decreases items.len(),
{
    if items.len() == 0 {
        Seq::empty()
    } else {
        array_cells(items.drop_last()) + items.last().cells()
    }
}

/// Whether every element can be written.
pub open spec fn all_writable<T: Persistable>(items: Seq<T>) -> bool {
    forall|i: int| 0 <= i < items.len() ==> (#[trigger] items[i]).writable()
}

/// The fields that the elements of an array push: those of the elements
/// before the first that cannot be written, and what that one pushes; those
/// of all elements where there is none.
pub open spec fn array_written<T: Persistable>(items: Seq<T>) -> Seq<FieldView>
    decreases items.len(),
{
    if items.len() == 0 {
        Seq::empty()
    } else if all_writable(items.drop_last()) {
        array_cells(items.drop_last()) + items.last().written()
    } else {
        array_written(items.drop_last())
    }
}

/// Where the element at `i` is the first that cannot be written, what is
/// pushed are the fields of the elements before it and what it pushes.
pub proof fn lemma_array_written_stops<T: Persistable>(items: Seq<T>, i: int)
    requires
        0 <= i < items.len(),
        all_writable(items.take(i)),
        !items[i].writable(),
    ensures
        array_written(items) == array_cells(items.take(i)) + items[i].written(),
    decreases items.len(),
{
    let front = items.drop_last();
    if items.len() == i + 1 {
        assert(front =~= items.take(i));
    } else {
        assert(front[i] == items[i]);
        assert(!all_writable(front));
        assert(front.take(i) =~= items.take(i));
        lemma_array_written_stops(front, i);
    }
}

impl<T: Persistable, const N: usize> Persistable for [T; N] {
    open spec fn needs_name() -> bool {
        false
    }

    open spec fn width() -> nat {
        (N * T::width()) as nat
    }

    open spec fn leaves(
        prefix: Option<Seq<char>>,
        repetition: Option<Repetition>,
        logical_type: Option<LogicalType>,
    ) -> Seq<LeafView> {
        array_leaves::<T>(N as nat, prefix, repetition, logical_type)
    }

    open spec fn cells(&self) -> Seq<FieldView> {
        array_cells(self@)
    }

    open spec fn writable(&self) -> bool {
        all_writable(self@)
    }

    open spec fn written(&self) -> Seq<FieldView> {
        array_written(self@)
    }

    fn schema(
        fields: &mut Vec<Leaf>,
        prefix: Option<&str>,
        repetition_override: Option<Repetition>,
        logical_type: Option<LogicalType>,
    ) {
        let ghost before = leaf_views(fields@);
        let mut i: usize = 0;
        assert(leaf_views(fields@) =~= before + array_leaves::<T>(
            0,
            opt_chars(prefix),
            repetition_override,
            logical_type,
        ));
        while i < N
            invariant
                i <= N,
                leaf_views(fields@) == before + array_leaves::<T>(
                    i as nat,
                    opt_chars(prefix),
                    repetition_override,
                    logical_type,
                ),
                array_leaves::<T>(
                    i as nat,
                    opt_chars(prefix),
                    repetition_override,
                    logical_type,
                ).len() == i * T::width(),
            decreases N - i,
        {
            let name = indexed_name(prefix, i);
            T::schema(fields, Some(name.as_str()), repetition_override, logical_type);
            proof {
                let grown = array_leaves::<T>(
                    (i + 1) as nat,
                    opt_chars(prefix),
                    repetition_override,
                    logical_type,
                );
                assert(leaf_views(fields@) =~= before + grown);
                assert(grown.len() == (i + 1) * T::width()) by (nonlinear_arith)
                    requires
                        grown.len() == i * T::width() + T::width(),
                ;
            }
            i += 1;
        }
    }

    fn append(&self, rows: &mut RowBuffer) -> (result: Result<(), PersistError>) {
        let ghost items = self@;
        let mut i: usize = 0;
        assert(items.take(0) =~= Seq::<T>::empty());
        while i < N
            invariant
                i <= N,
                items == self@,
                items.len() == N,
                all_writable(items.take(i as int)),
                rows@ == old(rows)@.extended(array_cells(items.take(i as int))),
                array_cells(items.take(i as int)).len() == i * T::width(),
                array_written(items.take(i as int)) == array_cells(items.take(i as int)),
            decreases N - i,
        {
            proof {
                assert(items.take(i + 1).drop_last() =~= items.take(i as int));
                assert(items.take(i + 1).last() == items[i as int]);
                lemma_extended_concat(
                    old(rows)@,
                    array_cells(items.take(i as int)),
                    items[i as int].written(),
                );
            }
            match self[i].append(rows) {
                Ok(()) => {},
                Err(error) => {
                    proof {
                        lemma_array_written_stops(items, i as int);
                    }
                    return Err(error);
                },
            }
            proof {
                let grown = array_cells(items.take(i + 1));
                assert(grown.len() == (i + 1) * T::width()) by (nonlinear_arith)
                    requires
                        grown.len() == i * T::width() + T::width(),
                ;
                assert forall|k: int| 0 <= k < i + 1 implies (#[trigger] items.take(
                    i + 1,
                )[k]).writable() by {
                    if k < i {
                        assert(items.take(i as int)[k] == items.take(i + 1)[k]);
                    }
                }
            }
            i += 1;
        }
        assert(items.take(N as int) =~= items);
        Ok(())
    }

    fn field_count() -> (count: usize) {
        let mut fields: Vec<Leaf> = Vec::new();
        Self::schema(&mut fields, Some("any"), None, None);
        assert(leaf_views(fields@).len() == fields@.len());
        fields.len()
    }
}

} // verus!
