//! What is taken from other crates: timestamps, durations, decimals and
//! compact strings, which can be persisted, and the compression level and
//! the error of the file format.

use crate::error::PersistError;
use crate::field::{Field, FieldView};
use crate::persist::{push_cell, push_leaf, single_leaf, Persistable};
use crate::row::RowBuffer;
use crate::schema::{utc_timestamp, Leaf, LeafView, LogicalType, PhysicalType, Repetition, TimeUnit};
use crate::text::joined;
use vstd::prelude::*;

verus! {

/// `chrono::NaiveDateTime`: a date and a time of day. Nothing is known of
/// what a value holds.
#[verifier::external_type_specification]
#[verifier::external_body]
pub struct ExNaiveDateTime(chrono::NaiveDateTime);

/// A point in time: its date and time of day in UTC.
#[derive(Debug)]
pub struct Timestamp {
    pub time: chrono::NaiveDateTime,
}

/// `rust_decimal::Decimal`: a decimal number. Nothing is known of what a
/// value holds.
#[verifier::external_type_specification]
#[verifier::external_body]
pub struct ExDecimal(rust_decimal::Decimal);

/// `compact_str::CompactString`: a string. Nothing is known of what a value
/// holds.
#[verifier::external_type_specification]
#[verifier::external_body]
pub struct ExCompactString(compact_str::CompactString);

/// `parquet::basic::ZstdLevel`: a compression level. Nothing is known of
/// what a value holds.
#[verifier::external_type_specification]
#[verifier::external_body]
pub struct ExZstdLevel(parquet::basic::ZstdLevel);

/// `parquet::errors::ParquetError`: an error of the file format. Nothing is
/// known of what a value holds.
#[verifier::external_type_specification]
#[verifier::external_body]
pub struct ExParquetError(parquet::errors::ParquetError);

/// The number that a compression level stands for.
pub uninterp spec fn zstd_level_value(level: parquet::basic::ZstdLevel) -> i32;

/// `parquet::basic::ZstdLevel::try_new`: a level is made of every number
/// from -131072 to 22, and of no other; it stands for the number it was
/// made of.
pub assume_specification[ parquet::basic::ZstdLevel::try_new ](level: i32) -> (result: Result<
    parquet::basic::ZstdLevel,
    parquet::errors::ParquetError,
>)
    ensures
        result is Ok <==> -131072 <= level <= 22,
        result is Ok ==> zstd_level_value(result->Ok_0) == level,
;

/// The text that an error of the file format shows.
pub uninterp spec fn parquet_error_chars(err: parquet::errors::ParquetError) -> Seq<char>;

/// `to_string` on a `parquet::errors::ParquetError`, which goes by its
/// `Display`. Nothing is claimed but that the result depends on the error
/// alone.
#[verifier::external_body]
pub(crate) fn parquet_error_text(err: &parquet::errors::ParquetError) -> (text: String)
    ensures
        text@ == parquet_error_chars(*err),
{
    err.to_string()
}

/// The nanoseconds from the epoch to a point in time, where they fit 64 bits.
pub uninterp spec fn datetime_nanos(time: chrono::NaiveDateTime) -> Option<i64>;

/// The nanoseconds that a duration spans.
pub uninterp spec fn duration_nanos(span: std::time::Duration) -> u128;

/// The bits of the double that a decimal is turned into, where it is
/// turned into one.
pub uninterp spec fn decimal_double(value: rust_decimal::Decimal) -> Option<u64>;

/// The characters of a compact string.
pub uninterp spec fn compact_chars(text: compact_str::CompactString) -> Seq<char>;

/// `chrono::DateTime::timestamp_nanos_opt` on the time taken as UTC: the
/// nanoseconds since the epoch, or nothing where they do not fit an `i64`.
/// Nothing is claimed but that the result depends on the point in time
/// alone.
#[verifier::external_body]
fn timestamp_nanos(time: &chrono::NaiveDateTime) -> (nanos: Option<i64>)
    ensures
        nanos == datetime_nanos(*time),
{
    time.and_utc().timestamp_nanos_opt()
}

/// `std::time::Duration::as_nanos`: the total number of nanoseconds of the
/// duration. Nothing is claimed but that the result depends on the duration
/// alone.
#[verifier::external_body]
fn span_nanos(span: &std::time::Duration) -> (nanos: u128)
    ensures
        nanos == duration_nanos(*span),
{
    span.as_nanos()
}

/// `rust_decimal::Decimal::to_f64` (of `ToPrimitive`), the double handed
/// back as its bits. Nothing is claimed but that the result depends on the
/// decimal alone.
#[verifier::external_body]
fn decimal_bits(value: &rust_decimal::Decimal) -> (bits: Option<u64>)
    ensures
        bits == decimal_double(*value),
{
    match rust_decimal::prelude::ToPrimitive::to_f64(value) {
        Some(double) => Some(double.to_bits()),
        None => None,
    }
}

/// `compact_str::CompactString::as_str`, copied to a `String`. Nothing is
/// claimed but that the result depends on the compact string alone.
#[verifier::external_body]
fn compact_text(text: &compact_str::CompactString) -> (copy: String)
    ensures
        copy@ == compact_chars(*text),
{
    text.as_str().to_owned()
}

/// The field of a timestamp: its nanoseconds, bits kept, and 0 where there
/// are none.
pub open spec fn nanos_cell(nanos: Option<i64>) -> FieldView {
    match nanos {
        Some(n) => FieldView::ULong(n as u64),
        None => FieldView::ULong(0),
    }
}

/// The field of a timestamp whose nanoseconds are given.
pub fn nanos_field(nanos: Option<i64>) -> (field: Field)
    ensures
        field@ == nanos_cell(nanos),
{
    match nanos {
        Some(n) => Field::ULong(#[verifier::truncate] (n as u64)),
        None => Field::ULong(0),
    }
}

impl Persistable for Timestamp {
    open spec fn needs_name() -> bool {
        true
    }

    open spec fn width() -> nat {
        1
    }

    open spec fn leaves(
        prefix: Option<Seq<char>>,
        repetition: Option<Repetition>,
        logical_type: Option<LogicalType>,
    ) -> Seq<LeafView> {
        single_leaf(prefix, PhysicalType::Int64, repetition, Some(utc_timestamp(TimeUnit::Nanos)))
    }

    open spec fn cells(&self) -> Seq<FieldView> {
        seq![nanos_cell(datetime_nanos(self.time))]
    }

    open spec fn writable(&self) -> bool {
        true
    }

    open spec fn written(&self) -> Seq<FieldView> {
        self.cells()
    }

    fn schema(
        fields: &mut Vec<Leaf>,
        prefix: Option<&str>,
        repetition_override: Option<Repetition>,
        logical_type: Option<LogicalType>,
    ) {
        push_leaf(
            fields,
            prefix,
            PhysicalType::Int64,
            repetition_override,
            Some(LogicalType::Timestamp { unit: TimeUnit::Nanos, adjusted_to_utc: true }),
        );
    }

    fn append(&self, rows: &mut RowBuffer) -> (result: Result<(), PersistError>)
        ensures
            result is Ok,
    {
        push_cell(rows, nanos_field(timestamp_nanos(&self.time)));
        Ok(())
    }

    fn field_count() -> (count: usize) {
        1
    }
}

/// The name of a duration's leaf: the name it was given and `_ns`.
pub open spec fn span_name(prefix: Option<Seq<char>>) -> Option<Seq<char>> {
    match prefix {
        Some(p) => Some(p + "_ns"@),
        None => None,
    }
}

/// The field of a duration: the low 64 bits of its nanoseconds.
pub open spec fn span_cell(nanos: u128) -> FieldView {
    FieldView::ULong(nanos as u64)
}

/// The field of a duration whose nanoseconds are given.
pub fn span_field(nanos: u128) -> (field: Field)
    ensures
        field@ == span_cell(nanos),
{
    Field::ULong(#[verifier::truncate] (nanos as u64))
}

impl Persistable for std::time::Duration {
    open spec fn needs_name() -> bool {
        true
    }

    open spec fn width() -> nat {
        1
    }

    open spec fn leaves(
        prefix: Option<Seq<char>>,
        repetition: Option<Repetition>,
        logical_type: Option<LogicalType>,
    ) -> Seq<LeafView> {
        single_leaf(span_name(prefix), PhysicalType::Int64, repetition, logical_type)
    }

    open spec fn cells(&self) -> Seq<FieldView> {
        seq![span_cell(duration_nanos(*self))]
    }

    open spec fn writable(&self) -> bool {
        true
    }

    open spec fn written(&self) -> Seq<FieldView> {
        self.cells()
    }

    fn schema(
        fields: &mut Vec<Leaf>,
        prefix: Option<&str>,
        repetition_override: Option<Repetition>,
        logical_type: Option<LogicalType>,
    ) {
        let name = match prefix {
            Some(p) => joined(p, "_ns"),
            None => String::new(),
        };
        push_leaf(
            fields,
            Some(name.as_str()),
            PhysicalType::Int64,
            repetition_override,
            logical_type,
        );
    }

    fn append(&self, rows: &mut RowBuffer) -> (result: Result<(), PersistError>)
        ensures
            result is Ok,
    {
        push_cell(rows, span_field(span_nanos(self)));
        Ok(())
    }

    fn field_count() -> (count: usize) {
        1
    }
}

/// The field of a decimal whose double is given, by its bits.
pub open spec fn decimal_cell(bits: Option<u64>) -> FieldView {
    match bits {
        Some(b) => FieldView::Double(b),
        None => FieldView::Null,
    }
}

/// Whether the error says that a decimal has no double.
pub open spec fn no_double(error: PersistError) -> bool {
    error matches PersistError::Other(text) && text@ == "the decimal has no double value"@
}

/// Pushes the field of a decimal whose double is given; fails, and pushes
/// nothing, where the decimal has no double.
pub fn push_decimal(rows: &mut RowBuffer, bits: Option<u64>) -> (result: Result<(), PersistError>)
    ensures
        result is Ok <==> bits is Some,
        result is Ok ==> final(rows)@ == old(rows)@.extended(seq![decimal_cell(bits)]),
        result is Err ==> final(rows)@ == old(rows)@,
        result matches Err(error) ==> no_double(error),
{
    match bits {
        Some(b) => {
            push_cell(rows, Field::Double(b));
            Ok(())
        },
        None => Err(PersistError::Other("the decimal has no double value".to_owned())),
    }
}

impl Persistable for rust_decimal::Decimal {
    open spec fn needs_name() -> bool {
        true
    }

    open spec fn width() -> nat {
        1
    }

    open spec fn leaves(
        prefix: Option<Seq<char>>,
        repetition: Option<Repetition>,
        logical_type: Option<LogicalType>,
    ) -> Seq<LeafView> {
        single_leaf(prefix, PhysicalType::Double, repetition, Some(LogicalType::String))
    }

    open spec fn cells(&self) -> Seq<FieldView> {
        seq![decimal_cell(decimal_double(*self))]
    }

    open spec fn writable(&self) -> bool {
        decimal_double(*self) is Some
    }

    open spec fn written(&self) -> Seq<FieldView> {
        if decimal_double(*self) is Some {
            self.cells()
        } else {
            Seq::empty()
        }
    }

    fn schema(
        fields: &mut Vec<Leaf>,
        prefix: Option<&str>,
        repetition_override: Option<Repetition>,
        logical_type: Option<LogicalType>,
    ) {
        push_leaf(
            fields,
            prefix,
            PhysicalType::Double,
            repetition_override,
            Some(LogicalType::String),
        );
    }

    fn append(&self, rows: &mut RowBuffer) -> (result: Result<(), PersistError>)
        ensures
            result matches Err(error) ==> no_double(error),
    {
        push_decimal(rows, decimal_bits(self))
    }

    fn field_count() -> (count: usize) {
        1
    }
}

impl Persistable for compact_str::CompactString {
    open spec fn needs_name() -> bool {
        true
    }

    open spec fn width() -> nat {
        1
    }

    open spec fn leaves(
        prefix: Option<Seq<char>>,
        repetition: Option<Repetition>,
        logical_type: Option<LogicalType>,
    ) -> Seq<LeafView> {
        single_leaf(prefix, PhysicalType::ByteArray, repetition, Some(LogicalType::String))
    }

    open spec fn cells(&self) -> Seq<FieldView> {
        seq![FieldView::Str(compact_chars(*self))]
    }

    open spec fn writable(&self) -> bool {
        true
    }

    open spec fn written(&self) -> Seq<FieldView> {
        self.cells()
    }

    fn schema(
        fields: &mut Vec<Leaf>,
        prefix: Option<&str>,
        repetition_override: Option<Repetition>,
        logical_type: Option<LogicalType>,
    ) {
        push_leaf(
            fields,
            prefix,
            PhysicalType::ByteArray,
            repetition_override,
            Some(LogicalType::String),
        );
    }

    fn append(&self, rows: &mut RowBuffer) -> (result: Result<(), PersistError>)
        ensures
            result is Ok,
    {
        push_cell(rows, Field::Str(compact_text(self)));
        Ok(())
    }

    fn field_count() -> (count: usize) {
        1
    }
}

} // verus!
