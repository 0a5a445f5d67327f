use chrono::DateTime;
use compact_str::CompactString;
use record_persist::config::PersistConfig;
use record_persist::error::PersistError;
use record_persist::field::Field;
use record_persist::outside::{nanos_field, push_decimal, span_field, Timestamp};
use record_persist::persist::{push_cell, push_leaf, Double, Float, Summary};
use record_persist::row::RowBuffer;
use record_persist::schema::{Leaf, LogicalType, PhysicalType, Repetition, TimeUnit};
use record_persist::writer::TableWriter;
use record_persist::Persistable;
use rust_decimal::Decimal;
use std::time::Duration;

fn laid_out<T: Persistable>(prefix: Option<&str>) -> Vec<Leaf> {
    let mut fields = Vec::new();
    T::schema(&mut fields, prefix, None, None);
    fields
}

fn pushed<T: Persistable>(value: &T) -> Vec<Field> {
    let mut rows = RowBuffer::new();
    rows.begin();
    value.append(&mut rows).unwrap();
    assert_eq!(rows.cursor(), rows.lanes().len());
    rows.lanes().iter().map(|lane| {
        assert_eq!(lane.len(), 1);
        lane[0].clone()
    }).collect()
}

fn column(name: &str, physical_type: PhysicalType, logical_type: Option<LogicalType>) -> Leaf {
    Leaf { name: name.to_string(), physical_type, repetition: Repetition::Required, logical_type }
}

fn optional(name: &str, physical_type: PhysicalType, logical_type: Option<LogicalType>) -> Leaf {
    Leaf { name: name.to_string(), physical_type, repetition: Repetition::Optional, logical_type }
}

fn nanos_utc() -> LogicalType {
    LogicalType::Timestamp { unit: TimeUnit::Nanos, adjusted_to_utc: true }
}

#[test]
fn booleans() {
    assert_eq!(laid_out::<bool>(Some("v")), vec![column("v", PhysicalType::Bool, None)]);
    assert_eq!(pushed(&true), vec![Field::Bool(true)]);
    assert_eq!(pushed(&false), vec![Field::Bool(false)]);
    assert_eq!(bool::field_count(), 1);
}

#[test]
fn signed_integers() {
    assert_eq!(laid_out::<i16>(Some("v")), vec![column("v", PhysicalType::Int32, None)]);
    assert_eq!(laid_out::<i32>(Some("v")), vec![column("v", PhysicalType::Int32, None)]);
    assert_eq!(laid_out::<i64>(Some("v")), vec![column("v", PhysicalType::Int64, None)]);
    assert_eq!(laid_out::<isize>(Some("v")), vec![column("v", PhysicalType::Int64, None)]);
    assert_eq!(pushed(&-5i16), vec![Field::Int(-5)]);
    assert_eq!(pushed(&i16::MIN), vec![Field::Int(-32768)]);
    assert_eq!(pushed(&7i32), vec![Field::Int(7)]);
    assert_eq!(pushed(&i32::MIN), vec![Field::Int(i32::MIN)]);
    assert_eq!(pushed(&-9i64), vec![Field::Long(-9)]);
    assert_eq!(pushed(&i64::MAX), vec![Field::Long(i64::MAX)]);
    assert_eq!(pushed(&-11isize), vec![Field::Long(-11)]);
    assert_eq!(i16::field_count() + i32::field_count() + i64::field_count() + isize::field_count(), 4);
}

#[test]
fn unsigned_integers() {
    assert_eq!(laid_out::<u16>(Some("v")), vec![column("v", PhysicalType::Int32, None)]);
    assert_eq!(laid_out::<u32>(Some("v")), vec![column("v", PhysicalType::Int32, None)]);
    assert_eq!(laid_out::<u64>(Some("v")), vec![column("v", PhysicalType::Int64, None)]);
    assert_eq!(laid_out::<usize>(Some("v")), vec![column("v", PhysicalType::Int64, None)]);
    assert_eq!(pushed(&65535u16), vec![Field::UInt(65535)]);
    assert_eq!(pushed(&4000000000u32), vec![Field::UInt(4000000000)]);
    assert_eq!(pushed(&u64::MAX), vec![Field::ULong(u64::MAX)]);
    assert_eq!(pushed(&12usize), vec![Field::ULong(12)]);
    assert_eq!(u16::field_count() + u32::field_count() + u64::field_count() + usize::field_count(), 4);
}

#[test]
fn floats_by_their_bits() {
    assert_eq!(laid_out::<Float>(Some("v")), vec![column("v", PhysicalType::Float, None)]);
    assert_eq!(laid_out::<Double>(Some("v")), vec![column("v", PhysicalType::Double, None)]);
    assert_eq!(pushed(&Float(1.5f32.to_bits())), vec![Field::Float(0x3fc00000)]);
    assert_eq!(pushed(&Double(50.0f64.to_bits())), vec![Field::Double(0x4049000000000000)]);
    assert_eq!(Float::field_count(), 1);
    assert_eq!(Double::field_count(), 1);
}

#[test]
fn a_logical_type_is_handed_to_a_number() {
    let mut fields = Vec::new();
    u64::schema(&mut fields, Some("ts"), Some(Repetition::Optional), Some(nanos_utc()));
    assert_eq!(fields, vec![optional("ts", PhysicalType::Int64, Some(nanos_utc()))]);
}

#[test]
fn strings() {
    let text = Some(LogicalType::String);
    assert_eq!(laid_out::<String>(Some("v")), vec![column("v", PhysicalType::ByteArray, text)]);
    assert_eq!(laid_out::<&str>(Some("v")), vec![column("v", PhysicalType::ByteArray, text)]);
    assert_eq!(laid_out::<Summary>(Some("v")), vec![column("v", PhysicalType::ByteArray, text)]);
    assert_eq!(pushed(&"abc".to_string()), vec![Field::Str("abc".to_string())]);
    assert_eq!(pushed(&"xyz"), vec![Field::Str("xyz".to_string())]);
    assert_eq!(
        pushed(&Summary::new(format!("{:?}", vec![1, 2, 3]))),
        vec![Field::Str("[1, 2, 3]".to_string())]
    );
    let mut fields = Vec::new();
    String::schema(&mut fields, Some("s"), None, Some(nanos_utc()));
    assert_eq!(fields, vec![column("s", PhysicalType::ByteArray, text)]);
    assert_eq!(String::field_count(), 1);
    assert_eq!(<&str>::field_count(), 1);
    assert_eq!(Summary::field_count(), 1);
}

#[test]
fn compact_strings() {
    let text = Some(LogicalType::String);
    assert_eq!(
        laid_out::<CompactString>(Some("v")),
        vec![column("v", PhysicalType::ByteArray, text)]
    );
    assert_eq!(pushed(&CompactString::new("abc")), vec![Field::Str("abc".to_string())]);
    assert_eq!(
        pushed(&CompactString::new("a text that is too long to be held in place")),
        vec![Field::Str("a text that is too long to be held in place".to_string())]
    );
    assert_eq!(CompactString::field_count(), 1);
}

#[test]
fn timestamps() {
    assert_eq!(
        laid_out::<Timestamp>(Some("v")),
        vec![column("v", PhysicalType::Int64, Some(nanos_utc()))]
    );
    let time = DateTime::from_timestamp(1_700_000_000, 5).unwrap().naive_utc();
    assert_eq!(pushed(&Timestamp { time }), vec![Field::ULong(1_700_000_000_000_000_005)]);
    let epoch = DateTime::from_timestamp(0, 0).unwrap().naive_utc();
    assert_eq!(pushed(&Timestamp { time: epoch }), vec![Field::ULong(0)]);
    let before = DateTime::from_timestamp(-1, 0).unwrap().naive_utc();
    assert_eq!(pushed(&Timestamp { time: before }), vec![Field::ULong(18446744072709551616)]);
    assert_eq!(Timestamp::field_count(), 1);
}

#[test]
fn a_timestamp_out_of_range_is_zero() {
    let far = DateTime::from_timestamp(10_000_000_000, 0).unwrap();
    assert_eq!(far.timestamp_nanos_opt(), None);
    let far = far.naive_utc();
    assert_eq!(pushed(&Timestamp { time: far }), vec![Field::ULong(0)]);
    assert_eq!(nanos_field(None), Field::ULong(0));
    assert_eq!(nanos_field(Some(12)), Field::ULong(12));
    assert_eq!(nanos_field(Some(-1)), Field::ULong(u64::MAX));
}

#[test]
fn durations() {
    assert_eq!(laid_out::<Duration>(Some("v")), vec![column("v_ns", PhysicalType::Int64, None)]);
    assert_eq!(pushed(&Duration::new(1, 5)), vec![Field::ULong(1_000_000_005)]);
    assert_eq!(pushed(&Duration::from_millis(2)), vec![Field::ULong(2_000_000)]);
    assert_eq!(span_field(3), Field::ULong(3));
    assert_eq!(span_field(1u128 << 64), Field::ULong(0));
    assert_eq!(span_field((1u128 << 64) + 9), Field::ULong(9));
    assert_eq!(Duration::field_count(), 1);
}

#[test]
fn decimals_as_doubles() {
    assert_eq!(
        laid_out::<Decimal>(Some("v")),
        vec![column("v", PhysicalType::Double, Some(LogicalType::String))]
    );
    assert_eq!(pushed(&Decimal::new(5, 1)), vec![Field::Double(0.5f64.to_bits())]);
    assert_eq!(pushed(&Decimal::new(42, 0)), vec![Field::Double(42.0f64.to_bits())]);
    assert_eq!(pushed(&Decimal::new(-25, 2)), vec![Field::Double((-0.25f64).to_bits())]);
    assert_eq!(Decimal::field_count(), 1);
}

#[test]
fn a_decimal_without_a_double_pushes_nothing() {
    let mut rows = RowBuffer::new();
    assert!(push_decimal(&mut rows, None).is_err());
    assert!(rows.lanes().is_empty());
    assert!(push_decimal(&mut rows, Some(7)).is_ok());
    assert_eq!(rows.lanes(), &vec![vec![Field::Double(7)]]);
}

#[test]
fn optional_values() {
    assert_eq!(laid_out::<Option<u32>>(Some("v")), vec![optional("v", PhysicalType::Int32, None)]);
    assert_eq!(pushed(&Some(3u32)), vec![Field::UInt(3)]);
    assert_eq!(pushed(&None::<u32>), vec![Field::Null]);
    assert_eq!(
        laid_out::<Option<Option<String>>>(Some("v")),
        vec![optional("v", PhysicalType::ByteArray, Some(LogicalType::String))]
    );
    assert_eq!(Option::<u32>::field_count(), 1);
}

#[test]
fn an_absent_value_is_a_null_for_each_leaf() {
    assert_eq!(pushed(&None::<(Double, Double)>), vec![Field::Null, Field::Null]);
    assert_eq!(
        pushed(&None::<[(u32, String); 3]>),
        vec![Field::Null, Field::Null, Field::Null, Field::Null, Field::Null, Field::Null]
    );
    assert_eq!(Option::<(Double, Double)>::field_count(), 2);
    assert_eq!(Option::<[(u32, String); 3]>::field_count(), 6);
    assert_eq!(pushed(&None::<[u32; 0]>), Vec::<Field>::new());
}

#[test]
fn pairs() {
    assert_eq!(
        laid_out::<(u32, bool)>(Some("p")),
        vec![column("p_0", PhysicalType::Int32, None), column("p_1", PhysicalType::Bool, None)]
    );
    assert_eq!(pushed(&(3u32, true)), vec![Field::UInt(3), Field::Bool(true)]);
    assert_eq!(
        laid_out::<((u32, i64), Option<bool>)>(Some("p")),
        vec![
            column("p_0_0", PhysicalType::Int32, None),
            column("p_0_1", PhysicalType::Int64, None),
            optional("p_1", PhysicalType::Bool, None),
        ]
    );
    assert_eq!(<(u32, bool)>::field_count(), 2);
    assert_eq!(<((u32, i64), Option<bool>)>::field_count(), 3);
}

#[test]
fn a_pair_without_a_name_hands_none_down() {
    assert_eq!(
        laid_out::<([u32; 1], [bool; 2])>(None),
        vec![
            column("0", PhysicalType::Int32, None),
            column("0", PhysicalType::Bool, None),
            column("1", PhysicalType::Bool, None),
        ]
    );
}

#[test]
fn arrays() {
    assert_eq!(
        laid_out::<[u32; 3]>(Some("a")),
        vec![
            column("a_0", PhysicalType::Int32, None),
            column("a_1", PhysicalType::Int32, None),
            column("a_2", PhysicalType::Int32, None),
        ]
    );
    assert_eq!(
        laid_out::<[bool; 2]>(None),
        vec![column("0", PhysicalType::Bool, None), column("1", PhysicalType::Bool, None)]
    );
    assert_eq!(pushed(&[1u32, 2, 3]), vec![Field::UInt(1), Field::UInt(2), Field::UInt(3)]);
    assert_eq!(<[u32; 3]>::field_count(), 3);
    assert_eq!(<[(u32, bool); 32]>::field_count(), 64);
    assert_eq!(laid_out::<[u32; 32]>(Some("a"))[31].name, "a_31");
    assert_eq!(laid_out::<[u32; 12]>(Some("a"))[10].name, "a_10");
}

#[test]
fn as_many_fields_as_leaves() {
    fn check<T: Persistable>(value: T) {
        let mut fields = Vec::new();
        T::schema(&mut fields, Some("any"), None, None);
        assert_eq!(pushed(&value).len(), T::field_count());
        assert_eq!(fields.len(), T::field_count());
    }
    check(true);
    check(1i16);
    check(1u64);
    check("s");
    check(Some((1u32, 2u64)));
    check(None::<(u32, u64)>);
    check([(1u32, Some(true)), (2u32, None)]);
    check((Duration::new(0, 1), Decimal::new(1, 0)));
    check(Timestamp { time: DateTime::from_timestamp(1, 0).unwrap().naive_utc() });
}

#[test]
fn pushing_a_leaf_and_a_cell() {
    let mut fields = Vec::new();
    push_leaf(&mut fields, Some("n"), PhysicalType::Float, Some(Repetition::Optional), None);
    assert_eq!(fields, vec![optional("n", PhysicalType::Float, None)]);
    let mut rows = RowBuffer::new();
    push_cell(&mut rows, Field::Int(1));
    push_cell(&mut rows, Field::Null);
    assert_eq!(rows.lanes(), &vec![vec![Field::Int(1)], vec![Field::Null]]);
}

struct Fussy {
    value: i32,
}

impl Persistable for Fussy {
    fn schema(
        fields: &mut Vec<Leaf>,
        prefix: Option<&str>,
        repetition_override: Option<Repetition>,
        _logical_type: Option<LogicalType>,
    ) {
        push_leaf(fields, Some(prefix.unwrap_or("value")), PhysicalType::Int32, repetition_override, None);
        push_leaf(fields, Some(prefix.unwrap_or("sign")), PhysicalType::Bool, repetition_override, None);
    }

    fn append(&self, rows: &mut RowBuffer) -> Result<(), PersistError> {
        push_cell(rows, Field::Int(self.value));
        if self.value < 0 {
            return Err(PersistError::Other("negative".to_string()));
        }
        push_cell(rows, Field::Bool(true));
        Ok(())
    }

    fn field_count() -> usize {
        2
    }
}

fn attempted<T: Persistable>(value: &T) -> (Result<(), PersistError>, Vec<Field>) {
    let mut rows = RowBuffer::new();
    rows.begin();
    let result = value.append(&mut rows);
    (result, rows.lanes().iter().map(|lane| lane[0].clone()).collect())
}

fn negative() -> Result<(), PersistError> {
    Err(PersistError::Other("negative".to_string()))
}

#[test]
fn a_pair_stops_at_the_member_that_fails() {
    assert_eq!(
        attempted(&(7u32, Fussy { value: 1 })),
        (Ok(()), vec![Field::UInt(7), Field::Int(1), Field::Bool(true)])
    );
    assert_eq!(
        attempted(&(7u32, Fussy { value: -1 })),
        (negative(), vec![Field::UInt(7), Field::Int(-1)])
    );
    assert_eq!(attempted(&(Fussy { value: -2 }, 7u32)), (negative(), vec![Field::Int(-2)]));
    assert_eq!(
        attempted(&(Fussy { value: -2 }, Fussy { value: -3 })),
        (negative(), vec![Field::Int(-2)])
    );
}

#[test]
fn an_array_stops_at_the_element_that_fails() {
    assert_eq!(
        attempted(&[Fussy { value: 1 }, Fussy { value: 2 }]),
        (Ok(()), vec![Field::Int(1), Field::Bool(true), Field::Int(2), Field::Bool(true)])
    );
    assert_eq!(
        attempted(&[Fussy { value: 1 }, Fussy { value: -2 }, Fussy { value: 3 }]),
        (negative(), vec![Field::Int(1), Field::Bool(true), Field::Int(-2)])
    );
    assert_eq!(
        attempted(&[Fussy { value: -1 }, Fussy { value: -2 }]),
        (negative(), vec![Field::Int(-1)])
    );
    assert_eq!(attempted(&[0u8; 0].map(|_| Fussy { value: -1 })), (Ok(()), Vec::new()));
}

#[test]
fn an_optional_value_fails_as_its_value_does() {
    assert_eq!(attempted(&Some(Fussy { value: -1 })), (negative(), vec![Field::Int(-1)]));
    assert_eq!(
        attempted(&Some(Fussy { value: 4 })),
        (Ok(()), vec![Field::Int(4), Field::Bool(true)])
    );
    assert_eq!(attempted(&None::<Fussy>), (Ok(()), vec![Field::Null, Field::Null]));
}

#[test]
fn a_row_keeps_what_was_pushed_before_a_failure() {
    let mut writer = TableWriter::new("t", &PersistConfig::new("dir", "t"));
    let row = writer.begin().unwrap();
    assert_eq!(
        row.record(&[Fussy { value: 1 }, Fussy { value: -2 }]).err(),
        Some(PersistError::Other("negative".to_string()))
    );
    assert_eq!(writer.fields().len(), 4);
    assert!(writer.schema().is_none());
    assert_eq!(writer.len(), 1);
    assert!(writer.take_rolled().is_empty());
    let mut disabled = TableWriter::new("t", &PersistConfig::new("", "t"));
    assert!(disabled.begin().unwrap().record(&[Fussy { value: -2 }]).is_ok());
}
