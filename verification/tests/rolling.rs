use record_persist::config::PersistConfig;
use record_persist::derive::field_schema;
use record_persist::error::PersistError;
use record_persist::row::{ColumnValues, RowBuffer};
use record_persist::schema::{Leaf, LogicalType, Repetition};
use record_persist::writer::{RolledFile, RowBuilder, TableWriter, BUFFERED_ROWS};
use record_persist::Persistable;

struct Tick {
    id: u32,
    at: Option<u64>,
}

impl Persistable for Tick {
    fn schema(
        fields: &mut Vec<Leaf>,
        prefix: Option<&str>,
        repetition_override: Option<Repetition>,
        _logical_type: Option<LogicalType>,
    ) {
        field_schema::<u32>(fields, prefix, "id", repetition_override, None);
        field_schema::<Option<u64>>(fields, prefix, "at", repetition_override, None);
    }

    fn append(&self, rows: &mut RowBuffer) -> Result<(), PersistError> {
        self.id.append(rows)?;
        self.at.append(rows)?;
        Ok(())
    }

    fn field_count() -> usize {
        2
    }
}

fn tick(value: u32) -> Tick {
    Tick { id: value, at: Some(value as u64) }
}

fn writer_with(flush_size: usize) -> TableWriter {
    let mut writer = TableWriter::new("t", &PersistConfig::new("dir", "t"));
    writer.set_flush_size(flush_size);
    writer
}

fn put(writer: &mut TableWriter, value: u32) {
    writer.begin().unwrap().record(&tick(value)).unwrap().end().unwrap();
}

fn rows_of(file: &RolledFile) -> usize {
    assert_eq!(file.image.row_groups.len(), 1);
    file.image.row_groups[0].rows
}

#[test]
fn the_flush_size_of_a_new_writer() {
    assert_eq!(BUFFERED_ROWS, 1_000_000);
    let mut writer = TableWriter::new("t", &PersistConfig::new("dir", "t"));
    for i in 0..100 {
        put(&mut writer, i);
    }
    assert_eq!(writer.len(), 100);
    assert!(writer.take_rolled().is_empty());
}

#[test]
fn files_roll_when_the_flush_size_is_reached() {
    let mut writer = writer_with(3);
    for i in 0..7 {
        put(&mut writer, i);
    }
    assert_eq!(writer.len(), 1);
    writer.flush().unwrap();
    assert_eq!(writer.len(), 0);
    let files = writer.take_rolled();
    let names: Vec<&str> = files.iter().map(|file| file.name.as_str()).collect();
    assert_eq!(names, vec!["000000000.parquet", "000000001.parquet", "000000002.parquet"]);
    let indices: Vec<usize> = files.iter().map(|file| file.index).collect();
    assert_eq!(indices, vec![0, 1, 2]);
    let rows: Vec<usize> = files.iter().map(rows_of).collect();
    assert_eq!(rows, vec![3, 3, 1]);
    assert_eq!(
        files[1].image.row_groups[0].columns[0].values,
        ColumnValues::Int32s(vec![3, 4, 5])
    );
    assert_eq!(files[2].image.row_groups[0].columns[1].values, ColumnValues::Int64s(vec![6]));
    assert_eq!(writer.file_index(), 3);
}

#[test]
fn finishing_rolls_what_is_left() {
    let mut writer = writer_with(3);
    for i in 0..7 {
        put(&mut writer, i);
    }
    let files = writer.finish();
    let rows: Vec<usize> = files.iter().map(rows_of).collect();
    assert_eq!(rows, vec![3, 3, 1]);
    assert_eq!(files[2].name, "000000002.parquet");
}

#[test]
fn finishing_with_nothing_buffered_rolls_nothing() {
    let writer = writer_with(3);
    assert!(writer.finish().is_empty());
    let mut writer = writer_with(2);
    put(&mut writer, 1);
    put(&mut writer, 2);
    let files = writer.finish();
    assert_eq!(files.len(), 1);
}

#[test]
fn finishing_swallows_the_error_of_the_last_flush() {
    let mut writer = writer_with(10);
    let _ = writer.begin().unwrap().record(&tick(1)).unwrap();
    assert_eq!(writer.len(), 1);
    assert!(writer.schema().is_none());
    assert!(writer.finish().is_empty());
}

#[test]
fn flushing_an_empty_buffer_rolls_no_file() {
    let mut writer = writer_with(3);
    assert_eq!(writer.flush(), Ok(()));
    assert_eq!(writer.flush_if_needed(), Ok(()));
    assert!(writer.take_rolled().is_empty());
    assert_eq!(writer.file_index(), 0);
    put(&mut writer, 1);
    writer.flush().unwrap();
    assert_eq!(writer.flush(), Ok(()));
    assert_eq!(writer.take_rolled().len(), 1);
    assert_eq!(writer.file_index(), 1);
}

#[test]
fn a_disabled_writer_does_nothing() {
    for config in [PersistConfig::new("", "t"), PersistConfig::new("dir", "other")] {
        let mut writer = TableWriter::new("t", &config);
        writer.set_flush_size(2);
        assert!(!writer.is_enabled());
        for i in 0..50 {
            put(&mut writer, i);
            assert_eq!(writer.flush_if_needed(), Ok(()));
        }
        assert_eq!(writer.flush(), Ok(()));
        assert_eq!(writer.len(), 0);
        assert!(writer.fields().is_empty());
        assert!(writer.schema().is_none());
        assert_eq!(writer.file_index(), 0);
        assert!(writer.take_rolled().is_empty());
        assert!(writer.finish().is_empty());
    }
}

#[test]
fn no_file_rolls_in_the_middle_of_a_row() {
    let mut writer = writer_with(2);
    let first = writer.begin().unwrap().record(&tick(1)).unwrap();
    let mut first = first.record(&[true, false]).unwrap();
    assert_eq!(first.writer.len(), 1);
    first.end().unwrap();
    assert!(writer.take_rolled().is_empty());
    let second = writer.begin().unwrap().record(&tick(2)).unwrap();
    assert_eq!(second.writer.len(), 2);
    assert_eq!(second.writer.file_index(), 0);
    assert!(second.writer.take_rolled().is_empty());
    let mut second = second.record(&[false, true]).unwrap();
    assert_eq!(second.writer.len(), 2);
    assert_eq!(second.writer.file_index(), 0);
    assert!(second.writer.take_rolled().is_empty());
    second.end().unwrap();
    assert_eq!(writer.len(), 0);
    assert_eq!(writer.file_index(), 1);
    let files = writer.take_rolled();
    assert_eq!(files.len(), 1);
    assert_eq!(rows_of(&files[0]), 2);
    assert_eq!(files[0].image.row_groups[0].columns.len(), 4);
    assert_eq!(
        files[0].image.row_groups[0].columns[3].values,
        ColumnValues::Bools(vec![false, true])
    );
}

#[test]
fn a_row_of_two_values() {
    let mut writer = writer_with(2);
    for i in 0..2u32 {
        let row = writer.begin().unwrap();
        let row = row.record(&tick(i)).unwrap();
        let mut row = row.record(&[true, false]).unwrap();
        row.end().unwrap();
    }
    let files = writer.take_rolled();
    assert_eq!(files.len(), 1);
    let names: Vec<&str> =
        files[0].image.schema.fields.iter().map(|leaf| leaf.name.as_str()).collect();
    assert_eq!(names, vec!["id", "at", "0", "1"]);
    assert_eq!(rows_of(&files[0]), 2);
    assert_eq!(files[0].image.row_groups[0].columns.len(), 4);
}

#[test]
fn the_schema_is_frozen_by_the_first_row() {
    let mut writer = writer_with(10);
    assert!(writer.schema().is_none());
    let mut row = writer.begin().unwrap().record(&tick(1)).unwrap();
    assert_eq!(row.writer.fields().len(), 2);
    assert!(row.writer.schema().is_none());
    row.end().unwrap();
    let frozen = writer.schema().unwrap().clone();
    assert_eq!(frozen.name, "schema");
    assert_eq!(frozen.fields.len(), 2);
    assert_eq!(frozen.describe(), vec!["id:INT32".to_string(), "at:INT64".to_string()]);
    put(&mut writer, 2);
    assert_eq!(writer.fields().len(), 2);
    assert_eq!(writer.schema().unwrap(), &frozen);
}

#[test]
fn without_auto_flush_rows_wait_for_the_next_begin() {
    let mut writer = writer_with(2);
    writer.set_auto_flush(false);
    for i in 0..2 {
        put(&mut writer, i);
    }
    assert_eq!(writer.len(), 2);
    assert!(writer.take_rolled().is_empty());
    put(&mut writer, 2);
    assert_eq!(writer.len(), 1);
    let files = writer.take_rolled();
    assert_eq!(files.len(), 1);
    assert_eq!(rows_of(&files[0]), 2);
    assert_eq!(writer.flush_if_needed(), Ok(()));
    put(&mut writer, 3);
    assert_eq!(writer.flush_if_needed(), Ok(()));
    assert_eq!(writer.take_rolled().len(), 1);
}

#[test]
fn names_that_are_taken_are_passed_over() {
    let mut writer = writer_with(1);
    writer.observe(vec![
        "000000000.parquet".to_string(),
        "000000001.parquet".to_string(),
        "notes.txt".to_string(),
    ]);
    put(&mut writer, 1);
    put(&mut writer, 2);
    let files = writer.take_rolled();
    assert_eq!(files[0].index, 2);
    assert_eq!(files[0].name, "000000002.parquet");
    assert_eq!(files[1].name, "000000003.parquet");
    assert_eq!(writer.file_index(), 4);
}

#[test]
fn a_gap_among_the_taken_names_is_filled() {
    let mut writer = writer_with(1);
    writer.observe(vec!["000000002.parquet".to_string(), "000000001.parquet".to_string()]);
    for i in 0..3 {
        put(&mut writer, i);
    }
    let indices: Vec<usize> = writer.take_rolled().iter().map(|file| file.index).collect();
    assert_eq!(indices, vec![0, 3, 4]);
}

#[test]
fn every_file_is_compressed_at_level_one() {
    let mut writer = writer_with(1);
    put(&mut writer, 1);
    put(&mut writer, 2);
    for file in writer.take_rolled() {
        assert_eq!(file.compression.compression_level(), 1);
    }
}

#[test]
fn taking_the_files_empties_the_outbox() {
    let mut writer = writer_with(1);
    put(&mut writer, 1);
    assert_eq!(writer.take_rolled().len(), 1);
    assert!(writer.take_rolled().is_empty());
    put(&mut writer, 2);
    let files = writer.take_rolled();
    assert_eq!(files.len(), 1);
    assert_eq!(files[0].name, "000000001.parquet");
}

#[test]
fn a_flush_before_the_first_row_has_ended_fails() {
    let mut writer = writer_with(10);
    let row = writer.begin().unwrap().record(&tick(1)).unwrap();
    assert_eq!(
        row.writer.flush(),
        Err(PersistError::Other("schema has not been created".to_string()))
    );
    assert_eq!(row.writer.len(), 1);
    assert!(row.writer.take_rolled().is_empty());
}

#[test]
fn a_row_of_another_type_fails_the_flush() {
    let mut writer = writer_with(2);
    put(&mut writer, 1);
    let mut row = writer.begin().unwrap().record(&[true, false]).unwrap();
    assert!(matches!(row.end(), Err(PersistError::Invariant(_))));
    assert_eq!(writer.len(), 2);
    assert!(matches!(writer.flush(), Err(PersistError::Invariant(_))));
    assert!(matches!(writer.begin(), Err(PersistError::Invariant(_))));
    assert!(writer.take_rolled().is_empty());
    assert_eq!(writer.file_index(), 0);
}

#[test]
fn a_row_that_misses_fields_is_found_at_the_next_begin() {
    let mut writer = writer_with(10);
    put(&mut writer, 1);
    writer.begin().unwrap().record(&[7u32]).unwrap().end().unwrap();
    assert!(matches!(writer.begin(), Err(PersistError::Invariant(_))));
    assert!(matches!(writer.flush(), Err(PersistError::Invariant(_))));
    assert!(writer.finish().is_empty());
}

#[test]
fn a_builder_made_by_hand() {
    let mut writer = writer_with(10);
    let mut row = RowBuilder::new(&mut writer).record(&tick(1)).unwrap();
    row.end().unwrap();
    assert_eq!(writer.len(), 1);
}
