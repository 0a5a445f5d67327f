//! The table writer: it takes rows, freezes the schema with the first row,
//! and rolls the buffered rows into files when enough of them have come.

use crate::config::PersistConfig;
use crate::error::PersistError;
use crate::field::FieldView;
use crate::outside::zstd_level_value;
use crate::persist::Persistable;
use crate::row::{
    lanes_fit, misfit_chars, row_group_of, FileImage, FileImageView, Lanes, RowBuffer,
};
use crate::schema::{leaf_views, GroupType, GroupTypeView, Leaf, LeafView};
use crate::text::{contains_text, file_name, file_name_chars, string_views};
use parquet::basic::ZstdLevel;
use vstd::prelude::*;

verus! {

/// The number of rows that a writer buffers before it rolls a file.
pub const BUFFERED_ROWS: usize = 1_000_000;

/// A file that left the writer: its serial number and name, how it is to
/// be compressed, and what it holds.
#[derive(Debug, PartialEq, Eq)]
pub struct RolledFile {
    pub index: usize,
    pub name: String,
    pub compression: ZstdLevel,
    pub image: FileImage,
}

/// A rolled file as sequences, with the number of its compression level.
pub struct RolledFileView {
    pub index: nat,
    pub name: Seq<char>,
    pub level: i32,
    pub image: FileImageView,
}

impl View for RolledFile {
    type V = RolledFileView;

    open spec fn view(&self) -> RolledFileView {
        RolledFileView {
            index: self.index as nat,
            name: self.name@,
            level: zstd_level_value(self.compression),
            image: self.image@,
        }
    }
}

/// The views of a sequence of rolled files, in order.
pub open spec fn file_views(files: Seq<RolledFile>) -> Seq<RolledFileView> {
    files.map_values(|f: RolledFile| f@)
}

/// Whether `index` is the first serial number from `start` on whose file
/// name is not taken.
pub open spec fn is_first_free(taken: Seq<Seq<char>>, start: nat, index: nat) -> bool {
    &&& start <= index
    &&& !taken.contains(file_name_chars(index))
    &&& forall|j: nat| start <= j < index ==> taken.contains(#[trigger] file_name_chars(j))
}

/// The first serial number from `start` on whose file name is not taken.
pub open spec fn first_free(taken: Seq<Seq<char>>, start: nat) -> nat {
    choose|index: nat| is_first_free(taken, start, index)
}

/// Only one serial number is the first free one.
pub proof fn lemma_first_free_unique(taken: Seq<Seq<char>>, start: nat, a: nat, b: nat)
    requires
        is_first_free(taken, start, a),
        is_first_free(taken, start, b),
    ensures
        a == b,
{
    if a < b {
        assert(taken.contains(file_name_chars(a)));
    } else if b < a {
        assert(taken.contains(file_name_chars(b)));
    }
}

/// The name of the root of every schema.
pub open spec fn root_name() -> Seq<char> {
    "schema"@
}

/// The compression level of every rolled file.
pub open spec fn roll_level() -> i32 {
    1
}

/// What a writer holds.
pub struct WriterState {
    pub enabled: bool,
    pub keep: bool,
    pub directory: Seq<char>,
    pub table: Seq<char>,
    pub flush_size: nat,
    pub auto_flush: bool,
    pub file_index: nat,
    pub fields: Seq<LeafView>,
    pub schema: Option<GroupTypeView>,
    pub lanes: Lanes,
    pub taken: Seq<Seq<char>>,
    pub rolled: Seq<RolledFileView>,
}

impl WriterState {
    /// Whether enough rows are buffered for a file.
    pub open spec fn flush_due(self) -> bool {
        self.lanes.rows() >= self.flush_size
    }

    /// Whether a flush has nothing to do.
    pub open spec fn idle(self) -> bool {
        !self.enabled || self.lanes.rows() == 0
    }

    /// Whether the buffered rows can leave as a row group of the frozen schema.
    pub open spec fn fits_schema(self) -> bool {
        &&& self.schema is Some
        &&& self.lanes.level()
        &&& lanes_fit(self.lanes.columns, self.schema->0.fields)
    }

    /// Whether every file name from the next serial number on is taken.
    pub open spec fn exhausted(self) -> bool {
        forall|j: nat|
            self.file_index <= j < usize::MAX ==> self.taken.contains(
                #[trigger] file_name_chars(j),
            )
    }

    /// Whether a flush succeeds.
    pub open spec fn can_flush(self) -> bool {
        self.idle() || (self.fits_schema() && !self.exhausted())
    }

    /// The file that a flush rolls.
    pub open spec fn next_file(self) -> RolledFileView {
        let index = first_free(self.taken, self.file_index);
        RolledFileView {
            index,
            name: file_name_chars(index),
            level: roll_level(),
            image: FileImageView {
                schema: self.schema->0,
                row_groups: seq![row_group_of(self.lanes.columns, self.schema->0.fields)],
            },
        }
    }

    /// The state after a flush that succeeded.
    pub open spec fn flushed(self) -> WriterState {
        if self.idle() {
            self
        } else {
            WriterState {
                file_index: self.next_file().index + 1,
                lanes: self.lanes.cleared(),
                rolled: self.rolled.push(self.next_file()),
                ..self
            }
        }
    }

    /// Whether a flush that fails fails with `error`: the schema is not
    /// frozen, no file name is left, or the rows do not fit the schema.
    pub open spec fn flush_fails_with(self, error: PersistError) -> bool {
        if self.schema is None {
            error matches PersistError::Other(text) && text@ == "schema has not been created"@
        } else if self.exhausted() {
            error matches PersistError::Other(text) && text@ == "no file name is left"@
        } else {
            error matches PersistError::Invariant(text) && text@ == misfit_chars(
                self.lanes,
                self.schema->0.fields,
            )
        }
    }

    /// The state after a flush where one is due.
    pub open spec fn flushed_if_due(self) -> WriterState {
        if self.flush_due() {
            self.flushed()
        } else {
            self
        }
    }

    /// Whether a flush where one is due succeeds.
    pub open spec fn can_flush_if_due(self) -> bool {
        self.flush_due() ==> self.can_flush()
    }

    /// Whether a row can be begun.
    pub open spec fn can_begin(self) -> bool {
        self.enabled ==> {
            &&& self.can_flush_if_due()
            &&& self.flushed_if_due().lanes.cursor == self.flushed_if_due().lanes.columns.len()
        }
    }

    /// The state after a row was begun.
    pub open spec fn begun(self) -> WriterState {
        if self.enabled {
            WriterState { lanes: self.flushed_if_due().lanes.begun(), ..self.flushed_if_due() }
        } else {
            self
        }
    }

    /// The state after a value with the given leaves and fields was recorded.
    pub open spec fn recorded(self, leaves: Seq<LeafView>, cells: Seq<FieldView>) -> WriterState {
        if self.enabled {
            WriterState {
                fields: if self.schema is None {
                    self.fields + leaves
                } else {
                    self.fields
                },
                lanes: self.lanes.extended(cells),
                ..self
            }
        } else {
            self
        }
    }

    /// The state with the schema frozen, if it was not.
    pub open spec fn frozen(self) -> WriterState {
        if self.schema is None {
            WriterState {
                schema: Some(GroupTypeView { name: root_name(), fields: self.fields }),
                ..self
            }
        } else {
            self
        }
    }

    /// Whether a row can be ended.
    pub open spec fn can_end(self) -> bool {
        self.enabled && self.auto_flush ==> self.frozen().can_flush_if_due()
    }

    /// The state after a row was ended.
    pub open spec fn ended(self) -> WriterState {
        if !self.enabled {
            self
        } else if self.auto_flush {
            self.frozen().flushed_if_due()
        } else {
            self.frozen()
        }
    }
}

impl WriterState {
    /// The state of a writer that was just made.
    pub open spec fn initial(
        enabled: bool,
        keep: bool,
        directory: Seq<char>,
        table: Seq<char>,
    ) -> WriterState {
        WriterState {
            enabled,
            keep,
            directory,
            table,
            flush_size: BUFFERED_ROWS as nat,
            auto_flush: true,
            file_index: 0,
            fields: Seq::empty(),
            schema: None,
            lanes: Lanes::empty(),
            taken: Seq::empty(),
            rolled: Seq::empty(),
        }
    }
}

/// Flushing a writer that holds no rows succeeds and rolls no file.
pub proof fn lemma_flush_of_nothing(state: WriterState)
    requires
        state.lanes.rows() == 0,
    ensures
        state.can_flush(),
        state.flushed() == state,
{
}

/// A writer that is not enabled takes every step and stays as it is: it
/// rolls no file, however many rows are recorded.
pub proof fn lemma_disabled_is_inert(state: WriterState, leaves: Seq<LeafView>, cells: Seq<FieldView>)
    requires
        !state.enabled,
    ensures
        state.can_begin() && state.begun() == state,
        state.recorded(leaves, cells) == state,
        state.can_end() && state.ended() == state,
        state.can_flush() && state.flushed() == state,
{
}

/// Recording a value never rolls a file, whatever the flush size: the
/// files, the next serial number and the schema stay as they are.
pub proof fn lemma_record_never_rolls(state: WriterState, leaves: Seq<LeafView>, cells: Seq<FieldView>)
    ensures
        state.recorded(leaves, cells).rolled == state.rolled,
        state.recorded(leaves, cells).file_index == state.file_index,
        state.recorded(leaves, cells).schema == state.schema,
{
}

/// A flush of an enabled writer that holds rows, where it succeeds, rolls
/// exactly one file: it holds the buffered rows as one row group under the
/// frozen schema, the buffer is empty afterwards, and the file's serial
/// number is the first free one, which the next flush starts above.
pub proof fn lemma_flush_rolls_one_file(state: WriterState)
    requires
        state.enabled,
        state.lanes.rows() > 0,
        state.can_flush(),
    ensures
        state.flushed().rolled == state.rolled.push(state.next_file()),
        state.flushed().lanes.rows() == 0,
        state.next_file().image.row_groups.len() == 1,
        state.next_file().image.row_groups[0].rows == state.lanes.rows(),
        state.next_file().image.schema == state.schema->0,
        state.next_file().name == file_name_chars(state.next_file().index),
        is_first_free(state.taken, state.file_index, state.next_file().index),
        state.flushed().file_index > state.next_file().index,
{
    assert(!state.exhausted());
    let j = choose|j: nat|
        state.file_index <= j < usize::MAX && !state.taken.contains(#[trigger] file_name_chars(j));
    lemma_first_free_exists(state.taken, state.file_index, j);
}

/// Where some file name from `start` on is free, there is a first one.
pub proof fn lemma_first_free_exists(taken: Seq<Seq<char>>, start: nat, free: nat)
    requires
        start <= free,
        !taken.contains(file_name_chars(free)),
    ensures
        is_first_free(taken, start, first_free(taken, start)),
        first_free(taken, start) <= free,
    decreases free - start,
{
    if taken.contains(file_name_chars(start)) {
        lemma_first_free_exists(taken, start + 1, free);
        let found = first_free(taken, start + 1);
        assert(is_first_free(taken, start, found)) by {
            assert forall|j: nat| start <= j < found implies taken.contains(
                #[trigger] file_name_chars(j),
            ) by {
                if j > start {
                    assert(start + 1 <= j);
                }
            }
        }
        lemma_first_free_unique(taken, start, found, first_free(taken, start));
    } else {
        assert(is_first_free(taken, start, start));
        lemma_first_free_unique(taken, start, start, first_free(taken, start));
    }
}

/// The serial number chosen for a file is above that of every file that
/// is there, where the files from the writer's next serial number on are
/// numbered without a gap.
pub proof fn lemma_chosen_index_is_above_existing(taken: Seq<Seq<char>>, start: nat, free: nat)
    requires
        start <= free,
        !taken.contains(file_name_chars(free)),
        forall|j: nat, k: nat|
            start <= k <= j && taken.contains(#[trigger] file_name_chars(j)) ==> taken.contains(
                #[trigger] file_name_chars(k),
            ),
    ensures
        forall|j: nat|
            taken.contains(#[trigger] file_name_chars(j)) ==> j < first_free(taken, start),
{
    lemma_first_free_exists(taken, start, free);
    let chosen = first_free(taken, start);
    assert forall|j: nat| taken.contains(#[trigger] file_name_chars(j)) implies j < chosen by {
        if j >= chosen {
            assert(taken.contains(file_name_chars(chosen)));
        }
    }
}

/// The first row freezes the schema: the root named `schema` over the
/// leaves of the values recorded in that row. Rows that follow leave it as
/// it is, and every rolled file carries it.
pub proof fn lemma_first_row_freezes_schema(
    state: WriterState,
    leaves: Seq<LeafView>,
    cells: Seq<FieldView>,
)
    requires
        state.enabled,
        state.schema is None,
        state.fields.len() == 0,
    ensures
        state.recorded(leaves, cells).frozen().schema == Some(
            GroupTypeView { name: root_name(), fields: leaves },
        ),
        state.recorded(leaves, cells).frozen().recorded(leaves, cells).frozen()
            == state.recorded(leaves, cells).frozen().recorded(leaves, cells),
        state.recorded(leaves, cells).frozen().recorded(leaves, cells).schema == state.recorded(
            leaves,
            cells,
        ).frozen().schema,
        state.recorded(leaves, cells).frozen().flushed().schema == state.recorded(
            leaves,
            cells,
        ).frozen().schema,
{
    assert(state.fields + leaves =~= leaves);
}

/// What is to be done to a table's directory before rows are written.
#[derive(Clone, Copy, Debug, PartialEq, Eq, Structural)]
pub struct Setup {
    /// Whether the directory, with all that it holds, is removed first.
    pub remove: bool,
    /// Whether the directory is made.
    pub create: bool,
}

/// The first serial number from `start` on whose file name is not among
/// `taken`, if there is one below the largest number.
fn scan(taken: &Vec<String>, start: usize) -> (found: Option<usize>)
    ensures
        match found {
            Some(index) => index < usize::MAX && is_first_free(
                string_views(taken@),
                start as nat,
                index as nat,
            ),
            None => forall|j: nat|
                start <= j < usize::MAX ==> string_views(taken@).contains(
                    #[trigger] file_name_chars(j),
                ),
        },
{
    let mut index = start;
    while index < usize::MAX
        invariant
            start <= index,
            forall|j: nat|
                start <= j < index ==> string_views(taken@).contains(#[trigger] file_name_chars(j)),
        decreases usize::MAX - index,
    {
        let name = file_name(index);
        if !contains_text(taken, name.as_str()) {
            return Some(index);
        }
        index += 1;
    }
    None
}

/// A writer of one table.
#[derive(Debug)]
pub struct TableWriter {
    flush_size: usize,
    directory: String,
    table: String,
    keep: bool,
    file_index: usize,
    buffer: RowBuffer,
    enabled: bool,
    fields: Vec<Leaf>,
    schema: Option<GroupType>,
    auto_flush: bool,
    taken: Vec<String>,
    rolled: Vec<RolledFile>,
}

/// The view of a schema that may not be frozen yet.
pub open spec fn schema_view(schema: Option<GroupType>) -> Option<GroupTypeView> {
    match schema {
        Some(group) => Some(group@),
        None => None,
    }
}

impl View for TableWriter {
    type V = WriterState;

    closed spec fn view(&self) -> WriterState {
        WriterState {
            enabled: self.enabled,
            keep: self.keep,
            directory: self.directory@,
            table: self.table@,
            flush_size: self.flush_size as nat,
            auto_flush: self.auto_flush,
            file_index: self.file_index as nat,
            fields: leaf_views(self.fields@),
            schema: schema_view(self.schema),
            lanes: self.buffer@,
            taken: string_views(self.taken@),
            rolled: file_views(self.rolled@),
        }
    }
}

impl TableWriter {
    /// A writer for the table `path_prefix`. It is enabled if the
    /// configuration lists the table, or no table, and names a directory.
    pub fn new(path_prefix: &str, persist_config: &PersistConfig) -> (writer: Self)
        ensures
            writer@ == WriterState::initial(
                persist_config.enables(path_prefix@),
                persist_config.keep,
                persist_config.directory@,
                path_prefix@,
            ),
    {
        let writer = TableWriter {
            flush_size: BUFFERED_ROWS,
            directory: persist_config.directory.clone(),
            table: path_prefix.to_owned(),
            keep: persist_config.keep,
            file_index: 0,
            buffer: RowBuffer::new(),
            enabled: persist_config.is_enabled(path_prefix),
            fields: Vec::new(),
            schema: None,
            auto_flush: true,
            taken: Vec::new(),
            rolled: Vec::new(),
        };
        assert(leaf_views(writer.fields@) =~= Seq::empty());
        assert(string_views(writer.taken@) =~= Seq::empty());
        assert(file_views(writer.rolled@) =~= Seq::empty());
        writer
    }

    /// What is to be done to the table's directory before rows are written:
    /// an enabled writer has it made, after removing it unless it is kept.
    pub fn setup(&self) -> (plan: Setup)
        ensures
            plan.remove == (self@.enabled && !self@.keep),
            plan.create == self@.enabled,
    {
        Setup { remove: self.enabled && !self.keep, create: self.enabled }
    }

    /// Takes note of the file names that the table's directory holds.
    pub fn observe(&mut self, names: Vec<String>)
        ensures
            final(self)@ == (WriterState { taken: string_views(names@), ..old(self)@ }),
    {
        self.taken = names;
    }

    /// Sets the number of buffered rows from which on a file is rolled.
    pub fn set_flush_size(&mut self, rows: usize)
        ensures
            final(self)@ == (WriterState { flush_size: rows as nat, ..old(self)@ }),
    {
        self.flush_size = rows;
    }

    /// Sets whether the end of a row rolls a file where one is due.
    pub fn set_auto_flush(&mut self, auto_flush: bool)
        ensures
            final(self)@ == (WriterState { auto_flush, ..old(self)@ }),
    {
        self.auto_flush = auto_flush;
    }

    /// Whether the writer persists anything.
    pub fn is_enabled(&self) -> (enabled: bool)
        ensures
            enabled == self@.enabled,
    {
        self.enabled
    }

    /// The number of buffered rows.
    pub fn len(&self) -> (rows: usize)
        ensures
            rows == self@.lanes.rows(),
    {
        self.buffer.len()
    }

    /// The serial number from which the next file's name is looked for.
    pub fn file_index(&self) -> (index: usize)
        ensures
            index == self@.file_index,
    {
        self.file_index
    }

    /// The root of the output.
    pub fn directory(&self) -> (directory: &str)
        ensures
            directory@ == self@.directory,
    {
        self.directory.as_str()
    }

    /// The table's name, which is the name of its directory under the root.
    pub fn table(&self) -> (table: &str)
        ensures
            table@ == self@.table,
    {
        self.table.as_str()
    }

    /// The leaves gathered so far.
    pub fn fields(&self) -> (fields: &Vec<Leaf>)
        ensures
            leaf_views(fields@) == self@.fields,
    {
        &self.fields
    }

    /// The frozen schema, once the first row has ended.
    pub fn schema(&self) -> (schema: Option<&GroupType>)
        ensures
            match schema {
                Some(group) => self@.schema == Some(group@),
                None => self@.schema is None,
            },
    {
        self.schema.as_ref()
    }

    /// Hands out the files rolled since they were last taken.
    pub fn take_rolled(&mut self) -> (files: Vec<RolledFile>)
        ensures
            file_views(files@) == old(self)@.rolled,
            final(self)@ == (WriterState { rolled: Seq::empty(), ..old(self)@ }),
    {
        let mut files: Vec<RolledFile> = Vec::new();
        std::mem::swap(&mut self.rolled, &mut files);
        assert(file_views(self.rolled@) =~= Seq::empty());
        files
    }

    /// Rolls the buffered rows into a file, named by the first serial
    /// number from the writer's on whose file name is not taken. Does
    /// nothing if the writer is disabled or holds no rows.
    pub fn flush(&mut self) -> (result: Result<(), PersistError>)
        ensures
            match result {
                Ok(()) => old(self)@.can_flush() && final(self)@ == old(self)@.flushed(),
                Err(error) => {
                    &&& !old(self)@.can_flush()
                    &&& old(self)@.flush_fails_with(error)
                    &&& final(self)@ == old(self)@
                },
            },
    {
        if self.buffer.is_empty() || !self.enabled {
            return Ok(());
        }
        let group = match &self.schema {
            Some(group) => group.clone(),
            None => {
                return Err(PersistError::Other("schema has not been created".to_owned()));
            },
        };
        let level = match ZstdLevel::try_new(1) {
            Ok(level) => level,
            Err(_) => {
                return Err(
                    PersistError::Other(
                        "cannot select correct parquet compression level".to_owned(),
                    ),
                );
            },
        };
        let index = match scan(&self.taken, self.file_index) {
            Some(index) => index,
            None => {
                return Err(PersistError::Other("no file name is left".to_owned()));
            },
        };
        proof {
            let taken = string_views(self.taken@);
            let start = self.file_index as nat;
            assert(is_first_free(taken, start, index as nat));
            lemma_first_free_unique(taken, start, index as nat, first_free(taken, start));
            assert(taken.contains(file_name_chars(index as nat)) == false);
        }
        let ghost before = self@;
        let mut image = FileImage::new(group);
        match self.buffer.record(&mut image) {
            Ok(_) => {},
            Err(error) => {
                return Err(error);
            },
        }
        assert(image@.row_groups =~= seq![
            row_group_of(before.lanes.columns, before.schema->0.fields),
        ]);
        self.file_index = index + 1;
        let ghost files = self.rolled@;
        let file = RolledFile { index, name: file_name(index), compression: level, image };
        assert(file@ == before.next_file());
        self.rolled.push(file);
        assert(file_views(self.rolled@) =~= file_views(files).push(before.next_file()));
        Ok(())
    }

    /// Rolls a file if as many rows are buffered as the flush size asks for.
    pub fn flush_if_needed(&mut self) -> (result: Result<(), PersistError>)
        ensures
            match result {
                Ok(()) => old(self)@.can_flush_if_due() && final(self)@ == old(self)@.flushed_if_due(),
                Err(error) => {
                    &&& !old(self)@.can_flush_if_due()
                    &&& old(self)@.flush_fails_with(error)
                    &&& final(self)@ == old(self)@
                },
            },
    {
        if self.buffer.len() >= self.flush_size {
            self.flush()
        } else {
            Ok(())
        }
    }
}

impl TableWriter {
    /// Begins a row. An enabled writer first rolls a file if one is due,
    /// and refuses to begin while the row before has not reached its last
    /// field.
    pub fn begin(&mut self) -> (result: Result<RowBuilder<'_>, PersistError>)
        ensures
            match result {
                Ok(builder) => {
                    &&& old(self)@.can_begin()
                    &&& builder.writer@ == old(self)@.begun()
                    &&& *final(self) == *final(builder.writer)
                },
                Err(error) => {
                    &&& !old(self)@.can_begin()
                    &&& final(self)@ == old(self)@
                    &&& if old(self)@.can_flush_if_due() {
                        error matches PersistError::Invariant(text) && text@
                            == "a row was missing fields"@
                    } else {
                        old(self)@.flush_fails_with(error)
                    }
                },
            },
    {
        if self.enabled {
            if self.buffer.len() >= self.flush_size {
                match self.flush() {
                    Ok(()) => {},
                    Err(error) => {
                        return Err(error);
                    },
                }
            }
            if !self.buffer.row_complete() {
                return Err(PersistError::Invariant("a row was missing fields".to_owned()));
            }
            self.buffer.begin();
        }
        Ok(RowBuilder::new(self))
    }

    /// Ends the writer's work: rolls what is still buffered, whether or not
    /// that succeeds, and hands out the files not yet taken.
    pub fn finish(self) -> (files: Vec<RolledFile>)
        ensures
            file_views(files@) == if self@.can_flush() {
                self@.flushed().rolled
            } else {
                self@.rolled
            },
    {
        let mut writer = self;
        if !writer.buffer.is_empty() {
            match writer.flush() {
                Ok(()) => {},
                Err(_) => {},
            }
        }
        writer.rolled
    }
}

/// A row that is being built.
#[derive(Debug)]
pub struct RowBuilder<'a> {
    pub writer: &'a mut TableWriter,
}

impl<'a> RowBuilder<'a> {
    /// The builder of a row of `writer`.
    pub fn new(writer: &'a mut TableWriter) -> (builder: Self)
        ensures
            *builder.writer == *old(writer),
            *final(writer) == *final(builder.writer),
    {
        RowBuilder { writer }
    }

    /// Adds a value to the row. While the schema is not frozen, the value's
    /// leaves are added to it. No file is rolled, however many rows are
    /// buffered. Where the value cannot be written, the row keeps the fields
    /// that were pushed before the part that cannot, and the call fails.
    pub fn record<T: Persistable>(self, record: &T) -> (result: Result<Self, PersistError>)
        requires
            old(self.writer)@.enabled && old(self.writer)@.schema is None ==> !T::needs_name(),
        ensures
            match result {
                Ok(builder) => {
                    &&& builder.writer@ == old(self.writer)@.recorded(
                        T::leaves(None, None, None),
                        record.cells(),
                    )
                    &&& *final(builder.writer) == *final(self.writer)
                },
                Err(error) => {
                    &&& old(self.writer)@.enabled
                    &&& final(self.writer)@ == old(self.writer)@.recorded(
                        T::leaves(None, None, None),
                        record.written(),
                    )
                },
            },
            result is Ok <==> !old(self.writer)@.enabled || record.writable(),
    {
        if self.writer.enabled {
            if self.writer.schema.is_none() {
                T::schema(&mut self.writer.fields, None, None, None);
            }
            match record.append(&mut self.writer.buffer) {
                Ok(()) => {},
                Err(error) => {
                    return Err(error);
                },
            }
        }
        Ok(self)
    }

    /// Ends the row. An enabled writer freezes its schema if it has not,
    /// and then rolls a file if one is due and it rolls by itself.
    pub fn end(&mut self) -> (result: Result<(), PersistError>)
        ensures
            *final(final(self).writer) == *final(old(self).writer),
            match result {
                Ok(()) => {
                    &&& old(self).writer@.can_end()
                    &&& final(self).writer@ == old(self).writer@.ended()
                },
                Err(error) => {
                    &&& !old(self).writer@.can_end()
                    &&& final(self).writer@ == old(self).writer@.frozen()
                    &&& old(self).writer@.frozen().flush_fails_with(error)
                },
            },
    {
        if self.writer.enabled {
            if self.writer.schema.is_none() {
                self.writer.schema = Some(GroupType::new("schema", &self.writer.fields));
            }
            if self.writer.auto_flush {
                return self.writer.flush_if_needed();
            }
        }
        Ok(())
    }
}

} // verus!
