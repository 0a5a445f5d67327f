//! The row buffer: rows staged column by column until they leave as one row group.

use crate::error::PersistError;
use crate::field::{field_views, Field, FieldView};
use crate::schema::{leaf_views, GroupType, GroupTypeView, LeafView, PhysicalType};
use crate::text::string_views;
use vstd::prelude::*;

verus! {

/// The lanes of a row buffer, one per leaf column, and the cursor within
/// the row that is being built.
pub struct Lanes {
    pub columns: Seq<Seq<FieldView>>,
    pub cursor: nat,
}

impl Lanes {
    /// No lanes yet.
    pub open spec fn empty() -> Lanes {
        Lanes { columns: Seq::empty(), cursor: 0 }
    }

    /// The number of buffered rows: the length of the first lane.
    pub open spec fn rows(self) -> nat {
        if self.columns.len() == 0 {
            0
        } else {
            self.columns[0].len()
        }
    }

    /// Between rows: every lane was pushed to in the last row, and all
    /// lanes are equally long.
    pub open spec fn level(self) -> bool {
        &&& self.cursor == self.columns.len()
        &&& forall|i: int| 0 <= i < self.columns.len() ==> #[trigger] self.columns[i].len() == self.rows()
    }

    /// The cursor back at the first lane.
    pub open spec fn begun(self) -> Lanes {
        Lanes { columns: self.columns, cursor: 0 }
    }

    /// One more field: appended to the lane under the cursor, which is a
    /// new lane if the cursor has passed the last one.
    pub open spec fn pushed(self, field: FieldView) -> Lanes {
        if self.cursor < self.columns.len() {
            Lanes {
                columns: self.columns.update(
                    self.cursor as int,
                    self.columns[self.cursor as int].push(field),
                ),
                cursor: self.cursor + 1,
            }
        } else {
            Lanes { columns: self.columns.push(seq![field]), cursor: self.cursor + 1 }
        }
    }

    /// The fields of `cells` pushed one after the other.
    pub open spec fn extended(self, cells: Seq<FieldView>) -> Lanes
        decreases cells.len(),
    {
        if cells.len() == 0 {
            self
        } else {
            self.extended(cells.drop_last()).pushed(cells.last())
        }
    }

    /// Every lane emptied; the lanes themselves stay.
    pub open spec fn cleared(self) -> Lanes {
        Lanes {
            columns: Seq::new(self.columns.len(), |i: int| Seq::<FieldView>::empty()),
            cursor: self.cursor,
        }
    }
}

/// Pushing the fields of `a` and then those of `b` is pushing those of `a + b`.
pub proof fn lemma_extended_concat(lanes: Lanes, a: Seq<FieldView>, b: Seq<FieldView>)
    ensures
        lanes.extended(a + b) == lanes.extended(a).extended(b),
    decreases b.len(),
{
    if b.len() == 0 {
        assert(a + b =~= a);
    } else {
        lemma_extended_concat(lanes, a, b.drop_last());
        assert((a + b).drop_last() =~= a + b.drop_last());
        assert((a + b).last() == b.last());
    }
}

/// Pushing a single field is extending by the sequence that holds it.
pub proof fn lemma_extended_one(lanes: Lanes, field: FieldView)
    ensures
        lanes.extended(seq![field]) == lanes.pushed(field),
{
    let one = seq![field];
    assert(one.drop_last() =~= Seq::<FieldView>::empty());
    assert(lanes.extended(one.drop_last()) == lanes);
}

impl Lanes {
    /// All lanes are equally long and the cursor is at the first one.
    pub open spec fn at_row_start(self) -> bool {
        &&& self.cursor == 0
        &&& forall|i: int| 0 <= i < self.columns.len() ==> #[trigger] self.columns[i].len() == self.rows()
    }

    /// The lanes after the first `cells.len()` lanes of a row were pushed to:
    /// each of those lanes has got its field, the others are as they were.
    /// Where there were no lanes, each field has made one.
    pub open spec fn with_row_prefix(self, cells: Seq<FieldView>) -> Lanes {
        Lanes {
            columns: Seq::new(
                if self.columns.len() == 0 {
                    cells.len()
                } else {
                    self.columns.len()
                },
                |i: int|
                    if self.columns.len() == 0 {
                        seq![cells[i]]
                    } else if i < cells.len() {
                        self.columns[i].push(cells[i])
                    } else {
                        self.columns[i]
                    },
            ),
            cursor: cells.len(),
        }
    }
}

/// Where each field of a row lands: the i-th field pushed goes to the end
/// of the i-th lane.
pub proof fn lemma_row_lands(lanes: Lanes, cells: Seq<FieldView>)
    requires
        lanes.at_row_start(),
        lanes.columns.len() == 0 || cells.len() <= lanes.columns.len(),
    ensures
        lanes.extended(cells) == lanes.with_row_prefix(cells),
    decreases cells.len(),
{
    if cells.len() == 0 {
        assert(lanes.with_row_prefix(cells).columns =~= lanes.columns);
    } else {
        let front = cells.drop_last();
        lemma_row_lands(lanes, front);
        let before = lanes.with_row_prefix(front);
        assert(lanes.extended(cells) == before.pushed(cells.last()));
        assert(before.pushed(cells.last()).columns =~= lanes.with_row_prefix(cells).columns);
    }
}

/// Between rows every lane is as long as the buffer: a buffer without
/// lanes is between rows, and a row that pushes one field for each lane
/// leaves the buffer between rows again, one row longer.
pub proof fn lemma_row_keeps_level(lanes: Lanes, cells: Seq<FieldView>)
    requires
        lanes.level(),
        cells.len() > 0,
        lanes.columns.len() == 0 || cells.len() == lanes.columns.len(),
    ensures
        Lanes::empty().level(),
        lanes.begun().extended(cells).level(),
        lanes.begun().extended(cells).rows() == lanes.rows() + 1,
        forall|i: int|
            0 <= i < lanes.begun().extended(cells).columns.len() ==> #[trigger] lanes.begun().extended(
                cells,
            ).columns[i].len() == lanes.begun().extended(cells).rows(),
{
    lemma_row_lands(lanes.begun(), cells);
}

/// A row that stops short of the last lane leaves the buffer out of level.
pub proof fn lemma_short_row_is_not_level(lanes: Lanes, cells: Seq<FieldView>)
    requires
        lanes.level(),
        cells.len() < lanes.columns.len(),
    ensures
        !lanes.begun().extended(cells).level(),
{
    lemma_row_lands(lanes.begun(), cells);
}

/// A flush leaves the buffer between rows, with no row in any lane.
pub proof fn lemma_cleared_is_level(lanes: Lanes)
    requires
        lanes.level(),
    ensures
        lanes.cleared().level(),
        lanes.cleared().rows() == 0,
{
}

/// The lanes after rows were pushed one after the other into a buffer
/// without lanes.
pub open spec fn staged(rows: Seq<Seq<FieldView>>) -> Lanes
    decreases rows.len(),
{
    if rows.len() == 0 {
        Lanes::empty()
    } else {
        staged(rows.drop_last()).begun().extended(rows.last())
    }
}

/// Rows of one width are staged column by column: there are as many lanes
/// as a row has fields, each as long as there are rows, and the field of
/// row `j` for column `i` is the `j`-th of lane `i`.
pub proof fn lemma_staged_is_transposed(rows: Seq<Seq<FieldView>>, width: nat)
    requires
        rows.len() > 0,
        width > 0,
        forall|j: int| 0 <= j < rows.len() ==> #[trigger] rows[j].len() == width,
    ensures
        staged(rows).level(),
        staged(rows).rows() == rows.len(),
        staged(rows).columns.len() == width,
        forall|i: int, j: int|
            0 <= i < width && 0 <= j < rows.len() ==> #[trigger] staged(rows).columns[i][j]
                == rows[j][i],
    decreases rows.len(),
{
    let front = rows.drop_last();
    if front.len() == 0 {
        assert(staged(front) == Lanes::empty());
    } else {
        lemma_staged_is_transposed(front, width);
    }
    lemma_row_lands(staged(front).begun(), rows.last());
}

/// The values of one column of a row group, nulls left out.
#[derive(Debug, PartialEq, Eq)]
pub enum ColumnValues {
    Bools(Vec<bool>),
    Int32s(Vec<i32>),
    Int64s(Vec<i64>),
    Floats(Vec<u32>),
    Doubles(Vec<u64>),
    ByteArrays(Vec<String>),
}

/// The values of one column as sequences.
pub enum ColumnValuesView {
    Bools(Seq<bool>),
    Int32s(Seq<i32>),
    Int64s(Seq<i64>),
    Floats(Seq<u32>),
    Doubles(Seq<u64>),
    ByteArrays(Seq<Seq<char>>),
}

impl View for ColumnValues {
    type V = ColumnValuesView;

    open spec fn view(&self) -> ColumnValuesView {
        match *self {
            ColumnValues::Bools(v) => ColumnValuesView::Bools(v@),
            ColumnValues::Int32s(v) => ColumnValuesView::Int32s(v@),
            ColumnValues::Int64s(v) => ColumnValuesView::Int64s(v@),
            ColumnValues::Floats(v) => ColumnValuesView::Floats(v@),
            ColumnValues::Doubles(v) => ColumnValuesView::Doubles(v@),
            ColumnValues::ByteArrays(v) => ColumnValuesView::ByteArrays(string_views(v@)),
        }
    }
}

/// One column of a row group: a definition level per row, and the values
/// of the rows that have one.
#[derive(Debug, PartialEq, Eq)]
pub struct ColumnChunk {
    pub definition_levels: Vec<i16>,
    pub values: ColumnValues,
}

/// One column of a row group as sequences.
pub struct ColumnChunkView {
    pub definition_levels: Seq<i16>,
    pub values: ColumnValuesView,
}

impl View for ColumnChunk {
    type V = ColumnChunkView;

    open spec fn view(&self) -> ColumnChunkView {
        ColumnChunkView { definition_levels: self.definition_levels@, values: self.values@ }
    }
}

/// The rows that left the buffer in one flush, column by column.
#[derive(Debug, PartialEq, Eq)]
pub struct RowGroup {
    pub columns: Vec<ColumnChunk>,
    pub rows: usize,
}

/// A row group as sequences.
pub struct RowGroupView {
    pub columns: Seq<ColumnChunkView>,
    pub rows: nat,
}

impl View for RowGroup {
    type V = RowGroupView;

    open spec fn view(&self) -> RowGroupView {
        RowGroupView {
            columns: self.columns@.map_values(|c: ColumnChunk| c@),
            rows: self.rows as nat,
        }
    }
}

/// What one file holds: its leaf columns and the row groups written to it.
#[derive(Debug, PartialEq, Eq)]
pub struct FileImage {
    pub schema: GroupType,
    pub row_groups: Vec<RowGroup>,
}

/// What one file holds, as sequences.
pub struct FileImageView {
    pub schema: GroupTypeView,
    pub row_groups: Seq<RowGroupView>,
}

/// The views of a sequence of row groups, in order.
pub open spec fn group_views(groups: Seq<RowGroup>) -> Seq<RowGroupView> {
    groups.map_values(|g: RowGroup| g@)
}

impl View for FileImage {
    type V = FileImageView;

    open spec fn view(&self) -> FileImageView {
        FileImageView { schema: self.schema@, row_groups: group_views(self.row_groups@) }
    }
}

impl FileImage {
    /// A file with the given schema and no rows yet.
    pub fn new(schema: GroupType) -> (image: FileImage)
        ensures
            image@ == (FileImageView { schema: schema@, row_groups: Seq::empty() }),
    {
        let image = FileImage { schema, row_groups: Vec::new() };
        assert(group_views(image.row_groups@) =~= Seq::empty());
        image
    }
}

/// Whether a column of the given physical type takes the field. A null
/// goes anywhere; both 32-bit integers go to `Int32`, both 64-bit ones to
/// `Int64`.
pub open spec fn accepts(physical_type: PhysicalType, field: FieldView) -> bool {
    match field {
        FieldView::Null => true,
        FieldView::Bool(_) => physical_type == PhysicalType::Bool,
        FieldView::Int(_) => physical_type == PhysicalType::Int32,
        FieldView::UInt(_) => physical_type == PhysicalType::Int32,
        FieldView::Long(_) => physical_type == PhysicalType::Int64,
        FieldView::ULong(_) => physical_type == PhysicalType::Int64,
        FieldView::Float(_) => physical_type == PhysicalType::Float,
        FieldView::Double(_) => physical_type == PhysicalType::Double,
        FieldView::Str(_) => physical_type == PhysicalType::ByteArray,
    }
}

/// Whether the column takes every field of the lane.
pub open spec fn lane_fits(lane: Seq<FieldView>, physical_type: PhysicalType) -> bool {
    forall|i: int| 0 <= i < lane.len() ==> accepts(physical_type, #[trigger] lane[i])
}

/// One level per row: 0 for a null, 1 for a value.
pub open spec fn definition_levels(lane: Seq<FieldView>) -> Seq<i16> {
    Seq::new(
        lane.len(),
        |i: int|
            if lane[i] is Null {
                0i16
            } else {
                1i16
            },
    )
}

/// The fields of a lane that are not null, in order.
pub open spec fn present(lane: Seq<FieldView>) -> Seq<FieldView> {
    lane.filter(|f: FieldView| !(f is Null))
}

/// The boolean of a field.
pub open spec fn bool_of(field: FieldView) -> bool {
    match field {
        FieldView::Bool(v) => v,
        _ => false,
    }
}

/// The 32-bit value of a field; an unsigned one keeps its bits.
pub open spec fn int32_of(field: FieldView) -> i32 {
    match field {
        FieldView::Int(v) => v,
        FieldView::UInt(v) => v as i32,
        _ => 0,
    }
}

/// The 64-bit value of a field; an unsigned one keeps its bits.
pub open spec fn int64_of(field: FieldView) -> i64 {
    match field {
        FieldView::Long(v) => v,
        FieldView::ULong(v) => v as i64,
        _ => 0,
    }
}

/// The bits of the 32-bit float of a field.
pub open spec fn float_of(field: FieldView) -> u32 {
    match field {
        FieldView::Float(v) => v,
        _ => 0,
    }
}

/// The bits of the 64-bit float of a field.
pub open spec fn double_of(field: FieldView) -> u64 {
    match field {
        FieldView::Double(v) => v,
        _ => 0,
    }
}

/// The text of a field.
pub open spec fn text_of(field: FieldView) -> Seq<char> {
    match field {
        FieldView::Str(v) => v,
        _ => Seq::empty(),
    }
}

/// The values that a lane hands to a column of the given physical type.
pub open spec fn gathered(lane: Seq<FieldView>, physical_type: PhysicalType) -> ColumnValuesView {
    match physical_type {
        PhysicalType::Bool => ColumnValuesView::Bools(present(lane).map_values(|f| bool_of(f))),
        PhysicalType::Int32 => ColumnValuesView::Int32s(present(lane).map_values(|f| int32_of(f))),
        PhysicalType::Int64 => ColumnValuesView::Int64s(present(lane).map_values(|f| int64_of(f))),
        PhysicalType::Float => ColumnValuesView::Floats(present(lane).map_values(|f| float_of(f))),
        PhysicalType::Double => ColumnValuesView::Doubles(
            present(lane).map_values(|f| double_of(f)),
        ),
        PhysicalType::ByteArray => ColumnValuesView::ByteArrays(
            present(lane).map_values(|f| text_of(f)),
        ),
    }
}

/// The column that a lane becomes.
pub open spec fn chunk_of(lane: Seq<FieldView>, physical_type: PhysicalType) -> ColumnChunkView {
    ColumnChunkView {
        definition_levels: definition_levels(lane),
        values: gathered(lane, physical_type),
    }
}

/// Whether the lanes can leave as a row group of the given leaf columns:
/// one lane per column, and each column takes every field of its lane.
pub open spec fn lanes_fit(columns: Seq<Seq<FieldView>>, schema: Seq<LeafView>) -> bool {
    &&& columns.len() == schema.len()
    &&& forall|i: int|
        0 <= i < columns.len() ==> lane_fits(#[trigger] columns[i], schema[i].physical_type)
}

/// Why the lanes cannot leave as a row group of the given leaf columns:
/// a row stopped short or went too far, there is not one lane per column,
/// or a column does not take a field of its lane.
pub open spec fn misfit_chars(lanes: Lanes, schema: Seq<LeafView>) -> Seq<char> {
    if !lanes.level() {
        "a row was missing fields"@
    } else if lanes.columns.len() != schema.len() {
        "the row does not have the file's columns"@
    } else {
        "a field does not match its column's type"@
    }
}

/// The row group that the lanes become.
pub open spec fn row_group_of(columns: Seq<Seq<FieldView>>, schema: Seq<LeafView>) -> RowGroupView {
    RowGroupView {
        columns: Seq::new(columns.len(), |i: int| chunk_of(columns[i], schema[i].physical_type)),
        rows: if columns.len() == 0 {
            0
        } else {
            columns[0].len()
        },
    }
}

/// Taking one more field of a lane adds it to the present ones unless it is null.
pub proof fn lemma_present_step(lane: Seq<FieldView>, i: int)
    requires
        0 <= i < lane.len(),
    ensures
        present(lane.take(i + 1)) == if lane[i] is Null {
            present(lane.take(i))
        } else {
            present(lane.take(i)).push(lane[i])
        },
{
    reveal(Seq::filter);
    assert(lane.take(i + 1).drop_last() =~= lane.take(i));
}

/// The definition levels of a lane.
fn levels_of(lane: &Vec<Field>) -> (levels: Vec<i16>)
    ensures
        levels@ == definition_levels(field_views(lane@)),
{
    let mut levels: Vec<i16> = Vec::new();
    let mut i: usize = 0;
    while i < lane.len()
        invariant
            i <= lane.len(),
            levels@.len() == i,
            forall|k: int|
                0 <= k < i ==> levels@[k] == if lane@[k]@ is Null {
                    0i16
                } else {
                    1i16
                },
        decreases lane.len() - i,
    {
        let level: i16 = if lane[i].is_null() {
            0
        } else {
            1
        };
        levels.push(level);
        i += 1;
    }
    assert(levels@ =~= definition_levels(field_views(lane@)));
    levels
}

fn gather_bools(lane: &Vec<Field>) -> (values: Option<Vec<bool>>)
    ensures
        values is Some <==> lane_fits(field_views(lane@), PhysicalType::Bool),
        values is Some ==> values->0@ == present(field_views(lane@)).map_values(|f| bool_of(f)),
{
    let ghost views = field_views(lane@);
    let mut out: Vec<bool> = Vec::new();
    let mut i: usize = 0;
    assert(present(views.take(0)).map_values(|f| bool_of(f)) =~= out@) by {
        reveal(Seq::filter);
    }
    while i < lane.len()
        invariant
            i <= lane.len(),
            views == field_views(lane@),
            lane_fits(views.take(i as int), PhysicalType::Bool),
            out@ == present(views.take(i as int)).map_values(|f| bool_of(f)),
        decreases lane.len() - i,
    {
        proof {
            lemma_present_step(views, i as int);
        }
        match &lane[i] {
            Field::Bool(v) => {
                out.push(*v);
            },
            Field::Null => {},
            _ => {
                assert(!accepts(PhysicalType::Bool, views[i as int]));
                return None;
            },
        }
        assert(out@ =~= present(views.take(i + 1)).map_values(|f| bool_of(f)));
        assert forall|k: int| 0 <= k < i + 1 implies accepts(
            PhysicalType::Bool,
            #[trigger] views.take(i + 1)[k],
        ) by {
            if k < i {
                assert(views.take(i as int)[k] == views.take(i + 1)[k]);
            }
        }
        i += 1;
    }
    assert(views.take(lane.len() as int) =~= views);
    Some(out)
}

fn gather_int32s(lane: &Vec<Field>) -> (values: Option<Vec<i32>>)
    ensures
        values is Some <==> lane_fits(field_views(lane@), PhysicalType::Int32),
        values is Some ==> values->0@ == present(field_views(lane@)).map_values(|f| int32_of(f)),
{
    let ghost views = field_views(lane@);
    let mut out: Vec<i32> = Vec::new();
    let mut i: usize = 0;
    assert(present(views.take(0)).map_values(|f| int32_of(f)) =~= out@) by {
        reveal(Seq::filter);
    }
    while i < lane.len()
        invariant
            i <= lane.len(),
            views == field_views(lane@),
            lane_fits(views.take(i as int), PhysicalType::Int32),
            out@ == present(views.take(i as int)).map_values(|f| int32_of(f)),
        decreases lane.len() - i,
    {
        proof {
            lemma_present_step(views, i as int);
        }
        match &lane[i] {
            Field::Int(v) => {
                out.push(*v);
            },
            Field::UInt(v) => {
                out.push(#[verifier::truncate] (*v as i32));
            },
            Field::Null => {},
            _ => {
                assert(!accepts(PhysicalType::Int32, views[i as int]));
                return None;
            },
        }
        assert(out@ =~= present(views.take(i + 1)).map_values(|f| int32_of(f)));
        assert forall|k: int| 0 <= k < i + 1 implies accepts(
            PhysicalType::Int32,
            #[trigger] views.take(i + 1)[k],
        ) by {
            if k < i {
                assert(views.take(i as int)[k] == views.take(i + 1)[k]);
            }
        }
        i += 1;
    }
    assert(views.take(lane.len() as int) =~= views);
    Some(out)
}

fn gather_int64s(lane: &Vec<Field>) -> (values: Option<Vec<i64>>)
    ensures
        values is Some <==> lane_fits(field_views(lane@), PhysicalType::Int64),
        values is Some ==> values->0@ == present(field_views(lane@)).map_values(|f| int64_of(f)),
{
    let ghost views = field_views(lane@);
    let mut out: Vec<i64> = Vec::new();
    let mut i: usize = 0;
    assert(present(views.take(0)).map_values(|f| int64_of(f)) =~= out@) by {
        reveal(Seq::filter);
    }
    while i < lane.len()
        invariant
            i <= lane.len(),
            views == field_views(lane@),
            lane_fits(views.take(i as int), PhysicalType::Int64),
            out@ == present(views.take(i as int)).map_values(|f| int64_of(f)),
        decreases lane.len() - i,
    {
        proof {
            lemma_present_step(views, i as int);
        }
        match &lane[i] {
            Field::Long(v) => {
                out.push(*v);
            },
            Field::ULong(v) => {
                out.push(#[verifier::truncate] (*v as i64));
            },
            Field::Null => {},
            _ => {
                assert(!accepts(PhysicalType::Int64, views[i as int]));
                return None;
            },
        }
        assert(out@ =~= present(views.take(i + 1)).map_values(|f| int64_of(f)));
        assert forall|k: int| 0 <= k < i + 1 implies accepts(
            PhysicalType::Int64,
            #[trigger] views.take(i + 1)[k],
        ) by {
            if k < i {
                assert(views.take(i as int)[k] == views.take(i + 1)[k]);
            }
        }
        i += 1;
    }
    assert(views.take(lane.len() as int) =~= views);
    Some(out)
}

fn gather_floats(lane: &Vec<Field>) -> (values: Option<Vec<u32>>)
    ensures
        values is Some <==> lane_fits(field_views(lane@), PhysicalType::Float),
        values is Some ==> values->0@ == present(field_views(lane@)).map_values(|f| float_of(f)),
{
    let ghost views = field_views(lane@);
    let mut out: Vec<u32> = Vec::new();
    let mut i: usize = 0;
    assert(present(views.take(0)).map_values(|f| float_of(f)) =~= out@) by {
        reveal(Seq::filter);
    }
    while i < lane.len()
        invariant
            i <= lane.len(),
            views == field_views(lane@),
            lane_fits(views.take(i as int), PhysicalType::Float),
            out@ == present(views.take(i as int)).map_values(|f| float_of(f)),
        decreases lane.len() - i,
    {
        proof {
            lemma_present_step(views, i as int);
        }
        match &lane[i] {
            Field::Float(v) => {
                out.push(*v);
            },
            Field::Null => {},
            _ => {
                assert(!accepts(PhysicalType::Float, views[i as int]));
                return None;
            },
        }
        assert(out@ =~= present(views.take(i + 1)).map_values(|f| float_of(f)));
        assert forall|k: int| 0 <= k < i + 1 implies accepts(
            PhysicalType::Float,
            #[trigger] views.take(i + 1)[k],
        ) by {
            if k < i {
                assert(views.take(i as int)[k] == views.take(i + 1)[k]);
            }
        }
        i += 1;
    }
    assert(views.take(lane.len() as int) =~= views);
    Some(out)
}

fn gather_doubles(lane: &Vec<Field>) -> (values: Option<Vec<u64>>)
    ensures
        values is Some <==> lane_fits(field_views(lane@), PhysicalType::Double),
        values is Some ==> values->0@ == present(field_views(lane@)).map_values(|f| double_of(f)),
{
    let ghost views = field_views(lane@);
    let mut out: Vec<u64> = Vec::new();
    let mut i: usize = 0;
    assert(present(views.take(0)).map_values(|f| double_of(f)) =~= out@) by {
        reveal(Seq::filter);
    }
    while i < lane.len()
        invariant
            i <= lane.len(),
            views == field_views(lane@),
            lane_fits(views.take(i as int), PhysicalType::Double),
            out@ == present(views.take(i as int)).map_values(|f| double_of(f)),
        decreases lane.len() - i,
    {
        proof {
            lemma_present_step(views, i as int);
        }
        match &lane[i] {
            Field::Double(v) => {
                out.push(*v);
            },
            Field::Null => {},
            _ => {
                assert(!accepts(PhysicalType::Double, views[i as int]));
                return None;
            },
        }
        assert(out@ =~= present(views.take(i + 1)).map_values(|f| double_of(f)));
        assert forall|k: int| 0 <= k < i + 1 implies accepts(
            PhysicalType::Double,
            #[trigger] views.take(i + 1)[k],
        ) by {
            if k < i {
                assert(views.take(i as int)[k] == views.take(i + 1)[k]);
            }
        }
        i += 1;
    }
    assert(views.take(lane.len() as int) =~= views);
    Some(out)
}

fn gather_texts(lane: &Vec<Field>) -> (values: Option<Vec<String>>)
    ensures
        values is Some <==> lane_fits(field_views(lane@), PhysicalType::ByteArray),
        values is Some ==> string_views(values->0@) == present(field_views(lane@)).map_values(|f| text_of(f)),
{
    let ghost views = field_views(lane@);
    let mut out: Vec<String> = Vec::new();
    let mut i: usize = 0;
    assert(present(views.take(0)).map_values(|f| text_of(f)) =~= string_views(out@)) by {
        reveal(Seq::filter);
    }
    while i < lane.len()
        invariant
            i <= lane.len(),
            views == field_views(lane@),
            lane_fits(views.take(i as int), PhysicalType::ByteArray),
            string_views(out@) == present(views.take(i as int)).map_values(|f| text_of(f)),
        decreases lane.len() - i,
    {
        proof {
            lemma_present_step(views, i as int);
        }
        match &lane[i] {
            Field::Str(v) => {
                let ghost before = out@;
                out.push(v.clone());
                assert(string_views(out@) =~= string_views(before).push(v@));
            },
            Field::Null => {},
            _ => {
                assert(!accepts(PhysicalType::ByteArray, views[i as int]));
                return None;
            },
        }
        assert(string_views(out@) =~= present(views.take(i + 1)).map_values(|f| text_of(f)));
        assert forall|k: int| 0 <= k < i + 1 implies accepts(
            PhysicalType::ByteArray,
            #[trigger] views.take(i + 1)[k],
        ) by {
            if k < i {
                assert(views.take(i as int)[k] == views.take(i + 1)[k]);
            }
        }
        i += 1;
    }
    assert(views.take(lane.len() as int) =~= views);
    Some(out)
}

/// The column that a lane becomes, if the column takes every field of it.
fn gather(lane: &Vec<Field>, physical_type: PhysicalType) -> (chunk: Option<ColumnChunk>)
    ensures
        chunk is Some <==> lane_fits(field_views(lane@), physical_type),
        chunk is Some ==> chunk->0@ == chunk_of(field_views(lane@), physical_type),
{
    let values = match physical_type {
        PhysicalType::Bool => match gather_bools(lane) {
            Some(v) => ColumnValues::Bools(v),
            None => {
                return None;
            },
        },
        PhysicalType::Int32 => match gather_int32s(lane) {
            Some(v) => ColumnValues::Int32s(v),
            None => {
                return None;
            },
        },
        PhysicalType::Int64 => match gather_int64s(lane) {
            Some(v) => ColumnValues::Int64s(v),
            None => {
                return None;
            },
        },
        PhysicalType::Float => match gather_floats(lane) {
            Some(v) => ColumnValues::Floats(v),
            None => {
                return None;
            },
        },
        PhysicalType::Double => match gather_doubles(lane) {
            Some(v) => ColumnValues::Doubles(v),
            None => {
                return None;
            },
        },
        PhysicalType::ByteArray => match gather_texts(lane) {
            Some(v) => ColumnValues::ByteArrays(v),
            None => {
                return None;
            },
        },
    };
    Some(ColumnChunk { definition_levels: levels_of(lane), values })
}

/// The views of the lanes of a buffer, in order.
pub open spec fn lane_views(columns: Seq<Vec<Field>>) -> Seq<Seq<FieldView>> {
    columns.map_values(|lane: Vec<Field>| field_views(lane@))
}

/// A column-major staging area for rows.
#[derive(Debug)]
pub struct RowBuffer {
    columns: Vec<Vec<Field>>,
    current_col: usize,
}

impl View for RowBuffer {
    type V = Lanes;

    closed spec fn view(&self) -> Lanes {
        Lanes { columns: lane_views(self.columns@), cursor: self.current_col as nat }
    }
}

impl Default for RowBuffer {
    fn default() -> (buffer: Self)
        ensures
            buffer@ == Lanes::empty(),
    {
        RowBuffer::new()
    }
}

impl RowBuffer {
    /// The cursor is at a lane, or just behind the last one.
    #[verifier::type_invariant]
    spec fn cursor_in_range(self) -> bool {
        self.current_col <= self.columns@.len()
    }

    /// A buffer without lanes.
    pub fn new() -> (buffer: Self)
        ensures
            buffer@ == Lanes::empty(),
    {
        let buffer = RowBuffer { columns: Vec::new(), current_col: 0 };
        assert(lane_views(buffer.columns@) =~= Seq::empty());
        buffer
    }

    /// Whether the last row reached the last lane.
    pub fn row_complete(&self) -> (complete: bool)
        ensures
            complete == (self@.cursor == self@.columns.len()),
            self@.cursor <= self@.columns.len(),
    {
        proof {
            use_type_invariant(self);
        }
        self.current_col == self.columns.len()
    }

    /// Starts a row: the cursor goes back to the first lane.
    pub fn begin(&mut self)
        requires
            old(self)@.cursor == old(self)@.columns.len(),
        ensures
            final(self)@ == old(self)@.begun(),
    {
        let mut taken = RowBuffer::new();
        std::mem::swap(self, &mut taken);
        let RowBuffer { columns, current_col } = taken;
        *self = RowBuffer { columns, current_col: 0 };
    }

    /// Appends a field to the lane under the cursor and moves the cursor on.
    pub fn push(&mut self, val: Field)
        ensures
            final(self)@ == old(self)@.pushed(val@),
    {
        proof {
            use_type_invariant(&*self);
        }
        let mut taken = RowBuffer::new();
        std::mem::swap(self, &mut taken);
        proof {
            use_type_invariant(&taken);
        }
        let RowBuffer { mut columns, current_col } = taken;
        let ghost before = columns@;
        if columns.len() <= current_col {
            columns.push(Vec::new());
        }
        let ghost widened = columns@;
        columns[current_col].push(val);
        proof {
            assert(columns@.len() == widened.len());
            assert(columns@[current_col as int]@ == widened[current_col as int]@.push(val));
            assert(forall|j: int|
                0 <= j < widened.len() && j != current_col ==> columns@[j] == widened[j]);
            assert(field_views(columns@[current_col as int]@) =~= field_views(
                widened[current_col as int]@,
            ).push(val@));
            if current_col < before.len() {
                assert(lane_views(columns@) =~= lane_views(before).update(
                    current_col as int,
                    lane_views(before)[current_col as int].push(val@),
                ));
            } else {
                assert(field_views(columns@[current_col as int]@) =~= seq![val@]);
                assert(lane_views(columns@) =~= lane_views(before).push(seq![val@]));
            }
        }
        let lanes = columns.len();
        assert(current_col < lanes);
        *self = RowBuffer { columns, current_col: current_col + 1 };
    }

    /// Hands all buffered rows to `writer` as one row group and empties the
    /// lanes. Nothing is written, and nothing changes, unless the buffer is
    /// between rows, has one lane per leaf column of the file, and each
    /// column takes every field of its lane. An empty buffer writes nothing.
    pub fn record(&mut self, writer: &mut FileImage) -> (result: Result<usize, PersistError>)
        ensures
            match result {
                Ok(rows) => {
                    &&& old(self)@.level()
                    &&& rows == old(self)@.rows()
                    &&& if rows == 0 {
                        &&& final(self)@ == old(self)@
                        &&& final(writer)@ == old(writer)@
                    } else {
                        &&& lanes_fit(old(self)@.columns, old(writer)@.schema.fields)
                        &&& final(self)@ == old(self)@.cleared()
                        &&& final(writer)@.schema == old(writer)@.schema
                        &&& final(writer)@.row_groups == old(writer)@.row_groups.push(
                            row_group_of(old(self)@.columns, old(writer)@.schema.fields),
                        )
                    }
                },
                Err(e) => {
                    &&& e matches PersistError::Invariant(text) && text@ == misfit_chars(
                        old(self)@,
                        old(writer)@.schema.fields,
                    )
                    &&& !old(self)@.level() || (old(self)@.rows() != 0 && !lanes_fit(
                        old(self)@.columns,
                        old(writer)@.schema.fields,
                    ))
                    &&& final(self)@ == old(self)@
                    &&& final(writer)@ == old(writer)@
                },
            },
    {
        proof {
            use_type_invariant(&*self);
        }
        let ghost lanes = self@.columns;
        let ghost schema = writer@.schema.fields;
        if self.current_col != self.columns.len() {
            return Err(PersistError::Invariant("a row was missing fields".to_owned()));
        }
        let size = self.len();
        let mut i: usize = 0;
        while i < self.columns.len()
            invariant
                i <= self.columns@.len(),
                lanes == lane_views(self.columns@),
                size == self@.rows(),
                forall|k: int| 0 <= k < i ==> #[trigger] lanes[k].len() == size,
            decreases self.columns@.len() - i,
        {
            if self.columns[i].len() != size {
                assert(lanes[i as int].len() != self@.rows());
                return Err(PersistError::Invariant("a row was missing fields".to_owned()));
            }
            i += 1;
        }
        assert(self@.level());
        if size == 0 {
            return Ok(0);
        }
        if self.columns.len() != writer.schema.fields.len() {
            return Err(
                PersistError::Invariant("the row does not have the file's columns".to_owned()),
            );
        }
        let mut chunks: Vec<ColumnChunk> = Vec::new();
        let mut j: usize = 0;
        while j < self.columns.len()
            invariant
                j <= self.columns@.len(),
                lanes == lane_views(self.columns@),
                self@ == old(self)@,
                self@.level(),
                *writer == *old(writer),
                schema == leaf_views(writer.schema.fields@),
                lanes.len() == schema.len(),
                chunks@.len() == j,
                forall|k: int| 0 <= k < j ==> lane_fits(#[trigger] lanes[k], schema[k].physical_type),
                forall|k: int|
                    0 <= k < j ==> #[trigger] chunks@[k]@ == chunk_of(
                        lanes[k],
                        schema[k].physical_type,
                    ),
            decreases self.columns@.len() - j,
        {
            let physical_type = writer.schema.fields[j].physical_type;
            assert(physical_type == schema[j as int].physical_type);
            match gather(&self.columns[j], physical_type) {
                Some(chunk) => {
                    chunks.push(chunk);
                },
                None => {
                    assert(!lane_fits(lanes[j as int], schema[j as int].physical_type));
                    return Err(
                        PersistError::Invariant(
                            "a field does not match its column's type".to_owned(),
                        ),
                    );
                },
            }
            j += 1;
        }
        let mut taken = RowBuffer::new();
        std::mem::swap(self, &mut taken);
        let RowBuffer { mut columns, current_col } = taken;
        let mut c: usize = 0;
        while c < columns.len()
            invariant
                c <= columns@.len(),
                columns@.len() == lanes.len(),
                forall|k: int| 0 <= k < c ==> #[trigger] columns@[k]@.len() == 0,
            decreases columns@.len() - c,
        {
            columns[c].clear();
            c += 1;
        }
        assert forall|k: int| 0 <= k < columns@.len() implies #[trigger] lane_views(columns@)[k]
            == Seq::<FieldView>::empty() by {
            assert(columns@[k]@.len() == 0);
            assert(field_views(columns@[k]@) =~= Seq::<FieldView>::empty());
        }
        assert(lane_views(columns@) =~= Seq::new(lanes.len(), |i: int| Seq::<FieldView>::empty()));
        *self = RowBuffer { columns, current_col };
        let group = RowGroup { columns: chunks, rows: size };
        assert(group@.columns =~= row_group_of(lanes, schema).columns);
        assert(group@ == row_group_of(lanes, schema));
        let ghost groups = writer.row_groups@;
        writer.row_groups.push(group);
        assert(group_views(writer.row_groups@) =~= group_views(groups).push(
            row_group_of(lanes, schema),
        ));
        Ok(size)
    }

    /// The lanes, one per leaf column.
    pub fn lanes(&self) -> (lanes: &Vec<Vec<Field>>)
        ensures
            lane_views(lanes@) == self@.columns,
    {
        &self.columns
    }

    /// The lane that the next push goes to.
    pub fn cursor(&self) -> (cursor: usize)
        ensures
            cursor == self@.cursor,
    {
        self.current_col
    }

    /// The number of buffered rows: the length of the first lane.
    pub fn len(&self) -> (rows: usize)
        ensures
            rows == self@.rows(),
    {
        if self.columns.len() == 0 {
            0
        } else {
            self.columns[0].len()
        }
    }

    /// Whether no row is buffered.
    pub fn is_empty(&self) -> (empty: bool)
        ensures
            empty == (self@.rows() == 0),
    {
        self.len() == 0
    }
}

} // verus!
