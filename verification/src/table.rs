//! Typed tables and the columns they exchange with the engine.
use crate::error::{ErrorView, PipelineError};
use crate::expression::text_views;
use vstd::prelude::*;

verus! {

/// A named column of values, each of which may be missing.
#[derive(Debug, PartialEq, Eq)]
pub struct Column<T> {
    pub name: String,
    pub values: Vec<Option<T>>,
}

/// A table whose columns are grouped by the type of their values.
///
/// A float is held as the bit pattern of an IEEE-754 double and a date-time
/// as an integer count since the epoch, so that every value is carried
/// exactly.
#[derive(Debug, PartialEq, Eq)]
pub struct DataTable {
    pub floats: Vec<Column<u64>>,
    pub ints: Vec<Column<i64>>,
    pub strings: Vec<Column<String>>,
    pub datetimes: Vec<Column<i64>>,
    pub bools: Vec<Column<bool>>,
}

/// A column as the engine takes and gives it.
#[derive(Debug, PartialEq, Eq)]
pub enum EngineColumn {
    Float64(Column<u64>),
    Int64(Column<i64>),
    Utf8(Column<String>),
    Boolean(Column<bool>),
    /// A column of a type that a typed table cannot hold, with the engine's
    /// name of that type.
    Unsupported { name: String, dtype: String },
}

/// The type of the values of a column, as far as a typed table tells types
/// apart.
#[derive(Clone, Copy, Debug, PartialEq, Eq, Structural)]
pub enum ColumnKind {
    Float64,
    Int64,
    Utf8,
    Boolean,
    /// Any type that a typed table cannot hold.
    Other,
}

/// The mathematical value of a column: its name, the type of its values, and
/// the values in row order, `None` where one is missing.
#[allow(inconsistent_fields)]
pub enum ColumnShape {
    Float64 { name: Seq<char>, values: Seq<Option<u64>> },
    Int64 { name: Seq<char>, values: Seq<Option<i64>> },
    Utf8 { name: Seq<char>, values: Seq<Option<Seq<char>>> },
    Boolean { name: Seq<char>, values: Seq<Option<bool>> },
    Unsupported { name: Seq<char>, dtype: Seq<char> },
}

impl ColumnShape {
    /// The name of the column.
    pub open spec fn name(self) -> Seq<char> {
        match self {
            ColumnShape::Float64 { name, .. } => name,
            ColumnShape::Int64 { name, .. } => name,
            ColumnShape::Utf8 { name, .. } => name,
            ColumnShape::Boolean { name, .. } => name,
            ColumnShape::Unsupported { name, .. } => name,
        }
    }

    /// The number of values of the column. The values of a column of an
    /// unsupported type are not looked at; it counts as empty.
    pub open spec fn height(self) -> int {
        match self {
            ColumnShape::Float64 { values, .. } => values.len() as int,
            ColumnShape::Int64 { values, .. } => values.len() as int,
            ColumnShape::Utf8 { values, .. } => values.len() as int,
            ColumnShape::Boolean { values, .. } => values.len() as int,
            ColumnShape::Unsupported { .. } => 0,
        }
    }
}

/// The character sequences of a column of strings.
pub open spec fn text_values(values: Seq<Option<String>>) -> Seq<Option<Seq<char>>> {
    Seq::new(
        values.len(),
        |i: int|
            match values[i] {
                Some(text) => Some(text@),
                None => None,
            },
    )
}

/// The value of a column of floats.
pub open spec fn float_shape(column: Column<u64>) -> ColumnShape {
    ColumnShape::Float64 { name: column.name@, values: column.values@ }
}

/// The value of a column of integers.
pub open spec fn int_shape(column: Column<i64>) -> ColumnShape {
    ColumnShape::Int64 { name: column.name@, values: column.values@ }
}

/// The value of a column of strings.
pub open spec fn string_shape(column: Column<String>) -> ColumnShape {
    ColumnShape::Utf8 { name: column.name@, values: text_values(column.values@) }
}

/// The value of a column of booleans.
pub open spec fn bool_shape(column: Column<bool>) -> ColumnShape {
    ColumnShape::Boolean { name: column.name@, values: column.values@ }
}

impl View for EngineColumn {
    type V = ColumnShape;

    open spec fn view(&self) -> ColumnShape {
        match self {
            EngineColumn::Float64(c) => float_shape(*c),
            EngineColumn::Int64(c) => int_shape(*c),
            EngineColumn::Utf8(c) => string_shape(*c),
            EngineColumn::Boolean(c) => bool_shape(*c),
            EngineColumn::Unsupported { name, dtype } => ColumnShape::Unsupported {
                name: name@,
                dtype: dtype@,
            },
        }
    }
}

/// The values of a list of columns, in order.
pub open spec fn column_shapes(columns: Seq<EngineColumn>) -> Seq<ColumnShape> {
    Seq::new(columns.len(), |i: int| columns[i]@)
}

/// The mathematical value of a [`DataTable`]: the values of its columns,
/// group by group.
pub struct TableShape {
    pub floats: Seq<ColumnShape>,
    pub ints: Seq<ColumnShape>,
    pub strings: Seq<ColumnShape>,
    pub datetimes: Seq<ColumnShape>,
    pub bools: Seq<ColumnShape>,
}

impl View for DataTable {
    type V = TableShape;

    open spec fn view(&self) -> TableShape {
        TableShape {
            floats: self.floats@.map_values(|c: Column<u64>| float_shape(c)),
            ints: self.ints@.map_values(|c: Column<i64>| int_shape(c)),
            strings: self.strings@.map_values(|c: Column<String>| string_shape(c)),
            datetimes: self.datetimes@.map_values(|c: Column<i64>| int_shape(c)),
            bools: self.bools@.map_values(|c: Column<bool>| bool_shape(c)),
        }
    }
}

/// The columns of a table as the engine takes them: floats, integers,
/// strings, date-times as integers, booleans.
pub open spec fn laid_out(table: TableShape) -> Seq<ColumnShape> {
    table.floats + table.ints + table.strings + table.datetimes + table.bools
}

/// The names of a list of columns, in order.
pub open spec fn shape_names(columns: Seq<ColumnShape>) -> Seq<Seq<char>> {
    Seq::new(columns.len(), |i: int| columns[i].name())
}

/// The numbers of values of a list of columns, in order.
pub open spec fn shape_heights(columns: Seq<ColumnShape>) -> Seq<int> {
    Seq::new(columns.len(), |i: int| columns[i].height())
}

/// No name is used twice and all columns hold the same number of values.
pub open spec fn well_formed_columns(columns: Seq<ColumnShape>) -> bool {
    &&& shape_names(columns).no_duplicates()
    &&& forall|i: int, j: int|
        0 <= i < columns.len() && 0 <= j < columns.len() ==> shape_heights(columns)[i]
            == shape_heights(columns)[j]
}

/// Every column is of a type that a typed table can hold.
pub open spec fn all_supported(columns: Seq<ColumnShape>) -> bool {
    forall|j: int| 0 <= j < columns.len() ==> !(#[trigger] columns[j] is Unsupported)
}

/// `k` is the least index of a column that a typed table cannot hold.
pub open spec fn unsupported_first_at(columns: Seq<ColumnShape>, k: int) -> bool {
    &&& 0 <= k < columns.len()
    &&& columns[k] is Unsupported
    &&& forall|j: int| 0 <= j < k ==> !(#[trigger] columns[j] is Unsupported)
}

/// The columns sorted into groups by the type of their values, each group in
/// the order of the columns. No column comes back as a date-time.
#[verifier::opaque]
pub open spec fn grouped(columns: Seq<ColumnShape>) -> TableShape {
    TableShape {
        floats: columns.filter(|c: ColumnShape| c is Float64),
        ints: columns.filter(|c: ColumnShape| c is Int64),
        strings: columns.filter(|c: ColumnShape| c is Utf8),
        datetimes: Seq::empty(),
        bools: columns.filter(|c: ColumnShape| c is Boolean),
    }
}

/// The typed table of a list of columns: the columns in groups, or the
/// failure under the name of the first column of an unsupported type.
pub open spec fn table_of(columns: Seq<ColumnShape>) -> Result<TableShape, ErrorView> {
    if all_supported(columns) {
        Ok(grouped(columns))
    } else {
        let k = choose|k: int| unsupported_first_at(columns, k);
        Err(ErrorView::UnsupportedColumnType(columns[k].name()))
    }
}

/// The mathematical value of a conversion's outcome.
pub open spec fn table_view(outcome: Result<DataTable, PipelineError>) -> Result<
    TableShape,
    ErrorView,
> {
    match outcome {
        Ok(table) => Ok(table@),
        Err(error) => Err(error@),
    }
}

impl DataTable {
    /// A table without columns.
    pub fn new() -> (table: Self)
        ensures
            laid_out(table@).len() == 0,
            table@ == grouped(Seq::empty()),
    {
        let table = DataTable {
            floats: Vec::new(),
            ints: Vec::new(),
            strings: Vec::new(),
            datetimes: Vec::new(),
            bools: Vec::new(),
        };
        proof {
            reveal(Seq::filter);
            reveal(grouped);
            let none = Seq::<ColumnShape>::empty();
            assert(table@.floats =~= grouped(none).floats);
            assert(table@.ints =~= grouped(none).ints);
            assert(table@.strings =~= grouped(none).strings);
            assert(table@.datetimes =~= grouped(none).datetimes);
            assert(table@.bools =~= grouped(none).bools);
        }
        table
    }

    /// No name is used twice, in one group or in two, and all columns hold
    /// the same number of values.
    pub open spec fn well_formed(self) -> bool {
        well_formed_columns(laid_out(self@))
    }

    /// Whether the table is well formed.
    pub fn is_well_formed(&self) -> (well_formed: bool)
        ensures
            well_formed == self.well_formed(),
    {
        let mut names: Vec<String> = Vec::new();
        let mut heights: Vec<usize> = Vec::new();
        assert(text_views(names@) =~= Seq::<Seq<char>>::empty());
        assert(counts(heights@) =~= Seq::<int>::empty());
        note_columns(&self.floats, &mut names, &mut heights);
        note_columns(&self.ints, &mut names, &mut heights);
        note_columns(&self.strings, &mut names, &mut heights);
        note_columns(&self.datetimes, &mut names, &mut heights);
        note_columns(&self.bools, &mut names, &mut heights);
        assert(text_views(names@) =~= shape_names(laid_out(self@)));
        assert(counts(heights@) =~= shape_heights(laid_out(self@)));
        all_distinct(&names) && all_equal(&heights)
    }
}

/// The names of a group of columns, in order.
pub open spec fn names_of<T>(columns: Seq<Column<T>>) -> Seq<Seq<char>> {
    Seq::new(columns.len(), |i: int| columns[i].name@)
}

/// The numbers of values of a group of columns, in order.
pub open spec fn heights_of<T>(columns: Seq<Column<T>>) -> Seq<int> {
    Seq::new(columns.len(), |i: int| columns[i].values@.len() as int)
}

/// Machine numbers as integers.
pub open spec fn counts(heights: Seq<usize>) -> Seq<int> {
    Seq::new(heights.len(), |i: int| heights[i] as int)
}

fn note_columns<T>(columns: &Vec<Column<T>>, names: &mut Vec<String>, heights: &mut Vec<usize>)
    ensures
        text_views(final(names)@) == text_views(old(names)@) + names_of(columns@),
        counts(final(heights)@) == counts(old(heights)@) + heights_of(columns@),
{
    let ghost names_before = text_views(names@);
    let ghost heights_before = counts(heights@);
    let mut i: usize = 0;
    assert(text_views(names@) =~= names_before + names_of(columns@.take(0)));
    assert(counts(heights@) =~= heights_before + heights_of(columns@.take(0)));
    while i < columns.len()
        invariant
            i <= columns.len(),
            text_views(names@) == names_before + names_of(columns@.take(i as int)),
            counts(heights@) == heights_before + heights_of(columns@.take(i as int)),
        decreases columns.len() - i,
    {
        let ghost names_now = text_views(names@);
        let ghost heights_now = counts(heights@);
        names.push(columns[i].name.clone());
        heights.push(columns[i].values.len());
        assert(text_views(names@) =~= names_now.push(columns[i as int].name@));
        assert(counts(heights@) =~= heights_now.push(columns[i as int].values@.len() as int));
        assert(names_of(columns@.take(i + 1)) =~= names_of(columns@.take(i as int)).push(
            columns[i as int].name@,
        ));
        assert(heights_of(columns@.take(i + 1)) =~= heights_of(columns@.take(i as int)).push(
            columns[i as int].values@.len() as int,
        ));
        assert(text_views(names@) =~= names_before + names_of(columns@.take(i + 1)));
        assert(counts(heights@) =~= heights_before + heights_of(columns@.take(i + 1)));
        i += 1;
    }
    assert(columns@.take(columns@.len() as int) =~= columns@);
}

/// Whether no name occurs twice.
pub fn all_distinct(names: &Vec<String>) -> (distinct: bool)
    ensures
        distinct == text_views(names@).no_duplicates(),
{
    let ghost views = text_views(names@);
    let mut i: usize = 0;
    while i < names.len()
        invariant
            i <= names.len(),
            views == text_views(names@),
            forall|a: int, b: int| 0 <= a < i && a < b < names.len() ==> views[a] != views[b],
        decreases names.len() - i,
    {
        let mut j: usize = i + 1;
        while j < names.len()
            invariant
                i < j <= names.len(),
                views == text_views(names@),
                forall|b: int| i < b < j ==> views[i as int] != views[b],
            decreases names.len() - j,
        {
            if names[i] == names[j] {
                assert(views[i as int] == views[j as int]);
                return false;
            }
            j += 1;
        }
        i += 1;
    }
    assert forall|a: int, b: int| 0 <= a < views.len() && 0 <= b < views.len() && a != b implies views[a]
        != views[b] by {
        if a < b {
        } else {
            assert(views[b] != views[a]);
        }
    }
    true
}

/// Whether all numbers are the same.
pub fn all_equal(heights: &Vec<usize>) -> (equal: bool)
    ensures
        equal == (forall|i: int, j: int|
            0 <= i < heights.len() && 0 <= j < heights.len() ==> counts(heights@)[i] == counts(
                heights@,
            )[j]),
{
    let ghost all = counts(heights@);
    let mut i: usize = 1;
    while i < heights.len()
        invariant
            1 <= i,
            all == counts(heights@),
            forall|k: int| 0 <= k < i && k < heights.len() ==> #[trigger] all[k] == all[0],
        decreases heights.len() - i,
    {
        if heights[i] != heights[0] {
            assert(all[i as int] != all[0]);
            return false;
        }
        i += 1;
    }
    true
}

/// A table with one more column, in the group of its type. A column of an
/// unsupported type has no group and leaves the table as it is.
pub open spec fn placed(table: TableShape, column: ColumnShape) -> TableShape {
    match column {
        ColumnShape::Float64 { .. } => TableShape { floats: table.floats.push(column), ..table },
        ColumnShape::Int64 { .. } => TableShape { ints: table.ints.push(column), ..table },
        ColumnShape::Utf8 { .. } => TableShape { strings: table.strings.push(column), ..table },
        ColumnShape::Boolean { .. } => TableShape { bools: table.bools.push(column), ..table },
        ColumnShape::Unsupported { .. } => table,
    }
}

/// The groups of a longer list of columns are those of the list without its
/// last column, with that column placed.
proof fn lemma_grouped_push(columns: Seq<ColumnShape>, last: ColumnShape)
    ensures
        grouped(columns.push(last)) == placed(grouped(columns), last),
{
    reveal(Seq::filter);
    reveal(grouped);
    assert(columns.push(last).drop_last() =~= columns);
}

proof fn lemma_first_unsupported(columns: Seq<ColumnShape>, k: int)
    requires
        unsupported_first_at(columns, k),
    ensures
        table_of(columns) == Err::<TableShape, ErrorView>(
            ErrorView::UnsupportedColumnType(columns[k].name()),
        ),
{
    assert(!all_supported(columns));
    let chosen = choose|j: int| unsupported_first_at(columns, j);
    assert(unsupported_first_at(columns, chosen));
    if chosen < k {
        assert(!(columns[chosen] is Unsupported));
    } else if k < chosen {
        assert(!(columns[k] is Unsupported));
    }
}

proof fn lemma_supported_so_far(columns: Seq<ColumnShape>, i: int)
    requires
        0 <= i < columns.len(),
        all_supported(columns.take(i)),
    ensures
        columns[i] is Unsupported ==> unsupported_first_at(columns, i),
        !(columns[i] is Unsupported) ==> all_supported(columns.take(i + 1)),
{
    assert forall|j: int| 0 <= j < i implies !(#[trigger] columns[j] is Unsupported) by {
        assert(columns.take(i)[j] == columns[j]);
    }
    if !(columns[i] is Unsupported) {
        assert forall|j: int| 0 <= j < i + 1 implies !(#[trigger] columns.take(i + 1)[j]
            is Unsupported) by {
            assert(columns.take(i + 1)[j] == columns[j]);
        }
    }
}

fn place_floats(table: &mut DataTable, column: Column<u64>)
    ensures
        final(table)@ == placed(old(table)@, float_shape(column)),
{
    table.floats.push(column);
    assert(table@.floats =~= old(table)@.floats.push(float_shape(column)));
}

fn place_ints(table: &mut DataTable, column: Column<i64>)
    ensures
        final(table)@ == placed(old(table)@, int_shape(column)),
{
    table.ints.push(column);
    assert(table@.ints =~= old(table)@.ints.push(int_shape(column)));
}

fn place_strings(table: &mut DataTable, column: Column<String>)
    ensures
        final(table)@ == placed(old(table)@, string_shape(column)),
{
    table.strings.push(column);
    assert(table@.strings =~= old(table)@.strings.push(string_shape(column)));
}

fn place_bools(table: &mut DataTable, column: Column<bool>)
    ensures
        final(table)@ == placed(old(table)@, bool_shape(column)),
{
    table.bools.push(column);
    assert(table@.bools =~= old(table)@.bools.push(bool_shape(column)));
}

/// Sorts the columns that the engine gave into the groups of a typed table,
/// each group in the order of the columns. The first column of a type that
/// the table cannot hold fails the whole conversion, under its name.
pub fn table_from_columns(columns: Vec<EngineColumn>) -> (r: Result<DataTable, PipelineError>)
    ensures
        table_view(r) == table_of(column_shapes(columns@)),
{
    let mut table = DataTable::new();
    let ghost all = column_shapes(columns@);
    assert(all.take(0) =~= Seq::<ColumnShape>::empty());
    for column in iter: columns
        invariant
            all == column_shapes(columns@),
            iter.seq() == columns@,
            all_supported(all.take(iter.index() as int)),
            table@ == grouped(all.take(iter.index() as int)),
    {
        let ghost i = iter.index() as int;
        proof {
            assert(all[i] == column@);
            assert(all.take(i + 1) =~= all.take(i).push(column@));
            lemma_grouped_push(all.take(i), column@);
            lemma_supported_so_far(all, i);
        }
        match column {
            EngineColumn::Float64(c) => {
                place_floats(&mut table, c);
            },
            EngineColumn::Int64(c) => {
                place_ints(&mut table, c);
            },
            EngineColumn::Utf8(c) => {
                place_strings(&mut table, c);
            },
            EngineColumn::Boolean(c) => {
                place_bools(&mut table, c);
            },
            EngineColumn::Unsupported { name, dtype } => {
                proof {
                    lemma_first_unsupported(all, i);
                }
                return Err(PipelineError::UnsupportedColumnType(name));
            },
        }
    }
    assert(all.take(all.len() as int) =~= all);
    Ok(table)
}

/// Lays the columns of a table out as the engine takes them.
pub fn table_into_columns(table: DataTable) -> (columns: Vec<EngineColumn>)
    ensures
        column_shapes(columns@) == laid_out(table@),
{
    let ghost whole = table@;
    let ghost given = table;
    let DataTable { floats, ints, strings, datetimes, bools } = table;
    let mut columns: Vec<EngineColumn> = Vec::new();
    assert(column_shapes(columns@) =~= whole.floats.take(0));
    for column in iter: floats
        invariant
            iter.seq() == given.floats@,
            whole == given@,
            column_shapes(columns@) == whole.floats.take(iter.index() as int),
    {
        let ghost i = iter.index() as int;
        let ghost before = column_shapes(columns@);
        columns.push(EngineColumn::Float64(column));
        assert(column_shapes(columns@) =~= before.push(float_shape(column)));
        assert(whole.floats.take(i + 1) =~= whole.floats.take(i).push(float_shape(column)));
    }
    assert(whole.floats.take(whole.floats.len() as int) =~= whole.floats);
    let ghost done = column_shapes(columns@);
    assert(column_shapes(columns@) =~= done + whole.ints.take(0));
    for column in iter: ints
        invariant
            iter.seq() == given.ints@,
            whole == given@,
            column_shapes(columns@) == done + whole.ints.take(iter.index() as int),
    {
        let ghost i = iter.index() as int;
        let ghost before = column_shapes(columns@);
        columns.push(EngineColumn::Int64(column));
        assert(column_shapes(columns@) =~= before.push(int_shape(column)));
        assert(whole.ints.take(i + 1) =~= whole.ints.take(i).push(int_shape(column)));
        assert(column_shapes(columns@) =~= done + whole.ints.take(i + 1));
    }
    assert(whole.ints.take(whole.ints.len() as int) =~= whole.ints);
    let ghost done = column_shapes(columns@);
    assert(column_shapes(columns@) =~= done + whole.strings.take(0));
    for column in iter: strings
        invariant
            iter.seq() == given.strings@,
            whole == given@,
            column_shapes(columns@) == done + whole.strings.take(iter.index() as int),
    {
        let ghost i = iter.index() as int;
        let ghost before = column_shapes(columns@);
        columns.push(EngineColumn::Utf8(column));
        assert(column_shapes(columns@) =~= before.push(string_shape(column)));
        assert(whole.strings.take(i + 1) =~= whole.strings.take(i).push(string_shape(column)));
        assert(column_shapes(columns@) =~= done + whole.strings.take(i + 1));
    }
    assert(whole.strings.take(whole.strings.len() as int) =~= whole.strings);
    let ghost done = column_shapes(columns@);
    assert(column_shapes(columns@) =~= done + whole.datetimes.take(0));
    for column in iter: datetimes
        invariant
            iter.seq() == given.datetimes@,
            whole == given@,
            column_shapes(columns@) == done + whole.datetimes.take(iter.index() as int),
    {
        let ghost i = iter.index() as int;
        let ghost before = column_shapes(columns@);
        columns.push(EngineColumn::Int64(column));
        assert(column_shapes(columns@) =~= before.push(int_shape(column)));
        assert(whole.datetimes.take(i + 1) =~= whole.datetimes.take(i).push(int_shape(column)));
        assert(column_shapes(columns@) =~= done + whole.datetimes.take(i + 1));
    }
    assert(whole.datetimes.take(whole.datetimes.len() as int) =~= whole.datetimes);
    let ghost done = column_shapes(columns@);
    assert(column_shapes(columns@) =~= done + whole.bools.take(0));
    for column in iter: bools
        invariant
            iter.seq() == given.bools@,
            whole == given@,
            column_shapes(columns@) == done + whole.bools.take(iter.index() as int),
    {
        let ghost i = iter.index() as int;
        let ghost before = column_shapes(columns@);
        columns.push(EngineColumn::Boolean(column));
        assert(column_shapes(columns@) =~= before.push(bool_shape(column)));
        assert(whole.bools.take(i + 1) =~= whole.bools.take(i).push(bool_shape(column)));
        assert(column_shapes(columns@) =~= done + whole.bools.take(i + 1));
    }
    assert(whole.bools.take(whole.bools.len() as int) =~= whole.bools);
    columns
}

proof fn lemma_filter_all(columns: Seq<ColumnShape>, keep: spec_fn(ColumnShape) -> bool)
    requires
        forall|i: int| 0 <= i < columns.len() ==> keep(#[trigger] columns[i]),
    ensures
        columns.filter(keep) == columns,
    decreases columns.len(),
{
    reveal(Seq::filter);
    if columns.len() > 0 {
        lemma_filter_all(columns.drop_last(), keep);
        assert(columns.drop_last().push(columns.last()) =~= columns);
    }
}

proof fn lemma_filter_none(columns: Seq<ColumnShape>, keep: spec_fn(ColumnShape) -> bool)
    requires
        forall|i: int| 0 <= i < columns.len() ==> !keep(#[trigger] columns[i]),
    ensures
        columns.filter(keep) == Seq::<ColumnShape>::empty(),
    decreases columns.len(),
{
    reveal(Seq::filter);
    if columns.len() > 0 {
        lemma_filter_none(columns.drop_last(), keep);
    }
}

proof fn lemma_filter_laid_out(
    table: TableShape,
    keep: spec_fn(ColumnShape) -> bool,
)
    ensures
        laid_out(table).filter(keep) == table.floats.filter(keep) + table.ints.filter(keep)
            + table.strings.filter(keep) + table.datetimes.filter(keep) + table.bools.filter(
            keep,
        ),
{
    let f = table.floats;
    let i = table.ints;
    let s = table.strings;
    let d = table.datetimes;
    let b = table.bools;
    Seq::filter_distributes_over_add(f + i + s + d, b, keep);
    Seq::filter_distributes_over_add(f + i + s, d, keep);
    Seq::filter_distributes_over_add(f + i, s, keep);
    Seq::filter_distributes_over_add(f, i, keep);
}

/// A table that is laid out as columns and sorted into groups again comes
/// back column for column, with every name, every value and every missing
/// value in its place. Its date-time columns come back as integer columns,
/// after those it had.
pub proof fn lemma_table_round_trip(table: DataTable)
    ensures
        table_of(laid_out(table@)) == Ok::<TableShape, ErrorView>(
            TableShape {
                floats: table@.floats,
                ints: table@.ints + table@.datetimes,
                strings: table@.strings,
                datetimes: Seq::empty(),
                bools: table@.bools,
            },
        ),
{
    reveal(grouped);
    let shape = table@;
    let columns = laid_out(shape);
    assert(all_supported(columns));
    let is_float = |c: ColumnShape| c is Float64;
    let is_int = |c: ColumnShape| c is Int64;
    let is_string = |c: ColumnShape| c is Utf8;
    let is_bool = |c: ColumnShape| c is Boolean;

    lemma_filter_laid_out(shape, is_float);
    lemma_filter_all(shape.floats, is_float);
    lemma_filter_none(shape.ints, is_float);
    lemma_filter_none(shape.strings, is_float);
    lemma_filter_none(shape.datetimes, is_float);
    lemma_filter_none(shape.bools, is_float);
    assert(grouped(columns).floats =~= shape.floats);

    lemma_filter_laid_out(shape, is_int);
    lemma_filter_none(shape.floats, is_int);
    lemma_filter_all(shape.ints, is_int);
    lemma_filter_none(shape.strings, is_int);
    lemma_filter_all(shape.datetimes, is_int);
    lemma_filter_none(shape.bools, is_int);
    assert(grouped(columns).ints =~= shape.ints + shape.datetimes);

    lemma_filter_laid_out(shape, is_string);
    lemma_filter_none(shape.floats, is_string);
    lemma_filter_none(shape.ints, is_string);
    lemma_filter_all(shape.strings, is_string);
    lemma_filter_none(shape.datetimes, is_string);
    lemma_filter_none(shape.bools, is_string);
    assert(grouped(columns).strings =~= shape.strings);

    lemma_filter_laid_out(shape, is_bool);
    lemma_filter_none(shape.floats, is_bool);
    lemma_filter_none(shape.ints, is_bool);
    lemma_filter_none(shape.strings, is_bool);
    lemma_filter_none(shape.datetimes, is_bool);
    lemma_filter_all(shape.bools, is_bool);
    assert(grouped(columns).bools =~= shape.bools);
}

} // verus!
