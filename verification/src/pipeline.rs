//! Running a request: input tables in, one lazy frame out for each requested
//! pipe, and reading the frames that the engine computes back into tables.
use crate::config::PipeConfig;
use crate::engine::{
    bool_series, column_bools, column_floats, column_ints, column_name, column_strings,
    column_type, engine_frame, engine_lazy, engine_schema, error_text, float_series,
    frame_columns, frame_of, frame_width, int_series, lazy, series_column, series_columns,
    string_series, supported_frame,
};
use crate::error::{ErrorView, PipelineError};
use crate::executor::{apart_from_text, engine_text, execute, executed, frame_view, told};
use crate::expression::text_views;
use crate::registry::{ids, Entry, Registry};
use crate::resolver::{lemma_resolution_has_no_text, resolve, resolve_spec};
use crate::table::{
    all_supported, column_shapes, laid_out, lemma_table_round_trip, shape_names,
    table_from_columns, table_into_columns, table_of, table_view, Column, DataTable, EngineColumn,
    TableShape,
};
use polars::prelude::{DataFrame, LazyFrame, Series};
use vstd::pervasive::unreached;
use vstd::prelude::*;

verus! {

fn series_of(columns: &Vec<EngineColumn>) -> (series: Vec<Series>)
    requires
        all_supported(column_shapes(columns@)),
    ensures
        series_columns(series@) == column_shapes(columns@),
{
    let ghost shapes = column_shapes(columns@);
    let mut series: Vec<Series> = Vec::new();
    let mut i: usize = 0;
    assert(series_columns(series@) =~= shapes.take(0));
    while i < columns.len()
        invariant
            i <= columns.len(),
            shapes == column_shapes(columns@),
            all_supported(shapes),
            series_columns(series@) == shapes.take(i as int),
        decreases columns.len() - i,
    {
        let ghost before = series_columns(series@);
        assert(!(shapes[i as int] is Unsupported));
        let one = match &columns[i] {
            EngineColumn::Float64(c) => float_series(c),
            EngineColumn::Int64(c) => int_series(c),
            EngineColumn::Utf8(c) => string_series(c),
            EngineColumn::Boolean(c) => bool_series(c),
            EngineColumn::Unsupported { .. } => unreached(),
        };
        series.push(one);
        assert(series_columns(series@) =~= before.push(series_column(one)));
        assert(shapes.take(i + 1) =~= shapes.take(i as int).push(shapes[i as int]));
        i += 1;
    }
    assert(shapes.take(shapes.len() as int) =~= shapes);
    series
}

/// What is said of a table that is not well formed.
pub const ILL_FORMED: &'static str = "the columns of a table differ in length or share a name";

/// The error for an input table that is not well formed.
pub open spec fn ill_formed() -> ErrorView {
    ErrorView::PayloadDecodeError(ILL_FORMED@)
}

/// Makes the engine's frame of a typed table: it holds the columns of the
/// table, floats first, then integers, strings, date-times as integers, and
/// booleans. The engine makes the frame exactly if the table is well formed;
/// a table it does not take is reported as a payload that could not be
/// decoded.
pub fn table_to_frame(table: DataTable) -> (r: Result<DataFrame, PipelineError>)
    ensures
        r is Ok <==> table.well_formed(),
        r matches Ok(frame) ==> frame == engine_frame(laid_out(table@)) && frame_columns(frame)
            == laid_out(table@),
        r matches Err(error) ==> error@ == ill_formed(),
{
    if !table.is_well_formed() {
        return Err(PipelineError::PayloadDecodeError(ILL_FORMED.to_string()));
    }
    proof {
        lemma_table_round_trip(table);
    }
    let columns = table_into_columns(table);
    let series = series_of(&columns);
    match frame_of(series) {
        Ok(frame) => Ok(frame),
        Err(error) => Err(PipelineError::PayloadDecodeError(error_text(&error))),
    }
}

/// The lazy frame that the engine makes of a well-formed table.
pub open spec fn frame_for(table: TableShape) -> LazyFrame {
    engine_lazy(engine_frame(laid_out(table)))
}

/// Hands a typed table to the engine as a lazy frame over the frame that
/// [`table_to_frame`] makes of it, whose schema the engine can tell: the
/// columns of the table.
pub fn data_table_to_frame(table: DataTable) -> (r: Result<LazyFrame, PipelineError>)
    ensures
        r is Ok <==> table.well_formed(),
        r matches Ok(built) ==> built == frame_for(table@) && engine_schema(built) == Some(
            shape_names(laid_out(table@)),
        ),
        r matches Err(error) ==> error@ == ill_formed(),
{
    match table_to_frame(table) {
        Ok(frame) => Ok(lazy(frame)),
        Err(error) => Err(error),
    }
}

fn read_column(frame: &DataFrame, index: usize) -> (column: EngineColumn)
    requires
        index < frame_columns(*frame).len(),
    ensures
        column@ == frame_columns(*frame)[index as int],
{
    let name = match column_name(frame, index) {
        Some(name) => name,
        None => unreached(),
    };
    if let Some(values) = column_floats(frame, index) {
        return EngineColumn::Float64(Column { name, values });
    }
    if let Some(values) = column_ints(frame, index) {
        return EngineColumn::Int64(Column { name, values });
    }
    if let Some(values) = column_strings(frame, index) {
        return EngineColumn::Utf8(Column { name, values });
    }
    if let Some(values) = column_bools(frame, index) {
        return EngineColumn::Boolean(Column { name, values });
    }
    match column_type(frame, index) {
        Some(dtype) => EngineColumn::Unsupported { name, dtype },
        None => unreached(),
    }
}

/// Reads a materialized frame into a typed table: every column goes into
/// the group of its type, in the order of the frame, with its name, its
/// values and its nulls. A column of a type without a group fails the
/// conversion, the first such column under its name.
pub fn frame_to_table(frame: &DataFrame) -> (r: Result<DataTable, PipelineError>)
    ensures
        table_view(r) == table_of(frame_columns(*frame)),
{
    let width = frame_width(frame);
    let ghost held = frame_columns(*frame);
    let mut columns: Vec<EngineColumn> = Vec::new();
    let mut i: usize = 0;
    assert(column_shapes(columns@) =~= held.take(0));
    while i < width
        invariant
            i <= width,
            width == held.len(),
            held == frame_columns(*frame),
            column_shapes(columns@) == held.take(i as int),
        decreases width - i,
    {
        let ghost before = column_shapes(columns@);
        let column = read_column(frame, i);
        columns.push(column);
        assert(column_shapes(columns@) =~= before.push(column@));
        assert(held.take(i + 1) =~= held.take(i as int).push(held[i as int]));
        i += 1;
    }
    assert(held.take(held.len() as int) =~= held);
    table_from_columns(columns)
}

/// A well-formed table that is made into a frame and read back comes back
/// with every column, name, value and null in its place: the frame holds the
/// columns of the table, and reading it sorts them into their groups again.
/// Date-time columns come back as integer columns, after those the table had.
pub proof fn lemma_frame_round_trip(table: DataTable, frame: DataFrame)
    requires
        frame_columns(frame) == laid_out(table@),
    ensures
        table_of(frame_columns(frame)) == Ok::<TableShape, ErrorView>(
            TableShape {
                floats: table@.floats,
                ints: table@.ints + table@.datetimes,
                strings: table@.strings,
                datetimes: Seq::empty(),
                bools: table@.bools,
            },
        ),
{
    lemma_table_round_trip(table);
}

/// What setting up the frame of the pipe `pipe_id` comes to, against the
/// stages of `store` and the input frames `frames`: the error of the
/// resolution where the pipe does not resolve, and else what carrying its
/// plan over to the engine comes to.
pub open spec fn created(
    store: Seq<Entry<PipeConfig>>,
    frames: Seq<Entry<LazyFrame>>,
    pipe_id: Seq<char>,
) -> Result<LazyFrame, ErrorView> {
    match resolve_spec(store, ids(frames), pipe_id, Seq::empty()) {
        Err(planning) => Err(planning),
        Ok(plan) => executed(plan, frames, pipe_id),
    }
}

/// The frames of the first `count` requested pipes, in the order of the
/// request, or the error of the first among them that has none.
pub open spec fn created_all(
    store: Seq<Entry<PipeConfig>>,
    frames: Seq<Entry<LazyFrame>>,
    pipe_ids: Seq<Seq<char>>,
    count: nat,
) -> Result<Seq<LazyFrame>, ErrorView>
    decreases count,
{
    if count == 0 || count > pipe_ids.len() {
        Ok(Seq::empty())
    } else {
        match created_all(store, frames, pipe_ids, (count - 1) as nat) {
            Err(error) => Err(error),
            Ok(front) => match created(store, frames, pipe_ids[count - 1]) {
                Err(error) => Err(error),
                Ok(frame) => Ok(front.push(frame)),
            },
        }
    }
}

proof fn lemma_request_failure_stays(
    store: Seq<Entry<PipeConfig>>,
    frames: Seq<Entry<LazyFrame>>,
    pipe_ids: Seq<Seq<char>>,
    count: nat,
    longer: nat,
)
    requires
        count <= longer <= pipe_ids.len(),
        created_all(store, frames, pipe_ids, count) is Err,
    ensures
        created_all(store, frames, pipe_ids, longer) == created_all(store, frames, pipe_ids, count),
    decreases longer,
{
    if count < longer {
        lemma_request_failure_stays(store, frames, pipe_ids, count, (longer - 1) as nat);
    }
}

/// The input frames and the stages of one request.
pub struct LazyFrameFactory {
    pub lazy_frames: Registry<LazyFrame>,
    pub pipe_configs: Registry<PipeConfig>,
}

impl LazyFrameFactory {
    /// Sets up the lazy frame of one pipe: resolves the pipe into a plan and
    /// has the engine build the frame of the plan, step by step.
    ///
    /// The frame is not computed here. The engine computes it when the frame
    /// is collected, and what it computes is read by [`frame_to_table`]. A
    /// failure of the engine while the frame is set up carries the engine's
    /// own description of it.
    pub fn create_lazy_frame(&self, pipe_id: &String) -> (r: Result<LazyFrame, PipelineError>)
        ensures
            frame_view(r) == created(self.pipe_configs.entries@, self.lazy_frames.entries@, pipe_id@),
            told(r),
            r matches Ok(built) ==> supported_frame(built),
    {
        let sources = self.lazy_frames.keys();
        match resolve(&self.pipe_configs, &sources, pipe_id) {
            Ok(plan) => execute(&plan, &self.lazy_frames, pipe_id),
            Err(error) => {
                proof {
                    lemma_resolution_has_no_text(
                        self.pipe_configs.entries@,
                        ids(self.lazy_frames.entries@),
                        pipe_id@,
                        Seq::empty(),
                    );
                }
                Err(error)
            },
        }
    }
}

/// The input tables as the engine holds them: under the same ids, in the
/// same order, each as the lazy frame the engine makes of it.
pub open spec fn input_frames(tables: Seq<Entry<DataTable>>) -> Seq<Entry<LazyFrame>> {
    Seq::new(
        tables.len(),
        |i: int| Entry { id: tables[i].id, value: frame_for(tables[i].value@) },
    )
}

/// Every input table is well formed.
pub open spec fn inputs_well_formed(tables: Seq<Entry<DataTable>>) -> bool {
    forall|i: int| 0 <= i < tables.len() ==> (#[trigger] tables[i]).value.well_formed()
}

/// The mathematical value of the outcome of a request, apart from the
/// engine's description of a failure.
pub open spec fn frames_view(outcome: Result<Vec<LazyFrame>, PipelineError>) -> Result<
    Seq<LazyFrame>,
    ErrorView,
> {
    match outcome {
        Ok(frames) => Ok(frames@),
        Err(error) => Err(apart_from_text(error@)),
    }
}

/// What a request comes to. An input table that is not well formed fails it
/// as a payload that could not be decoded. Otherwise it comes to
/// [`created_all`] against the frames of the input tables: one frame for
/// each requested pipe, the frame at each place that of the pipe at that
/// place, or the error of the first requested pipe that has none.
pub open spec fn requested(
    tables: Seq<Entry<DataTable>>,
    store: Seq<Entry<PipeConfig>>,
    pipe_ids: Seq<Seq<char>>,
) -> Result<Seq<LazyFrame>, ErrorView> {
    if inputs_well_formed(tables) {
        created_all(store, input_frames(tables), pipe_ids, pipe_ids.len())
    } else {
        Err(ill_formed())
    }
}

/// Runs one request: hands the input tables to the engine and sets up the
/// lazy frame of each requested pipe, in the order of the request.
///
/// The outcome is that of [`requested`], a function of the three arguments.
/// A request for no pipe gives no frame. A failure of the engine carries the
/// engine's own description of it.
pub fn run_data_pipeline(
    pipe_ids: &Vec<String>,
    input_data: Registry<DataTable>,
    configs: Registry<PipeConfig>,
) -> (r: Result<Vec<LazyFrame>, PipelineError>)
    ensures
        frames_view(r) == requested(input_data.entries@, configs.entries@, text_views(pipe_ids@)),
        r matches Err(error) ==> engine_text(error@),
{
    let ghost given = input_data.entries@;
    let mut frames: Vec<Entry<LazyFrame>> = Vec::new();
    assert(frames@ =~= input_frames(given.take(0)));
    for entry in iter: input_data.entries
        invariant
            iter.seq() == given,
            given == input_data.entries@,
            frames@ == input_frames(given.take(iter.index() as int)),
            forall|i: int| 0 <= i < iter.index() ==> (#[trigger] given[i]).value.well_formed(),
    {
        let ghost at = iter.index() as int;
        let ghost before = frames@;
        let Entry { id, value } = entry;
        match data_table_to_frame(value) {
            Ok(frame) => {
                frames.push(Entry { id, value: frame });
                assert(frames@ =~= input_frames(given.take(at + 1))) by {
                    assert forall|i: int| 0 <= i < at + 1 implies frames@[i] == input_frames(
                        given.take(at + 1),
                    )[i] by {
                        if i < at {
                            assert(frames@[i] == before[i]);
                            assert(given.take(at + 1)[i] == given.take(at)[i]);
                        }
                    }
                }
            },
            Err(error) => {
                assert(!given[at].value.well_formed());
                return Err(error);
            },
        }
    }
    assert(given.take(given.len() as int) =~= given);
    assert(inputs_well_formed(given));
    let factory = LazyFrameFactory { lazy_frames: Registry { entries: frames }, pipe_configs: configs };
    let ghost held = factory.lazy_frames.entries@;
    let ghost wanted = text_views(pipe_ids@);
    let mut built: Vec<LazyFrame> = Vec::new();
    let mut i: usize = 0;
    while i < pipe_ids.len()
        invariant
            i <= pipe_ids.len(),
            built.len() == i,
            given == input_data.entries@,
            inputs_well_formed(given),
            factory.pipe_configs == configs,
            held == factory.lazy_frames.entries@,
            held == input_frames(given),
            wanted == text_views(pipe_ids@),
            created_all(configs.entries@, held, wanted, i as nat) == Ok::<Seq<LazyFrame>, ErrorView>(
                built@,
            ),
        decreases pipe_ids.len() - i,
    {
        match factory.create_lazy_frame(&pipe_ids[i]) {
            Ok(frame) => {
                built.push(frame);
            },
            Err(error) => {
                proof {
                    lemma_request_failure_stays(
                        configs.entries@,
                        held,
                        wanted,
                        (i + 1) as nat,
                        pipe_ids@.len(),
                    );
                }
                return Err(error);
            },
        }
        i += 1;
    }
    Ok(built)
}

} // verus!
