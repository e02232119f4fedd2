//! The columnar engine.
//!
//! Everything the pipeline has the engine do goes through the functions of
//! this file, each of which hands one request to `polars`. What the engine
//! computes is not part of what this crate proves, and nothing here has it
//! compute: a lazy frame is built and handed on, never collected. What the
//! engine builds from given expressions, and from lazy frames whose schema
//! it can tell, depends on those alone, so each such result has a name, and
//! the function that asks for it says that it returns what the name stands
//! for. A lazy frame that holds an error is not such a value, since the
//! engine hands its error out only once; the builders are therefore never
//! given one, and [`engine_schema`] tells the two kinds apart. Equality of
//! expressions and of lazy frames is meant as the engine takes them: two are
//! equal if they ask for the same computation. A series and a materialized
//! frame are plain
//! containers; what they hold is named by [`series_column`] and
//! [`frame_columns`], and the functions that fill and read them say what they
//! put in and take out.
use crate::compiled::ExprShape;
use crate::executor::{column_exprs, lowered, names_offence, offence};
use crate::expression::text_views;
use crate::table::{
    all_supported, bool_shape, float_shape, int_shape, shape_names, string_shape, text_values,
    well_formed_columns, Column, ColumnKind, ColumnShape,
};
use polars::prelude::{
    col, lit, max_horizontal, min_horizontal, ternary_expr, DataFrame, DataType, Expr,
    Float64Type, IntoLazy, JoinBuilder, JoinType, LazyFrame, NamedFrom, PolarsError,
    PolarsNumericType, Series,
};
use vstd::prelude::*;

verus! {

#[verifier::external_type_specification]
#[verifier::external_body]
pub struct ExExpr(Expr);

#[verifier::external_type_specification]
#[verifier::external_body]
pub struct ExLazyFrame(LazyFrame);

#[verifier::external_type_specification]
#[verifier::external_body]
pub struct ExDataFrame(DataFrame);

#[verifier::external_type_specification]
#[verifier::external_body]
pub struct ExSeries(Series);

#[verifier::external_type_specification]
#[verifier::external_body]
pub struct ExPolarsError(PolarsError);

/// What the engine builds for `lit` on a double.
pub uninterp spec fn engine_literal_number(bits: u64) -> Expr;

/// `polars::prelude::lit` on the double with the given IEEE-754 bit pattern.
#[verifier::external_body]
pub(crate) fn literal_number(bits: u64) -> (built: Expr)
    ensures
        built == engine_literal_number(bits),
{
    lit(<Float64Type as PolarsNumericType>::Native::from_bits(bits))
}

/// What the engine builds for `lit` on a 32-bit integer.
pub uninterp spec fn engine_literal_integer(value: i32) -> Expr;

/// `polars::prelude::lit` on a 32-bit integer.
#[verifier::external_body]
pub(crate) fn literal_integer(value: i32) -> (built: Expr)
    ensures
        built == engine_literal_integer(value),
{
    lit(value)
}

/// What the engine builds for `lit` on a boolean.
pub uninterp spec fn engine_literal_boolean(value: bool) -> Expr;

/// `polars::prelude::lit` on a boolean.
#[verifier::external_body]
pub(crate) fn literal_boolean(value: bool) -> (built: Expr)
    ensures
        built == engine_literal_boolean(value),
{
    lit(value)
}

/// What the engine builds for `col` on a name.
pub uninterp spec fn engine_column(name: Seq<char>) -> Expr;

/// `polars::prelude::col`: the column with the given name.
#[verifier::external_body]
pub(crate) fn column(name: &String) -> (built: Expr)
    ensures
        built == engine_column(name@),
{
    col(name)
}

/// What the engine builds for `Expr + Expr`.
pub uninterp spec fn engine_plus(left: Expr, right: Expr) -> Expr;

/// `Expr + Expr`: the expression the engine builds of the two operands.
#[verifier::external_body]
pub(crate) fn plus(left: Expr, right: Expr) -> (built: Expr)
    ensures
        built == engine_plus(left, right),
{
    left + right
}

/// What the engine builds for `Expr - Expr`.
pub uninterp spec fn engine_minus(left: Expr, right: Expr) -> Expr;

/// `Expr - Expr`: the expression the engine builds of the two operands.
#[verifier::external_body]
pub(crate) fn minus(left: Expr, right: Expr) -> (built: Expr)
    ensures
        built == engine_minus(left, right),
{
    left - right
}

/// What the engine builds for `Expr * Expr`.
pub uninterp spec fn engine_times(left: Expr, right: Expr) -> Expr;

/// `Expr * Expr`: the expression the engine builds of the two operands.
#[verifier::external_body]
pub(crate) fn times(left: Expr, right: Expr) -> (built: Expr)
    ensures
        built == engine_times(left, right),
{
    left * right
}

/// What the engine builds for `Expr / Expr`.
pub uninterp spec fn engine_divided_by(left: Expr, right: Expr) -> Expr;

/// `Expr / Expr`: the expression the engine builds of the two operands.
#[verifier::external_body]
pub(crate) fn divided_by(left: Expr, right: Expr) -> (built: Expr)
    ensures
        built == engine_divided_by(left, right),
{
    left / right
}

/// What the engine builds for `Expr::and`.
pub uninterp spec fn engine_both(left: Expr, right: Expr) -> Expr;

/// `Expr::and`: the expression the engine builds of the two operands.
#[verifier::external_body]
pub(crate) fn both(left: Expr, right: Expr) -> (built: Expr)
    ensures
        built == engine_both(left, right),
{
    left.and(right)
}

/// What the engine builds for `Expr::or`.
pub uninterp spec fn engine_either(left: Expr, right: Expr) -> Expr;

/// `Expr::or`: the expression the engine builds of the two operands.
#[verifier::external_body]
pub(crate) fn either(left: Expr, right: Expr) -> (built: Expr)
    ensures
        built == engine_either(left, right),
{
    left.or(right)
}

/// What the engine builds for `Expr::lt`.
pub uninterp spec fn engine_less_than(left: Expr, right: Expr) -> Expr;

/// `Expr::lt`: the expression the engine builds of the two operands.
#[verifier::external_body]
pub(crate) fn less_than(left: Expr, right: Expr) -> (built: Expr)
    ensures
        built == engine_less_than(left, right),
{
    left.lt(right)
}

/// What the engine builds for `Expr::lt_eq`.
pub uninterp spec fn engine_less_than_or_equal(left: Expr, right: Expr) -> Expr;

/// `Expr::lt_eq`: the expression the engine builds of the two operands.
#[verifier::external_body]
pub(crate) fn less_than_or_equal(left: Expr, right: Expr) -> (built: Expr)
    ensures
        built == engine_less_than_or_equal(left, right),
{
    left.lt_eq(right)
}

/// What the engine builds for `Expr::gt`.
pub uninterp spec fn engine_greater_than(left: Expr, right: Expr) -> Expr;

/// `Expr::gt`: the expression the engine builds of the two operands.
#[verifier::external_body]
pub(crate) fn greater_than(left: Expr, right: Expr) -> (built: Expr)
    ensures
        built == engine_greater_than(left, right),
{
    left.gt(right)
}

/// What the engine builds for `Expr::gt_eq`.
pub uninterp spec fn engine_greater_than_or_equal(left: Expr, right: Expr) -> Expr;

/// `Expr::gt_eq`: the expression the engine builds of the two operands.
#[verifier::external_body]
pub(crate) fn greater_than_or_equal(left: Expr, right: Expr) -> (built: Expr)
    ensures
        built == engine_greater_than_or_equal(left, right),
{
    left.gt_eq(right)
}

/// What the engine builds for `Expr::not`.
pub uninterp spec fn engine_negated(inner: Expr) -> Expr;

/// `Expr::not`: the expression the engine builds of the operand.
#[verifier::external_body]
pub(crate) fn negated(inner: Expr) -> (built: Expr)
    ensures
        built == engine_negated(inner),
{
    inner.not()
}

/// What the engine builds for `min_horizontal` over a list of expressions.
pub uninterp spec fn engine_least_of(items: Seq<Expr>) -> Expr;

/// `polars::prelude::min_horizontal` over the given expressions.
#[verifier::external_body]
pub(crate) fn least_of(items: Vec<Expr>) -> (built: Expr)
    ensures
        built == engine_least_of(items@),
{
    min_horizontal(items)
}

/// What the engine builds for `max_horizontal` over a list of expressions.
pub uninterp spec fn engine_greatest_of(items: Seq<Expr>) -> Expr;

/// `polars::prelude::max_horizontal` over the given expressions.
#[verifier::external_body]
pub(crate) fn greatest_of(items: Vec<Expr>) -> (built: Expr)
    ensures
        built == engine_greatest_of(items@),
{
    max_horizontal(items)
}

/// What the engine builds for `ternary_expr`.
pub uninterp spec fn engine_choice(predicate: Expr, truthy: Expr, falsy: Expr) -> Expr;

/// `polars::prelude::ternary_expr`: `truthy` where `predicate` holds, `falsy`
/// elsewhere.
#[verifier::external_body]
pub(crate) fn choice(predicate: Expr, truthy: Expr, falsy: Expr) -> (built: Expr)
    ensures
        built == engine_choice(predicate, truthy, falsy),
{
    ternary_expr(predicate, truthy, falsy)
}

/// What the engine builds for `Expr::sum`.
pub uninterp spec fn engine_sum_of(inner: Expr) -> Expr;

/// `Expr::sum`: the expression the engine builds of the operand.
#[verifier::external_body]
pub(crate) fn sum_of(inner: Expr) -> (built: Expr)
    ensures
        built == engine_sum_of(inner),
{
    inner.sum()
}

/// What the engine builds for `Expr::max`.
pub uninterp spec fn engine_max_of(inner: Expr) -> Expr;

/// `Expr::max`: the expression the engine builds of the operand.
#[verifier::external_body]
pub(crate) fn max_of(inner: Expr) -> (built: Expr)
    ensures
        built == engine_max_of(inner),
{
    inner.max()
}

/// What the engine builds for `Expr::min`.
pub uninterp spec fn engine_min_of(inner: Expr) -> Expr;

/// `Expr::min`: the expression the engine builds of the operand.
#[verifier::external_body]
pub(crate) fn min_of(inner: Expr) -> (built: Expr)
    ensures
        built == engine_min_of(inner),
{
    inner.min()
}

/// What the engine builds for `Expr::over`.
pub uninterp spec fn engine_over(aggregate: Expr, partition_by: Seq<Expr>) -> Expr;

/// `Expr::over`: the aggregate within each partition by the given expressions.
#[verifier::external_body]
pub(crate) fn over(aggregate: Expr, partition_by: Vec<Expr>) -> (built: Expr)
    ensures
        built == engine_over(aggregate, partition_by@),
{
    aggregate.over(partition_by)
}

/// What the engine builds for `Expr::alias`.
pub uninterp spec fn engine_named(inner: Expr, name: Seq<char>) -> Expr;

/// `Expr::alias`: the expression under the given name.
#[verifier::external_body]
pub(crate) fn named(inner: Expr, name: &String) -> (built: Expr)
    ensures
        built == engine_named(inner, name@),
{
    inner.alias(name)
}

/// The names of the columns a lazy frame will have, in order, where the
/// engine can tell them: `LazyFrame::schema` succeeds exactly on the frames
/// that hold no error, and then gives these names. Which error it gives on
/// the others has no name: the engine hands a stored error out only once.
pub uninterp spec fn engine_schema(frame: LazyFrame) -> Option<Seq<Seq<char>>>;

/// `LazyFrame::clone`: a copy of the frame.
#[verifier::external_body]
pub(crate) fn clone_frame(frame: &LazyFrame) -> (copy: LazyFrame)
    ensures
        copy == *frame,
{
    frame.clone()
}

/// `LazyFrame::schema`: the names of the columns the frame will have, or the
/// engine's error where it cannot tell. Of the error nothing is said.
#[verifier::external_body]
pub(crate) fn column_names(frame: &LazyFrame) -> (r: Result<Vec<String>, PolarsError>)
    ensures
        match r {
            Ok(names) => engine_schema(*frame) == Some(text_views(names@)),
            Err(_) => engine_schema(*frame) is None,
        },
{
    let schema = frame.schema()?;
    Ok(schema.iter_names().map(|name| name.to_string()).collect())
}

/// The types of the columns a lazy frame will have, in the order of
/// [`engine_schema`], where the engine can tell its schema.
pub uninterp spec fn engine_kinds(frame: LazyFrame) -> Seq<ColumnKind>;

/// `LazyFrame::schema`: the types of the columns the frame will have, one
/// for each name of its schema, or the engine's error where it cannot tell.
/// Of the error nothing is said.
#[verifier::external_body]
pub(crate) fn column_kinds(frame: &LazyFrame) -> (r: Result<Vec<ColumnKind>, PolarsError>)
    ensures
        match r {
            Ok(kinds) => engine_schema(*frame) matches Some(names) && names.len() == kinds@.len()
                && engine_kinds(*frame) == kinds@,
            Err(_) => engine_schema(*frame) is None,
        },
{
    let kind = |dtype: &DataType| match dtype {
        DataType::Float64 => ColumnKind::Float64,
        DataType::Int64 => ColumnKind::Int64,
        DataType::Utf8 => ColumnKind::Utf8,
        DataType::Boolean => ColumnKind::Boolean,
        _ => ColumnKind::Other,
    };
    Ok(frame.schema()?.iter_dtypes().map(kind).collect())
}

/// The engine can tell the schema of the frame, and every column is of a
/// type that a typed table can hold.
pub open spec fn supported_frame(frame: LazyFrame) -> bool {
    &&& engine_schema(frame) is Some
    &&& forall|i: int|
        0 <= i < engine_kinds(frame).len() ==> #[trigger] engine_kinds(frame)[i]
            != ColumnKind::Other
}

/// `column` is a computed column that can be handed to the engine: the
/// engine's expression of a compiled expression without offence, under a
/// name.
pub open spec fn sound_column(column: Expr) -> bool {
    exists|expr: ExprShape, name: Seq<char>|
        offence(expr) is None && column == #[trigger] engine_named(lowered(expr), name)
}

/// `on` are join keys that can be handed to the engine: the engine's column
/// expressions for names without the wildcard.
pub open spec fn sound_keys(on: Seq<Expr>) -> bool {
    exists|names: Seq<Seq<char>>|
        names_offence(names) is None && on == #[trigger] column_exprs(names)
}

/// What the engine builds for `LazyFrame::with_column` on a frame whose
/// schema it can tell.
pub uninterp spec fn engine_with_column(frame: LazyFrame, column: Expr) -> LazyFrame;

/// `LazyFrame::with_column`. The engine works out the type of the column
/// while it builds, and panics where a row-wise minimum or maximum ends up
/// without operands or with operands that have no common type. So the frame
/// must be a supported one, and the column must hold no wildcard and no
/// minimum or maximum without operands.
#[verifier::external_body]
pub(crate) fn with_column(frame: LazyFrame, column: Expr) -> (built: LazyFrame)
    requires
        supported_frame(frame),
        sound_column(column),
    ensures
        built == engine_with_column(frame, column),
{
    frame.with_column(column)
}

/// What the engine builds for `LazyFrame::filter` on a frame whose schema it
/// can tell.
pub uninterp spec fn engine_filter(frame: LazyFrame, predicate: Expr) -> LazyFrame;

/// `LazyFrame::filter`. The engine may read the schema of the frame while it
/// builds, so the frame must be one whose schema it can tell.
#[verifier::external_body]
pub(crate) fn filter(frame: LazyFrame, predicate: Expr) -> (built: LazyFrame)
    requires
        engine_schema(frame) is Some,
    ensures
        built == engine_filter(frame, predicate),
{
    frame.filter(predicate)
}

/// What the engine builds for `LazyFrame::groupby` followed by
/// `LazyGroupBy::agg` on a frame whose schema it can tell.
pub uninterp spec fn engine_group_and_aggregate(
    frame: LazyFrame,
    keys: Seq<Expr>,
    aggregates: Seq<Expr>,
) -> LazyFrame;

/// `LazyFrame::groupby` followed by `LazyGroupBy::agg`. The engine reads the
/// schema of the frame while it builds, so the frame must be one whose
/// schema it can tell.
#[verifier::external_body]
pub(crate) fn group_and_aggregate(frame: LazyFrame, keys: Vec<Expr>, aggregates: Vec<Expr>) -> (built:
    LazyFrame)
    requires
        engine_schema(frame) is Some,
    ensures
        built == engine_group_and_aggregate(frame, keys@, aggregates@),
{
    frame.groupby(keys).agg(aggregates)
}

/// What the engine builds for a `JoinBuilder` run with `JoinType::Left` on
/// frames whose schemas it can tell.
pub uninterp spec fn engine_join_left(left: LazyFrame, right: LazyFrame, on: Seq<Expr>) -> LazyFrame;

/// A `JoinBuilder` run with `JoinType::Left`. The engine reads the schemas
/// of both frames while it builds, so both must be frames whose schema it
/// can tell. It asks each key for its field and panics on a wildcard, so
/// the keys must be columns by names other than the wildcard.
#[verifier::external_body]
pub(crate) fn join_left(left: LazyFrame, right: LazyFrame, on: Vec<Expr>) -> (built: LazyFrame)
    requires
        engine_schema(left) is Some,
        engine_schema(right) is Some,
        sound_keys(on@),
    ensures
        built == engine_join_left(left, right, on@),
{
    JoinBuilder::new(left).with(right).how(JoinType::Left).on(on).finish()
}

/// What the engine builds for a `JoinBuilder` run with `JoinType::Inner` on
/// frames whose schemas it can tell.
pub uninterp spec fn engine_join_inner(left: LazyFrame, right: LazyFrame, on: Seq<Expr>) -> LazyFrame;

/// A `JoinBuilder` run with `JoinType::Inner`, on the same terms as
/// [`join_left`].
#[verifier::external_body]
pub(crate) fn join_inner(left: LazyFrame, right: LazyFrame, on: Vec<Expr>) -> (built: LazyFrame)
    requires
        engine_schema(left) is Some,
        engine_schema(right) is Some,
        sound_keys(on@),
    ensures
        built == engine_join_inner(left, right, on@),
{
    JoinBuilder::new(left).with(right).how(JoinType::Inner).on(on).finish()
}

/// What the engine builds for a `JoinBuilder` run with `JoinType::Outer` on
/// frames whose schemas it can tell.
pub uninterp spec fn engine_join_outer(left: LazyFrame, right: LazyFrame, on: Seq<Expr>) -> LazyFrame;

/// A `JoinBuilder` run with `JoinType::Outer`, on the same terms as
/// [`join_left`].
#[verifier::external_body]
pub(crate) fn join_outer(left: LazyFrame, right: LazyFrame, on: Vec<Expr>) -> (built: LazyFrame)
    requires
        engine_schema(left) is Some,
        engine_schema(right) is Some,
        sound_keys(on@),
    ensures
        built == engine_join_outer(left, right, on@),
{
    JoinBuilder::new(left).with(right).how(JoinType::Outer).on(on).finish()
}

/// What the engine builds for `LazyFrame::rename` on a frame whose schema it
/// can tell.
pub uninterp spec fn engine_rename(
    frame: LazyFrame,
    existing: Seq<Seq<char>>,
    new: Seq<Seq<char>>,
) -> LazyFrame;

/// `LazyFrame::rename`. The engine reads the schema of the frame while it
/// builds and panics where it cannot tell it, so the frame must be one whose
/// schema it can tell.
#[verifier::external_body]
pub(crate) fn rename(frame: LazyFrame, existing: &Vec<String>, new: &Vec<String>) -> (built:
    LazyFrame)
    requires
        engine_schema(frame) is Some,
    ensures
        built == engine_rename(frame, text_views(existing@), text_views(new@)),
{
    frame.rename(existing.iter(), new.iter())
}

/// The engine's own description of an error.
pub uninterp spec fn engine_error_text(error: PolarsError) -> Seq<char>;

/// The engine's own description of an error.
#[verifier::external_body]
pub(crate) fn error_text(error: &PolarsError) -> (text: String)
    ensures
        text@ == engine_error_text(*error),
{
    error.to_string()
}

/// What a series holds: its name and, for a series of doubles (by their bit
/// patterns), of 64-bit integers, of strings or of booleans, its values in
/// row order, `None` for a null. A series of another type counts as
/// unsupported and is described by its name and the engine's name of its type.
pub uninterp spec fn series_column(series: Series) -> ColumnShape;

/// What a materialized frame holds: the contents of its series, in column order.
pub uninterp spec fn frame_columns(frame: DataFrame) -> Seq<ColumnShape>;

/// The contents of a list of series, in order.
pub open spec fn series_columns(series: Seq<Series>) -> Seq<ColumnShape> {
    Seq::new(series.len(), |i: int| series_column(series[i]))
}

/// `Series::new` on doubles given by their bit patterns: a series of doubles
/// with the name and the values of the column.
#[verifier::external_body]
pub(crate) fn float_series(column: &Column<u64>) -> (series: Series)
    ensures
        series_column(series) == float_shape(*column),
{
    let values: Vec<Option<<Float64Type as PolarsNumericType>::Native>> =
        column.values.iter().map(|v| v.map(<Float64Type as PolarsNumericType>::Native::from_bits)).collect();
    Series::new(&column.name, values)
}

/// `Series::new` on 64-bit integers: a series of integers with the name and
/// the values of the column.
#[verifier::external_body]
pub(crate) fn int_series(column: &Column<i64>) -> (series: Series)
    ensures
        series_column(series) == int_shape(*column),
{
    Series::new(&column.name, &column.values)
}

/// `Series::new` on strings: a series of strings with the name and the
/// values of the column.
#[verifier::external_body]
pub(crate) fn string_series(column: &Column<String>) -> (series: Series)
    ensures
        series_column(series) == string_shape(*column),
{
    Series::new(&column.name, &column.values)
}

/// `Series::new` on booleans: a series of booleans with the name and the
/// values of the column.
#[verifier::external_body]
pub(crate) fn bool_series(column: &Column<bool>) -> (series: Series)
    ensures
        series_column(series) == bool_shape(*column),
{
    Series::new(&column.name, &column.values)
}

/// The frame the engine makes of columns of the supported types.
pub uninterp spec fn engine_frame(columns: Seq<ColumnShape>) -> DataFrame;

/// `DataFrame::new`: a frame that holds the given series in their order.
/// The engine makes the frame if and only if no two series share a name and
/// all are equally long, which for series of the supported types is what
/// [`well_formed_columns`] says. What it makes of such series depends on
/// what they hold alone.
#[verifier::external_body]
pub(crate) fn frame_of(columns: Vec<Series>) -> (r: Result<DataFrame, PolarsError>)
    ensures
        r matches Ok(frame) ==> frame_columns(frame) == series_columns(columns@),
        all_supported(series_columns(columns@)) ==> (r is Ok <==> well_formed_columns(
            series_columns(columns@),
        )),
        all_supported(series_columns(columns@)) ==> (r matches Ok(frame) ==> frame
            == engine_frame(series_columns(columns@))),
{
    DataFrame::new(columns)
}

/// What the engine builds for `DataFrame::lazy`.
pub uninterp spec fn engine_lazy(frame: DataFrame) -> LazyFrame;

/// `DataFrame::lazy`: the lazy frame that stands for the given frame. The
/// engine can tell its schema: the columns of the frame, whose names must
/// differ for that.
#[verifier::external_body]
pub(crate) fn lazy(frame: DataFrame) -> (built: LazyFrame)
    requires
        shape_names(frame_columns(frame)).no_duplicates(),
    ensures
        built == engine_lazy(frame),
        engine_schema(built) == Some(shape_names(frame_columns(frame))),
{
    frame.lazy()
}

/// `DataFrame::width`: the number of columns.
#[verifier::external_body]
pub(crate) fn frame_width(frame: &DataFrame) -> (width: usize)
    ensures
        width == frame_columns(*frame).len(),
{
    frame.width()
}

/// `Series::name` of the column at `index`, if the frame has that many columns.
#[verifier::external_body]
pub(crate) fn column_name(frame: &DataFrame, index: usize) -> (name: Option<String>)
    ensures
        match name {
            Some(text) => index < frame_columns(*frame).len() && text@ == frame_columns(
                *frame,
            )[index as int].name(),
            None => index >= frame_columns(*frame).len(),
        },
{
    Some(frame.get_columns().get(index)?.name().to_string())
}

/// `Series::dtype` of the column at `index`, as the engine writes it, if the
/// frame has that many columns.
#[verifier::external_body]
pub(crate) fn column_type(frame: &DataFrame, index: usize) -> (dtype: Option<String>)
    ensures
        match dtype {
            Some(text) => index < frame_columns(*frame).len() && (frame_columns(
                *frame,
            )[index as int] matches ColumnShape::Unsupported { dtype: held, .. } ==> text@ == held),
            None => index >= frame_columns(*frame).len(),
        },
{
    Some(frame.get_columns().get(index)?.dtype().to_string())
}

/// `Series::unpack` as doubles: the values of the column at `index` as bit
/// patterns, if the frame has that many columns and this one holds doubles.
#[verifier::external_body]
pub(crate) fn column_floats(frame: &DataFrame, index: usize) -> (values: Option<Vec<Option<u64>>>)
    ensures
        match values {
            Some(read) => index < frame_columns(*frame).len() && (frame_columns(
                *frame,
            )[index as int] matches ColumnShape::Float64 { values: held, .. } && held == read@),
            None => index >= frame_columns(*frame).len() || !(frame_columns(
                *frame,
            )[index as int] is Float64),
        },
{
    let values = frame.get_columns().get(index)?.unpack::<Float64Type>().ok()?;
    Some(values.into_iter().map(|v| v.map(|x| x.to_bits())).collect())
}

/// `Series::i64`: the values of the column at `index`, if the frame has that
/// many columns and this one holds 64-bit integers.
#[verifier::external_body]
pub(crate) fn column_ints(frame: &DataFrame, index: usize) -> (values: Option<Vec<Option<i64>>>)
    ensures
        match values {
            Some(read) => index < frame_columns(*frame).len() && (frame_columns(
                *frame,
            )[index as int] matches ColumnShape::Int64 { values: held, .. } && held == read@),
            None => index >= frame_columns(*frame).len() || !(frame_columns(
                *frame,
            )[index as int] is Int64),
        },
{
    let values = frame.get_columns().get(index)?.i64().ok()?;
    Some(values.into_iter().collect())
}

/// `Series::utf8`: the values of the column at `index`, if the frame has
/// that many columns and this one holds strings.
#[verifier::external_body]
pub(crate) fn column_strings(frame: &DataFrame, index: usize) -> (values: Option<
    Vec<Option<String>>,
>)
    ensures
        match values {
            Some(read) => index < frame_columns(*frame).len() && (frame_columns(
                *frame,
            )[index as int] matches ColumnShape::Utf8 { values: held, .. } && held == text_values(
                read@,
            )),
            None => index >= frame_columns(*frame).len() || !(frame_columns(
                *frame,
            )[index as int] is Utf8),
        },
{
    let values = frame.get_columns().get(index)?.utf8().ok()?;
    Some(values.into_iter().map(|v| v.map(|x| x.to_string())).collect())
}

/// `Series::bool`: the values of the column at `index`, if the frame has
/// that many columns and this one holds booleans.
#[verifier::external_body]
pub(crate) fn column_bools(frame: &DataFrame, index: usize) -> (values: Option<Vec<Option<bool>>>)
    ensures
        match values {
            Some(read) => index < frame_columns(*frame).len() && (frame_columns(
                *frame,
            )[index as int] matches ColumnShape::Boolean { values: held, .. } && held == read@),
            None => index >= frame_columns(*frame).len() || !(frame_columns(
                *frame,
            )[index as int] is Boolean),
        },
{
    let values = frame.get_columns().get(index)?.bool().ok()?;
    Some(values.into_iter().collect())
}

} // verus!
