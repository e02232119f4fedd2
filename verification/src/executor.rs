//! Carrying compiled expressions and plans over to the engine.
use crate::compiled::{shapes, BinaryOperator, EngineExpr, ExprShape};
use crate::engine::{
    both, choice, clone_frame, column, column_names, divided_by, either, engine_both,
    engine_choice, engine_column, engine_divided_by, engine_either,
    engine_error_text, engine_filter, engine_greater_than, engine_greater_than_or_equal,
    engine_greatest_of, engine_group_and_aggregate, engine_join_inner, engine_join_left,
    engine_join_outer, engine_least_of, engine_less_than, engine_less_than_or_equal,
    engine_literal_boolean, engine_literal_integer, engine_literal_number, engine_max_of,
    engine_min_of, engine_minus, engine_named, engine_negated, engine_over, engine_plus,
    engine_kinds, engine_rename, engine_schema, engine_sum_of, engine_times, engine_with_column,
    column_kinds, error_text, filter, sound_column, sound_keys, supported_frame,
    greater_than, greater_than_or_equal, greatest_of, group_and_aggregate, join_inner, join_left,
    join_outer, least_of, less_than, less_than_or_equal, literal_boolean, literal_integer,
    literal_number, max_of, min_of, minus, named, negated, over, plus, rename, sum_of, times,
    with_column,
};
use crate::error::{ErrorView, ExpectedArity, PipelineError};
use crate::expression::{text_views, AggType, DerivedValuesOperationType};
use crate::plan::{
    aggregate_shapes, named_shapes, renaming_shapes, Aggregate, AggregateShape, JoinKind,
    NamedExpr, NamedShape, Plan, PlanShape, Renaming, RenamingShape,
};
use crate::registry::{find_name, lookup, Entry, Registry};
use crate::table::ColumnKind;
use polars::prelude::{Expr, LazyFrame, PolarsError};
use vstd::prelude::*;

verus! {

/// The name that the engine reads as "every column".
pub open spec fn wildcard() -> Seq<char> {
    seq!['*']
}

/// What is wrong with a name as a reference to a column: nothing, unless it
/// is the wildcard.
pub open spec fn name_offence(name: Seq<char>) -> Option<ErrorView> {
    if name == wildcard() {
        Some(ErrorView::UnsupportedColumnName(name))
    } else {
        None
    }
}

/// What is wrong with a list of names as references to columns: nothing,
/// unless the wildcard is among them.
pub open spec fn names_offence(names: Seq<Seq<char>>) -> Option<ErrorView> {
    if names.contains(wildcard()) {
        Some(ErrorView::UnsupportedColumnName(wildcard()))
    } else {
        None
    }
}

/// The error for a row-wise minimum or maximum without operands.
pub open spec fn no_operands(operator: DerivedValuesOperationType) -> ErrorView {
    ErrorView::ArityError { operator, expected: ExpectedArity::AtLeast(1), got: 0 }
}

/// What keeps a compiled expression from being handed to the engine: a
/// column referred to by the wildcard, or a row-wise minimum or maximum
/// without operands. The first offence, operands taken in order, is given.
pub open spec fn offence(expr: ExprShape) -> Option<ErrorView>
    decreases expr, 0nat,
{
    match expr {
        ExprShape::Number(_) => None,
        ExprShape::Integer(_) => None,
        ExprShape::Boolean(_) => None,
        ExprShape::Column(name) => name_offence(name),
        ExprShape::Binary { left, right, .. } => match offence(*left) {
            Some(error) => Some(error),
            None => offence(*right),
        },
        ExprShape::Not(inner) => offence(*inner),
        ExprShape::MinHorizontal(items) => if items.len() == 0 {
            Some(no_operands(DerivedValuesOperationType::Min))
        } else {
            offence_among(items, items.len())
        },
        ExprShape::MaxHorizontal(items) => if items.len() == 0 {
            Some(no_operands(DerivedValuesOperationType::Max))
        } else {
            offence_among(items, items.len())
        },
        ExprShape::Ternary { predicate, truthy, falsy } => match offence(*predicate) {
            Some(error) => Some(error),
            None => match offence(*truthy) {
                Some(error) => Some(error),
                None => offence(*falsy),
            },
        },
        ExprShape::Window { operand, partition_by, .. } => match offence(*operand) {
            Some(error) => Some(error),
            None => names_offence(partition_by),
        },
    }
}

/// The first offence among the first `count` expressions of a list.
pub open spec fn offence_among(items: Seq<ExprShape>, count: nat) -> Option<ErrorView>
    decreases items, count,
{
    if count == 0 || count > items.len() {
        None
    } else {
        match offence_among(items, (count - 1) as nat) {
            Some(error) => Some(error),
            None => offence(items[count - 1]),
        }
    }
}

proof fn lemma_offence_stays(items: Seq<ExprShape>, count: nat, longer: nat)
    requires
        count <= longer <= items.len(),
        offence_among(items, count) is Some,
    ensures
        offence_among(items, longer) == offence_among(items, count),
    decreases longer,
{
    if count < longer {
        lemma_offence_stays(items, count, (longer - 1) as nat);
    }
}

/// The error of a check, if it found one.
pub open spec fn found(outcome: Result<(), PipelineError>) -> Option<ErrorView> {
    match outcome {
        Ok(_) => None,
        Err(error) => Some(error@),
    }
}

/// Whether a name is the wildcard.
pub fn is_wildcard(name: &String) -> (wild: bool)
    ensures
        wild == (name@ == wildcard()),
{
    let text = name.as_str();
    if text.unicode_len() != 1 {
        return false;
    }
    let first = text.get_char(0);
    assert(first == '*' ==> name@ =~= wildcard());
    first == '*'
}

fn check_name(name: &String) -> (r: Result<(), PipelineError>)
    ensures
        found(r) == name_offence(name@),
{
    if is_wildcard(name) {
        Err(PipelineError::UnsupportedColumnName(name.clone()))
    } else {
        Ok(())
    }
}

/// Checks that none of the names is the wildcard.
pub fn check_names(names: &Vec<String>) -> (r: Result<(), PipelineError>)
    ensures
        found(r) == names_offence(text_views(names@)),
{
    let mut i: usize = 0;
    while i < names.len()
        invariant
            i <= names.len(),
            forall|k: int| 0 <= k < i ==> text_views(names@)[k] != wildcard(),
        decreases names.len() - i,
    {
        if is_wildcard(&names[i]) {
            assert(text_views(names@)[i as int] == wildcard());
            return Err(PipelineError::UnsupportedColumnName(names[i].clone()));
        }
        i += 1;
    }
    Ok(())
}

fn without_operands(operator: DerivedValuesOperationType) -> (r: Result<(), PipelineError>)
    ensures
        found(r) == Some(no_operands(operator)),
{
    Err(PipelineError::ArityError { operator, expected: ExpectedArity::AtLeast(1), got: 0 })
}

/// Checks that a compiled expression can be handed to the engine.
pub fn check_expression(expr: &EngineExpr) -> (r: Result<(), PipelineError>)
    ensures
        found(r) == offence(expr@),
    decreases expr, 0nat,
{
    match expr {
        EngineExpr::Number(_) => Ok(()),
        EngineExpr::Integer(_) => Ok(()),
        EngineExpr::Boolean(_) => Ok(()),
        EngineExpr::Column(name) => check_name(name),
        EngineExpr::Binary { left, right, .. } => {
            match check_expression(left) {
                Err(error) => Err(error),
                Ok(_) => check_expression(right),
            }
        },
        EngineExpr::Not(inner) => check_expression(inner),
        EngineExpr::MinHorizontal(items) => {
            if items.len() == 0 {
                without_operands(DerivedValuesOperationType::Min)
            } else {
                check_expressions(items)
            }
        },
        EngineExpr::MaxHorizontal(items) => {
            if items.len() == 0 {
                without_operands(DerivedValuesOperationType::Max)
            } else {
                check_expressions(items)
            }
        },
        EngineExpr::Ternary { predicate, truthy, falsy } => {
            match check_expression(predicate) {
                Err(error) => Err(error),
                Ok(_) => match check_expression(truthy) {
                    Err(error) => Err(error),
                    Ok(_) => check_expression(falsy),
                },
            }
        },
        EngineExpr::Window { operand, partition_by, .. } => {
            match check_expression(operand) {
                Err(error) => Err(error),
                Ok(_) => check_names(partition_by),
            }
        },
    }
}

fn check_expressions(items: &Vec<EngineExpr>) -> (r: Result<(), PipelineError>)
    ensures
        found(r) == offence_among(shapes(items@), items@.len()),
    decreases items, items.len(),
{
    let ghost all = shapes(items@);
    let mut i: usize = 0;
    while i < items.len()
        invariant
            i <= items.len(),
            all == shapes(items@),
            offence_among(all, i as nat) is None,
        decreases items.len() - i,
    {
        match check_expression(&items[i]) {
            Ok(_) => {},
            Err(error) => {
                proof {
                    lemma_offence_stays(all, (i + 1) as nat, items@.len());
                }
                return Err(error);
            },
        }
        i += 1;
    }
    Ok(())
}

/// What the engine builds for a two-operand operation.
pub open spec fn binary_of(op: BinaryOperator, left: Expr, right: Expr) -> Expr {
    match op {
        BinaryOperator::Plus => engine_plus(left, right),
        BinaryOperator::Minus => engine_minus(left, right),
        BinaryOperator::Multiply => engine_times(left, right),
        BinaryOperator::Divide => engine_divided_by(left, right),
        BinaryOperator::And => engine_both(left, right),
        BinaryOperator::Or => engine_either(left, right),
        BinaryOperator::Lt => engine_less_than(left, right),
        BinaryOperator::LtEq => engine_less_than_or_equal(left, right),
        BinaryOperator::Gt => engine_greater_than(left, right),
        BinaryOperator::GtEq => engine_greater_than_or_equal(left, right),
    }
}

/// What the engine builds for an aggregate of an expression.
pub open spec fn aggregated(function: AggType, inner: Expr) -> Expr {
    match function {
        AggType::Sum => engine_sum_of(inner),
        AggType::Max => engine_max_of(inner),
        AggType::Min => engine_min_of(inner),
    }
}

/// The engine's column expressions for a list of names, in order.
pub open spec fn column_exprs(names: Seq<Seq<char>>) -> Seq<Expr> {
    Seq::new(names.len(), |i: int| engine_column(names[i]))
}

/// The engine expression of a compiled expression: every node is what the
/// engine builds for it from the engine expressions of its operands. A
/// window node is the aggregate of its operand over the partition columns.
pub open spec fn lowered(expr: ExprShape) -> Expr
    decreases expr,
{
    match expr {
        ExprShape::Number(bits) => engine_literal_number(bits),
        ExprShape::Integer(value) => engine_literal_integer(value),
        ExprShape::Boolean(value) => engine_literal_boolean(value),
        ExprShape::Column(name) => engine_column(name),
        ExprShape::Binary { op, left, right } => binary_of(op, lowered(*left), lowered(*right)),
        ExprShape::Not(inner) => engine_negated(lowered(*inner)),
        ExprShape::MinHorizontal(items) => engine_least_of(lowered_all(items)),
        ExprShape::MaxHorizontal(items) => engine_greatest_of(lowered_all(items)),
        ExprShape::Ternary { predicate, truthy, falsy } => engine_choice(
            lowered(*predicate),
            lowered(*truthy),
            lowered(*falsy),
        ),
        ExprShape::Window { function, operand, partition_by } => engine_over(
            aggregated(function, lowered(*operand)),
            column_exprs(partition_by),
        ),
    }
}

/// The engine expressions of a list of compiled expressions, in order.
pub open spec fn lowered_all(items: Seq<ExprShape>) -> Seq<Expr>
    decreases items,
{
    Seq::new(
        items.len(),
        |k: int|
            if 0 <= k < items.len() {
                lowered(items[k])
            } else {
                engine_literal_integer(0)
            },
    )
}

/// Asks the engine for the expression that `expr` describes, node by node.
pub(crate) fn lower(expr: &EngineExpr) -> (built: Expr)
    ensures
        built == lowered(expr@),
    decreases expr,
{
    match expr {
        EngineExpr::Number(bits) => literal_number(*bits),
        EngineExpr::Integer(value) => literal_integer(*value),
        EngineExpr::Boolean(value) => literal_boolean(*value),
        EngineExpr::Column(name) => column(name),
        EngineExpr::Binary { op, left, right } => {
            let l = lower(left);
            let r = lower(right);
            match op {
                BinaryOperator::Plus => plus(l, r),
                BinaryOperator::Minus => minus(l, r),
                BinaryOperator::Multiply => times(l, r),
                BinaryOperator::Divide => divided_by(l, r),
                BinaryOperator::And => both(l, r),
                BinaryOperator::Or => either(l, r),
                BinaryOperator::Lt => less_than(l, r),
                BinaryOperator::LtEq => less_than_or_equal(l, r),
                BinaryOperator::Gt => greater_than(l, r),
                BinaryOperator::GtEq => greater_than_or_equal(l, r),
            }
        },
        EngineExpr::Not(inner) => negated(lower(inner)),
        EngineExpr::MinHorizontal(items) => least_of(lower_all(items)),
        EngineExpr::MaxHorizontal(items) => greatest_of(lower_all(items)),
        EngineExpr::Ternary { predicate, truthy, falsy } => {
            let p = lower(predicate);
            let t = lower(truthy);
            let f = lower(falsy);
            choice(p, t, f)
        },
        EngineExpr::Window { function, operand, partition_by } => {
            let aggregate = aggregate_of(*function, lower(operand));
            over(aggregate, columns(partition_by))
        },
    }
}

fn lower_all(items: &Vec<EngineExpr>) -> (built: Vec<Expr>)
    ensures
        built@ == lowered_all(shapes(items@)),
    decreases items,
{
    let mut built: Vec<Expr> = Vec::new();
    let mut i: usize = 0;
    while i < items.len()
        invariant
            i <= items.len(),
            built.len() == i,
            forall|k: int| 0 <= k < i ==> built[k] == lowered(items[k]@),
        decreases items.len() - i,
    {
        built.push(lower(&items[i]));
        i += 1;
    }
    assert(built@ =~= lowered_all(shapes(items@)));
    built
}

fn aggregate_of(function: AggType, inner: Expr) -> (built: Expr)
    ensures
        built == aggregated(function, inner),
{
    match function {
        AggType::Sum => sum_of(inner),
        AggType::Max => max_of(inner),
        AggType::Min => min_of(inner),
    }
}

fn columns(names: &Vec<String>) -> (exprs: Vec<Expr>)
    ensures
        exprs@ == column_exprs(text_views(names@)),
{
    let mut exprs: Vec<Expr> = Vec::new();
    let mut i: usize = 0;
    while i < names.len()
        invariant
            i <= names.len(),
            exprs.len() == i,
            forall|k: int| 0 <= k < i ==> exprs[k] == engine_column(names[k]@),
        decreases names.len() - i,
    {
        exprs.push(column(&names[i]));
        i += 1;
    }
    assert(exprs@ =~= column_exprs(text_views(names@)));
    exprs
}

/// The engine's aggregate expressions for a list of aggregates, in order:
/// each is the aggregate of its column under its name.
pub open spec fn aggregate_exprs(requested: Seq<AggregateShape>) -> Seq<Expr> {
    Seq::new(
        requested.len(),
        |i: int|
            engine_named(
                aggregated(requested[i].function, engine_column(requested[i].column)),
                requested[i].name,
            ),
    )
}

fn aggregates(requested: &Vec<Aggregate>) -> (exprs: Vec<Expr>)
    ensures
        exprs@ == aggregate_exprs(aggregate_shapes(requested@)),
{
    let mut exprs: Vec<Expr> = Vec::new();
    let mut i: usize = 0;
    while i < requested.len()
        invariant
            i <= requested.len(),
            exprs.len() == i,
            forall|k: int|
                0 <= k < i ==> exprs[k] == aggregate_exprs(aggregate_shapes(requested@))[k],
        decreases requested.len() - i,
    {
        let aggregate = aggregate_of(requested[i].function, column(&requested[i].column));
        exprs.push(named(aggregate, &requested[i].name));
        i += 1;
    }
    assert(exprs@ =~= aggregate_exprs(aggregate_shapes(requested@)));
    exprs
}

/// `k` is the least index of a renaming whose `from` column is not among `names`.
pub open spec fn missing_first_at(
    names: Seq<Seq<char>>,
    renamings: Seq<RenamingShape>,
    k: int,
) -> bool {
    &&& 0 <= k < renamings.len()
    &&& !names.contains(renamings[k].from)
    &&& forall|j: int| 0 <= j < k ==> names.contains(#[trigger] renamings[j].from)
}

/// What checking a list of renamings against the column names of a table
/// comes to: nothing to report where every `from` column is among the names,
/// and else the first `from` column that is not.
pub open spec fn renamings_checked(names: Seq<Seq<char>>, renamings: Seq<RenamingShape>) -> Result<
    (),
    ErrorView,
> {
    if forall|j: int| 0 <= j < renamings.len() ==> names.contains(#[trigger] renamings[j].from) {
        Ok(())
    } else {
        let k = choose|k: int| missing_first_at(names, renamings, k);
        Err(ErrorView::RenameTargetMissing(renamings[k].from))
    }
}

proof fn lemma_first_missing(names: Seq<Seq<char>>, renamings: Seq<RenamingShape>, k: int)
    requires
        missing_first_at(names, renamings, k),
    ensures
        renamings_checked(names, renamings) == Err::<(), ErrorView>(
            ErrorView::RenameTargetMissing(renamings[k].from),
        ),
{
    let chosen = choose|j: int| missing_first_at(names, renamings, j);
    assert(missing_first_at(names, renamings, chosen));
    if chosen < k {
        assert(names.contains(renamings[chosen].from));
    } else if k < chosen {
        assert(names.contains(renamings[k].from));
    }
}

/// Checks a list of renamings against the column names of the table they are
/// meant for. Every `from` column must be there; the first that is not is
/// reported, and then none of the renamings is carried out.
pub fn check_renamings(names: &Vec<String>, renamings: &Vec<Renaming>) -> (r: Result<
    (),
    PipelineError,
>)
    ensures
        match r {
            Ok(_) => renamings_checked(text_views(names@), renaming_shapes(renamings@)) is Ok,
            Err(error) => renamings_checked(text_views(names@), renaming_shapes(renamings@))
                == Err::<(), ErrorView>(error@),
        },
        match r {
            Ok(_) => forall|j: int|
                0 <= j < renamings.len() ==> text_views(names@).contains(
                    #[trigger] renaming_shapes(renamings@)[j].from,
                ),
            Err(error) => exists|k: int|
                missing_first_at(text_views(names@), renaming_shapes(renamings@), k) && error@
                    == ErrorView::RenameTargetMissing(#[trigger] renaming_shapes(renamings@)[k].from),
        },
{
    let ghost wanted = renaming_shapes(renamings@);
    let mut i: usize = 0;
    while i < renamings.len()
        invariant
            i <= renamings.len(),
            wanted == renaming_shapes(renamings@),
            forall|j: int| 0 <= j < i ==> text_views(names@).contains(#[trigger] wanted[j].from),
        decreases renamings.len() - i,
    {
        if find_name(names, &renamings[i].from).is_none() {
            assert(wanted[i as int].from == renamings[i as int].from@);
            assert(missing_first_at(text_views(names@), wanted, i as int));
            proof {
                lemma_first_missing(text_views(names@), wanted, i as int);
            }
            return Err(PipelineError::RenameTargetMissing(renamings[i].from.clone()));
        }
        assert(wanted[i as int].from == renamings[i as int].from@);
        i += 1;
    }
    Ok(())
}

/// The failure of the pipe `pipe_id` on the engine, apart from the engine's
/// description of it.
pub open spec fn engine_failed(pipe_id: Seq<char>) -> ErrorView {
    ErrorView::MaterializationFailure { pipe_id, message: Seq::empty() }
}

/// An error apart from the engine's description of a failure. Which text the
/// engine gives for a failure is its own matter; every other error is kept
/// as it is.
pub open spec fn apart_from_text(error: ErrorView) -> ErrorView {
    match error {
        ErrorView::MaterializationFailure { pipe_id, .. } => engine_failed(pipe_id),
        _ => error,
    }
}

/// An error of the engine as the failure of the pipe `pipe_id`, with the
/// engine's own description of it.
pub fn engine_failure(error: &PolarsError, pipe_id: &String) -> (failed: PipelineError)
    ensures
        failed@ == (ErrorView::MaterializationFailure {
            pipe_id: pipe_id@,
            message: engine_error_text(*error),
        }),
        apart_from_text(failed@) == engine_failed(pipe_id@),
{
    PipelineError::MaterializationFailure { pipe_id: pipe_id.clone(), message: error_text(error) }
}

/// The mathematical value of an outcome that holds a frame, apart from the
/// engine's description of a failure.
pub open spec fn frame_view(outcome: Result<LazyFrame, PipelineError>) -> Result<
    LazyFrame,
    ErrorView,
> {
    match outcome {
        Ok(frame) => Ok(frame),
        Err(error) => Err(apart_from_text(error@)),
    }
}

/// `k` is the least index of a column of a type that a typed table cannot
/// hold.
pub open spec fn other_first_at(kinds: Seq<ColumnKind>, k: int) -> bool {
    &&& 0 <= k < kinds.len()
    &&& kinds[k] == ColumnKind::Other
    &&& forall|j: int| 0 <= j < k ==> #[trigger] kinds[j] != ColumnKind::Other
}

/// A frame is kept only if the engine can tell its schema and every column
/// is of a type that a typed table can hold, an input frame as much as one
/// that the engine has built. A frame that holds an error is the failure of
/// the pipe; the first column of another type is reported under its name.
pub open spec fn settled(built: LazyFrame, pipe_id: Seq<char>) -> Result<LazyFrame, ErrorView> {
    match engine_schema(built) {
        None => Err(engine_failed(pipe_id)),
        Some(names) => if supported_frame(built) {
            Ok(built)
        } else {
            let k = choose|k: int| other_first_at(engine_kinds(built), k);
            Err(ErrorView::UnsupportedColumnType(names[k]))
        },
    }
}

/// The failure of an engine step carries the engine's own description of an
/// error of its.
pub open spec fn engine_text(error: ErrorView) -> bool {
    error matches ErrorView::MaterializationFailure { message, .. } ==> exists|m: PolarsError|
        message == #[trigger] engine_error_text(m)
}

/// Where an outcome is a failure of the engine, it carries the engine's own
/// description of it.
pub open spec fn told(outcome: Result<LazyFrame, PipelineError>) -> bool {
    outcome matches Err(error) ==> engine_text(error@)
}

proof fn lemma_first_other(kinds: Seq<ColumnKind>, k: int)
    requires
        other_first_at(kinds, k),
    ensures
        (choose|j: int| other_first_at(kinds, j)) == k,
{
    let chosen = choose|j: int| other_first_at(kinds, j);
    assert(other_first_at(kinds, chosen));
    if chosen < k {
        assert(kinds[chosen] != ColumnKind::Other);
    } else if k < chosen {
        assert(kinds[k] != ColumnKind::Other);
    }
}

fn settle(built: LazyFrame, pipe_id: &String) -> (r: Result<LazyFrame, PipelineError>)
    ensures
        frame_view(r) == settled(built, pipe_id@),
        told(r),
        r matches Ok(kept) ==> supported_frame(kept),
{
    let names = match column_names(&built) {
        Ok(names) => names,
        Err(error) => {
            let failed = engine_failure(&error, pipe_id);
            assert(engine_text(failed@));
            return Err(failed);
        },
    };
    let kinds = match column_kinds(&built) {
        Ok(kinds) => kinds,
        Err(error) => {
            let failed = engine_failure(&error, pipe_id);
            assert(engine_text(failed@));
            return Err(failed);
        },
    };
    let mut i: usize = 0;
    while i < kinds.len()
        invariant
            i <= kinds.len(),
            kinds@ == engine_kinds(built),
            names.len() == kinds.len(),
            engine_schema(built) == Some(text_views(names@)),
            forall|j: int| 0 <= j < i ==> #[trigger] kinds[j] != ColumnKind::Other,
        decreases kinds.len() - i,
    {
        if matches!(kinds[i], ColumnKind::Other) {
            proof {
                assert(other_first_at(kinds@, i as int));
                lemma_first_other(kinds@, i as int);
            }
            return Err(PipelineError::UnsupportedColumnType(names[i].clone()));
        }
        i += 1;
    }
    Ok(built)
}

/// The `from` columns of a list of renamings, in order.
pub open spec fn renamed_from(renamings: Seq<RenamingShape>) -> Seq<Seq<char>> {
    Seq::new(renamings.len(), |i: int| renamings[i].from)
}

/// The `to` columns of a list of renamings, in order.
pub open spec fn renamed_to(renamings: Seq<RenamingShape>) -> Seq<Seq<char>> {
    Seq::new(renamings.len(), |i: int| renamings[i].to)
}

/// What renaming the columns of a frame comes to. The renamings are checked
/// against the column names the engine tells of the frame; only where every
/// `from` column is there is the engine asked to rename, all pairs at once,
/// and what it builds is kept if it settles.
pub open spec fn renamed(
    frame: LazyFrame,
    renamings: Seq<RenamingShape>,
    pipe_id: Seq<char>,
) -> Result<LazyFrame, ErrorView>
    recommends
        engine_schema(frame) is Some,
{
    match renamings_checked(engine_schema(frame)->0, renamings) {
        Err(error) => Err(error),
        Ok(_) => settled(
            engine_rename(frame, renamed_from(renamings), renamed_to(renamings)),
            pipe_id,
        ),
    }
}

fn rename_columns(frame: LazyFrame, renamings: &Vec<Renaming>, pipe_id: &String) -> (r: Result<
    LazyFrame,
    PipelineError,
>)
    requires
        supported_frame(frame),
    ensures
        frame_view(r) == renamed(frame, renaming_shapes(renamings@), pipe_id@),
        told(r),
        r matches Ok(built) ==> supported_frame(built),
{
    let names = match column_names(&frame) {
        Ok(names) => names,
        Err(error) => {
            let failed = engine_failure(&error, pipe_id);
            assert(engine_text(failed@));
            return Err(failed);
        },
    };
    match check_renamings(&names, renamings) {
        Ok(_) => {},
        Err(error) => {
            return Err(error);
        },
    }
    let mut existing: Vec<String> = Vec::new();
    let mut new: Vec<String> = Vec::new();
    let mut i: usize = 0;
    while i < renamings.len()
        invariant
            i <= renamings.len(),
            existing.len() == i,
            new.len() == i,
            forall|k: int| 0 <= k < i ==> existing[k]@ == renamings[k].from@,
            forall|k: int| 0 <= k < i ==> new[k]@ == renamings[k].to@,
        decreases renamings.len() - i,
    {
        existing.push(renamings[i].from.clone());
        new.push(renamings[i].to.clone());
        i += 1;
    }
    assert(text_views(existing@) =~= renamed_from(renaming_shapes(renamings@)));
    assert(text_views(new@) =~= renamed_to(renaming_shapes(renamings@)));
    settle(rename(frame, &existing, &new), pipe_id)
}

/// The frame with the first `count` computed columns added, one after the
/// other, each under its name. Each column is checked before the engine is
/// asked for it; a column with an offence, or one that the engine cannot
/// add, ends the step, and then no later column is added.
pub open spec fn columns_added(
    frame: LazyFrame,
    columns: Seq<NamedShape>,
    count: nat,
    pipe_id: Seq<char>,
) -> Result<LazyFrame, ErrorView>
    decreases count,
{
    if count == 0 || count > columns.len() {
        Ok(frame)
    } else {
        match columns_added(frame, columns, (count - 1) as nat, pipe_id) {
            Err(error) => Err(error),
            Ok(so_far) => match offence(columns[count - 1].expr) {
                Some(error) => Err(error),
                None => settled(
                    engine_with_column(
                        so_far,
                        engine_named(lowered(columns[count - 1].expr), columns[count - 1].name),
                    ),
                    pipe_id,
                ),
            },
        }
    }
}

proof fn lemma_column_failure_stays(
    frame: LazyFrame,
    columns: Seq<NamedShape>,
    count: nat,
    longer: nat,
    pipe_id: Seq<char>,
)
    requires
        count <= longer <= columns.len(),
        columns_added(frame, columns, count, pipe_id) is Err,
    ensures
        columns_added(frame, columns, longer, pipe_id) == columns_added(
            frame,
            columns,
            count,
            pipe_id,
        ),
    decreases longer,
{
    if count < longer {
        lemma_column_failure_stays(frame, columns, count, (longer - 1) as nat, pipe_id);
    }
}

/// An offence is no failure of the engine.
proof fn lemma_offence_has_no_text(expr: ExprShape)
    ensures
        offence(expr) matches Some(error) ==> !(error is MaterializationFailure),
    decreases expr, 0nat,
{
    match expr {
        ExprShape::Binary { left, right, .. } => {
            lemma_offence_has_no_text(*left);
            lemma_offence_has_no_text(*right);
        },
        ExprShape::Not(inner) => {
            lemma_offence_has_no_text(*inner);
        },
        ExprShape::MinHorizontal(items) => {
            lemma_offences_have_no_text(items, items.len());
        },
        ExprShape::MaxHorizontal(items) => {
            lemma_offences_have_no_text(items, items.len());
        },
        ExprShape::Ternary { predicate, truthy, falsy } => {
            lemma_offence_has_no_text(*predicate);
            lemma_offence_has_no_text(*truthy);
            lemma_offence_has_no_text(*falsy);
        },
        ExprShape::Window { operand, .. } => {
            lemma_offence_has_no_text(*operand);
        },
        _ => {},
    }
}

proof fn lemma_offences_have_no_text(items: Seq<ExprShape>, count: nat)
    ensures
        offence_among(items, count) matches Some(error) ==> !(error is MaterializationFailure),
    decreases items, count,
{
    if count != 0 && count <= items.len() {
        lemma_offences_have_no_text(items, (count - 1) as nat);
        lemma_offence_has_no_text(items[count - 1]);
    }
}

fn add_columns(frame: LazyFrame, columns: &Vec<NamedExpr>, pipe_id: &String) -> (r: Result<
    LazyFrame,
    PipelineError,
>)
    requires
        supported_frame(frame),
    ensures
        frame_view(r) == columns_added(frame, named_shapes(columns@), columns@.len(), pipe_id@),
        told(r),
        r matches Ok(built) ==> supported_frame(built),
{
    let ghost wanted = named_shapes(columns@);
    let mut current = frame;
    let mut i: usize = 0;
    while i < columns.len()
        invariant
            i <= columns.len(),
            wanted == named_shapes(columns@),
            supported_frame(current),
            columns_added(frame, wanted, i as nat, pipe_id@) == Ok::<LazyFrame, ErrorView>(
                current,
            ),
        decreases columns.len() - i,
    {
        match check_expression(&columns[i].expr) {
            Ok(_) => {},
            Err(error) => {
                proof {
                    lemma_offence_has_no_text(columns[i as int].expr@);
                    lemma_column_failure_stays(
                        frame,
                        wanted,
                        (i + 1) as nat,
                        columns@.len(),
                        pipe_id@,
                    );
                }
                return Err(error);
            },
        }
        let column = named(lower(&columns[i].expr), &columns[i].name);
        assert(sound_column(column)) by {
            assert(column == engine_named(lowered(columns[i as int].expr@), columns[i as int].name@));
        }
        match settle(with_column(current, column), pipe_id) {
            Ok(built) => {
                current = built;
            },
            Err(error) => {
                proof {
                    lemma_column_failure_stays(
                        frame,
                        wanted,
                        (i + 1) as nat,
                        columns@.len(),
                        pipe_id@,
                    );
                }
                return Err(error);
            },
        }
        i += 1;
    }
    Ok(current)
}

/// The frame with the first `count` predicates applied as filters, one after
/// the other, so that a row stays only if all of them hold on it. A filter
/// that the engine cannot apply is the failure of the pipe.
pub open spec fn rows_kept(
    frame: LazyFrame,
    predicates: Seq<ExprShape>,
    count: nat,
    pipe_id: Seq<char>,
) -> Result<LazyFrame, ErrorView>
    decreases count,
{
    if count == 0 || count > predicates.len() {
        Ok(frame)
    } else {
        match rows_kept(frame, predicates, (count - 1) as nat, pipe_id) {
            Err(error) => Err(error),
            Ok(so_far) => settled(engine_filter(so_far, lowered(predicates[count - 1])), pipe_id),
        }
    }
}

proof fn lemma_filter_failure_stays(
    frame: LazyFrame,
    predicates: Seq<ExprShape>,
    count: nat,
    longer: nat,
    pipe_id: Seq<char>,
)
    requires
        count <= longer <= predicates.len(),
        rows_kept(frame, predicates, count, pipe_id) is Err,
    ensures
        rows_kept(frame, predicates, longer, pipe_id) == rows_kept(
            frame,
            predicates,
            count,
            pipe_id,
        ),
    decreases longer,
{
    if count < longer {
        lemma_filter_failure_stays(frame, predicates, count, (longer - 1) as nat, pipe_id);
    }
}

fn keep_rows(frame: LazyFrame, predicates: &Vec<EngineExpr>, pipe_id: &String) -> (r: Result<
    LazyFrame,
    PipelineError,
>)
    requires
        supported_frame(frame),
    ensures
        frame_view(r) == rows_kept(frame, shapes(predicates@), predicates@.len(), pipe_id@),
        told(r),
        r matches Ok(built) ==> supported_frame(built),
{
    let ghost wanted = shapes(predicates@);
    let mut current = frame;
    let mut i: usize = 0;
    while i < predicates.len()
        invariant
            i <= predicates.len(),
            wanted == shapes(predicates@),
            supported_frame(current),
            rows_kept(frame, wanted, i as nat, pipe_id@) == Ok::<LazyFrame, ErrorView>(current),
        decreases predicates.len() - i,
    {
        match settle(filter(current, lower(&predicates[i])), pipe_id) {
            Ok(built) => {
                current = built;
            },
            Err(error) => {
                proof {
                    lemma_filter_failure_stays(
                        frame,
                        wanted,
                        (i + 1) as nat,
                        predicates@.len(),
                        pipe_id@,
                    );
                }
                return Err(error);
            },
        }
        i += 1;
    }
    Ok(current)
}

/// What the engine builds for a join of two frames on the key columns.
pub open spec fn joined(kind: JoinKind, left: LazyFrame, right: LazyFrame, on: Seq<Expr>) -> LazyFrame {
    match kind {
        JoinKind::Left => engine_join_left(left, right, on),
        JoinKind::Inner => engine_join_inner(left, right, on),
        JoinKind::Outer => engine_join_outer(left, right, on),
    }
}

/// The frame that a plan comes to on the engine, built from the scans up.
///
/// A scan is the input frame stored under its id; an id without a frame is
/// an unknown source. Every other step is what the engine builds for it from
/// the frames of its inputs. A frame is kept only if it settles
/// ([`settled`]), an input frame as much as one that was built. A computed
/// column goes to the engine only if it has no offence ([`offence`]), a join
/// only if none of its keys is the wildcard, and a rename only if its
/// columns are there ([`renamed`]). The first step that fails decides the
/// outcome.
pub open spec fn executed(
    plan: PlanShape,
    inputs: Seq<Entry<LazyFrame>>,
    pipe_id: Seq<char>,
) -> Result<LazyFrame, ErrorView>
    decreases plan,
{
    match plan {
        PlanShape::Scan { source_id } => match lookup(inputs, source_id) {
            Some(frame) => settled(frame, pipe_id),
            None => Err(ErrorView::UnknownSource(source_id)),
        },
        PlanShape::WithColumns { input, columns } => match executed(*input, inputs, pipe_id) {
            Ok(frame) => columns_added(frame, columns, columns.len(), pipe_id),
            Err(error) => Err(error),
        },
        PlanShape::Aggregate { input, keys, aggregates } => match executed(
            *input,
            inputs,
            pipe_id,
        ) {
            Ok(frame) => settled(
                engine_group_and_aggregate(frame, column_exprs(keys), aggregate_exprs(aggregates)),
                pipe_id,
            ),
            Err(error) => Err(error),
        },
        PlanShape::Filter { input, predicates } => match executed(*input, inputs, pipe_id) {
            Ok(frame) => rows_kept(frame, predicates, predicates.len(), pipe_id),
            Err(error) => Err(error),
        },
        PlanShape::Join { left, right, on, kind } => match executed(*left, inputs, pipe_id) {
            Err(error) => Err(error),
            Ok(l) => match executed(*right, inputs, pipe_id) {
                Err(error) => Err(error),
                Ok(r) => match names_offence(on) {
                    Some(error) => Err(error),
                    None => settled(joined(kind, l, r, column_exprs(on)), pipe_id),
                },
            },
        },
        PlanShape::Rename { input, renamings } => match executed(*input, inputs, pipe_id) {
            Ok(frame) => renamed(frame, renamings, pipe_id),
            Err(error) => Err(error),
        },
    }
}

/// Has the engine set up the frame of a plan, step by step from the scans
/// up. `pipe_id` names the pipe the plan was resolved for. A failure of the
/// engine is reported with the engine's own description of it.
pub fn execute(plan: &Plan, inputs: &Registry<LazyFrame>, pipe_id: &String) -> (r: Result<
    LazyFrame,
    PipelineError,
>)
    ensures
        frame_view(r) == executed(plan@, inputs.entries@, pipe_id@),
        told(r),
        r matches Ok(built) ==> supported_frame(built),
    decreases plan,
{
    match plan {
        Plan::Scan { source_id } => {
            match inputs.get(source_id) {
                Some(frame) => settle(clone_frame(frame), pipe_id),
                None => Err(PipelineError::UnknownSource(source_id.clone())),
            }
        },
        Plan::WithColumns { input, columns } => {
            match execute(input, inputs, pipe_id) {
                Ok(frame) => add_columns(frame, columns, pipe_id),
                Err(error) => Err(error),
            }
        },
        Plan::Aggregate { input, keys, aggregates: requested } => {
            match execute(input, inputs, pipe_id) {
                Ok(frame) => settle(
                    group_and_aggregate(frame, columns(keys), aggregates(requested)),
                    pipe_id,
                ),
                Err(error) => Err(error),
            }
        },
        Plan::Filter { input, predicates } => {
            match execute(input, inputs, pipe_id) {
                Ok(frame) => keep_rows(frame, predicates, pipe_id),
                Err(error) => Err(error),
            }
        },
        Plan::Join { left, right, on, kind } => {
            let l = match execute(left, inputs, pipe_id) {
                Ok(frame) => frame,
                Err(error) => {
                    return Err(error);
                },
            };
            let r = match execute(right, inputs, pipe_id) {
                Ok(frame) => frame,
                Err(error) => {
                    return Err(error);
                },
            };
            match check_names(on) {
                Ok(_) => {},
                Err(error) => {
                    return Err(error);
                },
            }
            let keys = columns(on);
            assert(sound_keys(keys@)) by {
                assert(keys@ == column_exprs(text_views(on@)));
            }
            let built = match kind {
                JoinKind::Left => join_left(l, r, keys),
                JoinKind::Inner => join_inner(l, r, keys),
                JoinKind::Outer => join_outer(l, r, keys),
            };
            settle(built, pipe_id)
        },
        Plan::Rename { input, renamings } => {
            match execute(input, inputs, pipe_id) {
                Ok(frame) => rename_columns(frame, renamings, pipe_id),
                Err(error) => Err(error),
            }
        },
    }
}

} // verus!
