//! The expression compiler.
use crate::compiled::{shapes, BinaryOperator, EngineExpr, ExprShape};
use crate::error::{ErrorView, ExpectedArity, PipelineError};
use crate::expression::{
    copy_names, text_views, DerivedValuesExpression, DerivedValuesOperation,
    DerivedValuesOperationType,
};
use vstd::prelude::*;

verus! {

/// `((seed op items[0]) op items[1]) op ...`: the left fold of `items` from `seed`.
pub open spec fn fold_binary(op: BinaryOperator, seed: ExprShape, items: Seq<ExprShape>) -> ExprShape {
    items.fold_left(
        seed,
        |acc: ExprShape, item: ExprShape|
            ExprShape::Binary { op, left: Box::new(acc), right: Box::new(item) },
    )
}

/// Folds `items` from the left, starting at `seed`.
pub fn fold_operands(op: BinaryOperator, seed: EngineExpr, items: Vec<EngineExpr>) -> (folded: EngineExpr)
    ensures
        folded@ == fold_binary(op, seed@, shapes(items@)),
{
    let mut acc = seed;
    let ghost all = shapes(items@);
    assert(all.take(0) =~= Seq::<ExprShape>::empty());
    for item in iter: items
        invariant
            all == shapes(iter.seq()),
            acc@ == fold_binary(op, seed@, all.take(iter.index() as int)),
    {
        let ghost i = iter.index() as int;
        assert(all.take(i + 1).drop_last() =~= all.take(i));
        assert(all.take(i + 1).last() == item@);
        acc = EngineExpr::Binary { op, left: Box::new(acc), right: Box::new(item) };
    }
    assert(all.take(all.len() as int) =~= all);
    acc
}

/// The conditional cascade over `items[start..]`, read as condition, value,
/// condition, value, ..., fallback: the first condition that holds selects the
/// value after it, and the last item is taken where none holds.
pub open spec fn cascade_from(items: Seq<ExprShape>, start: int) -> ExprShape
    recommends
        0 <= start < items.len(),
        (items.len() - start) % 2 == 1,
    decreases items.len() - start,
{
    if start + 2 >= items.len() {
        items.last()
    } else {
        ExprShape::Ternary {
            predicate: Box::new(items[start]),
            truthy: Box::new(items[start + 1]),
            falsy: Box::new(cascade_from(items, start + 2)),
        }
    }
}

fn cascade_operands(items: Vec<EngineExpr>) -> (cascade: EngineExpr)
    requires
        items.len() % 2 == 1,
    ensures
        cascade@ == cascade_from(shapes(items@), 0),
{
    let ghost all = shapes(items@);
    let mut rest = items;
    let mut acc = rest.pop().unwrap();
    while rest.len() >= 2
        invariant
            rest.len() % 2 == 0,
            rest.len() < all.len(),
            shapes(rest@) =~= all.take(rest.len() as int),
            acc@ == cascade_from(all, rest.len() as int),
        decreases rest.len(),
    {
        let ghost before = shapes(rest@);
        let value = rest.pop().unwrap();
        let condition = rest.pop().unwrap();
        assert(value@ == before[before.len() - 1]);
        assert(condition@ == before[before.len() - 2]);
        acc = EngineExpr::Ternary {
            predicate: Box::new(condition),
            truthy: Box::new(value),
            falsy: Box::new(acc),
        };
    }
    acc
}

/// The error for an operator that was given `got` operands.
pub open spec fn arity_error(
    operator: DerivedValuesOperationType,
    expected: ExpectedArity,
    got: nat,
) -> Result<ExprShape, ErrorView> {
    Err(ErrorView::ArityError { operator, expected, got })
}

/// What an operator makes of its compiled operands.
///
/// - `Sum` and `Multiply` fold any number of operands from 0 and from 1.
/// - `Subtract` and `Divide` need one operand or more and fold the rest from the first.
/// - `Min` and `Max` need one operand or more and take them all at once.
/// - `And` and `Or` need one operand or more and fold them from `true` and from `false`.
/// - `Not` takes exactly one operand, a comparison exactly two.
/// - `IfThenElse` takes an odd number of operands, three or more, as a cascade.
pub open spec fn combine_spec(
    operation: DerivedValuesOperationType,
    args: Seq<ExprShape>,
) -> Result<ExprShape, ErrorView> {
    let got = args.len();
    let at_least_one = ExpectedArity::AtLeast(1);
    let two = ExpectedArity::Exactly(2);
    match operation {
        DerivedValuesOperationType::Sum => Ok(
            fold_binary(BinaryOperator::Plus, ExprShape::Integer(0), args),
        ),
        DerivedValuesOperationType::Multiply => Ok(
            fold_binary(BinaryOperator::Multiply, ExprShape::Integer(1), args),
        ),
        DerivedValuesOperationType::Subtract => if got == 0 {
            arity_error(operation, at_least_one, got)
        } else {
            Ok(fold_binary(BinaryOperator::Minus, args[0], args.skip(1)))
        },
        DerivedValuesOperationType::Divide => if got == 0 {
            arity_error(operation, at_least_one, got)
        } else {
            Ok(fold_binary(BinaryOperator::Divide, args[0], args.skip(1)))
        },
        DerivedValuesOperationType::Min => if got == 0 {
            arity_error(operation, at_least_one, got)
        } else {
            Ok(ExprShape::MinHorizontal(args))
        },
        DerivedValuesOperationType::Max => if got == 0 {
            arity_error(operation, at_least_one, got)
        } else {
            Ok(ExprShape::MaxHorizontal(args))
        },
        DerivedValuesOperationType::Not => if got != 1 {
            arity_error(operation, ExpectedArity::Exactly(1), got)
        } else {
            Ok(ExprShape::Not(Box::new(args[0])))
        },
        DerivedValuesOperationType::And => if got == 0 {
            arity_error(operation, at_least_one, got)
        } else {
            Ok(fold_binary(BinaryOperator::And, ExprShape::Boolean(true), args))
        },
        DerivedValuesOperationType::Or => if got == 0 {
            arity_error(operation, at_least_one, got)
        } else {
            Ok(fold_binary(BinaryOperator::Or, ExprShape::Boolean(false), args))
        },
        DerivedValuesOperationType::LessThan => if got != 2 {
            arity_error(operation, two, got)
        } else {
            Ok(compare(BinaryOperator::Lt, args))
        },
        DerivedValuesOperationType::LessThanEq => if got != 2 {
            arity_error(operation, two, got)
        } else {
            Ok(compare(BinaryOperator::LtEq, args))
        },
        DerivedValuesOperationType::GreaterThan => if got != 2 {
            arity_error(operation, two, got)
        } else {
            Ok(compare(BinaryOperator::Gt, args))
        },
        DerivedValuesOperationType::GreaterThanEq => if got != 2 {
            arity_error(operation, two, got)
        } else {
            Ok(compare(BinaryOperator::GtEq, args))
        },
        DerivedValuesOperationType::IfThenElse => if got < 3 || got % 2 == 0 {
            arity_error(operation, ExpectedArity::OddAtLeast(3), got)
        } else {
            Ok(cascade_from(args, 0))
        },
    }
}

/// `args[0] op args[1]`.
pub open spec fn compare(op: BinaryOperator, args: Seq<ExprShape>) -> ExprShape
    recommends
        args.len() == 2,
{
    ExprShape::Binary { op, left: Box::new(args[0]), right: Box::new(args[1]) }
}

/// The mathematical value of a compilation's outcome.
pub open spec fn compiled_view(outcome: Result<EngineExpr, PipelineError>) -> Result<
    ExprShape,
    ErrorView,
> {
    match outcome {
        Ok(expr) => Ok(expr@),
        Err(error) => Err(error@),
    }
}

fn wrong_arity(
    operator: DerivedValuesOperationType,
    expected: ExpectedArity,
    got: usize,
) -> (r: Result<EngineExpr, PipelineError>)
    ensures
        compiled_view(r) == arity_error(operator, expected, got as nat),
{
    Err(PipelineError::ArityError { operator, expected, got })
}

fn fold_from_first(op: BinaryOperator, operands: Vec<EngineExpr>) -> (folded: EngineExpr)
    requires
        operands.len() > 0,
    ensures
        folded@ == fold_binary(op, shapes(operands@)[0], shapes(operands@).skip(1)),
{
    let ghost all = shapes(operands@);
    let mut rest = operands;
    let first = rest.remove(0);
    assert(shapes(rest@) =~= all.skip(1));
    fold_operands(op, first, rest)
}

fn compare_operands(op: BinaryOperator, operands: Vec<EngineExpr>) -> (compared: EngineExpr)
    requires
        operands.len() == 2,
    ensures
        compared@ == compare(op, shapes(operands@)),
{
    let mut rest = operands;
    let right = rest.pop().unwrap();
    let left = rest.pop().unwrap();
    EngineExpr::Binary { op, left: Box::new(left), right: Box::new(right) }
}

/// Applies an operator to its compiled operands, or reports that it was given
/// a number of operands it does not accept.
pub fn combine(operation: DerivedValuesOperationType, operands: Vec<EngineExpr>) -> (r: Result<
    EngineExpr,
    PipelineError,
>)
    ensures
        compiled_view(r) == combine_spec(operation, shapes(operands@)),
{
    let got = operands.len();
    let at_least_one = ExpectedArity::AtLeast(1);
    let two = ExpectedArity::Exactly(2);
    match operation {
        DerivedValuesOperationType::Sum => Ok(
            fold_operands(BinaryOperator::Plus, EngineExpr::Integer(0), operands),
        ),
        DerivedValuesOperationType::Multiply => Ok(
            fold_operands(BinaryOperator::Multiply, EngineExpr::Integer(1), operands),
        ),
        DerivedValuesOperationType::Subtract => if got == 0 {
            wrong_arity(operation, at_least_one, got)
        } else {
            Ok(fold_from_first(BinaryOperator::Minus, operands))
        },
        DerivedValuesOperationType::Divide => if got == 0 {
            wrong_arity(operation, at_least_one, got)
        } else {
            Ok(fold_from_first(BinaryOperator::Divide, operands))
        },
        DerivedValuesOperationType::Min => if got == 0 {
            wrong_arity(operation, at_least_one, got)
        } else {
            Ok(EngineExpr::MinHorizontal(operands))
        },
        DerivedValuesOperationType::Max => if got == 0 {
            wrong_arity(operation, at_least_one, got)
        } else {
            Ok(EngineExpr::MaxHorizontal(operands))
        },
        DerivedValuesOperationType::Not => if got != 1 {
            wrong_arity(operation, ExpectedArity::Exactly(1), got)
        } else {
            let mut rest = operands;
            let only = rest.pop().unwrap();
            Ok(EngineExpr::Not(Box::new(only)))
        },
        DerivedValuesOperationType::And => if got == 0 {
            wrong_arity(operation, at_least_one, got)
        } else {
            Ok(fold_operands(BinaryOperator::And, EngineExpr::Boolean(true), operands))
        },
        DerivedValuesOperationType::Or => if got == 0 {
            wrong_arity(operation, at_least_one, got)
        } else {
            Ok(fold_operands(BinaryOperator::Or, EngineExpr::Boolean(false), operands))
        },
        DerivedValuesOperationType::LessThan => if got != 2 {
            wrong_arity(operation, two, got)
        } else {
            Ok(compare_operands(BinaryOperator::Lt, operands))
        },
        DerivedValuesOperationType::LessThanEq => if got != 2 {
            wrong_arity(operation, two, got)
        } else {
            Ok(compare_operands(BinaryOperator::LtEq, operands))
        },
        DerivedValuesOperationType::GreaterThan => if got != 2 {
            wrong_arity(operation, two, got)
        } else {
            Ok(compare_operands(BinaryOperator::Gt, operands))
        },
        DerivedValuesOperationType::GreaterThanEq => if got != 2 {
            wrong_arity(operation, two, got)
        } else {
            Ok(compare_operands(BinaryOperator::GtEq, operands))
        },
        DerivedValuesOperationType::IfThenElse => if got < 3 || got % 2 == 0 {
            wrong_arity(operation, ExpectedArity::OddAtLeast(3), got)
        } else {
            Ok(cascade_operands(operands))
        },
    }
}

/// What an expression compiles to: a literal to a constant, a variable to a
/// column, an operation to what [`combine_spec`] makes of its compiled
/// operands, a window aggregation to a window node over its compiled operand.
/// The first operand that fails to compile, in list order, decides the error.
pub open spec fn compile_spec(expression: DerivedValuesExpression) -> Result<
    ExprShape,
    ErrorView,
>
    decreases expression, 0nat,
{
    match expression {
        DerivedValuesExpression::Literal(bits) => Ok(ExprShape::Number(bits)),
        DerivedValuesExpression::Variable(variable) => Ok(ExprShape::Column(variable.property@)),
        DerivedValuesExpression::WindowAggExpression(window) => match compile_spec(
            *window.operand,
        ) {
            Ok(operand) => Ok(
                ExprShape::Window {
                    function: window.operation,
                    operand: Box::new(operand),
                    partition_by: text_views(window.over@),
                },
            ),
            Err(error) => Err(error),
        },
        DerivedValuesExpression::Expression(operation) => match compile_operands_spec(
            operation,
            operation.operands.len() as nat,
        ) {
            Ok(args) => combine_spec(operation.operation, args),
            Err(error) => Err(error),
        },
    }
}

/// The compiled first `count` operands of an operation, or the error of the
/// first among them that fails to compile.
pub open spec fn compile_operands_spec(operation: DerivedValuesOperation, count: nat) -> Result<
    Seq<ExprShape>,
    ErrorView,
>
    decreases operation, count,
{
    if count == 0 || count > operation.operands.len() {
        Ok(Seq::empty())
    } else {
        match compile_operands_spec(operation, (count - 1) as nat) {
            Err(error) => Err(error),
            Ok(front) => match compile_spec(operation.operands[count - 1]) {
                Err(error) => Err(error),
                Ok(last) => Ok(front.push(last)),
            },
        }
    }
}

/// An error among the first operands is the error of every longer prefix.
proof fn lemma_operand_error_stays(operation: DerivedValuesOperation, count: nat, longer: nat)
    requires
        count <= longer <= operation.operands.len(),
        compile_operands_spec(operation, count) is Err,
    ensures
        compile_operands_spec(operation, longer) == compile_operands_spec(operation, count),
    decreases longer,
{
    if count < longer {
        lemma_operand_error_stays(operation, count, (longer - 1) as nat);
    }
}

/// Compiles an expression tree into the operations the engine is asked for.
pub fn compile_expression(expression: &DerivedValuesExpression) -> (r: Result<
    EngineExpr,
    PipelineError,
>)
    ensures
        compiled_view(r) == compile_spec(*expression),
    decreases expression, 0nat,
{
    match expression {
        DerivedValuesExpression::Literal(bits) => Ok(EngineExpr::Number(*bits)),
        DerivedValuesExpression::Variable(variable) => Ok(
            EngineExpr::Column(variable.property.clone()),
        ),
        DerivedValuesExpression::WindowAggExpression(window) => {
            match compile_expression(&window.operand) {
                Ok(operand) => Ok(
                    EngineExpr::Window {
                        function: window.operation,
                        operand: Box::new(operand),
                        partition_by: copy_names(&window.over),
                    },
                ),
                Err(error) => Err(error),
            }
        },
        DerivedValuesExpression::Expression(operation) => {
            match compile_operands(operation) {
                Ok(operands) => combine(operation.operation, operands),
                Err(error) => Err(error),
            }
        },
    }
}

fn compile_operands(operation: &DerivedValuesOperation) -> (r: Result<
    Vec<EngineExpr>,
    PipelineError,
>)
    ensures
        match r {
            Ok(operands) => compile_operands_spec(
                *operation,
                operation.operands.len() as nat,
            ) == Ok::<Seq<ExprShape>, ErrorView>(shapes(operands@)),
            Err(error) => compile_operands_spec(*operation, operation.operands.len() as nat)
                == Err::<Seq<ExprShape>, ErrorView>(error@),
        },
    decreases operation, operation.operands.len(),
{
    let mut operands: Vec<EngineExpr> = Vec::new();
    let mut i: usize = 0;
    assert(shapes(operands@) =~= Seq::<ExprShape>::empty());
    while i < operation.operands.len()
        invariant
            i <= operation.operands.len(),
            operands.len() == i,
            compile_operands_spec(*operation, i as nat) == Ok::<Seq<ExprShape>, ErrorView>(
                shapes(operands@),
            ),
        decreases operation.operands.len() - i,
    {
        let ghost front = shapes(operands@);
        match compile_expression(&operation.operands[i]) {
            Ok(operand) => {
                operands.push(operand);
                assert(shapes(operands@) =~= front.push(operand@));
            },
            Err(error) => {
                proof {
                    lemma_operand_error_stays(
                        *operation,
                        (i + 1) as nat,
                        operation.operands.len() as nat,
                    );
                }
                return Err(error);
            },
        }
        i += 1;
    }
    Ok(operands)
}

/// Compilation fails for one reason only: an operator that was given a
/// number of operands it does not accept.
pub proof fn lemma_compile_error_is_arity(expression: DerivedValuesExpression)
    ensures
        compile_spec(expression) matches Err(error) ==> error is ArityError,
    decreases expression, 0nat,
{
    match expression {
        DerivedValuesExpression::WindowAggExpression(window) => {
            lemma_compile_error_is_arity(*window.operand);
        },
        DerivedValuesExpression::Expression(operation) => {
            lemma_operand_error_is_arity(operation, operation.operands.len() as nat);
        },
        _ => {},
    }
}

proof fn lemma_operand_error_is_arity(operation: DerivedValuesOperation, count: nat)
    ensures
        compile_operands_spec(operation, count) matches Err(error) ==> error is ArityError,
    decreases operation, count,
{
    if count != 0 && count <= operation.operands.len() {
        lemma_operand_error_is_arity(operation, (count - 1) as nat);
        lemma_compile_error_is_arity(operation.operands[count - 1]);
    }
}

} // verus!
