use data_pipes::compiled::{BinaryOperator, EngineExpr};
use data_pipes::compiler::{combine, compile_expression, fold_operands};
use data_pipes::error::{ExpectedArity, PipelineError};
use data_pipes::expression::{
    copy_names, AggType, DerivedValuesExpression, DerivedValuesOperation,
    DerivedValuesOperationType, DerivedValuesProperty, DerivedValuesWindowAggExpression,
};

fn number(value: f64) -> DerivedValuesExpression {
    DerivedValuesExpression::Literal(value.to_bits())
}

fn variable(name: &str) -> DerivedValuesExpression {
    DerivedValuesExpression::Variable(DerivedValuesProperty { property: name.to_string() })
}

fn operation(
    operation: DerivedValuesOperationType,
    operands: Vec<DerivedValuesExpression>,
) -> DerivedValuesExpression {
    DerivedValuesExpression::Expression(DerivedValuesOperation { operation, operands })
}

fn num(value: f64) -> EngineExpr {
    EngineExpr::Number(value.to_bits())
}

fn col(name: &str) -> EngineExpr {
    EngineExpr::Column(name.to_string())
}

fn binary(op: BinaryOperator, left: EngineExpr, right: EngineExpr) -> EngineExpr {
    EngineExpr::Binary { op, left: Box::new(left), right: Box::new(right) }
}

fn ternary(predicate: EngineExpr, truthy: EngineExpr, falsy: EngineExpr) -> EngineExpr {
    EngineExpr::Ternary {
        predicate: Box::new(predicate),
        truthy: Box::new(truthy),
        falsy: Box::new(falsy),
    }
}

fn arity(
    operator: DerivedValuesOperationType,
    expected: ExpectedArity,
    got: usize,
) -> Result<EngineExpr, PipelineError> {
    Err(PipelineError::ArityError { operator, expected, got })
}

fn numbers(values: &[f64]) -> Vec<DerivedValuesExpression> {
    values.iter().map(|v| number(*v)).collect()
}

#[test]
fn a_literal_compiles_to_a_constant() {
    assert_eq!(compile_expression(&number(2.5)), Ok(num(2.5)));
    assert_eq!(compile_expression(&number(-0.0)), Ok(EngineExpr::Number((-0.0f64).to_bits())));
}

#[test]
fn a_variable_compiles_to_a_column() {
    assert_eq!(compile_expression(&variable("price")), Ok(col("price")));
}

#[test]
fn sum_folds_from_zero_left_to_right() {
    let compiled = compile_expression(&operation(
        DerivedValuesOperationType::Sum,
        numbers(&[2.0, 3.0, 4.0]),
    ));
    let expected = binary(
        BinaryOperator::Plus,
        binary(
            BinaryOperator::Plus,
            binary(BinaryOperator::Plus, EngineExpr::Integer(0), num(2.0)),
            num(3.0),
        ),
        num(4.0),
    );
    assert_eq!(compiled, Ok(expected));
}

#[test]
fn sum_of_nothing_is_zero() {
    let compiled = compile_expression(&operation(DerivedValuesOperationType::Sum, vec![]));
    assert_eq!(compiled, Ok(EngineExpr::Integer(0)));
}

#[test]
fn multiply_folds_from_one() {
    let compiled = compile_expression(&operation(
        DerivedValuesOperationType::Multiply,
        numbers(&[2.0, 3.0]),
    ));
    let expected = binary(
        BinaryOperator::Multiply,
        binary(BinaryOperator::Multiply, EngineExpr::Integer(1), num(2.0)),
        num(3.0),
    );
    assert_eq!(compiled, Ok(expected));
    assert_eq!(
        compile_expression(&operation(DerivedValuesOperationType::Multiply, vec![])),
        Ok(EngineExpr::Integer(1))
    );
}

#[test]
fn subtract_folds_from_its_first_operand() {
    let compiled = compile_expression(&operation(
        DerivedValuesOperationType::Subtract,
        numbers(&[10.0, 3.0, 2.0]),
    ));
    let expected = binary(
        BinaryOperator::Minus,
        binary(BinaryOperator::Minus, num(10.0), num(3.0)),
        num(2.0),
    );
    assert_eq!(compiled, Ok(expected));
}

#[test]
fn subtract_of_one_operand_is_that_operand() {
    let compiled =
        compile_expression(&operation(DerivedValuesOperationType::Subtract, vec![variable("x")]));
    assert_eq!(compiled, Ok(col("x")));
}

#[test]
fn subtract_and_divide_need_an_operand() {
    assert_eq!(
        compile_expression(&operation(DerivedValuesOperationType::Subtract, vec![])),
        arity(DerivedValuesOperationType::Subtract, ExpectedArity::AtLeast(1), 0)
    );
    assert_eq!(
        compile_expression(&operation(DerivedValuesOperationType::Divide, vec![])),
        arity(DerivedValuesOperationType::Divide, ExpectedArity::AtLeast(1), 0)
    );
}

#[test]
fn divide_folds_from_its_first_operand() {
    let compiled = compile_expression(&operation(
        DerivedValuesOperationType::Divide,
        numbers(&[100.0, 5.0, 2.0]),
    ));
    let expected = binary(
        BinaryOperator::Divide,
        binary(BinaryOperator::Divide, num(100.0), num(5.0)),
        num(2.0),
    );
    assert_eq!(compiled, Ok(expected));
}

#[test]
fn min_and_max_take_any_number_of_operands() {
    let values = [1.0, 5.0, 3.0, 2.0, 9.0, 0.0, 4.0, 8.0, 7.0, 6.0];
    let items: Vec<EngineExpr> = values.iter().map(|v| num(*v)).collect();
    assert_eq!(
        compile_expression(&operation(DerivedValuesOperationType::Max, numbers(&values))),
        Ok(EngineExpr::MaxHorizontal(items))
    );
    let items: Vec<EngineExpr> = values.iter().map(|v| num(*v)).collect();
    assert_eq!(
        compile_expression(&operation(DerivedValuesOperationType::Min, numbers(&values))),
        Ok(EngineExpr::MinHorizontal(items))
    );
    assert_eq!(
        compile_expression(&operation(DerivedValuesOperationType::Min, numbers(&[4.0]))),
        Ok(EngineExpr::MinHorizontal(vec![num(4.0)]))
    );
}

#[test]
fn min_and_max_need_an_operand() {
    assert_eq!(
        compile_expression(&operation(DerivedValuesOperationType::Min, vec![])),
        arity(DerivedValuesOperationType::Min, ExpectedArity::AtLeast(1), 0)
    );
    assert_eq!(
        compile_expression(&operation(DerivedValuesOperationType::Max, vec![])),
        arity(DerivedValuesOperationType::Max, ExpectedArity::AtLeast(1), 0)
    );
}

#[test]
fn not_takes_exactly_one_operand() {
    assert_eq!(
        compile_expression(&operation(DerivedValuesOperationType::Not, vec![variable("flag")])),
        Ok(EngineExpr::Not(Box::new(col("flag"))))
    );
    assert_eq!(
        compile_expression(&operation(
            DerivedValuesOperationType::Not,
            vec![variable("a"), variable("b")]
        )),
        arity(DerivedValuesOperationType::Not, ExpectedArity::Exactly(1), 2)
    );
    assert_eq!(
        compile_expression(&operation(DerivedValuesOperationType::Not, vec![])),
        arity(DerivedValuesOperationType::Not, ExpectedArity::Exactly(1), 0)
    );
}

#[test]
fn and_folds_from_true_and_or_from_false() {
    let both = compile_expression(&operation(
        DerivedValuesOperationType::And,
        vec![variable("a"), variable("b")],
    ));
    let expected = binary(
        BinaryOperator::And,
        binary(BinaryOperator::And, EngineExpr::Boolean(true), col("a")),
        col("b"),
    );
    assert_eq!(both, Ok(expected));
    let either =
        compile_expression(&operation(DerivedValuesOperationType::Or, vec![variable("a")]));
    assert_eq!(either, Ok(binary(BinaryOperator::Or, EngineExpr::Boolean(false), col("a"))));
}

#[test]
fn and_and_or_need_an_operand() {
    assert_eq!(
        compile_expression(&operation(DerivedValuesOperationType::And, vec![])),
        arity(DerivedValuesOperationType::And, ExpectedArity::AtLeast(1), 0)
    );
    assert_eq!(
        compile_expression(&operation(DerivedValuesOperationType::Or, vec![])),
        arity(DerivedValuesOperationType::Or, ExpectedArity::AtLeast(1), 0)
    );
}

#[test]
fn comparisons_take_exactly_two_operands() {
    let cases = [
        (DerivedValuesOperationType::LessThan, BinaryOperator::Lt),
        (DerivedValuesOperationType::LessThanEq, BinaryOperator::LtEq),
        (DerivedValuesOperationType::GreaterThan, BinaryOperator::Gt),
        (DerivedValuesOperationType::GreaterThanEq, BinaryOperator::GtEq),
    ];
    for (kind, op) in cases {
        assert_eq!(
            compile_expression(&operation(kind, vec![variable("a"), number(1.0)])),
            Ok(binary(op, col("a"), num(1.0)))
        );
        assert_eq!(
            compile_expression(&operation(kind, vec![variable("a")])),
            arity(kind, ExpectedArity::Exactly(2), 1)
        );
        assert_eq!(
            compile_expression(&operation(kind, numbers(&[1.0, 2.0, 3.0]))),
            arity(kind, ExpectedArity::Exactly(2), 3)
        );
    }
}

#[test]
fn if_then_else_is_a_first_match_cascade() {
    let compiled = compile_expression(&operation(
        DerivedValuesOperationType::IfThenElse,
        vec![variable("c0"), variable("a"), variable("c1"), variable("b"), variable("c")],
    ));
    let expected = ternary(col("c0"), col("a"), ternary(col("c1"), col("b"), col("c")));
    assert_eq!(compiled, Ok(expected));
    let short = compile_expression(&operation(
        DerivedValuesOperationType::IfThenElse,
        vec![variable("c0"), variable("a"), variable("b")],
    ));
    assert_eq!(short, Ok(ternary(col("c0"), col("a"), col("b"))));
}

#[test]
fn if_then_else_needs_an_odd_number_of_operands_from_three() {
    for count in [0usize, 1, 2, 4, 6] {
        let operands: Vec<DerivedValuesExpression> = (0..count).map(|_| variable("x")).collect();
        assert_eq!(
            compile_expression(&operation(DerivedValuesOperationType::IfThenElse, operands)),
            arity(DerivedValuesOperationType::IfThenElse, ExpectedArity::OddAtLeast(3), count)
        );
    }
}

#[test]
fn a_window_aggregation_keeps_all_its_partition_columns() {
    let window = DerivedValuesExpression::WindowAggExpression(DerivedValuesWindowAggExpression {
        operation: AggType::Max,
        operand: Box::new(variable("v")),
        over: vec!["a".to_string(), "b".to_string(), "c".to_string()],
    });
    let expected = EngineExpr::Window {
        function: AggType::Max,
        operand: Box::new(col("v")),
        partition_by: vec!["a".to_string(), "b".to_string(), "c".to_string()],
    };
    assert_eq!(compile_expression(&window), Ok(expected));
}

#[test]
fn a_window_aggregation_fails_with_its_operand() {
    let window = DerivedValuesExpression::WindowAggExpression(DerivedValuesWindowAggExpression {
        operation: AggType::Sum,
        operand: Box::new(operation(DerivedValuesOperationType::Not, vec![])),
        over: vec!["a".to_string()],
    });
    assert_eq!(
        compile_expression(&window),
        arity(DerivedValuesOperationType::Not, ExpectedArity::Exactly(1), 0)
    );
}

#[test]
fn the_first_failing_operand_decides_the_error() {
    let nested = operation(
        DerivedValuesOperationType::Not,
        vec![
            variable("ok"),
            operation(DerivedValuesOperationType::Min, vec![]),
            operation(DerivedValuesOperationType::LessThan, vec![]),
        ],
    );
    assert_eq!(
        compile_expression(&nested),
        arity(DerivedValuesOperationType::Min, ExpectedArity::AtLeast(1), 0)
    );
}

#[test]
fn operations_nest() {
    let nested = operation(
        DerivedValuesOperationType::GreaterThan,
        vec![
            operation(DerivedValuesOperationType::Sum, vec![variable("a"), number(1.0)]),
            operation(DerivedValuesOperationType::Max, vec![variable("b"), variable("c")]),
        ],
    );
    let expected = binary(
        BinaryOperator::Gt,
        binary(
            BinaryOperator::Plus,
            binary(BinaryOperator::Plus, EngineExpr::Integer(0), col("a")),
            num(1.0),
        ),
        EngineExpr::MaxHorizontal(vec![col("b"), col("c")]),
    );
    assert_eq!(compile_expression(&nested), Ok(expected));
}

#[test]
fn combine_applies_an_operator_to_compiled_operands() {
    assert_eq!(
        combine(DerivedValuesOperationType::LessThanEq, vec![col("a"), col("b")]),
        Ok(binary(BinaryOperator::LtEq, col("a"), col("b")))
    );
    assert_eq!(
        combine(DerivedValuesOperationType::Not, vec![col("a"), col("b")]),
        arity(DerivedValuesOperationType::Not, ExpectedArity::Exactly(1), 2)
    );
    assert_eq!(combine(DerivedValuesOperationType::Sum, vec![]), Ok(EngineExpr::Integer(0)));
}

#[test]
fn fold_operands_nests_to_the_left() {
    assert_eq!(fold_operands(BinaryOperator::Or, col("seed"), vec![]), col("seed"));
    assert_eq!(
        fold_operands(BinaryOperator::Or, col("seed"), vec![col("a"), col("b")]),
        binary(BinaryOperator::Or, binary(BinaryOperator::Or, col("seed"), col("a")), col("b"))
    );
}

#[test]
fn copy_names_copies_every_name_in_order() {
    let names = vec!["b".to_string(), "a".to_string(), "b".to_string()];
    assert_eq!(copy_names(&names), names);
    assert_eq!(copy_names(&Vec::new()), Vec::<String>::new());
}
