//! Compiled expressions: the operations the columnar engine is asked for.
use crate::expression::{text_views, AggType};
use vstd::prelude::*;

verus! {

/// The two-operand operations of the engine.
#[derive(Clone, Copy, Debug, PartialEq, Eq, Structural)]
pub enum BinaryOperator {
    Plus,
    Minus,
    Multiply,
    Divide,
    And,
    Or,
    Lt,
    LtEq,
    Gt,
    GtEq,
}

/// A compiled expression, one node for each call the engine will receive.
#[derive(Debug, PartialEq, Eq)]
pub enum EngineExpr {
    /// The double with this IEEE-754 bit pattern.
    Number(u64),
    /// An integer constant.
    Integer(i32),
    /// A boolean constant.
    Boolean(bool),
    /// The column with this name.
    Column(String),
    /// `left op right`, row by row.
    Binary { op: BinaryOperator, left: Box<EngineExpr>, right: Box<EngineExpr> },
    /// Logical negation.
    Not(Box<EngineExpr>),
    /// The least of the operands, row by row.
    MinHorizontal(Vec<EngineExpr>),
    /// The greatest of the operands, row by row.
    MaxHorizontal(Vec<EngineExpr>),
    /// `truthy` on the rows where `predicate` holds, `falsy` on the others.
    Ternary { predicate: Box<EngineExpr>, truthy: Box<EngineExpr>, falsy: Box<EngineExpr> },
    /// `function` of `operand` within each partition of the rows by the
    /// `partition_by` columns, given back on every row of the partition.
    Window { function: AggType, operand: Box<EngineExpr>, partition_by: Vec<String> },
}

/// The mathematical value of an [`EngineExpr`].
pub enum ExprShape {
    Number(u64),
    Integer(i32),
    Boolean(bool),
    Column(Seq<char>),
    Binary { op: BinaryOperator, left: Box<ExprShape>, right: Box<ExprShape> },
    Not(Box<ExprShape>),
    MinHorizontal(Seq<ExprShape>),
    MaxHorizontal(Seq<ExprShape>),
    Ternary { predicate: Box<ExprShape>, truthy: Box<ExprShape>, falsy: Box<ExprShape> },
    Window { function: AggType, operand: Box<ExprShape>, partition_by: Seq<Seq<char>> },
}

impl EngineExpr {
    /// The shape of this expression.
    pub open spec fn shape(self) -> ExprShape
        decreases self,
    {
        match self {
            EngineExpr::Number(bits) => ExprShape::Number(bits),
            EngineExpr::Integer(value) => ExprShape::Integer(value),
            EngineExpr::Boolean(value) => ExprShape::Boolean(value),
            EngineExpr::Column(name) => ExprShape::Column(name@),
            EngineExpr::Binary { op, left, right } => ExprShape::Binary {
                op,
                left: Box::new(left.shape()),
                right: Box::new(right.shape()),
            },
            EngineExpr::Not(inner) => ExprShape::Not(Box::new(inner.shape())),
            EngineExpr::MinHorizontal(items) => ExprShape::MinHorizontal(shapes(items@)),
            EngineExpr::MaxHorizontal(items) => ExprShape::MaxHorizontal(shapes(items@)),
            EngineExpr::Ternary { predicate, truthy, falsy } => ExprShape::Ternary {
                predicate: Box::new(predicate.shape()),
                truthy: Box::new(truthy.shape()),
                falsy: Box::new(falsy.shape()),
            },
            EngineExpr::Window { function, operand, partition_by } => ExprShape::Window {
                function,
                operand: Box::new(operand.shape()),
                partition_by: text_views(partition_by@),
            },
        }
    }
}

/// The shapes of a list of expressions, in order.
pub open spec fn shapes(items: Seq<EngineExpr>) -> Seq<ExprShape>
    decreases items,
{
    Seq::new(
        items.len(),
        |k: int|
            if 0 <= k < items.len() {
                items[k].shape()
            } else {
                ExprShape::Integer(0)
            },
    )
}

impl View for EngineExpr {
    type V = ExprShape;

    open spec fn view(&self) -> ExprShape {
        self.shape()
    }
}

} // verus!
