//! The expression language for computed columns and filters.
use vstd::prelude::*;

verus! {

/// The aggregate applied to the rows of one group or of one window partition.
#[derive(Clone, Copy, Debug, PartialEq, Eq, Structural)]
pub enum AggType {
    Sum,
    Max,
    Min,
}

/// The operators of an operation node.
#[derive(Clone, Copy, Debug, PartialEq, Eq, Structural)]
pub enum DerivedValuesOperationType {
    Sum,
    Subtract,
    Multiply,
    Divide,
    Min,
    Max,
    Not,
    And,
    Or,
    LessThan,
    LessThanEq,
    GreaterThan,
    GreaterThanEq,
    IfThenElse,
}

/// An operator applied to a list of operand expressions.
#[derive(Debug)]
pub struct DerivedValuesOperation {
    pub operation: DerivedValuesOperationType,
    pub operands: Vec<DerivedValuesExpression>,
}

/// A reference to the column with the given name.
#[derive(Debug)]
pub struct DerivedValuesProperty {
    pub property: String,
}

/// An aggregate of `operand` over the rows that agree on the `over` columns,
/// given back on every row of the partition.
#[derive(Debug)]
pub struct DerivedValuesWindowAggExpression {
    pub operation: AggType,
    pub operand: Box<DerivedValuesExpression>,
    pub over: Vec<String>,
}

/// An expression tree.
///
/// A literal holds the bit pattern of an IEEE-754 double, so that the tree
/// carries every number exactly and compares by plain equality.
#[derive(Debug)]
pub enum DerivedValuesExpression {
    Expression(DerivedValuesOperation),
    WindowAggExpression(DerivedValuesWindowAggExpression),
    Variable(DerivedValuesProperty),
    Literal(u64),
}

/// A computed column: the expression and the name its values are stored under.
#[derive(Debug)]
pub struct DerivedValuesExpressionRoot {
    pub name: String,
    pub expression: DerivedValuesExpression,
}

/// The character sequences of a list of strings.
pub open spec fn text_views(names: Seq<String>) -> Seq<Seq<char>> {
    Seq::new(names.len(), |i: int| names[i]@)
}

/// Copies a list of strings.
pub fn copy_names(names: &Vec<String>) -> (copy: Vec<String>)
    ensures
        text_views(copy@) == text_views(names@),
{
    let mut copy: Vec<String> = Vec::new();
    let mut i: usize = 0;
    while i < names.len()
        invariant
            i <= names.len(),
            copy.len() == i,
            forall|k: int| 0 <= k < i ==> copy[k]@ == names[k]@,
        decreases names.len() - i,
    {
        copy.push(names[i].clone());
        i += 1;
    }
    assert(text_views(copy@) =~= text_views(names@));
    copy
}

} // verus!
