//! Plans: the steps the columnar engine is asked to carry out for one pipe.
use crate::compiled::{shapes, EngineExpr, ExprShape};
use crate::expression::{text_views, AggType};
use vstd::prelude::*;

verus! {

/// A computed column: a compiled expression and the name it is stored under.
#[derive(Debug, PartialEq, Eq)]
pub struct NamedExpr {
    pub name: String,
    pub expr: EngineExpr,
}

/// The mathematical value of a [`NamedExpr`].
pub struct NamedShape {
    pub name: Seq<char>,
    pub expr: ExprShape,
}

/// One aggregate of a grouping: `function` of `column`, stored under `name`.
#[derive(Debug, PartialEq, Eq)]
pub struct Aggregate {
    pub name: String,
    pub function: AggType,
    pub column: String,
}

/// The mathematical value of an [`Aggregate`].
pub struct AggregateShape {
    pub name: Seq<char>,
    pub function: AggType,
    pub column: Seq<char>,
}

/// One renaming of a column.
#[derive(Debug, PartialEq, Eq)]
pub struct Renaming {
    pub from: String,
    pub to: String,
}

/// The mathematical value of a [`Renaming`].
pub struct RenamingShape {
    pub from: Seq<char>,
    pub to: Seq<char>,
}

/// The joins the engine is asked for. A right join is planned as a left join
/// with the two sides exchanged.
#[derive(Clone, Copy, Debug, PartialEq, Eq, Structural)]
pub enum JoinKind {
    Left,
    Inner,
    Outer,
}

/// The steps that produce the table of one pipe.
#[derive(Debug, PartialEq, Eq)]
pub enum Plan {
    /// The input table supplied under this id, as it is.
    Scan { source_id: String },
    /// The input with each column added in turn.
    WithColumns { input: Box<Plan>, columns: Vec<NamedExpr> },
    /// One row for each distinct combination of the key columns, holding the
    /// keys and the aggregates.
    Aggregate { input: Box<Plan>, keys: Vec<String>, aggregates: Vec<Aggregate> },
    /// The rows of the input on which every predicate holds.
    Filter { input: Box<Plan>, predicates: Vec<EngineExpr> },
    /// The join of two inputs on the key columns.
    Join { left: Box<Plan>, right: Box<Plan>, on: Vec<String>, kind: JoinKind },
    /// The input with columns renamed.
    Rename { input: Box<Plan>, renamings: Vec<Renaming> },
}

/// The mathematical value of a [`Plan`].
pub enum PlanShape {
    Scan { source_id: Seq<char> },
    WithColumns { input: Box<PlanShape>, columns: Seq<NamedShape> },
    Aggregate { input: Box<PlanShape>, keys: Seq<Seq<char>>, aggregates: Seq<AggregateShape> },
    Filter { input: Box<PlanShape>, predicates: Seq<ExprShape> },
    Join { left: Box<PlanShape>, right: Box<PlanShape>, on: Seq<Seq<char>>, kind: JoinKind },
    Rename { input: Box<PlanShape>, renamings: Seq<RenamingShape> },
}

/// The values of a list of computed columns, in order.
pub open spec fn named_shapes(columns: Seq<NamedExpr>) -> Seq<NamedShape> {
    Seq::new(
        columns.len(),
        |i: int| NamedShape { name: columns[i].name@, expr: columns[i].expr@ },
    )
}

/// The values of a list of aggregates, in order.
pub open spec fn aggregate_shapes(aggregates: Seq<Aggregate>) -> Seq<AggregateShape> {
    Seq::new(
        aggregates.len(),
        |i: int|
            AggregateShape {
                name: aggregates[i].name@,
                function: aggregates[i].function,
                column: aggregates[i].column@,
            },
    )
}

/// The values of a list of renamings, in order.
pub open spec fn renaming_shapes(renamings: Seq<Renaming>) -> Seq<RenamingShape> {
    Seq::new(
        renamings.len(),
        |i: int| RenamingShape { from: renamings[i].from@, to: renamings[i].to@ },
    )
}

impl Plan {
    /// The shape of this plan.
    pub open spec fn shape(self) -> PlanShape
        decreases self,
    {
        match self {
            Plan::Scan { source_id } => PlanShape::Scan { source_id: source_id@ },
            Plan::WithColumns { input, columns } => PlanShape::WithColumns {
                input: Box::new(input.shape()),
                columns: named_shapes(columns@),
            },
            Plan::Aggregate { input, keys, aggregates } => PlanShape::Aggregate {
                input: Box::new(input.shape()),
                keys: text_views(keys@),
                aggregates: aggregate_shapes(aggregates@),
            },
            Plan::Filter { input, predicates } => PlanShape::Filter {
                input: Box::new(input.shape()),
                predicates: shapes(predicates@),
            },
            Plan::Join { left, right, on, kind } => PlanShape::Join {
                left: Box::new(left.shape()),
                right: Box::new(right.shape()),
                on: text_views(on@),
                kind,
            },
            Plan::Rename { input, renamings } => PlanShape::Rename {
                input: Box::new(input.shape()),
                renamings: renaming_shapes(renamings@),
            },
        }
    }
}

impl View for Plan {
    type V = PlanShape;

    open spec fn view(&self) -> PlanShape {
        self.shape()
    }
}

/// Every table the plan scans is among `sources`.
pub open spec fn scans_within(plan: PlanShape, sources: Seq<Seq<char>>) -> bool
    decreases plan,
{
    match plan {
        PlanShape::Scan { source_id } => sources.contains(source_id),
        PlanShape::WithColumns { input, .. } => scans_within(*input, sources),
        PlanShape::Aggregate { input, .. } => scans_within(*input, sources),
        PlanShape::Filter { input, .. } => scans_within(*input, sources),
        PlanShape::Join { left, right, .. } => scans_within(*left, sources) && scans_within(
            *right,
            sources,
        ),
        PlanShape::Rename { input, .. } => scans_within(*input, sources),
    }
}

} // verus!
