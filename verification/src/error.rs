//! The errors a pipeline request can end in.
use crate::expression::DerivedValuesOperationType;
use vstd::prelude::*;

verus! {

/// How many operands an operator accepts.
#[derive(Clone, Copy, Debug, PartialEq, Eq, Structural)]
pub enum ExpectedArity {
    /// Exactly this many operands.
    Exactly(usize),
    /// This many operands or more.
    AtLeast(usize),
    /// An odd number of operands, this many or more.
    OddAtLeast(usize),
}

/// Why a request failed. The first error met aborts the whole request.
#[derive(Debug, PartialEq, Eq)]
pub enum PipelineError {
    /// No pipe with this id is in the config store.
    UnknownPipe(String),
    /// No input table with this id was supplied.
    UnknownSource(String),
    /// This pipe id was reached again while it was still being resolved.
    CyclicPipeline(String),
    /// This pipe id lies deeper below the requested pipe than the resolver goes.
    DepthLimitExceeded(String),
    /// An operator was given a number of operands it does not accept.
    ArityError { operator: DerivedValuesOperationType, expected: ExpectedArity, got: usize },
    /// A group-and-reduce pipe names no key column.
    EmptyGroupByKeys,
    /// A join pipe names no key column.
    EmptyJoinKeys,
    /// A rename pipe names a column that its upstream table does not have.
    RenameTargetMissing(String),
    /// A column is referred to by a name that the engine reads as a pattern
    /// for every column, not as the name of one.
    UnsupportedColumnName(String),
    /// The engine produced a column whose type the typed table cannot hold.
    UnsupportedColumnType(String),
    /// The engine failed while carrying out the plan of this pipe.
    MaterializationFailure { pipe_id: String, message: String },
    /// The request payload could not be decoded.
    PayloadDecodeError(String),
}

/// The mathematical value of a [`PipelineError`]: strings are character sequences.
pub enum ErrorView {
    UnknownPipe(Seq<char>),
    UnknownSource(Seq<char>),
    CyclicPipeline(Seq<char>),
    DepthLimitExceeded(Seq<char>),
    ArityError { operator: DerivedValuesOperationType, expected: ExpectedArity, got: nat },
    EmptyGroupByKeys,
    EmptyJoinKeys,
    RenameTargetMissing(Seq<char>),
    UnsupportedColumnName(Seq<char>),
    UnsupportedColumnType(Seq<char>),
    MaterializationFailure { pipe_id: Seq<char>, message: Seq<char> },
    PayloadDecodeError(Seq<char>),
}

impl View for PipelineError {
    type V = ErrorView;

    open spec fn view(&self) -> ErrorView {
        match self {
            PipelineError::UnknownPipe(id) => ErrorView::UnknownPipe(id@),
            PipelineError::UnknownSource(id) => ErrorView::UnknownSource(id@),
            PipelineError::CyclicPipeline(id) => ErrorView::CyclicPipeline(id@),
            PipelineError::DepthLimitExceeded(id) => ErrorView::DepthLimitExceeded(id@),
            PipelineError::ArityError { operator, expected, got } => ErrorView::ArityError {
                operator: *operator,
                expected: *expected,
                got: *got as nat,
            },
            PipelineError::EmptyGroupByKeys => ErrorView::EmptyGroupByKeys,
            PipelineError::EmptyJoinKeys => ErrorView::EmptyJoinKeys,
            PipelineError::RenameTargetMissing(name) => ErrorView::RenameTargetMissing(name@),
            PipelineError::UnsupportedColumnName(name) => ErrorView::UnsupportedColumnName(name@),
            PipelineError::UnsupportedColumnType(name) => ErrorView::UnsupportedColumnType(name@),
            PipelineError::MaterializationFailure { pipe_id, message } => {
                ErrorView::MaterializationFailure { pipe_id: pipe_id@, message: message@ }
            },
            PipelineError::PayloadDecodeError(text) => ErrorView::PayloadDecodeError(text@),
        }
    }
}

} // verus!
