//! Pipe configurations: the stages a pipeline is made of.
use crate::expression::{
    text_views, AggType, DerivedValuesExpression, DerivedValuesExpressionRoot,
};
use vstd::prelude::*;

verus! {

/// Reads the input table supplied under `source_id`.
#[derive(Debug)]
pub struct SourcePipeConfig {
    pub source_id: String,
}

/// Adds computed columns to the output of `pipe_id`, one after the other, so
/// that each calculation sees the columns of those before it.
#[derive(Debug)]
pub struct DerivedValuesPipeConfig {
    pub pipe_id: String,
    pub calcs: Vec<DerivedValuesExpressionRoot>,
}

/// One aggregate of a group-and-reduce pipe: `agg_type` of the column
/// `agg_property`, stored under `name`.
#[derive(Debug)]
pub struct AggConfig {
    pub name: String,
    pub agg_type: AggType,
    pub agg_property: String,
}

/// Groups the rows of `pipe_id` by the `group_by` columns and keeps one row
/// for each distinct key, with the key columns and the aggregates.
#[derive(Debug)]
pub struct GroupAndReducePipeConfig {
    pub pipe_id: String,
    pub group_by: Vec<String>,
    pub aggs: Vec<AggConfig>,
}

/// Keeps the rows of `pipe_id` on which every filter expression holds.
#[derive(Debug)]
pub struct FilterPipeConfig {
    pub pipe_id: String,
    pub filters: Vec<DerivedValuesExpression>,
}

/// The kinds of join.
#[derive(Clone, Copy, Debug, PartialEq, Eq, Structural)]
pub enum JoinPipeType {
    Left,
    Right,
    Inner,
    Outer,
}

/// Joins the outputs of two pipes on the `on` columns.
#[derive(Debug)]
pub struct JoinPipeConfig {
    pub left_pipe_id: String,
    pub right_pipe_id: String,
    pub on: Vec<String>,
    pub how: JoinPipeType,
}

/// One renaming: the column `from` is called `to` afterwards.
#[derive(Debug)]
pub struct RenamePropertyConfig {
    pub from: String,
    pub to: String,
}

/// Renames columns of the output of `pipe_id`.
#[derive(Debug)]
pub struct RenamePipeConfig {
    pub pipe_id: String,
    pub properties: Vec<RenamePropertyConfig>,
}

/// A pipeline stage.
#[derive(Debug)]
pub enum PipeConfig {
    Source(SourcePipeConfig),
    DerivedValues(DerivedValuesPipeConfig),
    GroupAndReduce(GroupAndReducePipeConfig),
    Filter(FilterPipeConfig),
    Join(JoinPipeConfig),
    Rename(RenamePipeConfig),
}

/// The pipe ids a stage reads from directly: none for a source, the left and
/// then the right one for a join, the single upstream pipe otherwise.
pub open spec fn upstream_ids(config: PipeConfig) -> Seq<Seq<char>> {
    match config {
        PipeConfig::Source(_) => Seq::empty(),
        PipeConfig::DerivedValues(c) => seq![c.pipe_id@],
        PipeConfig::GroupAndReduce(c) => seq![c.pipe_id@],
        PipeConfig::Filter(c) => seq![c.pipe_id@],
        PipeConfig::Join(c) => seq![c.left_pipe_id@, c.right_pipe_id@],
        PipeConfig::Rename(c) => seq![c.pipe_id@],
    }
}

/// Lists the pipe ids a stage reads from directly.
pub fn get_source_pipes_for_single(config: &PipeConfig) -> (upstream: Vec<String>)
    ensures
        text_views(upstream@) == upstream_ids(*config),
{
    let mut upstream: Vec<String> = Vec::new();
    match config {
        PipeConfig::Source(_) => {},
        PipeConfig::DerivedValues(c) => {
            upstream.push(c.pipe_id.clone());
        },
        PipeConfig::GroupAndReduce(c) => {
            upstream.push(c.pipe_id.clone());
        },
        PipeConfig::Filter(c) => {
            upstream.push(c.pipe_id.clone());
        },
        PipeConfig::Join(c) => {
            upstream.push(c.left_pipe_id.clone());
            upstream.push(c.right_pipe_id.clone());
        },
        PipeConfig::Rename(c) => {
            upstream.push(c.pipe_id.clone());
        },
    }
    assert(text_views(upstream@) =~= upstream_ids(*config));
    upstream
}

/// Lists, for each stage in turn, the pipe ids it reads from directly.
pub fn get_source_pipes(configs: &Vec<PipeConfig>) -> (upstream: Vec<Vec<String>>)
    ensures
        upstream.len() == configs.len(),
        forall|i: int|
            0 <= i < configs.len() ==> text_views(#[trigger] upstream[i]@) == upstream_ids(
                configs[i],
            ),
{
    let mut upstream: Vec<Vec<String>> = Vec::new();
    let mut i: usize = 0;
    while i < configs.len()
        invariant
            i <= configs.len(),
            upstream.len() == i,
            forall|k: int|
                0 <= k < i ==> text_views(#[trigger] upstream[k]@) == upstream_ids(configs[k]),
        decreases configs.len() - i,
    {
        upstream.push(get_source_pipes_for_single(&configs[i]));
        i += 1;
    }
    upstream
}

} // verus!
