//! The dependency resolver: from a pipe id to the plan of its table.
use crate::compiled::{shapes, EngineExpr, ExprShape};
use crate::compiler::{compile_expression, compile_spec, lemma_compile_error_is_arity};
use crate::config::{upstream_ids, AggConfig, JoinPipeType, PipeConfig, RenamePropertyConfig};
use crate::error::{ErrorView, PipelineError};
use crate::expression::{
    copy_names, text_views, DerivedValuesExpression, DerivedValuesExpressionRoot,
};
use crate::plan::{
    aggregate_shapes, named_shapes, renaming_shapes, scans_within, Aggregate, AggregateShape,
    JoinKind, NamedExpr, NamedShape, Plan, PlanShape, Renaming, RenamingShape,
};
use crate::registry::{find_name, first_index, ids, lemma_first_index_contains, Entry, Registry};
use vstd::prelude::*;
use vstd::set_lib::lemma_len_subset;

verus! {

/// The first `count` filter expressions compiled, or the error of the first
/// among them that fails to compile.
pub open spec fn compile_filters_spec(filters: Seq<DerivedValuesExpression>, count: nat) -> Result<
    Seq<ExprShape>,
    ErrorView,
>
    decreases count,
{
    if count == 0 || count > filters.len() {
        Ok(Seq::empty())
    } else {
        match compile_filters_spec(filters, (count - 1) as nat) {
            Err(error) => Err(error),
            Ok(front) => match compile_spec(filters[count - 1]) {
                Err(error) => Err(error),
                Ok(last) => Ok(front.push(last)),
            },
        }
    }
}

/// The first `count` calculations compiled, each under its name, or the error
/// of the first among them that fails to compile.
pub open spec fn compile_calcs_spec(calcs: Seq<DerivedValuesExpressionRoot>, count: nat) -> Result<
    Seq<NamedShape>,
    ErrorView,
>
    decreases count,
{
    if count == 0 || count > calcs.len() {
        Ok(Seq::empty())
    } else {
        match compile_calcs_spec(calcs, (count - 1) as nat) {
            Err(error) => Err(error),
            Ok(front) => match compile_spec(calcs[count - 1].expression) {
                Err(error) => Err(error),
                Ok(last) => Ok(front.push(NamedShape { name: calcs[count - 1].name@, expr: last })),
            },
        }
    }
}

proof fn lemma_filter_error_stays(filters: Seq<DerivedValuesExpression>, count: nat, longer: nat)
    requires
        count <= longer <= filters.len(),
        compile_filters_spec(filters, count) is Err,
    ensures
        compile_filters_spec(filters, longer) == compile_filters_spec(filters, count),
    decreases longer,
{
    if count < longer {
        lemma_filter_error_stays(filters, count, (longer - 1) as nat);
    }
}

proof fn lemma_calc_error_stays(calcs: Seq<DerivedValuesExpressionRoot>, count: nat, longer: nat)
    requires
        count <= longer <= calcs.len(),
        compile_calcs_spec(calcs, count) is Err,
    ensures
        compile_calcs_spec(calcs, longer) == compile_calcs_spec(calcs, count),
    decreases longer,
{
    if count < longer {
        lemma_calc_error_stays(calcs, count, (longer - 1) as nat);
    }
}

/// The aggregates a group-and-reduce pipe asks for, in order.
pub open spec fn aggregates_of(aggs: Seq<AggConfig>) -> Seq<AggregateShape> {
    Seq::new(
        aggs.len(),
        |i: int|
            AggregateShape {
                name: aggs[i].name@,
                function: aggs[i].agg_type,
                column: aggs[i].agg_property@,
            },
    )
}

/// The renamings a rename pipe asks for, in order.
pub open spec fn renamings_of(properties: Seq<RenamePropertyConfig>) -> Seq<RenamingShape> {
    Seq::new(
        properties.len(),
        |i: int| RenamingShape { from: properties[i].from@, to: properties[i].to@ },
    )
}

/// The join step for a join pipe. A right join keeps every row of the right
/// side, so it is the left join of the right side with the left side.
pub open spec fn join_of(
    how: JoinPipeType,
    left: PlanShape,
    right: PlanShape,
    on: Seq<Seq<char>>,
) -> PlanShape {
    match how {
        JoinPipeType::Left => PlanShape::Join {
            left: Box::new(left),
            right: Box::new(right),
            on,
            kind: JoinKind::Left,
        },
        JoinPipeType::Right => PlanShape::Join {
            left: Box::new(right),
            right: Box::new(left),
            on,
            kind: JoinKind::Left,
        },
        JoinPipeType::Inner => PlanShape::Join {
            left: Box::new(left),
            right: Box::new(right),
            on,
            kind: JoinKind::Inner,
        },
        JoinPipeType::Outer => PlanShape::Join {
            left: Box::new(left),
            right: Box::new(right),
            on,
            kind: JoinKind::Outer,
        },
    }
}

/// The greatest number of pipes that may be under resolution at once: a
/// chain of references is followed this deep and no deeper.
pub const MAX_RESOLUTION_DEPTH: usize = 512;

/// The ids on a resolution path are distinct ids of the store.
pub open spec fn path_on_store(store: Seq<Entry<PipeConfig>>, path: Seq<Seq<char>>) -> bool {
    &&& path.no_duplicates()
    &&& forall|i: int| 0 <= i < path.len() ==> ids(store).contains(#[trigger] path[i])
}

/// A resolution path is no longer than the store is large.
pub proof fn lemma_path_fits(store: Seq<Entry<PipeConfig>>, path: Seq<Seq<char>>)
    requires
        path_on_store(store, path),
    ensures
        path.len() <= store.len(),
{
    let names = ids(store);
    path.unique_seq_to_set();
    names.lemma_cardinality_of_set();
    assert(path.to_set().subset_of(names.to_set())) by {
        assert forall|id: Seq<char>| path.to_set().contains(id) implies names.to_set().contains(
            id,
        ) by {
            let i = choose|i: int| 0 <= i < path.len() && path[i] == id;
            assert(names.contains(path[i]));
        }
    }
    lemma_len_subset(path.to_set(), names.to_set());
}

/// A path stays on the store when an id of the store that is not yet on it
/// is added.
pub proof fn lemma_path_extends(store: Seq<Entry<PipeConfig>>, path: Seq<Seq<char>>, id: Seq<char>)
    requires
        path_on_store(store, path),
        !path.contains(id),
        ids(store).contains(id),
    ensures
        path_on_store(store, path.push(id)),
        path.len() < store.len(),
{
    let longer = path.push(id);
    assert forall|i: int, j: int| 0 <= i < longer.len() && 0 <= j < longer.len() && i != j implies longer[i]
        != longer[j] by {
        if i < path.len() && j < path.len() {
        } else if i < path.len() {
            assert(path.contains(path[i]));
        } else {
            assert(path.contains(path[j]));
        }
    }
    assert forall|i: int| 0 <= i < longer.len() implies ids(store).contains(
        #[trigger] longer[i],
    ) by {
        if i < path.len() {
            assert(longer[i] == path[i]);
        }
    }
    lemma_path_fits(store, longer);
}

/// The plan of the pipe `id`, resolved below the pipes on `path`.
///
/// An id that is already on the path closes a cycle; a path of
/// [`MAX_RESOLUTION_DEPTH`] pipes is not extended; an id that the store does
/// not hold is unknown. Otherwise the stage stored under the id decides:
/// a source scans its input table, which must be among `sources`; every other
/// stage first resolves the pipes it reads from, below the path extended by
/// `id`, and then adds its own step. The first error met is the result.
pub open spec fn resolve_spec(
    store: Seq<Entry<PipeConfig>>,
    sources: Seq<Seq<char>>,
    id: Seq<char>,
    path: Seq<Seq<char>>,
) -> Result<PlanShape, ErrorView>
    decreases store.len() - path.len(),
    when path_on_store(store, path)
    via resolve_spec_decreases
{
    if path.contains(id) {
        Err(ErrorView::CyclicPipeline(id))
    } else if path.len() >= MAX_RESOLUTION_DEPTH {
        Err(ErrorView::DepthLimitExceeded(id))
    } else {
        match first_index(ids(store), id) {
            None => Err(ErrorView::UnknownPipe(id)),
            Some(k) => {
                let below = path.push(id);
                match store[k].value {
                    PipeConfig::Source(c) => if sources.contains(c.source_id@) {
                        Ok(PlanShape::Scan { source_id: c.source_id@ })
                    } else {
                        Err(ErrorView::UnknownSource(c.source_id@))
                    },
                    PipeConfig::DerivedValues(c) => match resolve_spec(
                        store,
                        sources,
                        c.pipe_id@,
                        below,
                    ) {
                        Err(error) => Err(error),
                        Ok(input) => match compile_calcs_spec(c.calcs@, c.calcs@.len()) {
                            Err(error) => Err(error),
                            Ok(columns) => Ok(
                                PlanShape::WithColumns { input: Box::new(input), columns },
                            ),
                        },
                    },
                    PipeConfig::GroupAndReduce(c) => match resolve_spec(
                        store,
                        sources,
                        c.pipe_id@,
                        below,
                    ) {
                        Err(error) => Err(error),
                        Ok(input) => if c.group_by@.len() == 0 {
                            Err(ErrorView::EmptyGroupByKeys)
                        } else {
                            Ok(
                                PlanShape::Aggregate {
                                    input: Box::new(input),
                                    keys: text_views(c.group_by@),
                                    aggregates: aggregates_of(c.aggs@),
                                },
                            )
                        },
                    },
                    PipeConfig::Filter(c) => match resolve_spec(store, sources, c.pipe_id@, below) {
                        Err(error) => Err(error),
                        Ok(input) => match compile_filters_spec(c.filters@, c.filters@.len()) {
                            Err(error) => Err(error),
                            Ok(predicates) => Ok(
                                PlanShape::Filter { input: Box::new(input), predicates },
                            ),
                        },
                    },
                    PipeConfig::Join(c) => match resolve_spec(
                        store,
                        sources,
                        c.left_pipe_id@,
                        below,
                    ) {
                        Err(error) => Err(error),
                        Ok(left) => match resolve_spec(store, sources, c.right_pipe_id@, below) {
                            Err(error) => Err(error),
                            Ok(right) => if c.on@.len() == 0 {
                                Err(ErrorView::EmptyJoinKeys)
                            } else {
                                Ok(join_of(c.how, left, right, text_views(c.on@)))
                            },
                        },
                    },
                    PipeConfig::Rename(c) => match resolve_spec(store, sources, c.pipe_id@, below) {
                        Err(error) => Err(error),
                        Ok(input) => Ok(
                            PlanShape::Rename {
                                input: Box::new(input),
                                renamings: renamings_of(c.properties@),
                            },
                        ),
                    },
                }
            },
        }
    }
}

#[via_fn]
proof fn resolve_spec_decreases(
    store: Seq<Entry<PipeConfig>>,
    sources: Seq<Seq<char>>,
    id: Seq<char>,
    path: Seq<Seq<char>>,
) {
    if !path.contains(id) && first_index(ids(store), id) is Some {
        lemma_first_index_contains(ids(store), id);
        lemma_path_extends(store, path, id);
    }
}

/// The mathematical value of a resolution's outcome.
pub open spec fn planned_view(outcome: Result<Plan, PipelineError>) -> Result<PlanShape, ErrorView> {
    match outcome {
        Ok(plan) => Ok(plan@),
        Err(error) => Err(error@),
    }
}

fn compile_filters(filters: &Vec<DerivedValuesExpression>) -> (r: Result<
    Vec<EngineExpr>,
    PipelineError,
>)
    ensures
        match r {
            Ok(predicates) => compile_filters_spec(filters@, filters@.len()) == Ok::<
                Seq<ExprShape>,
                ErrorView,
            >(shapes(predicates@)),
            Err(error) => compile_filters_spec(filters@, filters@.len()) == Err::<
                Seq<ExprShape>,
                ErrorView,
            >(error@),
        },
{
    let mut predicates: Vec<EngineExpr> = Vec::new();
    let mut i: usize = 0;
    assert(shapes(predicates@) =~= Seq::<ExprShape>::empty());
    while i < filters.len()
        invariant
            i <= filters.len(),
            predicates.len() == i,
            compile_filters_spec(filters@, i as nat) == Ok::<Seq<ExprShape>, ErrorView>(
                shapes(predicates@),
            ),
        decreases filters.len() - i,
    {
        let ghost front = shapes(predicates@);
        match compile_expression(&filters[i]) {
            Ok(predicate) => {
                predicates.push(predicate);
                assert(shapes(predicates@) =~= front.push(predicate@));
            },
            Err(error) => {
                proof {
                    lemma_filter_error_stays(filters@, (i + 1) as nat, filters@.len());
                }
                return Err(error);
            },
        }
        i += 1;
    }
    Ok(predicates)
}

fn compile_calcs(calcs: &Vec<DerivedValuesExpressionRoot>) -> (r: Result<
    Vec<NamedExpr>,
    PipelineError,
>)
    ensures
        match r {
            Ok(columns) => compile_calcs_spec(calcs@, calcs@.len()) == Ok::<
                Seq<NamedShape>,
                ErrorView,
            >(named_shapes(columns@)),
            Err(error) => compile_calcs_spec(calcs@, calcs@.len()) == Err::<
                Seq<NamedShape>,
                ErrorView,
            >(error@),
        },
{
    let mut columns: Vec<NamedExpr> = Vec::new();
    let mut i: usize = 0;
    assert(named_shapes(columns@) =~= Seq::<NamedShape>::empty());
    while i < calcs.len()
        invariant
            i <= calcs.len(),
            columns.len() == i,
            compile_calcs_spec(calcs@, i as nat) == Ok::<Seq<NamedShape>, ErrorView>(
                named_shapes(columns@),
            ),
        decreases calcs.len() - i,
    {
        let ghost front = named_shapes(columns@);
        match compile_expression(&calcs[i].expression) {
            Ok(expr) => {
                let column = NamedExpr { name: calcs[i].name.clone(), expr };
                columns.push(column);
                assert(named_shapes(columns@) =~= front.push(
                    NamedShape { name: calcs[i as int].name@, expr: expr@ },
                ));
            },
            Err(error) => {
                proof {
                    lemma_calc_error_stays(calcs@, (i + 1) as nat, calcs@.len());
                }
                return Err(error);
            },
        }
        i += 1;
    }
    Ok(columns)
}

fn copy_aggregates(aggs: &Vec<AggConfig>) -> (aggregates: Vec<Aggregate>)
    ensures
        aggregate_shapes(aggregates@) == aggregates_of(aggs@),
{
    let mut aggregates: Vec<Aggregate> = Vec::new();
    let mut i: usize = 0;
    while i < aggs.len()
        invariant
            i <= aggs.len(),
            aggregates.len() == i,
            forall|k: int|
                0 <= k < i ==> aggregate_shapes(aggregates@)[k] == aggregates_of(aggs@)[k],
        decreases aggs.len() - i,
    {
        let ghost before = aggregates@;
        aggregates.push(
            Aggregate {
                name: aggs[i].name.clone(),
                function: aggs[i].agg_type,
                column: aggs[i].agg_property.clone(),
            },
        );
        assert forall|k: int| 0 <= k < i + 1 implies aggregate_shapes(aggregates@)[k]
            == aggregates_of(aggs@)[k] by {
            if k < i {
                assert(aggregates@[k] == before[k]);
                assert(aggregate_shapes(before)[k] == aggregates_of(aggs@)[k]);
            }
        }
        i += 1;
    }
    assert(aggregate_shapes(aggregates@) =~= aggregates_of(aggs@));
    aggregates
}

fn copy_renamings(properties: &Vec<RenamePropertyConfig>) -> (renamings: Vec<Renaming>)
    ensures
        renaming_shapes(renamings@) == renamings_of(properties@),
{
    let mut renamings: Vec<Renaming> = Vec::new();
    let mut i: usize = 0;
    while i < properties.len()
        invariant
            i <= properties.len(),
            renamings.len() == i,
            forall|k: int|
                0 <= k < i ==> renaming_shapes(renamings@)[k] == renamings_of(properties@)[k],
        decreases properties.len() - i,
    {
        let ghost before = renamings@;
        renamings.push(
            Renaming { from: properties[i].from.clone(), to: properties[i].to.clone() },
        );
        assert forall|k: int| 0 <= k < i + 1 implies renaming_shapes(renamings@)[k]
            == renamings_of(properties@)[k] by {
            if k < i {
                assert(renamings@[k] == before[k]);
                assert(renaming_shapes(before)[k] == renamings_of(properties@)[k]);
            }
        }
        i += 1;
    }
    assert(renaming_shapes(renamings@) =~= renamings_of(properties@));
    renamings
}

fn extend_path(path: &Vec<String>, id: &String) -> (longer: Vec<String>)
    ensures
        text_views(longer@) == text_views(path@).push(id@),
{
    let mut longer = copy_names(path);
    let ghost before = longer@;
    longer.push(id.clone());
    assert(text_views(longer@) =~= text_views(before).push(id@));
    longer
}

fn plan_join(how: JoinPipeType, left: Plan, right: Plan, on: Vec<String>) -> (plan: Plan)
    ensures
        plan@ == join_of(how, left@, right@, text_views(on@)),
{
    match how {
        JoinPipeType::Left => Plan::Join {
            left: Box::new(left),
            right: Box::new(right),
            on,
            kind: JoinKind::Left,
        },
        JoinPipeType::Right => Plan::Join {
            left: Box::new(right),
            right: Box::new(left),
            on,
            kind: JoinKind::Left,
        },
        JoinPipeType::Inner => Plan::Join {
            left: Box::new(left),
            right: Box::new(right),
            on,
            kind: JoinKind::Inner,
        },
        JoinPipeType::Outer => Plan::Join {
            left: Box::new(left),
            right: Box::new(right),
            on,
            kind: JoinKind::Outer,
        },
    }
}

fn resolve_below(
    store: &Registry<PipeConfig>,
    sources: &Vec<String>,
    pipe_id: &String,
    path: &Vec<String>,
) -> (r: Result<Plan, PipelineError>)
    requires
        path_on_store(store.entries@, text_views(path@)),
    ensures
        planned_view(r) == resolve_spec(
            store.entries@,
            text_views(sources@),
            pipe_id@,
            text_views(path@),
        ),
        r matches Ok(plan) ==> scans_within(plan@, text_views(sources@)),
    decreases store.entries@.len() - path@.len(),
{
    if find_name(path, pipe_id).is_some() {
        return Err(PipelineError::CyclicPipeline(pipe_id.clone()));
    }
    if path.len() >= MAX_RESOLUTION_DEPTH {
        return Err(PipelineError::DepthLimitExceeded(pipe_id.clone()));
    }
    let k = match store.position(pipe_id) {
        Some(k) => k,
        None => {
            return Err(PipelineError::UnknownPipe(pipe_id.clone()));
        },
    };
    let below = extend_path(path, pipe_id);
    proof {
        lemma_path_extends(store.entries@, text_views(path@), pipe_id@);
    }
    match &store.entries[k].value {
        PipeConfig::Source(c) => {
            if find_name(sources, &c.source_id).is_some() {
                Ok(Plan::Scan { source_id: c.source_id.clone() })
            } else {
                Err(PipelineError::UnknownSource(c.source_id.clone()))
            }
        },
        PipeConfig::DerivedValues(c) => {
            let input = match resolve_below(store, sources, &c.pipe_id, &below) {
                Ok(input) => input,
                Err(error) => {
                    return Err(error);
                },
            };
            match compile_calcs(&c.calcs) {
                Ok(columns) => Ok(Plan::WithColumns { input: Box::new(input), columns }),
                Err(error) => Err(error),
            }
        },
        PipeConfig::GroupAndReduce(c) => {
            let input = match resolve_below(store, sources, &c.pipe_id, &below) {
                Ok(input) => input,
                Err(error) => {
                    return Err(error);
                },
            };
            if c.group_by.len() == 0 {
                Err(PipelineError::EmptyGroupByKeys)
            } else {
                Ok(
                    Plan::Aggregate {
                        input: Box::new(input),
                        keys: copy_names(&c.group_by),
                        aggregates: copy_aggregates(&c.aggs),
                    },
                )
            }
        },
        PipeConfig::Filter(c) => {
            let input = match resolve_below(store, sources, &c.pipe_id, &below) {
                Ok(input) => input,
                Err(error) => {
                    return Err(error);
                },
            };
            match compile_filters(&c.filters) {
                Ok(predicates) => Ok(Plan::Filter { input: Box::new(input), predicates }),
                Err(error) => Err(error),
            }
        },
        PipeConfig::Join(c) => {
            let left = match resolve_below(store, sources, &c.left_pipe_id, &below) {
                Ok(left) => left,
                Err(error) => {
                    return Err(error);
                },
            };
            let right = match resolve_below(store, sources, &c.right_pipe_id, &below) {
                Ok(right) => right,
                Err(error) => {
                    return Err(error);
                },
            };
            if c.on.len() == 0 {
                Err(PipelineError::EmptyJoinKeys)
            } else {
                Ok(plan_join(c.how, left, right, copy_names(&c.on)))
            }
        },
        PipeConfig::Rename(c) => {
            let input = match resolve_below(store, sources, &c.pipe_id, &below) {
                Ok(input) => input,
                Err(error) => {
                    return Err(error);
                },
            };
            Ok(Plan::Rename { input: Box::new(input), renamings: copy_renamings(&c.properties) })
        },
    }
}

/// Resolves a pipe id into the plan of its table.
///
/// `sources` lists the ids of the input tables that were supplied. The walk
/// never nests deeper than the store holds pipes, nor deeper than
/// [`MAX_RESOLUTION_DEPTH`], whatever the references are.
pub fn resolve(store: &Registry<PipeConfig>, sources: &Vec<String>, pipe_id: &String) -> (r: Result<
    Plan,
    PipelineError,
>)
    ensures
        planned_view(r) == resolve_spec(
            store.entries@,
            text_views(sources@),
            pipe_id@,
            Seq::empty(),
        ),
        r matches Ok(plan) ==> scans_within(plan@, text_views(sources@)),
{
    let path: Vec<String> = Vec::new();
    assert(text_views(path@) =~= Seq::<Seq<char>>::empty());
    resolve_below(store, sources, pipe_id, &path)
}

/// A pipe that is reached again while it is being resolved is reported as a
/// cycle, whatever the store holds.
pub proof fn lemma_revisit_is_cycle(
    store: Seq<Entry<PipeConfig>>,
    sources: Seq<Seq<char>>,
    id: Seq<char>,
    path: Seq<Seq<char>>,
)
    requires
        path_on_store(store, path),
        path.contains(id),
    ensures
        resolve_spec(store, sources, id, path) == Err::<PlanShape, ErrorView>(
            ErrorView::CyclicPipeline(id),
        ),
{
}

/// The pipe that the stage stored under `id` reads from first, if the store
/// holds `id` and its stage is not a source.
pub open spec fn first_upstream(store: Seq<Entry<PipeConfig>>, id: Seq<char>) -> Option<Seq<char>> {
    match first_index(ids(store), id) {
        Some(k) => if upstream_ids(store[k].value).len() > 0 {
            Some(upstream_ids(store[k].value)[0])
        } else {
            None
        },
        None => None,
    }
}

/// `chain` is a cycle of references within the resolver's depth: its pipes
/// are distinct, each reads first from the next, and the last reads first
/// from the first.
pub open spec fn is_reference_cycle(store: Seq<Entry<PipeConfig>>, chain: Seq<Seq<char>>) -> bool {
    &&& 0 < chain.len() <= MAX_RESOLUTION_DEPTH
    &&& chain.no_duplicates()
    &&& forall|i: int|
        0 <= i < chain.len() ==> #[trigger] first_upstream(store, chain[i]) == Some(
            chain[(i + 1) % (chain.len() as int)],
        )
}

proof fn lemma_cycle_from(
    store: Seq<Entry<PipeConfig>>,
    sources: Seq<Seq<char>>,
    chain: Seq<Seq<char>>,
    i: int,
)
    requires
        is_reference_cycle(store, chain),
        0 <= i < chain.len(),
    ensures
        path_on_store(store, chain.take(i)),
        resolve_spec(store, sources, chain[i], chain.take(i)) == Err::<PlanShape, ErrorView>(
            ErrorView::CyclicPipeline(chain[0]),
        ),
    decreases chain.len() - i,
{
    let path = chain.take(i);
    let id = chain[i];
    let n = chain.len() as int;
    assert forall|j: int| 0 <= j < path.len() implies ids(store).contains(#[trigger] path[j]) by {
        assert(first_upstream(store, chain[j]) is Some);
        lemma_first_index_contains(ids(store), chain[j]);
    }
    assert(path_on_store(store, path));
    assert(!path.contains(id)) by {
        if path.contains(id) {
            let j = choose|j: int| 0 <= j < path.len() && path[j] == id;
            assert(chain[j] == chain[i]);
        }
    }
    assert(first_upstream(store, id) is Some);
    lemma_first_index_contains(ids(store), id);
    let k = first_index(ids(store), id)->0;
    let next = upstream_ids(store[k].value)[0];
    let below = path.push(id);
    assert(below =~= chain.take(i + 1));
    lemma_path_extends(store, path, id);
    if i + 1 == n {
        assert(next == chain[0]) by {
            assert((i + 1) % n == 0) by (nonlinear_arith)
                requires
                    i + 1 == n,
                    n > 0,
            ;
        }
        assert(below[0] == chain[0]);
        assert(below.contains(next));
        lemma_revisit_is_cycle(store, sources, next, below);
    } else {
        assert(next == chain[i + 1]) by {
            assert((i + 1) % n == i + 1) by (nonlinear_arith)
                requires
                    0 <= i + 1 < n,
            ;
        }
        lemma_cycle_from(store, sources, chain, i + 1);
    }
    assert(resolve_spec(store, sources, next, below) == Err::<PlanShape, ErrorView>(
        ErrorView::CyclicPipeline(chain[0]),
    ));
}

/// Resolving a pipe that lies on a cycle of references ends with
/// `CyclicPipeline` for that pipe.
pub proof fn lemma_cycle_is_rejected(
    store: Seq<Entry<PipeConfig>>,
    sources: Seq<Seq<char>>,
    chain: Seq<Seq<char>>,
)
    requires
        is_reference_cycle(store, chain),
    ensures
        resolve_spec(store, sources, chain[0], Seq::empty()) == Err::<PlanShape, ErrorView>(
            ErrorView::CyclicPipeline(chain[0]),
        ),
{
    lemma_cycle_from(store, sources, chain, 0);
    assert(chain.take(0) =~= Seq::<Seq<char>>::empty());
}

proof fn lemma_compiled_filters_never_cyclic(filters: Seq<DerivedValuesExpression>, count: nat)
    ensures
        compile_filters_spec(filters, count) matches Err(error) ==> error is ArityError,
    decreases count,
{
    if count != 0 && count <= filters.len() {
        lemma_compiled_filters_never_cyclic(filters, (count - 1) as nat);
        lemma_compile_error_is_arity(filters[count - 1]);
    }
}

proof fn lemma_compiled_calcs_never_cyclic(calcs: Seq<DerivedValuesExpressionRoot>, count: nat)
    ensures
        compile_calcs_spec(calcs, count) matches Err(error) ==> error is ArityError,
    decreases count,
{
    if count != 0 && count <= calcs.len() {
        lemma_compiled_calcs_never_cyclic(calcs, (count - 1) as nat);
        lemma_compile_error_is_arity(calcs[count - 1].expression);
    }
}

/// `rank` orders the store: every stage reads only from pipes of a lower
/// rank than its own, as far as the store holds them.
pub open spec fn ranks_descend(store: Seq<Entry<PipeConfig>>, rank: spec_fn(Seq<char>) -> nat) -> bool {
    forall|k: int, u: int|
        #![trigger upstream_ids(store[k].value)[u]]
        0 <= k < store.len() && 0 <= u < upstream_ids(store[k].value).len() && ids(
            store,
        ).contains(upstream_ids(store[k].value)[u]) ==> rank(upstream_ids(store[k].value)[u])
            < rank(store[k].id@)
}

proof fn lemma_ranked_below(
    store: Seq<Entry<PipeConfig>>,
    sources: Seq<Seq<char>>,
    rank: spec_fn(Seq<char>) -> nat,
    id: Seq<char>,
    path: Seq<Seq<char>>,
)
    requires
        ranks_descend(store, rank),
        path_on_store(store, path),
        ids(store).contains(id) ==> forall|i: int|
            0 <= i < path.len() ==> rank(id) < rank(#[trigger] path[i]),
    ensures
        !(resolve_spec(store, sources, id, path) matches Err(ErrorView::CyclicPipeline(_))),
    decreases store.len() - path.len(),
{
    lemma_first_index_contains(ids(store), id);
    if path.contains(id) {
        let j = choose|j: int| 0 <= j < path.len() && path[j] == id;
        assert(ids(store).contains(path[j]));
        assert(rank(id) < rank(path[j]));
    } else if first_index(ids(store), id) is Some {
        let k = first_index(ids(store), id)->0;
        let below = path.push(id);
        lemma_path_extends(store, path, id);
        let ups = upstream_ids(store[k].value);
        assert(store[k].id@ == id);
        assert forall|u: int| 0 <= u < ups.len() implies !(resolve_spec(
            store,
            sources,
            #[trigger] ups[u],
            below,
        ) matches Err(ErrorView::CyclicPipeline(_))) by {
            let next = ups[u];
            if ids(store).contains(next) {
                assert(rank(next) < rank(id));
                assert forall|i: int| 0 <= i < below.len() implies rank(next) < rank(
                    #[trigger] below[i],
                ) by {
                    if i < path.len() {
                        assert(below[i] == path[i]);
                    }
                }
            }
            lemma_ranked_below(store, sources, rank, next, below);
        }
        match store[k].value {
            PipeConfig::Source(c) => {},
            PipeConfig::DerivedValues(c) => {
                assert(ups[0] == c.pipe_id@);
                lemma_compiled_calcs_never_cyclic(c.calcs@, c.calcs@.len());
            },
            PipeConfig::GroupAndReduce(c) => {
                assert(ups[0] == c.pipe_id@);
            },
            PipeConfig::Filter(c) => {
                assert(ups[0] == c.pipe_id@);
                lemma_compiled_filters_never_cyclic(c.filters@, c.filters@.len());
            },
            PipeConfig::Join(c) => {
                assert(ups[0] == c.left_pipe_id@);
                assert(ups[1] == c.right_pipe_id@);
            },
            PipeConfig::Rename(c) => {
                assert(ups[0] == c.pipe_id@);
            },
        }
    }
}

/// Where the references of a store descend along some ranking, so that no
/// pipe can reach itself, resolution never reports a cycle.
pub proof fn lemma_acyclic_never_cyclic(
    store: Seq<Entry<PipeConfig>>,
    sources: Seq<Seq<char>>,
    rank: spec_fn(Seq<char>) -> nat,
    id: Seq<char>,
)
    requires
        ranks_descend(store, rank),
    ensures
        !(resolve_spec(store, sources, id, Seq::empty()) matches Err(
            ErrorView::CyclicPipeline(_),
        )),
{
    lemma_ranked_below(store, sources, rank, id, Seq::empty());
}

/// A resolution never fails with a failure of the engine: the engine is not
/// asked while a pipe is resolved.
pub proof fn lemma_resolution_has_no_text(
    store: Seq<Entry<PipeConfig>>,
    sources: Seq<Seq<char>>,
    id: Seq<char>,
    path: Seq<Seq<char>>,
)
    requires
        path_on_store(store, path),
    ensures
        !(resolve_spec(store, sources, id, path) matches Err(
            ErrorView::MaterializationFailure { .. },
        )),
    decreases store.len() - path.len(),
{
    lemma_first_index_contains(ids(store), id);
    if !path.contains(id) && path.len() < MAX_RESOLUTION_DEPTH && first_index(ids(store), id)
        is Some {
        let k = first_index(ids(store), id)->0;
        let below = path.push(id);
        lemma_path_extends(store, path, id);
        match store[k].value {
            PipeConfig::Source(c) => {},
            PipeConfig::DerivedValues(c) => {
                lemma_resolution_has_no_text(store, sources, c.pipe_id@, below);
                lemma_compiled_calcs_never_cyclic(c.calcs@, c.calcs@.len());
            },
            PipeConfig::GroupAndReduce(c) => {
                lemma_resolution_has_no_text(store, sources, c.pipe_id@, below);
            },
            PipeConfig::Filter(c) => {
                lemma_resolution_has_no_text(store, sources, c.pipe_id@, below);
                lemma_compiled_filters_never_cyclic(c.filters@, c.filters@.len());
            },
            PipeConfig::Join(c) => {
                lemma_resolution_has_no_text(store, sources, c.left_pipe_id@, below);
                lemma_resolution_has_no_text(store, sources, c.right_pipe_id@, below);
            },
            PipeConfig::Rename(c) => {
                lemma_resolution_has_no_text(store, sources, c.pipe_id@, below);
            },
        }
    }
}

} // verus!
