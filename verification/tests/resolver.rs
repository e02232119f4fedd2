use data_pipes::compiled::{BinaryOperator, EngineExpr};
use data_pipes::config::{
    get_source_pipes, get_source_pipes_for_single, AggConfig, DerivedValuesPipeConfig,
    FilterPipeConfig, GroupAndReducePipeConfig, JoinPipeConfig, JoinPipeType, PipeConfig,
    RenamePipeConfig, RenamePropertyConfig, SourcePipeConfig,
};
use data_pipes::error::{ExpectedArity, PipelineError};
use data_pipes::expression::{
    AggType, DerivedValuesExpression, DerivedValuesExpressionRoot, DerivedValuesOperation,
    DerivedValuesOperationType, DerivedValuesProperty,
};
use data_pipes::plan::{Aggregate, JoinKind, NamedExpr, Plan, Renaming};
use data_pipes::registry::Registry;
use data_pipes::resolver::{resolve, MAX_RESOLUTION_DEPTH};

fn s(text: &str) -> String {
    text.to_string()
}

fn source(id: &str) -> PipeConfig {
    PipeConfig::Source(SourcePipeConfig { source_id: s(id) })
}

fn filter(upstream: &str, filters: Vec<DerivedValuesExpression>) -> PipeConfig {
    PipeConfig::Filter(FilterPipeConfig { pipe_id: s(upstream), filters })
}

fn rename(upstream: &str, pairs: &[(&str, &str)]) -> PipeConfig {
    PipeConfig::Rename(RenamePipeConfig {
        pipe_id: s(upstream),
        properties: pairs
            .iter()
            .map(|(from, to)| RenamePropertyConfig { from: s(from), to: s(to) })
            .collect(),
    })
}

fn join(left: &str, right: &str, on: &[&str], how: JoinPipeType) -> PipeConfig {
    PipeConfig::Join(JoinPipeConfig {
        left_pipe_id: s(left),
        right_pipe_id: s(right),
        on: on.iter().map(|name| s(name)).collect(),
        how,
    })
}

fn variable(name: &str) -> DerivedValuesExpression {
    DerivedValuesExpression::Variable(DerivedValuesProperty { property: s(name) })
}

fn operation(
    operation: DerivedValuesOperationType,
    operands: Vec<DerivedValuesExpression>,
) -> DerivedValuesExpression {
    DerivedValuesExpression::Expression(DerivedValuesOperation { operation, operands })
}

fn store(entries: Vec<(&str, PipeConfig)>) -> Registry<PipeConfig> {
    let mut store = Registry::new();
    for (id, config) in entries {
        store.insert(s(id), config);
    }
    store
}

fn scan(id: &str) -> Plan {
    Plan::Scan { source_id: s(id) }
}

#[test]
fn a_source_resolves_to_a_scan_of_its_input() {
    let store = store(vec![("p", source("t"))]);
    assert_eq!(resolve(&store, &vec![s("t")], &s("p")), Ok(scan("t")));
}

#[test]
fn an_unknown_pipe_is_reported() {
    let store = store(vec![("p", source("t"))]);
    assert_eq!(
        resolve(&store, &vec![s("t")], &s("q")),
        Err(PipelineError::UnknownPipe(s("q")))
    );
    let empty: Registry<PipeConfig> = Registry::new();
    assert_eq!(resolve(&empty, &vec![], &s("p")), Err(PipelineError::UnknownPipe(s("p"))));
}

#[test]
fn an_unknown_upstream_pipe_is_reported() {
    let store = store(vec![("p", filter("gone", vec![]))]);
    assert_eq!(
        resolve(&store, &vec![s("t")], &s("p")),
        Err(PipelineError::UnknownPipe(s("gone")))
    );
}

#[test]
fn an_unknown_source_is_reported() {
    let store = store(vec![("p", source("t")), ("f", filter("p", vec![]))]);
    assert_eq!(
        resolve(&store, &vec![s("other")], &s("f")),
        Err(PipelineError::UnknownSource(s("t")))
    );
    assert_eq!(resolve(&store, &vec![], &s("p")), Err(PipelineError::UnknownSource(s("t"))));
}

#[test]
fn a_cycle_of_two_pipes_is_reported() {
    let store = store(vec![("A", filter("B", vec![])), ("B", filter("A", vec![]))]);
    assert_eq!(
        resolve(&store, &vec![s("t")], &s("A")),
        Err(PipelineError::CyclicPipeline(s("A")))
    );
    assert_eq!(
        resolve(&store, &vec![s("t")], &s("B")),
        Err(PipelineError::CyclicPipeline(s("B")))
    );
}

#[test]
fn a_pipe_that_reads_from_itself_is_reported() {
    let store = store(vec![("A", rename("A", &[]))]);
    assert_eq!(
        resolve(&store, &vec![], &s("A")),
        Err(PipelineError::CyclicPipeline(s("A")))
    );
}

#[test]
fn a_cycle_further_upstream_is_reported() {
    let store = store(vec![
        ("top", filter("A", vec![])),
        ("A", filter("B", vec![])),
        ("B", filter("C", vec![])),
        ("C", filter("A", vec![])),
    ]);
    assert_eq!(
        resolve(&store, &vec![], &s("top")),
        Err(PipelineError::CyclicPipeline(s("A")))
    );
}

#[test]
fn a_cycle_on_the_right_side_of_a_join_is_reported() {
    let store = store(vec![
        ("src", source("t")),
        ("J", join("src", "K", &["id"], JoinPipeType::Inner)),
        ("K", filter("J", vec![])),
    ]);
    assert_eq!(
        resolve(&store, &vec![s("t")], &s("J")),
        Err(PipelineError::CyclicPipeline(s("J")))
    );
}

#[test]
fn a_pipe_may_be_read_twice_without_a_cycle() {
    let store = store(vec![
        ("src", source("t")),
        ("left", filter("src", vec![])),
        ("right", rename("src", &[("a", "b")])),
        ("both", join("left", "right", &["id"], JoinPipeType::Inner)),
    ]);
    let expected = Plan::Join {
        left: Box::new(Plan::Filter { input: Box::new(scan("t")), predicates: vec![] }),
        right: Box::new(Plan::Rename {
            input: Box::new(scan("t")),
            renamings: vec![Renaming { from: s("a"), to: s("b") }],
        }),
        on: vec![s("id")],
        kind: JoinKind::Inner,
    };
    assert_eq!(resolve(&store, &vec![s("t")], &s("both")), Ok(expected));
}

fn chain(length: usize) -> Registry<PipeConfig> {
    let mut store = Registry::new();
    store.insert(s("p0"), source("t"));
    for i in 1..length {
        store.insert(format!("p{}", i), filter(&format!("p{}", i - 1), vec![]));
    }
    store
}

#[test]
fn a_long_chain_resolves() {
    let store = chain(MAX_RESOLUTION_DEPTH);
    let mut expected = scan("t");
    for _ in 1..MAX_RESOLUTION_DEPTH {
        expected = Plan::Filter { input: Box::new(expected), predicates: vec![] };
    }
    let last = format!("p{}", MAX_RESOLUTION_DEPTH - 1);
    assert_eq!(resolve(&store, &vec![s("t")], &last), Ok(expected));
}

#[test]
fn a_chain_beyond_the_depth_limit_is_reported() {
    assert_eq!(MAX_RESOLUTION_DEPTH, 512);
    let store = chain(600);
    assert_eq!(
        resolve(&store, &vec![s("t")], &s("p512")),
        Err(PipelineError::DepthLimitExceeded(s("p0")))
    );
    assert_eq!(
        resolve(&store, &vec![s("t")], &s("p599")),
        Err(PipelineError::DepthLimitExceeded(s("p87")))
    );
}

#[test]
fn a_long_cycle_is_reported_without_running_away() {
    let mut store = chain(300);
    store.insert(s("p0"), filter("p299", vec![]));
    assert_eq!(
        resolve(&store, &vec![s("t")], &s("p299")),
        Err(PipelineError::CyclicPipeline(s("p299")))
    );
}

#[test]
fn derived_values_compile_their_calculations_in_order() {
    let config = PipeConfig::DerivedValues(DerivedValuesPipeConfig {
        pipe_id: s("src"),
        calcs: vec![
            DerivedValuesExpressionRoot { name: s("x"), expression: variable("a") },
            DerivedValuesExpressionRoot {
                name: s("y"),
                expression: operation(
                    DerivedValuesOperationType::LessThan,
                    vec![variable("x"), variable("b")],
                ),
            },
        ],
    });
    let store = store(vec![("src", source("t")), ("d", config)]);
    let expected = Plan::WithColumns {
        input: Box::new(scan("t")),
        columns: vec![
            NamedExpr { name: s("x"), expr: EngineExpr::Column(s("a")) },
            NamedExpr {
                name: s("y"),
                expr: EngineExpr::Binary {
                    op: BinaryOperator::Lt,
                    left: Box::new(EngineExpr::Column(s("x"))),
                    right: Box::new(EngineExpr::Column(s("b"))),
                },
            },
        ],
    };
    assert_eq!(resolve(&store, &vec![s("t")], &s("d")), Ok(expected));
}

#[test]
fn a_calculation_that_does_not_compile_fails_the_pipe() {
    let config = PipeConfig::DerivedValues(DerivedValuesPipeConfig {
        pipe_id: s("src"),
        calcs: vec![
            DerivedValuesExpressionRoot { name: s("x"), expression: variable("a") },
            DerivedValuesExpressionRoot {
                name: s("y"),
                expression: operation(DerivedValuesOperationType::Not, vec![]),
            },
        ],
    });
    let store = store(vec![("src", source("t")), ("d", config)]);
    assert_eq!(
        resolve(&store, &vec![s("t")], &s("d")),
        Err(PipelineError::ArityError {
            operator: DerivedValuesOperationType::Not,
            expected: ExpectedArity::Exactly(1),
            got: 0
        })
    );
}

#[test]
fn an_upstream_error_comes_before_an_error_of_the_pipe_itself() {
    let bad_filter = operation(DerivedValuesOperationType::Min, vec![]);
    let store = store(vec![("f", filter("gone", vec![bad_filter]))]);
    assert_eq!(
        resolve(&store, &vec![], &s("f")),
        Err(PipelineError::UnknownPipe(s("gone")))
    );
}

#[test]
fn a_filter_compiles_every_expression() {
    let store = store(vec![
        ("src", source("t")),
        ("f", filter("src", vec![variable("keep"), variable("also")])),
    ]);
    let expected = Plan::Filter {
        input: Box::new(scan("t")),
        predicates: vec![EngineExpr::Column(s("keep")), EngineExpr::Column(s("also"))],
    };
    assert_eq!(resolve(&store, &vec![s("t")], &s("f")), Ok(expected));
}

#[test]
fn a_filter_expression_that_does_not_compile_fails_the_pipe() {
    let bad = operation(DerivedValuesOperationType::GreaterThan, vec![variable("a")]);
    let store = store(vec![("src", source("t")), ("f", filter("src", vec![variable("k"), bad]))]);
    assert_eq!(
        resolve(&store, &vec![s("t")], &s("f")),
        Err(PipelineError::ArityError {
            operator: DerivedValuesOperationType::GreaterThan,
            expected: ExpectedArity::Exactly(2),
            got: 1
        })
    );
}

#[test]
fn group_and_reduce_needs_a_key() {
    let config = PipeConfig::GroupAndReduce(GroupAndReducePipeConfig {
        pipe_id: s("src"),
        group_by: vec![],
        aggs: vec![],
    });
    let store = store(vec![("src", source("t")), ("g", config)]);
    assert_eq!(resolve(&store, &vec![s("t")], &s("g")), Err(PipelineError::EmptyGroupByKeys));
}

#[test]
fn group_and_reduce_takes_any_number_of_keys() {
    let keys: Vec<String> = (0..9).map(|i| format!("k{}", i)).collect();
    let config = PipeConfig::GroupAndReduce(GroupAndReducePipeConfig {
        pipe_id: s("src"),
        group_by: keys.clone(),
        aggs: vec![
            AggConfig { name: s("total"), agg_type: AggType::Sum, agg_property: s("v") },
            AggConfig { name: s("low"), agg_type: AggType::Min, agg_property: s("v") },
        ],
    });
    let store = store(vec![("src", source("t")), ("g", config)]);
    let expected = Plan::Aggregate {
        input: Box::new(scan("t")),
        keys,
        aggregates: vec![
            Aggregate { name: s("total"), function: AggType::Sum, column: s("v") },
            Aggregate { name: s("low"), function: AggType::Min, column: s("v") },
        ],
    };
    assert_eq!(resolve(&store, &vec![s("t")], &s("g")), Ok(expected));
}

#[test]
fn a_join_needs_a_key() {
    let store = store(vec![
        ("l", source("t")),
        ("r", source("u")),
        ("j", join("l", "r", &[], JoinPipeType::Left)),
    ]);
    assert_eq!(
        resolve(&store, &vec![s("t"), s("u")], &s("j")),
        Err(PipelineError::EmptyJoinKeys)
    );
}

#[test]
fn a_right_join_is_a_left_join_with_the_sides_exchanged() {
    let store = store(vec![
        ("l", source("t")),
        ("r", source("u")),
        ("j", join("l", "r", &["id", "day"], JoinPipeType::Right)),
    ]);
    let expected = Plan::Join {
        left: Box::new(scan("u")),
        right: Box::new(scan("t")),
        on: vec![s("id"), s("day")],
        kind: JoinKind::Left,
    };
    assert_eq!(resolve(&store, &vec![s("t"), s("u")], &s("j")), Ok(expected));
}

#[test]
fn the_other_joins_keep_their_sides() {
    for (how, kind) in [
        (JoinPipeType::Left, JoinKind::Left),
        (JoinPipeType::Inner, JoinKind::Inner),
        (JoinPipeType::Outer, JoinKind::Outer),
    ] {
        let store = store(vec![
            ("l", source("t")),
            ("r", source("u")),
            ("j", join("l", "r", &["id"], how)),
        ]);
        let expected = Plan::Join {
            left: Box::new(scan("t")),
            right: Box::new(scan("u")),
            on: vec![s("id")],
            kind,
        };
        assert_eq!(resolve(&store, &vec![s("t"), s("u")], &s("j")), Ok(expected));
    }
}

#[test]
fn the_left_side_of_a_join_is_resolved_first() {
    let store = store(vec![("j", join("gone", "away", &["id"], JoinPipeType::Inner))]);
    assert_eq!(
        resolve(&store, &vec![], &s("j")),
        Err(PipelineError::UnknownPipe(s("gone")))
    );
}

#[test]
fn a_rename_keeps_its_pairs_in_order() {
    let store = store(vec![("src", source("t")), ("r", rename("src", &[("a", "b"), ("c", "d")]))]);
    let expected = Plan::Rename {
        input: Box::new(scan("t")),
        renamings: vec![
            Renaming { from: s("a"), to: s("b") },
            Renaming { from: s("c"), to: s("d") },
        ],
    };
    assert_eq!(resolve(&store, &vec![s("t")], &s("r")), Ok(expected));
}

#[test]
fn a_source_reads_from_no_pipe() {
    assert_eq!(get_source_pipes_for_single(&source("t")), Vec::<String>::new());
}

#[test]
fn a_join_reads_from_its_left_and_its_right_pipe() {
    assert_eq!(
        get_source_pipes_for_single(&join("l", "r", &["id"], JoinPipeType::Outer)),
        vec![s("l"), s("r")]
    );
}

#[test]
fn the_other_stages_read_from_one_pipe() {
    assert_eq!(get_source_pipes_for_single(&filter("up", vec![])), vec![s("up")]);
    assert_eq!(get_source_pipes_for_single(&rename("up", &[])), vec![s("up")]);
    let derived =
        PipeConfig::DerivedValues(DerivedValuesPipeConfig { pipe_id: s("up"), calcs: vec![] });
    assert_eq!(get_source_pipes_for_single(&derived), vec![s("up")]);
    let grouped = PipeConfig::GroupAndReduce(GroupAndReducePipeConfig {
        pipe_id: s("up"),
        group_by: vec![s("k")],
        aggs: vec![],
    });
    assert_eq!(get_source_pipes_for_single(&grouped), vec![s("up")]);
}

#[test]
fn source_pipes_are_listed_for_each_stage_in_turn() {
    let configs =
        vec![source("t"), filter("a", vec![]), join("b", "c", &["id"], JoinPipeType::Left)];
    assert_eq!(
        get_source_pipes(&configs),
        vec![vec![], vec![s("a")], vec![s("b"), s("c")]]
    );
    assert_eq!(get_source_pipes(&Vec::new()), Vec::<Vec<String>>::new());
}
