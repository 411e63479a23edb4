use renoir_sql::analysis::connector_scanner::ConnectorScanner;
use renoir_sql::analysis::dependency_graph::DependencyGraph;
use renoir_sql::analysis::schema_tracker::SchemaTracker;
use renoir_sql::analysis::subquery_detector::{SubqueryContext, SubqueryDetector, SubqueryInfo};
use renoir_sql::ir::{
    ColumnRef, ComplexField, ConnectorConfig, ConnectorOption, DataType, FieldDef, FilterClause,
    FilterConditionType, InCondition, IrPlan, JoinCondition, JoinType, OptionValue, Pipeline,
    Program, SinkDef, SourceDef,
};
use std::sync::Arc;

fn source_def(name: &str, fields: &[&str], connector: &str) -> SourceDef {
    SourceDef {
        name: name.to_string(),
        schema: fields
            .iter()
            .map(|f| FieldDef { name: f.to_string(), data_type: DataType::String })
            .collect(),
        connector: ConnectorConfig { connector_type: connector.to_string(), options: vec![] },
    }
}

fn sink_def(name: &str, connector: &str) -> SinkDef {
    SinkDef {
        name: name.to_string(),
        schema: vec![],
        connector: ConnectorConfig { connector_type: connector.to_string(), options: vec![] },
    }
}

fn source_plan(name: &str) -> Arc<IrPlan> {
    Arc::new(IrPlan::Source { source_name: name.to_string(), alias: None })
}

// ----- connector scanner -----

#[test]
fn test_scan_empty_program() {
    let program = Program { sources: vec![], sinks: vec![], pipelines: vec![] };

    let mut scanner = ConnectorScanner::new();
    let connectors = scanner.scan_program(&program);

    assert_eq!(connectors.len(), 0);
}

#[test]
fn test_scan_csv_source() {
    let program = Program {
        sources: vec![SourceDef {
            name: "users".to_string(),
            schema: vec![FieldDef { name: "id".to_string(), data_type: DataType::BigInt }],
            connector: ConnectorConfig {
                connector_type: "csv".to_string(),
                options: vec![ConnectorOption {
                    key: "path".to_string(),
                    value: OptionValue::String("users.csv".to_string()),
                }],
            },
        }],
        sinks: vec![],
        pipelines: vec![],
    };

    let mut scanner = ConnectorScanner::new();
    let connectors = scanner.scan_program(&program);

    assert_eq!(connectors.len(), 1);
    assert!(connectors.contains("csv"));
}

#[test]
fn test_scan_multiple_connectors() {
    let program = Program {
        sources: vec![source_def("users", &[], "csv"), source_def("events", &[], "kafka")],
        sinks: vec![sink_def("output", "parquet")],
        pipelines: vec![],
    };

    let mut scanner = ConnectorScanner::new();
    let connectors = scanner.scan_program(&program);

    assert_eq!(connectors.len(), 3);
    assert!(connectors.contains("csv"));
    assert!(connectors.contains("kafka"));
    assert!(connectors.contains("parquet"));
}

#[test]
fn connector_scanner_test_deduplication() {
    let program = Program {
        sources: vec![source_def("users", &[], "csv"), source_def("orders", &[], "csv")],
        sinks: vec![],
        pipelines: vec![],
    };

    let mut scanner = ConnectorScanner::new();
    let connectors = scanner.scan_program(&program);

    assert_eq!(connectors.len(), 1);
    assert!(connectors.contains("csv"));
}

#[test]
fn scanner_counts_sink_connector_shared_with_source_once() {
    let program = Program {
        sources: vec![source_def("users", &[], "csv")],
        sinks: vec![sink_def("out", "csv"), sink_def("log", "kafka")],
        pipelines: vec![],
    };
    let mut scanner = ConnectorScanner::new();
    let connectors = scanner.scan_program(&program);
    assert_eq!(connectors.len(), 2);
    assert!(connectors.contains("kafka"));
    assert!(!connectors.contains("parquet"));
    assert_eq!(scanner.connector_types().len(), 2);
}

// ----- dependency graph -----

fn make_subquery(id: usize, deps: Vec<usize>) -> SubqueryInfo {
    SubqueryInfo {
        id,
        plan: source_plan("test"),
        context: SubqueryContext::WhereClause,
        dependencies: deps.into_iter().collect(),
    }
}

#[test]
fn test_simple_chain() {
    let subqueries = vec![make_subquery(0, vec![]), make_subquery(1, vec![0]), make_subquery(2, vec![1])];

    let graph = DependencyGraph::build(&subqueries);
    let order = graph.topological_sort().unwrap();

    assert_eq!(order, vec![0, 1, 2]);
}

#[test]
fn test_parallel_queries() {
    let subqueries =
        vec![make_subquery(0, vec![]), make_subquery(1, vec![]), make_subquery(2, vec![0, 1])];

    let graph = DependencyGraph::build(&subqueries);
    let levels = graph.execution_levels().unwrap();

    assert_eq!(levels.len(), 2);
    assert!(levels[0].contains(&0) && levels[0].contains(&1));
    assert_eq!(levels[1], vec![2]);
}

#[test]
fn test_cycle_detection() {
    let subqueries = vec![make_subquery(0, vec![2]), make_subquery(1, vec![0]), make_subquery(2, vec![1])];

    let graph = DependencyGraph::build(&subqueries);
    assert!(graph.topological_sort().is_none());
}

#[test]
fn cycle_has_no_levels_either() {
    let subqueries = vec![make_subquery(0, vec![1]), make_subquery(1, vec![0])];
    let graph = DependencyGraph::build(&subqueries);
    assert!(graph.execution_levels().is_none());
}

#[test]
fn dependency_on_missing_subquery_has_no_order() {
    let subqueries = vec![make_subquery(0, vec![]), make_subquery(1, vec![7])];
    let graph = DependencyGraph::build(&subqueries);
    assert!(graph.topological_sort().is_none());
    assert!(graph.execution_levels().is_none());
}

#[test]
fn topological_order_puts_dependencies_first() {
    let subqueries = vec![
        make_subquery(3, vec![5, 4]),
        make_subquery(4, vec![5]),
        make_subquery(5, vec![]),
    ];
    let graph = DependencyGraph::build(&subqueries);
    let order = graph.topological_sort().unwrap();
    assert_eq!(order, vec![5, 4, 3]);
    let levels = graph.execution_levels().unwrap();
    assert_eq!(levels, vec![vec![5], vec![4], vec![3]]);
}

#[test]
fn empty_graph_has_empty_order() {
    let graph = DependencyGraph::build(&[]);
    assert_eq!(graph.topological_sort(), Some(vec![]));
    assert_eq!(graph.execution_levels(), Some(vec![]));
}

// ----- schema tracker -----

#[test]
fn test_source_schema() {
    let program = Program {
        sources: vec![source_def("users", &["id", "name"], "csv")],
        sinks: vec![],
        pipelines: vec![],
    };

    let mut tracker = SchemaTracker::new(&program);
    let plan = source_plan("users");

    let schema = tracker.get_schema(&plan);
    assert_eq!(schema, vec!["id", "name"]);
}

#[test]
fn test_column_position() {
    let program = Program {
        sources: vec![source_def("users", &["id", "name", "email"], "csv")],
        sinks: vec![],
        pipelines: vec![],
    };

    let mut tracker = SchemaTracker::new(&program);
    let plan = source_plan("users");

    let col_ref = ColumnRef { table: Some("users".to_string()), column: "email".to_string() };

    let pos = tracker.get_column_position(&plan, &col_ref);
    assert_eq!(pos, Some(2));
}

#[test]
fn test_filter_preserves_schema() {
    let program = Program {
        sources: vec![source_def("users", &["id", "name"], "csv")],
        sinks: vec![],
        pipelines: vec![],
    };

    let mut tracker = SchemaTracker::new(&program);
    let source = source_plan("users");

    let filter = Arc::new(IrPlan::Filter {
        input: source,
        predicate: FilterClause::Base(FilterConditionType::Boolean(true)),
    });

    let schema = tracker.get_schema(&filter);
    assert_eq!(schema, vec!["id", "name"]);
}

#[test]
fn join_schema_is_left_then_right() {
    let program = Program {
        sources: vec![source_def("users", &["id", "name"], "csv"), source_def("orders", &["user_id", "total"], "csv")],
        sinks: vec![],
        pipelines: vec![],
    };
    let mut tracker = SchemaTracker::new(&program);
    let join = Arc::new(IrPlan::Join {
        left: source_plan("users"),
        right: source_plan("orders"),
        condition: vec![JoinCondition {
            left_col: ColumnRef { table: None, column: "id".to_string() },
            right_col: ColumnRef { table: None, column: "user_id".to_string() },
        }],
        join_type: JoinType::Inner,
    });
    assert_eq!(tracker.get_schema(&join), vec!["id", "name", "user_id", "total"]);
    let total = ColumnRef { table: None, column: "total".to_string() };
    assert_eq!(tracker.get_column_position(&join, &total), Some(3));
    let missing = ColumnRef { table: None, column: "nope".to_string() };
    assert_eq!(tracker.get_column_position(&join, &missing), None);
}

#[test]
fn unknown_source_has_empty_schema() {
    let program = Program { sources: vec![], sinks: vec![], pipelines: vec![] };
    let mut tracker = SchemaTracker::new(&program);
    assert!(tracker.get_schema(&source_plan("ghost")).is_empty());
    assert_eq!(tracker.get_source_columns("ghost"), None);
}

// ----- subquery detector -----

#[test]
fn test_empty_program() {
    let program = Program { sources: vec![], sinks: vec![], pipelines: vec![] };

    let mut detector = SubqueryDetector::new();
    let subqueries = detector.detect_in_program(&program);

    assert_eq!(subqueries.len(), 0);
}

#[test]
fn detector_numbers_found_subqueries_in_order() {
    let inner = source_plan("active_users");
    let field = ComplexField {
        column_ref: Some(ColumnRef { table: None, column: "id".to_string() }),
        literal: None,
        aggregate: None,
        nested_expr: None,
        subquery: None,
        subquery_vec: None,
    };
    let filter = Arc::new(IrPlan::Filter {
        input: source_plan("users"),
        predicate: FilterClause::Base(FilterConditionType::In(InCondition::Subquery {
            field,
            subquery: inner,
            negated: false,
        })),
    });
    let program = Program {
        sources: vec![],
        sinks: vec![],
        pipelines: vec![Pipeline { sink_name: "out".to_string(), sink_columns: vec![], plan: filter }],
    };
    let mut detector = SubqueryDetector::new();
    let found = detector.detect_in_program(&program);
    assert_eq!(found.len(), 1);
    assert_eq!(found[0].id, 0);
    assert_eq!(found[0].context, SubqueryContext::WhereClause);
    assert!(matches!(found[0].plan.as_ref(), IrPlan::Source { source_name, .. } if source_name == "active_users"));
    let graph = DependencyGraph::build(&found);
    assert_eq!(graph.topological_sort(), Some(vec![0]));
}

#[test]
fn default_scanner_and_detector_start_empty() {
    let scanner = ConnectorScanner::default();
    assert_eq!(scanner.connector_types().len(), 0);
    let mut detector = SubqueryDetector::default();
    let program = Program { sources: vec![], sinks: vec![], pipelines: vec![] };
    assert!(detector.detect_in_program(&program).is_empty());
}

#[test]
fn repeated_id_keeps_its_last_entry() {
    let subqueries = vec![make_subquery(0, vec![]), make_subquery(1, vec![]), make_subquery(0, vec![1])];
    let graph = DependencyGraph::build(&subqueries);
    assert_eq!(graph.topological_sort(), Some(vec![1, 0]));
    assert_eq!(graph.execution_levels(), Some(vec![vec![1], vec![0]]));
}

fn in_filter(input: Arc<IrPlan>, sub: Arc<IrPlan>) -> Arc<IrPlan> {
    let field = ComplexField {
        column_ref: Some(ColumnRef { table: None, column: "id".to_string() }),
        literal: None,
        aggregate: None,
        nested_expr: None,
        subquery: None,
        subquery_vec: None,
    };
    Arc::new(IrPlan::Filter {
        input,
        predicate: FilterClause::Base(FilterConditionType::In(InCondition::Subquery {
            field,
            subquery: sub,
            negated: false,
        })),
    })
}

#[test]
fn detector_finds_in_encounter_order_once_per_node() {
    let a = source_plan("a");
    let b = source_plan("b");
    let left = in_filter(source_plan("l"), a.clone());
    let right = in_filter(source_plan("r"), b);
    let join = Arc::new(IrPlan::Join {
        left,
        right,
        condition: vec![],
        join_type: JoinType::Inner,
    });
    let top = in_filter(join, a);
    let program = Program {
        sources: vec![],
        sinks: vec![],
        pipelines: vec![Pipeline { sink_name: "o".to_string(), sink_columns: vec![], plan: top }],
    };
    let found = SubqueryDetector::new().detect_in_program(&program);
    let names: Vec<String> = found
        .iter()
        .map(|s| match s.plan.as_ref() {
            IrPlan::Source { source_name, .. } => source_name.clone(),
            _ => String::new(),
        })
        .collect();
    assert_eq!(names, vec!["a", "b"]);
}
