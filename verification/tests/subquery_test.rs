use renoir_sql::codegen::plan::{Operand, PlanCode, PredicateCode, ProjectionCode};
use renoir_sql::codegen::program::generate_program_with_context;
use renoir_sql::ir::{
    ColumnRef, ComparisonOp, ComplexField, Condition, ConnectorConfig, ConnectorOption, DataType,
    ExistsCondition, FieldDef, FilterClause, FilterConditionType, InCondition, IrLiteral, IrPlan,
    OptionValue, Pipeline, Program, ProjectionColumn, SinkDef, SourceDef,
};
use std::sync::Arc;

fn csv_source(name: &str, fields: &[(&str, DataType)], path: &str) -> SourceDef {
    SourceDef {
        name: name.to_string(),
        schema: fields
            .iter()
            .map(|(n, t)| FieldDef { name: n.to_string(), data_type: *t })
            .collect(),
        connector: ConnectorConfig {
            connector_type: "csv".to_string(),
            options: vec![ConnectorOption {
                key: "path".to_string(),
                value: OptionValue::String(path.to_string()),
            }],
        },
    }
}

fn output_sink(fields: &[(&str, DataType)]) -> SinkDef {
    SinkDef {
        name: "output".to_string(),
        schema: fields
            .iter()
            .map(|(n, t)| FieldDef { name: n.to_string(), data_type: *t })
            .collect(),
        connector: ConnectorConfig {
            connector_type: "csv".to_string(),
            options: vec![ConnectorOption {
                key: "path".to_string(),
                value: OptionValue::String("output.csv".to_string()),
            }],
        },
    }
}

fn column(table: Option<&str>, name: &str) -> ComplexField {
    ComplexField {
        column_ref: Some(ColumnRef { table: table.map(|t| t.to_string()), column: name.to_string() }),
        literal: None,
        aggregate: None,
        nested_expr: None,
        subquery: None,
        subquery_vec: None,
    }
}

fn literal(l: IrLiteral) -> ComplexField {
    ComplexField {
        column_ref: None,
        literal: Some(l),
        aggregate: None,
        nested_expr: None,
        subquery: None,
        subquery_vec: None,
    }
}

fn source(name: &str) -> Arc<IrPlan> {
    Arc::new(IrPlan::Source { source_name: name.to_string(), alias: None })
}

#[test]
fn test_simple_in_subquery() {
    let users_source = csv_source(
        "users",
        &[("id", DataType::BigInt), ("name", DataType::String), ("age", DataType::Integer)],
        "users.csv",
    );
    let orders_source =
        csv_source("orders", &[("user_id", DataType::BigInt), ("total", DataType::Double)], "orders.csv");
    let sink = output_sink(&[("id", DataType::BigInt), ("name", DataType::String)]);

    // Subquery: SELECT user_id FROM orders WHERE total > 100
    let subquery_plan = Arc::new(IrPlan::Mapping {
        input: Arc::new(IrPlan::Filter {
            input: source("orders"),
            predicate: FilterClause::Base(FilterConditionType::Comparison(Condition {
                left_field: column(None, "total"),
                operator: ComparisonOp::GreaterThan,
                right_field: literal(IrLiteral::Float("100.0".to_string())),
            })),
        }),
        projections: vec![ProjectionColumn::Column(ColumnRef { table: None, column: "user_id".to_string() }, None)],
    });

    // Main query: SELECT id, name FROM users WHERE id IN (subquery)
    let main_plan = Arc::new(IrPlan::Filter {
        input: source("users"),
        predicate: FilterClause::Base(FilterConditionType::In(InCondition::Subquery {
            field: column(None, "id"),
            subquery: subquery_plan,
            negated: false,
        })),
    });

    let pipeline = Pipeline {
        sink_name: "output".to_string(),
        sink_columns: vec!["id".to_string(), "name".to_string()],
        plan: main_plan,
    };

    let program = Program { sources: vec![users_source, orders_source], sinks: vec![sink], pipelines: vec![pipeline] };

    let code = generate_program_with_context(&program);

    // The subquery is run and collected first ...
    assert_eq!(code.subqueries.len(), 1);
    let run = &code.subqueries[0];
    assert_eq!(run.id, 0);
    assert_eq!(run.data_var, "subquery_0_data");
    assert_eq!(run.result_var, "subquery_0_result");
    match &run.chain {
        PlanCode::Project(input, ProjectionCode::Field(f)) => {
            assert_eq!(f, "user_id");
            match input.as_ref() {
                PlanCode::Filter(s, PredicateCode::Compare(Operand::Field(l), ComparisonOp::GreaterThan, Operand::Float(v))) => {
                    assert!(matches!(s.as_ref(), PlanCode::Stream(n) if n == "orders_source"));
                    assert_eq!(l, "total");
                    assert_eq!(v, "100.0");
                }
                other => panic!("unexpected {:?}", other),
            }
        }
        other => panic!("unexpected {:?}", other),
    }
    // ... then membership of id is tested against its results.
    match &code.pipelines[0].chain {
        PlanCode::Filter(input, PredicateCode::InResult(Operand::Field(f), negated, var)) => {
            assert!(matches!(input.as_ref(), PlanCode::Stream(n) if n == "users_source"));
            assert_eq!(f, "id");
            assert!(!negated);
            assert_eq!(var, "subquery_0_result");
        }
        other => panic!("unexpected {:?}", other),
    }
}

#[test]
fn test_exists_subquery() {
    let users_source = csv_source("users", &[("id", DataType::BigInt)], "users.csv");
    let orders_source = csv_source("orders", &[("user_id", DataType::BigInt)], "orders.csv");
    let sink = output_sink(&[("id", DataType::BigInt)]);

    // Main query: SELECT id FROM users WHERE EXISTS (SELECT user_id FROM orders)
    let main_plan = Arc::new(IrPlan::Filter {
        input: source("users"),
        predicate: FilterClause::Base(FilterConditionType::Exists(ExistsCondition::Subquery {
            subquery: source("orders"),
            negated: false,
        })),
    });
    let pipeline = Pipeline { sink_name: "output".to_string(), sink_columns: vec!["id".to_string()], plan: main_plan };
    let program = Program { sources: vec![users_source, orders_source], sinks: vec![sink], pipelines: vec![pipeline] };

    let code = generate_program_with_context(&program);

    assert_eq!(code.subqueries.len(), 1);
    assert_eq!(code.subqueries[0].result_var, "subquery_0_result");
    assert!(matches!(&code.subqueries[0].chain, PlanCode::Stream(n) if n == "orders_source"));
    // The pipeline keeps users only while the subquery's result is not empty.
    assert!(matches!(
        &code.pipelines[0].chain,
        PlanCode::Filter(_, PredicateCode::ExistsResult(false, var)) if var == "subquery_0_result"
    ));
}

#[test]
fn test_subquery_with_join() {
    // SELECT * FROM users WHERE id IN (SELECT user_id FROM orders WHERE amount > 100)
    let subquery = Arc::new(IrPlan::Filter {
        input: source("orders"),
        predicate: FilterClause::Base(FilterConditionType::Comparison(Condition {
            left_field: column(Some("orders"), "amount"),
            operator: ComparisonOp::GreaterThan,
            right_field: literal(IrLiteral::String("100".to_string())),
        })),
    });
    let main_plan = Arc::new(IrPlan::Filter {
        input: source("users"),
        predicate: FilterClause::Base(FilterConditionType::In(InCondition::Subquery {
            field: column(Some("users"), "id"),
            subquery,
            negated: false,
        })),
    });
    let program = Program {
        sources: vec![
            csv_source("users", &[("id", DataType::BigInt), ("name", DataType::String)], "users.csv"),
            csv_source("orders", &[("user_id", DataType::BigInt), ("amount", DataType::Double)], "orders.csv"),
        ],
        sinks: vec![output_sink(&[("id", DataType::BigInt)])],
        pipelines: vec![Pipeline { sink_name: "output".to_string(), sink_columns: vec![], plan: main_plan }],
    };

    let code = generate_program_with_context(&program);

    assert_eq!(code.subqueries.len(), 1);
    assert!(matches!(
        &code.subqueries[0].chain,
        PlanCode::Filter(_, PredicateCode::Compare(Operand::Field(l), ComparisonOp::GreaterThan, Operand::Str(r)))
            if l == "amount" && r == "100"
    ));
    assert!(matches!(
        &code.pipelines[0].chain,
        PlanCode::Filter(_, PredicateCode::InResult(Operand::Field(f), false, var))
            if f == "id" && var == "subquery_0_result"
    ));
}

#[test]
fn nested_subqueries_run_innermost_first_and_number_across_pipelines() {
    // p0: users WHERE NOT EXISTS (orders WHERE id IN (items))
    let inner = source("items");
    let middle = Arc::new(IrPlan::Filter {
        input: source("orders"),
        predicate: FilterClause::Base(FilterConditionType::In(InCondition::Subquery {
            field: column(None, "id"),
            subquery: inner,
            negated: true,
        })),
    });
    let p0 = Arc::new(IrPlan::Filter {
        input: source("users"),
        predicate: FilterClause::Base(FilterConditionType::Exists(ExistsCondition::Subquery {
            subquery: middle,
            negated: true,
        })),
    });
    // p1: users WHERE EXISTS (ads) AND id IN VEC ids
    let p1 = Arc::new(IrPlan::Filter {
        input: source("users"),
        predicate: FilterClause::Expression {
            left: Box::new(FilterClause::Base(FilterConditionType::Exists(ExistsCondition::Subquery {
                subquery: source("ads"),
                negated: false,
            }))),
            binary_op: renoir_sql::ir::BinaryOp::And,
            right: Box::new(FilterClause::Base(FilterConditionType::In(InCondition::Vec {
                field: column(None, "id"),
                vector_name: "ids".to_string(),
                vector_type: "i64".to_string(),
                negated: false,
            }))),
        },
    });
    let program = Program {
        sources: vec![],
        sinks: vec![],
        pipelines: vec![
            Pipeline { sink_name: "a".to_string(), sink_columns: vec![], plan: p0 },
            Pipeline { sink_name: "b".to_string(), sink_columns: vec![], plan: p1 },
        ],
    };
    let code = generate_program_with_context(&program);
    assert_eq!(code.subqueries.len(), 3);
    assert!(matches!(&code.subqueries[0].chain, PlanCode::Stream(n) if n == "items_source"));
    assert!(matches!(
        &code.subqueries[1].chain,
        PlanCode::Filter(_, PredicateCode::InResult(_, true, v)) if v == "subquery_0_result"
    ));
    assert!(matches!(&code.subqueries[2].chain, PlanCode::Stream(n) if n == "ads_source"));
    assert!(matches!(
        &code.pipelines[0].chain,
        PlanCode::Filter(_, PredicateCode::ExistsResult(true, v)) if v == "subquery_1_result"
    ));
    match &code.pipelines[1].chain {
        PlanCode::Filter(_, PredicateCode::And(l, r)) => {
            assert!(matches!(l.as_ref(), PredicateCode::ExistsResult(false, v) if v == "subquery_2_result"));
            assert!(matches!(r.as_ref(), PredicateCode::InVec(Operand::Field(f), false, v) if f == "id" && v == "ids"));
        }
        other => panic!("unexpected {:?}", other),
    }
}
