use renoir_sql::builder::{
    AggregateFunctionBuilder, ColumnRefBuilder, ComplexFieldBuilder, FilterBuilder,
    IrPlanBuilder, JoinConditionBuilder, OrderByBuilder, PipelineBuilder, ProgramBuilder,
    ProjectionBuilder, SinkDefBuilder, SourceDefBuilder,
};
use renoir_sql::ir::{
    ComparisonOp, ConnectorOption, DataType, FieldDef, FilterClause, FilterConditionType, IrLiteral,
    IrPlan, JoinType, OptionValue, OrderDirection,
};

#[test]
fn test_simple_source_plan() {
    let plan = IrPlanBuilder::source("users", None).build();
    assert!(matches!(plan.as_ref(), IrPlan::Source { .. }));
}

#[test]
fn test_source_with_filter() {
    let filter = FilterBuilder::comparison(
        ComplexFieldBuilder::column(ColumnRefBuilder::column("age")),
        ComparisonOp::GreaterThan,
        ComplexFieldBuilder::integer(18),
    );

    let plan = IrPlanBuilder::source("users", None).filter(filter).build();

    assert!(matches!(plan.as_ref(), IrPlan::Filter { .. }));
}

#[test]
fn test_source_with_map() {
    let projections = vec![
        ProjectionBuilder::column(ColumnRefBuilder::column("name"), None),
        ProjectionBuilder::column(ColumnRefBuilder::column("email"), Some("user_email".to_string())),
    ];

    let plan = IrPlanBuilder::source("users", None).map(projections).build();

    assert!(matches!(plan.as_ref(), IrPlan::Mapping { .. }));
}

#[test]
fn test_complex_plan_with_join() {
    let right_plan = IrPlanBuilder::source("orders", None).build();

    let join_condition = vec![JoinConditionBuilder::new(
        ColumnRefBuilder::with_table("users", "id"),
        ColumnRefBuilder::with_table("orders", "user_id"),
    )];

    let plan = IrPlanBuilder::source("users", None)
        .join(right_plan, join_condition, JoinType::Inner)
        .build();

    assert!(matches!(plan.as_ref(), IrPlan::Join { .. }));
}

#[test]
fn test_aggregate_with_group_by() {
    let aggregations = vec![
        ProjectionBuilder::column(ColumnRefBuilder::column("country"), None),
        ProjectionBuilder::aggregate(
            AggregateFunctionBuilder::count(ColumnRefBuilder::column("id")),
            Some("total_users".to_string()),
        ),
    ];

    let plan = IrPlanBuilder::source("users", None)
        .group_by(vec![ColumnRefBuilder::column("country")], aggregations, None)
        .build();

    assert!(matches!(plan.as_ref(), IrPlan::GroupBy { .. }));
}

#[test]
fn test_order_and_limit() {
    let order_items = vec![OrderByBuilder::desc(ColumnRefBuilder::column("created_at"))];

    let plan = IrPlanBuilder::source("users", None)
        .order_by(order_items)
        .limit(10, Some(5))
        .build();

    assert!(matches!(plan.as_ref(), IrPlan::Limit { .. }));
}

#[test]
fn test_distinct() {
    let plan = IrPlanBuilder::source("users", None).distinct().build();

    assert!(matches!(plan.as_ref(), IrPlan::Distinct { .. }));
}

#[test]
fn test_complex_filter_with_and_or() {
    let age_filter = FilterBuilder::comparison(
        ComplexFieldBuilder::column(ColumnRefBuilder::column("age")),
        ComparisonOp::GreaterThan,
        ComplexFieldBuilder::integer(18),
    );

    let status_filter = FilterBuilder::comparison(
        ComplexFieldBuilder::column(ColumnRefBuilder::column("status")),
        ComparisonOp::Equal,
        ComplexFieldBuilder::string("active"),
    );

    let combined_filter = FilterBuilder::and(age_filter, status_filter);

    let plan = IrPlanBuilder::source("users", None).filter(combined_filter).build();

    assert!(matches!(plan.as_ref(), IrPlan::Filter { .. }));
}

#[test]
fn test_program_with_sources_and_pipelines() {
    let source = SourceDefBuilder::new(
        "sales",
        vec![
            FieldDef { name: "product_id".to_string(), data_type: DataType::BigInt },
            FieldDef { name: "quantity".to_string(), data_type: DataType::Integer },
        ],
        "csv",
        vec![ConnectorOption {
            key: "path".to_string(),
            value: OptionValue::String("data/sales.csv".to_string()),
        }],
    );

    let sink = SinkDefBuilder::new(
        "filtered_sales",
        vec![FieldDef { name: "product_id".to_string(), data_type: DataType::BigInt }],
        "csv",
        vec![],
    );

    let plan = IrPlanBuilder::source("sales", None)
        .filter(FilterBuilder::comparison(
            ComplexFieldBuilder::column(ColumnRefBuilder::column("quantity")),
            ComparisonOp::GreaterThan,
            ComplexFieldBuilder::integer(10),
        ))
        .build();

    let pipeline = PipelineBuilder::new("filtered_sales", vec!["product_id".to_string()], plan);

    let program = ProgramBuilder::new()
        .add_source(source)
        .add_sink(sink)
        .add_pipeline(pipeline)
        .build();

    assert_eq!(program.sources.len(), 1);
    assert_eq!(program.sinks.len(), 1);
    assert_eq!(program.pipelines.len(), 1);
}

#[test]
fn builder_chain_nests_operations_in_call_order() {
    let plan = IrPlanBuilder::source("users", Some("u".to_string()))
        .distinct()
        .limit(3, None)
        .build();
    match plan.as_ref() {
        IrPlan::Limit { input, limit, offset } => {
            assert_eq!(*limit, 3);
            assert_eq!(*offset, None);
            match input.as_ref() {
                IrPlan::Distinct { input } => match input.as_ref() {
                    IrPlan::Source { source_name, alias } => {
                        assert_eq!(source_name, "users");
                        assert_eq!(alias.as_deref(), Some("u"));
                    }
                    _ => panic!("expected a source"),
                },
                _ => panic!("expected distinct"),
            }
        }
        _ => panic!("expected limit"),
    }
}

#[test]
fn builder_literals_and_order_items() {
    let f = ComplexFieldBuilder::integer(-7);
    assert_eq!(f.literal, Some(IrLiteral::Integer(-7)));
    assert!(f.column_ref.is_none());
    let s = ComplexFieldBuilder::string("x");
    assert_eq!(s.literal, Some(IrLiteral::String("x".to_string())));
    let o = OrderByBuilder::asc_nulls_first(ColumnRefBuilder::column("a"));
    assert_eq!(o.direction, OrderDirection::Asc);
    assert_eq!(o.nulls_first, Some(true));
    let c = ColumnRefBuilder::with_table("t", "c");
    assert_eq!(c.table.as_deref(), Some("t"));
    assert_eq!(c.column, "c");
    let b = FilterBuilder::boolean(true);
    assert!(matches!(b, FilterClause::Base(FilterConditionType::Boolean(true))));
}
