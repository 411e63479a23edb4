use renoir_sql::ir::{
    AggregateFunction, AggregateType, BinaryOp, ColumnRef, ComparisonOp, ComplexField, Condition,
    ConnectorConfig, DataType, ExistsCondition, FieldDef, FilterClause, FilterConditionType,
    InCondition, IrLiteral, IrPlan, JoinCondition, JoinType, NullCondition, NullOp, OrderByItem,
    OrderDirection, Program, ProjectionColumn, SourceDef,
};
use std::sync::Arc;

fn column_field(name: &str) -> ComplexField {
    ComplexField {
        column_ref: Some(ColumnRef { table: None, column: name.to_string() }),
        literal: None,
        aggregate: None,
        nested_expr: None,
        subquery: None,
        subquery_vec: None,
    }
}

#[test]
fn test_column_ref_display_without_table() {
    let col = ColumnRef { table: None, column: "name".to_string() };
    assert_eq!(col.to_string(), "name");
}

#[test]
fn test_column_ref_display_with_table() {
    let col = ColumnRef { table: Some("users".to_string()), column: "name".to_string() };
    assert_eq!(col.to_string(), "users.name");
}

#[test]
fn test_aggregate_type_display() {
    assert_eq!(AggregateType::Max.to_string(), "max");
    assert_eq!(AggregateType::Min.to_string(), "min");
    assert_eq!(AggregateType::Avg.to_string(), "avg");
    assert_eq!(AggregateType::Sum.to_string(), "sum");
    assert_eq!(AggregateType::Count.to_string(), "count");
}

#[test]
fn test_complex_field_display_column() {
    let field = column_field("id");
    assert_eq!(field.to_string(), "id");
}

#[test]
fn test_complex_field_display_integer_literal() {
    let field = ComplexField {
        column_ref: None,
        literal: Some(IrLiteral::Integer(42)),
        aggregate: None,
        nested_expr: None,
        subquery: None,
        subquery_vec: None,
    };
    assert_eq!(field.to_string(), "42");
}

#[test]
fn test_complex_field_display_string_literal() {
    let field = ComplexField {
        column_ref: None,
        literal: Some(IrLiteral::String("hello".to_string())),
        aggregate: None,
        nested_expr: None,
        subquery: None,
        subquery_vec: None,
    };
    assert_eq!(field.to_string(), "hello");
}

#[test]
fn test_complex_field_display_aggregate() {
    let col = ColumnRef { table: None, column: "salary".to_string() };
    let agg = AggregateFunction { function: AggregateType::Max, column: col };
    let field = ComplexField {
        column_ref: None,
        literal: None,
        aggregate: Some(agg),
        nested_expr: None,
        subquery: None,
        subquery_vec: None,
    };
    assert_eq!(field.to_string(), "max(salary)");
}

#[test]
fn test_ir_plan_source() {
    let plan = IrPlan::Source { source_name: "users".to_string(), alias: None };
    assert!(matches!(plan, IrPlan::Source { .. }));
}

#[test]
fn test_program_structure() {
    let mut program = Program::new();
    let source = SourceDef {
        name: "sales".to_string(),
        schema: vec![FieldDef { name: "id".to_string(), data_type: DataType::BigInt }],
        connector: ConnectorConfig { connector_type: "csv".to_string(), options: vec![] },
    };
    program.add_source(source);
    assert_eq!(program.sources.len(), 1);
}

#[test]
fn test_ir_plan_filter() {
    let source = Arc::new(IrPlan::Source { source_name: "users".to_string(), alias: None });
    let predicate = FilterClause::Base(FilterConditionType::Boolean(true));
    let plan = IrPlan::filter(source, predicate);
    assert!(matches!(plan, IrPlan::Filter { .. }));
}

#[test]
fn test_ir_plan_map() {
    let source = Arc::new(IrPlan::Source { source_name: "users".to_string(), alias: None });
    let projections = vec![ProjectionColumn::Column(
        ColumnRef { table: None, column: "name".to_string() },
        None,
    )];
    let plan = IrPlan::map(source, projections);
    assert!(matches!(plan, IrPlan::Mapping { .. }));
}

#[test]
fn test_ir_plan_group_by() {
    let source = Arc::new(IrPlan::Source { source_name: "orders".to_string(), alias: None });
    let keys = vec![ColumnRef { table: None, column: "customer_id".to_string() }];
    let aggregations = vec![];
    let plan = IrPlan::group_by(source, keys, aggregations, None);
    assert!(matches!(plan, IrPlan::GroupBy { .. }));
}

#[test]
fn test_ir_plan_order_by() {
    let source = Arc::new(IrPlan::Source { source_name: "products".to_string(), alias: None });
    let items = vec![OrderByItem {
        column: ColumnRef { table: None, column: "price".to_string() },
        direction: OrderDirection::Desc,
        nulls_first: None,
    }];
    let plan = IrPlan::order_by(source, items);
    assert!(matches!(plan, IrPlan::OrderBy { .. }));
}

#[test]
fn test_ir_plan_limit() {
    let source = Arc::new(IrPlan::Source { source_name: "users".to_string(), alias: None });
    let plan = IrPlan::limit(source, 10, Some(5));
    assert!(matches!(plan, IrPlan::Limit { .. }));
    if let IrPlan::Limit { limit, offset, .. } = plan {
        assert_eq!(limit, 10);
        assert_eq!(offset, Some(5));
    }
}

#[test]
fn test_ir_plan_distinct() {
    let source = Arc::new(IrPlan::Source { source_name: "users".to_string(), alias: None });
    let plan = IrPlan::distinct(source);
    assert!(matches!(plan, IrPlan::Distinct { .. }));
}

#[test]
fn test_filter_clause_and_expression() {
    let left = FilterClause::Base(FilterConditionType::Boolean(true));
    let right = FilterClause::Base(FilterConditionType::Boolean(false));
    let expr = FilterClause::Expression {
        left: Box::new(left),
        binary_op: BinaryOp::And,
        right: Box::new(right),
    };
    assert!(matches!(expr, FilterClause::Expression { .. }));
}

#[test]
fn test_join_condition() {
    let left = ColumnRef { table: Some("users".to_string()), column: "id".to_string() };
    let right = ColumnRef { table: Some("orders".to_string()), column: "user_id".to_string() };
    let condition = JoinCondition { left_col: left.clone(), right_col: right.clone() };
    assert_eq!(condition.left_col, left);
    assert_eq!(condition.right_col, right);
}

#[test]
fn test_ir_plan_join() {
    let left = Arc::new(IrPlan::Source { source_name: "users".to_string(), alias: None });
    let right = Arc::new(IrPlan::Source { source_name: "orders".to_string(), alias: None });
    let condition = vec![JoinCondition {
        left_col: ColumnRef { table: Some("users".to_string()), column: "id".to_string() },
        right_col: ColumnRef { table: Some("orders".to_string()), column: "user_id".to_string() },
    }];
    let plan = IrPlan::Join { left, right, condition, join_type: JoinType::Inner };
    assert!(matches!(plan, IrPlan::Join { .. }));
}

#[test]
fn test_comparison_condition() {
    let condition = Condition {
        left_field: column_field("age"),
        operator: ComparisonOp::GreaterThan,
        right_field: ComplexField {
            column_ref: None,
            literal: Some(IrLiteral::Integer(18)),
            aggregate: None,
            nested_expr: None,
            subquery: None,
            subquery_vec: None,
        },
    };
    assert_eq!(condition.operator, ComparisonOp::GreaterThan);
}

#[test]
fn test_null_condition() {
    let condition = NullCondition { field: column_field("email"), operator: NullOp::IsNull };
    assert_eq!(condition.operator, NullOp::IsNull);
}

#[test]
fn test_in_condition_subquery() {
    let subquery = Arc::new(IrPlan::Source { source_name: "active_users".to_string(), alias: None });
    let condition = InCondition::Subquery { field: column_field("user_id"), subquery, negated: false };
    assert!(matches!(condition, InCondition::Subquery { .. }));
}

#[test]
fn test_exists_condition_vec() {
    let condition = ExistsCondition::Vec { vector_name: "user_ids".to_string(), negated: true };
    if let ExistsCondition::Vec { vector_name, negated } = condition {
        assert_eq!(vector_name, "user_ids");
        assert_eq!(negated, true);
    }
}

#[test]
fn test_projection_column_variants() {
    let col_ref = ColumnRef { table: None, column: "name".to_string() };

    let proj1 = ProjectionColumn::Column(col_ref.clone(), Some("user_name".to_string()));
    assert!(matches!(proj1, ProjectionColumn::Column(_, Some(_))));

    let proj2 = ProjectionColumn::StringLiteral("test".to_string(), None);
    assert!(matches!(proj2, ProjectionColumn::StringLiteral(_, _)));

    let agg = AggregateFunction { function: AggregateType::Count, column: col_ref };
    let proj3 = ProjectionColumn::Aggregate(agg, Some("total".to_string()));
    assert!(matches!(proj3, ProjectionColumn::Aggregate(_, _)));
}

// Text of nested expressions: the parenthesized flag is shown on both sides.
#[test]
fn nested_field_text_shows_the_parenthesized_flag() {
    let field = ComplexField {
        column_ref: None,
        literal: None,
        aggregate: None,
        nested_expr: Some(Arc::new((
            column_field("a"),
            "+".to_string(),
            ComplexField {
                column_ref: None,
                literal: Some(IrLiteral::Integer(-7)),
                aggregate: None,
                nested_expr: None,
                subquery: None,
                subquery_vec: None,
            },
            true,
        ))),
        subquery: None,
        subquery_vec: None,
    };
    assert_eq!(field.to_string(), "truea + -7true");
}

#[test]
fn empty_field_and_boolean_text() {
    let empty = ComplexField {
        column_ref: None,
        literal: None,
        aggregate: None,
        nested_expr: None,
        subquery: None,
        subquery_vec: None,
    };
    assert_eq!(empty.to_string(), "");
    let b = ComplexField {
        column_ref: None,
        literal: Some(IrLiteral::Boolean(false)),
        aggregate: None,
        nested_expr: None,
        subquery: None,
        subquery_vec: None,
    };
    assert_eq!(b.to_string(), "false");
    let col_wins = ComplexField {
        column_ref: Some(ColumnRef { table: Some("t".to_string()), column: "c".to_string() }),
        literal: Some(IrLiteral::Integer(1)),
        aggregate: None,
        nested_expr: None,
        subquery: None,
        subquery_vec: None,
    };
    assert_eq!(col_wins.to_string(), "t.c");
}
