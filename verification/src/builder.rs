//! Builders for programs, plans and the parts of the IR. Each builder gives
//! exactly the value it names; plan builders put each new operation on top of
//! the plan built so far.
use crate::ir::{
    AggregateFunction, AggregateType, BinaryOp, ColumnRef, ComparisonOp, ComplexField,
    ConnectorConfig, ConnectorOption, Condition, ExistsCondition, FieldDef, FilterClause,
    FilterConditionType, GroupBaseCondition, GroupClause, InCondition, IrLiteral, IrPlan,
    JoinCondition, JoinType, NullCondition, NullOp, OrderByItem, OrderDirection, Pipeline,
    Program, ProjectionColumn, SinkDef, SourceDef, SpecIrPlan, SpecProgram,
};
use std::sync::Arc;
use vstd::prelude::*;

verus! {

/// Builder for constructing streaming programs
pub struct ProgramBuilder {
    program: Program,
}

impl View for ProgramBuilder {
    type V = SpecProgram;

    closed spec fn view(&self) -> SpecProgram {
        self.program@
    }
}

impl ProgramBuilder {
    /// A builder of the empty program.
    pub fn new() -> (b: Self)
        ensures
            b@.sources.len() == 0,
            b@.sinks.len() == 0,
            b@.pipelines.len() == 0,
    {
        Self { program: Program::new() }
    }

    /// Adds a source after the sources added so far.
    pub fn add_source(self, source: SourceDef) -> (b: Self)
        ensures
            b@.sources == self@.sources.push(source@),
            b@.sinks == self@.sinks,
            b@.pipelines == self@.pipelines,
    {
        let mut b = self;
        proof {
            crate::ir::lemma_sources_view_push(b.program.sources@, source);
        }
        b.program.add_source(source);
        b
    }

    /// Adds a sink after the sinks added so far.
    pub fn add_sink(self, sink: SinkDef) -> (b: Self)
        ensures
            b@.sinks == self@.sinks.push(sink@),
            b@.sources == self@.sources,
            b@.pipelines == self@.pipelines,
    {
        let mut b = self;
        proof {
            crate::ir::lemma_sinks_view_push(b.program.sinks@, sink);
        }
        b.program.add_sink(sink);
        b
    }

    /// Adds a pipeline after the pipelines added so far.
    pub fn add_pipeline(self, pipeline: Pipeline) -> (b: Self)
        ensures
            b@.pipelines == self@.pipelines.push(pipeline@),
            b@.sources == self@.sources,
            b@.sinks == self@.sinks,
    {
        let mut b = self;
        proof {
            crate::ir::lemma_pipelines_view_push(b.program.pipelines@, pipeline);
        }
        b.program.add_pipeline(pipeline);
        b
    }

    /// The program built.
    pub fn build(self) -> (p: Program)
        ensures
            p@ == self@,
    {
        self.program
    }
}

/// Builder for constructing IrPlan (streaming operations)
pub struct IrPlanBuilder {
    plan: Arc<IrPlan>,
}

impl View for IrPlanBuilder {
    type V = SpecIrPlan;

    closed spec fn view(&self) -> SpecIrPlan {
        self.plan@
    }
}

impl IrPlanBuilder {
    /// Start building from a source reference
    pub fn source(source_name: &str, alias: Option<String>) -> (b: Self)
        ensures
            b@ == (SpecIrPlan::Source {
                source_name: source_name@,
                alias: crate::ir::opt_str(alias),
            }),
    {
        Self { plan: Arc::new(IrPlan::Source { source_name: source_name.to_owned(), alias }) }
    }

    /// Add a filter operation to the plan
    pub fn filter(self, predicate: FilterClause) -> (b: Self)
        ensures
            b@ == (SpecIrPlan::Filter {
                input: Box::new(self@),
                predicate: crate::ir::filter_view(predicate),
            }),
    {
        Self { plan: Arc::new(IrPlan::filter(self.plan, predicate)) }
    }

    /// Add a map operation to the plan
    pub fn map(self, projections: Vec<ProjectionColumn>) -> (b: Self)
        ensures
            b@ == (SpecIrPlan::Mapping {
                input: Box::new(self@),
                projections: crate::ir::projections_view(projections@),
            }),
    {
        Self { plan: Arc::new(IrPlan::map(self.plan, projections)) }
    }

    /// Add a flat_map operation to the plan
    pub fn flat_map(self, projection: ProjectionColumn) -> (b: Self)
        ensures
            b@ == (SpecIrPlan::FlatMap {
                input: Box::new(self@),
                projection: crate::ir::projection_view(projection),
            }),
    {
        Self { plan: Arc::new(IrPlan::flat_map(self.plan, projection)) }
    }

    /// Add a group by operation to the plan
    pub fn group_by(
        self,
        keys: Vec<ColumnRef>,
        aggregations: Vec<ProjectionColumn>,
        having: Option<GroupClause>,
    ) -> (b: Self)
        ensures
            b@ == (SpecIrPlan::GroupBy {
                input: Box::new(self@),
                keys: crate::ir::columns_view(keys@),
                aggregations: crate::ir::projections_view(aggregations@),
                having: match having {
                    Some(h) => Some(crate::ir::group_view(h)),
                    None => None,
                },
            }),
    {
        Self { plan: Arc::new(IrPlan::group_by(self.plan, keys, aggregations, having)) }
    }

    /// Add a join operation to the plan, with the plan so far on the left
    pub fn join(self, right: Arc<IrPlan>, condition: Vec<JoinCondition>, join_type: JoinType) -> (b:
        Self)
        ensures
            b@ == (SpecIrPlan::Join {
                left: Box::new(self@),
                right: Box::new(right@),
                condition: crate::ir::joins_view(condition@),
                join_type,
            }),
    {
        Self { plan: Arc::new(IrPlan::Join { left: self.plan, right, condition, join_type }) }
    }

    /// Add an order by operation to the plan
    pub fn order_by(self, items: Vec<OrderByItem>) -> (b: Self)
        ensures
            b@ == (SpecIrPlan::OrderBy {
                input: Box::new(self@),
                items: crate::ir::order_items_view(items@),
            }),
    {
        Self { plan: Arc::new(IrPlan::order_by(self.plan, items)) }
    }

    /// Add a limit operation to the plan
    pub fn limit(self, limit: i64, offset: Option<i64>) -> (b: Self)
        ensures
            b@ == (SpecIrPlan::Limit { input: Box::new(self@), limit, offset }),
    {
        Self { plan: Arc::new(IrPlan::limit(self.plan, limit, offset)) }
    }

    /// Add a distinct operation to the plan
    pub fn distinct(self) -> (b: Self)
        ensures
            b@ == (SpecIrPlan::Distinct { input: Box::new(self@) }),
    {
        Self { plan: Arc::new(IrPlan::distinct(self.plan)) }
    }

    /// Build and return the final IrPlan
    pub fn build(self) -> (p: Arc<IrPlan>)
        ensures
            p@ == self@,
    {
        self.plan
    }
}

/// Builder for constructing FilterClause
pub struct FilterBuilder;

impl FilterBuilder {
    /// Create a base filter condition
    pub fn base(condition_type: FilterConditionType) -> (f: FilterClause)
        ensures
            f == FilterClause::Base(condition_type),
    {
        FilterClause::Base(condition_type)
    }

    /// Create a comparison filter
    pub fn comparison(left_field: ComplexField, operator: ComparisonOp, right_field: ComplexField) -> (f:
        FilterClause)
        ensures
            f == FilterClause::Base(
                FilterConditionType::Comparison(Condition { left_field, operator, right_field }),
            ),
    {
        FilterClause::Base(
            FilterConditionType::Comparison(Condition { left_field, operator, right_field }),
        )
    }

    /// Create a null check filter
    pub fn null_check(field: ComplexField, operator: NullOp) -> (f: FilterClause)
        ensures
            f == FilterClause::Base(
                FilterConditionType::NullCheck(NullCondition { field, operator }),
            ),
    {
        FilterClause::Base(FilterConditionType::NullCheck(NullCondition { field, operator }))
    }

    /// Create an IN filter with subquery
    pub fn in_subquery(field: ComplexField, subquery: Arc<IrPlan>, negated: bool) -> (f:
        FilterClause)
        ensures
            f == FilterClause::Base(
                FilterConditionType::In(InCondition::Subquery { field, subquery, negated }),
            ),
    {
        FilterClause::Base(
            FilterConditionType::In(InCondition::Subquery { field, subquery, negated }),
        )
    }

    /// Create an IN filter with vector
    pub fn in_vec(field: ComplexField, vector_name: &str, vector_type: &str, negated: bool) -> (f:
        FilterClause)
        ensures
            f matches FilterClause::Base(
                FilterConditionType::In(InCondition::Vec { field: g, vector_name: n, vector_type: t, negated: b }),
            ) && g == field && n@ == vector_name@ && t@ == vector_type@ && b == negated,
    {
        FilterClause::Base(
            FilterConditionType::In(
                InCondition::Vec {
                    field,
                    vector_name: vector_name.to_owned(),
                    vector_type: vector_type.to_owned(),
                    negated,
                },
            ),
        )
    }

    /// Create an EXISTS filter with subquery
    pub fn exists_subquery(subquery: Arc<IrPlan>, negated: bool) -> (f: FilterClause)
        ensures
            f == FilterClause::Base(
                FilterConditionType::Exists(ExistsCondition::Subquery { subquery, negated }),
            ),
    {
        FilterClause::Base(
            FilterConditionType::Exists(ExistsCondition::Subquery { subquery, negated }),
        )
    }

    /// Create an EXISTS filter with vector
    pub fn exists_vec(vector_name: &str, negated: bool) -> (f: FilterClause)
        ensures
            f matches FilterClause::Base(
                FilterConditionType::Exists(ExistsCondition::Vec { vector_name: n, negated: b }),
            ) && n@ == vector_name@ && b == negated,
    {
        FilterClause::Base(
            FilterConditionType::Exists(
                ExistsCondition::Vec { vector_name: vector_name.to_owned(), negated },
            ),
        )
    }

    /// Create a boolean filter
    pub fn boolean(value: bool) -> (f: FilterClause)
        ensures
            f == FilterClause::Base(FilterConditionType::Boolean(value)),
    {
        FilterClause::Base(FilterConditionType::Boolean(value))
    }

    /// Combine two filters with AND
    pub fn and(left: FilterClause, right: FilterClause) -> (f: FilterClause)
        ensures
            f == (FilterClause::Expression {
                left: Box::new(left),
                binary_op: BinaryOp::And,
                right: Box::new(right),
            }),
    {
        FilterClause::Expression { left: Box::new(left), binary_op: BinaryOp::And, right: Box::new(right) }
    }

    /// Combine two filters with OR
    pub fn or(left: FilterClause, right: FilterClause) -> (f: FilterClause)
        ensures
            f == (FilterClause::Expression {
                left: Box::new(left),
                binary_op: BinaryOp::Or,
                right: Box::new(right),
            }),
    {
        FilterClause::Expression { left: Box::new(left), binary_op: BinaryOp::Or, right: Box::new(right) }
    }
}

/// Builder for constructing GroupClause
pub struct GroupBuilder;

impl GroupBuilder {
    /// Create a base group condition
    pub fn base(condition: GroupBaseCondition) -> (g: GroupClause)
        ensures
            g == GroupClause::Base(condition),
    {
        GroupClause::Base(condition)
    }

    /// Create a comparison group condition
    pub fn comparison(left_field: ComplexField, operator: ComparisonOp, right_field: ComplexField) -> (g:
        GroupClause)
        ensures
            g == GroupClause::Base(
                GroupBaseCondition::Comparison(Condition { left_field, operator, right_field }),
            ),
    {
        GroupClause::Base(
            GroupBaseCondition::Comparison(Condition { left_field, operator, right_field }),
        )
    }

    /// Create a null check group condition
    pub fn null_check(field: ComplexField, operator: NullOp) -> (g: GroupClause)
        ensures
            g == GroupClause::Base(GroupBaseCondition::NullCheck(NullCondition { field, operator })),
    {
        GroupClause::Base(GroupBaseCondition::NullCheck(NullCondition { field, operator }))
    }

    /// Create an IN group condition with subquery
    pub fn in_subquery(field: ComplexField, subquery: Arc<IrPlan>, negated: bool) -> (g:
        GroupClause)
        ensures
            g == GroupClause::Base(
                GroupBaseCondition::In(InCondition::Subquery { field, subquery, negated }),
            ),
    {
        GroupClause::Base(
            GroupBaseCondition::In(InCondition::Subquery { field, subquery, negated }),
        )
    }

    /// Create a boolean group condition
    pub fn boolean(value: bool) -> (g: GroupClause)
        ensures
            g == GroupClause::Base(GroupBaseCondition::Boolean(value)),
    {
        GroupClause::Base(GroupBaseCondition::Boolean(value))
    }

    /// Combine two group conditions with AND
    pub fn and(left: GroupClause, right: GroupClause) -> (g: GroupClause)
        ensures
            g == (GroupClause::Expression {
                left: Box::new(left),
                op: BinaryOp::And,
                right: Box::new(right),
            }),
    {
        GroupClause::Expression { left: Box::new(left), op: BinaryOp::And, right: Box::new(right) }
    }

    /// Combine two group conditions with OR
    pub fn or(left: GroupClause, right: GroupClause) -> (g: GroupClause)
        ensures
            g == (GroupClause::Expression {
                left: Box::new(left),
                op: BinaryOp::Or,
                right: Box::new(right),
            }),
    {
        GroupClause::Expression { left: Box::new(left), op: BinaryOp::Or, right: Box::new(right) }
    }
}

/// Builder for constructing ComplexField
pub struct ComplexFieldBuilder;

impl ComplexFieldBuilder {
    /// Create a ComplexField from a column reference
    pub fn column(column_ref: ColumnRef) -> (f: ComplexField)
        ensures
            f == (ComplexField {
                column_ref: Some(column_ref),
                literal: None,
                aggregate: None,
                nested_expr: None,
                subquery: None,
                subquery_vec: None,
            }),
    {
        ComplexField {
            column_ref: Some(column_ref),
            literal: None,
            aggregate: None,
            nested_expr: None,
            subquery: None,
            subquery_vec: None,
        }
    }

    /// Create a ComplexField from a literal value
    pub fn literal(literal: IrLiteral) -> (f: ComplexField)
        ensures
            f == (ComplexField {
                column_ref: None,
                literal: Some(literal),
                aggregate: None,
                nested_expr: None,
                subquery: None,
                subquery_vec: None,
            }),
    {
        ComplexField {
            column_ref: None,
            literal: Some(literal),
            aggregate: None,
            nested_expr: None,
            subquery: None,
            subquery_vec: None,
        }
    }

    /// Create a ComplexField from an integer literal
    pub fn integer(value: i64) -> (f: ComplexField)
        ensures
            f == (ComplexField {
                column_ref: None,
                literal: Some(IrLiteral::Integer(value)),
                aggregate: None,
                nested_expr: None,
                subquery: None,
                subquery_vec: None,
            }),
    {
        Self::literal(IrLiteral::Integer(value))
    }

    /// Create a ComplexField from a string literal
    pub fn string(value: &str) -> (f: ComplexField)
        ensures
            f.literal matches Some(IrLiteral::String(s)) && s@ == value@,
            f.column_ref is None && f.aggregate is None && f.nested_expr is None,
            f.subquery is None && f.subquery_vec is None,
    {
        Self::literal(IrLiteral::String(value.to_owned()))
    }

    /// Create a ComplexField from a boolean literal
    pub fn bool(value: bool) -> (f: ComplexField)
        ensures
            f == (ComplexField {
                column_ref: None,
                literal: Some(IrLiteral::Boolean(value)),
                aggregate: None,
                nested_expr: None,
                subquery: None,
                subquery_vec: None,
            }),
    {
        Self::literal(IrLiteral::Boolean(value))
    }

    /// Create a ComplexField from an aggregate function
    pub fn aggregate(aggregate: AggregateFunction) -> (f: ComplexField)
        ensures
            f == (ComplexField {
                column_ref: None,
                literal: None,
                aggregate: Some(aggregate),
                nested_expr: None,
                subquery: None,
                subquery_vec: None,
            }),
    {
        ComplexField {
            column_ref: None,
            literal: None,
            aggregate: Some(aggregate),
            nested_expr: None,
            subquery: None,
            subquery_vec: None,
        }
    }

    /// Create a ComplexField from a nested expression
    pub fn nested_expr(left: ComplexField, op: &str, right: ComplexField, is_parenthesized: bool) -> (f:
        ComplexField)
        ensures
            f.nested_expr matches Some(n) && n.0 == left && n.1@ == op@ && n.2 == right && n.3
                == is_parenthesized,
            f.column_ref is None && f.literal is None && f.aggregate is None,
            f.subquery is None && f.subquery_vec is None,
    {
        ComplexField {
            column_ref: None,
            literal: None,
            aggregate: None,
            nested_expr: Some(Arc::new((left, op.to_owned(), right, is_parenthesized))),
            subquery: None,
            subquery_vec: None,
        }
    }

    /// Create a ComplexField from a subquery
    pub fn subquery(subquery: Arc<IrPlan>) -> (f: ComplexField)
        ensures
            f == (ComplexField {
                column_ref: None,
                literal: None,
                aggregate: None,
                nested_expr: None,
                subquery: Some(subquery),
                subquery_vec: None,
            }),
    {
        ComplexField {
            column_ref: None,
            literal: None,
            aggregate: None,
            nested_expr: None,
            subquery: Some(subquery),
            subquery_vec: None,
        }
    }

    /// Create a ComplexField from a subquery vector
    pub fn subquery_vec(name: &str, vec_type: &str) -> (f: ComplexField)
        ensures
            f.subquery_vec matches Some(v) && v.0@ == name@ && v.1@ == vec_type@,
            f.column_ref is None && f.literal is None && f.aggregate is None,
            f.nested_expr is None && f.subquery is None,
    {
        ComplexField {
            column_ref: None,
            literal: None,
            aggregate: None,
            nested_expr: None,
            subquery: None,
            subquery_vec: Some((name.to_owned(), vec_type.to_owned())),
        }
    }
}

/// Builder for constructing ColumnRef
pub struct ColumnRefBuilder;

impl ColumnRefBuilder {
    /// Create a column reference with optional table
    pub fn new(column: &str, table: Option<String>) -> (c: ColumnRef)
        ensures
            c.column@ == column@,
            c.table == table,
    {
        ColumnRef { table, column: column.to_owned() }
    }

    /// Create a column reference without table
    pub fn column(column: &str) -> (c: ColumnRef)
        ensures
            c.column@ == column@,
            c.table is None,
    {
        ColumnRef { table: None, column: column.to_owned() }
    }

    /// Create a column reference with table
    pub fn with_table(table: &str, column: &str) -> (c: ColumnRef)
        ensures
            c.column@ == column@,
            c.table matches Some(t) && t@ == table@,
    {
        ColumnRef { table: Some(table.to_owned()), column: column.to_owned() }
    }
}

/// Builder for constructing AggregateFunction
pub struct AggregateFunctionBuilder;

impl AggregateFunctionBuilder {
    /// Create an aggregate function
    pub fn new(function: AggregateType, column: ColumnRef) -> (a: AggregateFunction)
        ensures
            a == (AggregateFunction { function, column }),
    {
        AggregateFunction { function, column }
    }

    /// Create a MAX aggregate
    pub fn max(column: ColumnRef) -> (a: AggregateFunction)
        ensures
            a == (AggregateFunction { function: AggregateType::Max, column }),
    {
        Self::new(AggregateType::Max, column)
    }

    /// Create a MIN aggregate
    pub fn min(column: ColumnRef) -> (a: AggregateFunction)
        ensures
            a == (AggregateFunction { function: AggregateType::Min, column }),
    {
        Self::new(AggregateType::Min, column)
    }

    /// Create an AVG aggregate
    pub fn avg(column: ColumnRef) -> (a: AggregateFunction)
        ensures
            a == (AggregateFunction { function: AggregateType::Avg, column }),
    {
        Self::new(AggregateType::Avg, column)
    }

    /// Create a COUNT aggregate
    pub fn count(column: ColumnRef) -> (a: AggregateFunction)
        ensures
            a == (AggregateFunction { function: AggregateType::Count, column }),
    {
        Self::new(AggregateType::Count, column)
    }

    /// Create a SUM aggregate
    pub fn sum(column: ColumnRef) -> (a: AggregateFunction)
        ensures
            a == (AggregateFunction { function: AggregateType::Sum, column }),
    {
        Self::new(AggregateType::Sum, column)
    }
}

/// Builder for constructing ProjectionColumn
pub struct ProjectionBuilder;

impl ProjectionBuilder {
    /// Create a column projection
    pub fn column(column_ref: ColumnRef, alias: Option<String>) -> (p: ProjectionColumn)
        ensures
            p == ProjectionColumn::Column(column_ref, alias),
    {
        ProjectionColumn::Column(column_ref, alias)
    }

    /// Create an aggregate projection
    pub fn aggregate(aggregate: AggregateFunction, alias: Option<String>) -> (p: ProjectionColumn)
        ensures
            p == ProjectionColumn::Aggregate(aggregate, alias),
    {
        ProjectionColumn::Aggregate(aggregate, alias)
    }

    /// Create a complex value projection
    pub fn complex(complex_field: ComplexField, alias: Option<String>) -> (p: ProjectionColumn)
        ensures
            p == ProjectionColumn::ComplexValue(complex_field, alias),
    {
        ProjectionColumn::ComplexValue(complex_field, alias)
    }

    /// Create a string literal projection
    pub fn string_literal(value: &str, alias: Option<String>) -> (p: ProjectionColumn)
        ensures
            p matches ProjectionColumn::StringLiteral(v, a) && v@ == value@ && a == alias,
    {
        ProjectionColumn::StringLiteral(value.to_owned(), alias)
    }

    /// Create a subquery projection
    pub fn subquery(subquery: Arc<IrPlan>, alias: Option<String>) -> (p: ProjectionColumn)
        ensures
            p == ProjectionColumn::Subquery(subquery, alias),
    {
        ProjectionColumn::Subquery(subquery, alias)
    }

    /// Create a subquery vector projection
    pub fn subquery_vec(name: &str, alias: Option<String>) -> (p: ProjectionColumn)
        ensures
            p matches ProjectionColumn::SubqueryVec(n, a) && n@ == name@ && a == alias,
    {
        ProjectionColumn::SubqueryVec(name.to_owned(), alias)
    }
}

/// Builder for constructing OrderByItem
pub struct OrderByBuilder;

impl OrderByBuilder {
    /// Create an order by item
    pub fn new(column: ColumnRef, direction: OrderDirection, nulls_first: Option<bool>) -> (o:
        OrderByItem)
        ensures
            o == (OrderByItem { column, direction, nulls_first }),
    {
        OrderByItem { column, direction, nulls_first }
    }

    /// Create an ascending order by item
    pub fn asc(column: ColumnRef) -> (o: OrderByItem)
        ensures
            o == (OrderByItem { column, direction: OrderDirection::Asc, nulls_first: None }),
    {
        Self::new(column, OrderDirection::Asc, None)
    }

    /// Create a descending order by item
    pub fn desc(column: ColumnRef) -> (o: OrderByItem)
        ensures
            o == (OrderByItem { column, direction: OrderDirection::Desc, nulls_first: None }),
    {
        Self::new(column, OrderDirection::Desc, None)
    }

    /// Create an ascending order by item with nulls first
    pub fn asc_nulls_first(column: ColumnRef) -> (o: OrderByItem)
        ensures
            o == (OrderByItem { column, direction: OrderDirection::Asc, nulls_first: Some(true) }),
    {
        Self::new(column, OrderDirection::Asc, Some(true))
    }

    /// Create a descending order by item with nulls first
    pub fn desc_nulls_first(column: ColumnRef) -> (o: OrderByItem)
        ensures
            o == (OrderByItem { column, direction: OrderDirection::Desc, nulls_first: Some(true) }),
    {
        Self::new(column, OrderDirection::Desc, Some(true))
    }
}

/// Builder for constructing JoinCondition
pub struct JoinConditionBuilder;

impl JoinConditionBuilder {
    /// Create a join condition
    pub fn new(left_col: ColumnRef, right_col: ColumnRef) -> (j: JoinCondition)
        ensures
            j == (JoinCondition { left_col, right_col }),
    {
        JoinCondition { left_col, right_col }
    }
}

/// Builder for constructing SourceDef
pub struct SourceDefBuilder;

impl SourceDefBuilder {
    /// A source with the given name, schema, connector type and options.
    pub fn new(
        name: &str,
        schema: Vec<FieldDef>,
        connector_type: &str,
        options: Vec<ConnectorOption>,
    ) -> (s: SourceDef)
        ensures
            s.name@ == name@,
            s.schema == schema,
            s.connector.connector_type@ == connector_type@,
            s.connector.options == options,
    {
        SourceDef {
            name: name.to_owned(),
            schema,
            connector: ConnectorConfig { connector_type: connector_type.to_owned(), options },
        }
    }
}

/// Builder for constructing SinkDef
pub struct SinkDefBuilder;

impl SinkDefBuilder {
    /// A sink with the given name, schema, connector type and options.
    pub fn new(
        name: &str,
        schema: Vec<FieldDef>,
        connector_type: &str,
        options: Vec<ConnectorOption>,
    ) -> (s: SinkDef)
        ensures
            s.name@ == name@,
            s.schema == schema,
            s.connector.connector_type@ == connector_type@,
            s.connector.options == options,
    {
        SinkDef {
            name: name.to_owned(),
            schema,
            connector: ConnectorConfig { connector_type: connector_type.to_owned(), options },
        }
    }
}

/// Builder for constructing Pipeline
pub struct PipelineBuilder;

impl PipelineBuilder {
    /// A pipeline that feeds the plan into the sink's columns.
    pub fn new(sink_name: &str, sink_columns: Vec<String>, plan: Arc<IrPlan>) -> (p: Pipeline)
        ensures
            p.sink_name@ == sink_name@,
            p.sink_columns == sink_columns,
            p.plan == plan,
    {
        Pipeline { sink_name: sink_name.to_owned(), sink_columns, plan }
    }
}

} // verus!
