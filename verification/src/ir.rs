//! The intermediate representation of streaming programs: sources, sinks and
//! pipelines, each pipeline a tree of streaming operations.
//!
//! Every executable type has a mathematical model (the `Spec*` types, reached
//! through `@`) in which strings are `Seq<char>`, vectors are `Seq`s and shared
//! plan nodes are plain values. Contracts throughout the crate speak of models.
use std::sync::Arc;
use vstd::prelude::*;

verus! {

// ---------------------------------------------------------------------------
// Executable types
// ---------------------------------------------------------------------------

/// Complete program with source/sink definitions and streaming pipelines
#[derive(Debug, Clone, PartialEq)]
pub struct Program {
    pub sources: Vec<SourceDef>,
    pub sinks: Vec<SinkDef>,
    pub pipelines: Vec<Pipeline>,
}

/// Definition of a data source (e.g., Kafka, CSV, etc.)
#[derive(Debug, Clone, PartialEq)]
pub struct SourceDef {
    pub name: String,
    pub schema: Vec<FieldDef>,
    pub connector: ConnectorConfig,
}

/// Definition of a data sink (e.g., CSV, database, etc.)
#[derive(Debug, Clone, PartialEq)]
pub struct SinkDef {
    pub name: String,
    pub schema: Vec<FieldDef>,
    pub connector: ConnectorConfig,
}

/// A streaming pipeline from source through transformations to sink
#[derive(Debug, Clone, PartialEq)]
pub struct Pipeline {
    pub sink_name: String,
    pub sink_columns: Vec<String>,
    pub plan: Arc<IrPlan>,
}

/// Connector configuration for sources and sinks
#[derive(Debug, Clone, PartialEq)]
pub struct ConnectorConfig {
    pub connector_type: String,
    pub options: Vec<ConnectorOption>,
}

/// Streaming operations that form a dataflow pipeline.
/// (`Mapping` is the projection operation.)
#[derive(Debug, Clone, PartialEq)]
pub enum IrPlan {
    Source { source_name: String, alias: Option<String> },
    Filter { input: Arc<IrPlan>, predicate: FilterClause },
    Mapping { input: Arc<IrPlan>, projections: Vec<ProjectionColumn> },
    FlatMap { input: Arc<IrPlan>, projection: ProjectionColumn },
    GroupBy {
        input: Arc<IrPlan>,
        keys: Vec<ColumnRef>,
        aggregations: Vec<ProjectionColumn>,
        having: Option<GroupClause>,
    },
    Join {
        left: Arc<IrPlan>,
        right: Arc<IrPlan>,
        condition: Vec<JoinCondition>,
        join_type: JoinType,
    },
    OrderBy { input: Arc<IrPlan>, items: Vec<OrderByItem> },
    Limit { input: Arc<IrPlan>, limit: i64, offset: Option<i64> },
    Distinct { input: Arc<IrPlan> },
}

#[derive(Debug, Clone, PartialEq)]
pub struct FieldDef {
    pub name: String,
    pub data_type: DataType,
}

#[derive(Debug, Clone, Copy, PartialEq, Eq, Structural)]
pub enum DataType {
    Integer,
    BigInt,
    Float,
    Double,
    String,
    Boolean,
    Timestamp,
}

#[derive(Debug, Clone, PartialEq)]
pub struct ConnectorOption {
    pub key: String,
    pub value: OptionValue,
}

/// An option's value. A number keeps the decimal text it was written with.
#[derive(Debug, Clone, PartialEq)]
pub enum OptionValue {
    String(String),
    Number(String),
    Boolean(bool),
    Variable(String),
}

#[derive(Debug, PartialEq)]
pub enum FilterClause {
    Base(FilterConditionType),
    Expression { left: Box<FilterClause>, binary_op: BinaryOp, right: Box<FilterClause> },
}

#[derive(Debug, PartialEq, Clone)]
pub enum FilterConditionType {
    Comparison(Condition),
    NullCheck(NullCondition),
    In(InCondition),
    Exists(ExistsCondition),
    Boolean(bool),
}

#[derive(Debug, PartialEq)]
pub enum GroupClause {
    Base(GroupBaseCondition),
    Expression { left: Box<GroupClause>, op: BinaryOp, right: Box<GroupClause> },
}

#[derive(Debug, PartialEq, Clone)]
pub enum GroupBaseCondition {
    Comparison(Condition),
    NullCheck(NullCondition),
    In(InCondition),
    Exists(ExistsCondition),
    Boolean(bool),
}

#[derive(Debug, PartialEq, Clone)]
pub struct JoinCondition {
    pub left_col: ColumnRef,
    pub right_col: ColumnRef,
}

#[derive(Debug, PartialEq, Clone, Copy, Eq, Structural)]
pub enum JoinType {
    Inner,
    Left,
    Outer,
}

#[derive(Debug, PartialEq, Clone)]
pub enum ProjectionColumn {
    Column(ColumnRef, Option<String>),
    Aggregate(AggregateFunction, Option<String>),
    ComplexValue(ComplexField, Option<String>),
    StringLiteral(String, Option<String>),
    Subquery(Arc<IrPlan>, Option<String>),
    SubqueryVec(String, Option<String>),
}

#[derive(Debug, PartialEq, Clone, Eq, Hash)]
pub struct ColumnRef {
    pub table: Option<String>,
    pub column: String,
}

#[derive(Debug, PartialEq, Clone, Eq, Hash)]
pub struct AggregateFunction {
    pub function: AggregateType,
    pub column: ColumnRef,
}

#[derive(Debug, PartialEq, Clone, Copy, Eq, Hash, Structural)]
pub enum AggregateType {
    Max,
    Min,
    Avg,
    Count,
    Sum,
}

/// A value expression. At most one of the fields is expected to be set.
#[derive(Debug, PartialEq, Clone)]
pub struct ComplexField {
    pub column_ref: Option<ColumnRef>,
    pub literal: Option<IrLiteral>,
    pub aggregate: Option<AggregateFunction>,
    /// `(left, operator, right, parenthesized)`
    pub nested_expr: Option<Arc<(ComplexField, String, ComplexField, bool)>>,
    pub subquery: Option<Arc<IrPlan>>,
    /// `(name, type)`
    pub subquery_vec: Option<(String, String)>,
}

/// A literal. A float keeps the decimal text it was written with.
#[derive(Debug, PartialEq, Clone)]
pub enum IrLiteral {
    Integer(i64),
    Float(String),
    String(String),
    Boolean(bool),
}

#[derive(Debug, PartialEq, Clone)]
pub struct OrderByItem {
    pub column: ColumnRef,
    pub direction: OrderDirection,
    pub nulls_first: Option<bool>,
}

#[derive(Debug, PartialEq, Clone, Copy, Eq, Structural)]
pub enum OrderDirection {
    Asc,
    Desc,
}

#[derive(Debug, PartialEq, Clone)]
pub struct Condition {
    pub left_field: ComplexField,
    pub operator: ComparisonOp,
    pub right_field: ComplexField,
}

#[derive(Debug, PartialEq, Clone)]
pub struct NullCondition {
    pub field: ComplexField,
    pub operator: NullOp,
}

#[derive(Debug, PartialEq, Clone)]
pub enum InCondition {
    Subquery { field: ComplexField, subquery: Arc<IrPlan>, negated: bool },
    Vec { field: ComplexField, vector_name: String, vector_type: String, negated: bool },
}

#[derive(Debug, PartialEq, Clone)]
pub enum ExistsCondition {
    Subquery { subquery: Arc<IrPlan>, negated: bool },
    Vec { vector_name: String, negated: bool },
}

#[derive(Debug, PartialEq, Clone, Copy, Eq, Structural)]
pub enum ComparisonOp {
    GreaterThan,
    LessThan,
    Equal,
    NotEqual,
    GreaterThanEquals,
    LessThanEquals,
}

#[derive(Debug, PartialEq, Clone, Copy, Eq, Structural)]
pub enum NullOp {
    IsNull,
    IsNotNull,
}

#[derive(Debug, PartialEq, Clone, Copy, Eq, Structural)]
pub enum BinaryOp {
    And,
    Or,
}

// ---------------------------------------------------------------------------
// Mathematical models
// ---------------------------------------------------------------------------

pub struct SpecProgram {
    pub sources: Seq<SpecSourceDef>,
    pub sinks: Seq<SpecSinkDef>,
    pub pipelines: Seq<SpecPipeline>,
}

pub struct SpecSourceDef {
    pub name: Seq<char>,
    pub schema: Seq<SpecFieldDef>,
    pub connector: SpecConnectorConfig,
}

pub struct SpecSinkDef {
    pub name: Seq<char>,
    pub schema: Seq<SpecFieldDef>,
    pub connector: SpecConnectorConfig,
}

pub struct SpecPipeline {
    pub sink_name: Seq<char>,
    pub sink_columns: Seq<Seq<char>>,
    pub plan: SpecIrPlan,
}

pub struct SpecConnectorConfig {
    pub connector_type: Seq<char>,
    pub options: Seq<SpecConnectorOption>,
}

pub enum SpecIrPlan {
    Source { source_name: Seq<char>, alias: Option<Seq<char>> },
    Filter { input: Box<SpecIrPlan>, predicate: SpecFilterClause },
    Mapping { input: Box<SpecIrPlan>, projections: Seq<SpecProjectionColumn> },
    FlatMap { input: Box<SpecIrPlan>, projection: SpecProjectionColumn },
    GroupBy {
        input: Box<SpecIrPlan>,
        keys: Seq<SpecColumnRef>,
        aggregations: Seq<SpecProjectionColumn>,
        having: Option<SpecGroupClause>,
    },
    Join {
        left: Box<SpecIrPlan>,
        right: Box<SpecIrPlan>,
        condition: Seq<SpecJoinCondition>,
        join_type: JoinType,
    },
    OrderBy { input: Box<SpecIrPlan>, items: Seq<SpecOrderByItem> },
    Limit { input: Box<SpecIrPlan>, limit: i64, offset: Option<i64> },
    Distinct { input: Box<SpecIrPlan> },
}

pub struct SpecFieldDef {
    pub name: Seq<char>,
    pub data_type: DataType,
}

pub struct SpecConnectorOption {
    pub key: Seq<char>,
    pub value: SpecOptionValue,
}

pub enum SpecOptionValue {
    Str(Seq<char>),
    Number(Seq<char>),
    Boolean(bool),
    Variable(Seq<char>),
}

pub enum SpecFilterClause {
    Base(SpecConditionType),
    Expression { left: Box<SpecFilterClause>, binary_op: BinaryOp, right: Box<SpecFilterClause> },
}

/// Model shared by `FilterConditionType` and `GroupBaseCondition`.
pub enum SpecConditionType {
    Comparison(SpecCondition),
    NullCheck(SpecNullCondition),
    In(SpecInCondition),
    Exists(SpecExistsCondition),
    Boolean(bool),
}

pub enum SpecGroupClause {
    Base(SpecConditionType),
    Expression { left: Box<SpecGroupClause>, op: BinaryOp, right: Box<SpecGroupClause> },
}

pub struct SpecJoinCondition {
    pub left_col: SpecColumnRef,
    pub right_col: SpecColumnRef,
}

pub enum SpecProjectionColumn {
    Column(SpecColumnRef, Option<Seq<char>>),
    Aggregate(SpecAggregateFunction, Option<Seq<char>>),
    ComplexValue(SpecComplexField, Option<Seq<char>>),
    StringLiteral(Seq<char>, Option<Seq<char>>),
    Subquery(Box<SpecIrPlan>, Option<Seq<char>>),
    SubqueryVec(Seq<char>, Option<Seq<char>>),
}

pub struct SpecColumnRef {
    pub table: Option<Seq<char>>,
    pub column: Seq<char>,
}

pub struct SpecAggregateFunction {
    pub function: AggregateType,
    pub column: SpecColumnRef,
}

pub struct SpecComplexField {
    pub column_ref: Option<SpecColumnRef>,
    pub literal: Option<SpecLiteral>,
    pub aggregate: Option<SpecAggregateFunction>,
    pub nested_expr: Option<Box<SpecNestedExpr>>,
    pub subquery: Option<Box<SpecIrPlan>>,
    pub subquery_vec: Option<(Seq<char>, Seq<char>)>,
}

pub struct SpecNestedExpr {
    pub left: SpecComplexField,
    pub op: Seq<char>,
    pub right: SpecComplexField,
    pub parenthesized: bool,
}

pub enum SpecLiteral {
    Integer(i64),
    Float(Seq<char>),
    Str(Seq<char>),
    Boolean(bool),
}

pub struct SpecOrderByItem {
    pub column: SpecColumnRef,
    pub direction: OrderDirection,
    pub nulls_first: Option<bool>,
}

pub struct SpecCondition {
    pub left_field: SpecComplexField,
    pub operator: ComparisonOp,
    pub right_field: SpecComplexField,
}

pub struct SpecNullCondition {
    pub field: SpecComplexField,
    pub operator: NullOp,
}

pub enum SpecInCondition {
    Subquery { field: SpecComplexField, subquery: Box<SpecIrPlan>, negated: bool },
    Vec { field: SpecComplexField, vector_name: Seq<char>, vector_type: Seq<char>, negated: bool },
}

pub enum SpecExistsCondition {
    Subquery { subquery: Box<SpecIrPlan>, negated: bool },
    Vec { vector_name: Seq<char>, negated: bool },
}

impl Clone for FilterClause {
    fn clone(&self) -> Self {
        copy_filter(self)
    }
}

impl Clone for GroupClause {
    fn clone(&self) -> Self {
        copy_group(self)
    }
}

/// A copy of a filter, side by side.
fn copy_filter(f: &FilterClause) -> FilterClause
    decreases f,
{
    match f {
        FilterClause::Base(c) => FilterClause::Base(c.clone()),
        FilterClause::Expression { left, binary_op, right } => FilterClause::Expression {
            left: Box::new(copy_filter(left)),
            binary_op: *binary_op,
            right: Box::new(copy_filter(right)),
        },
    }
}

/// A copy of a group condition, side by side.
fn copy_group(g: &GroupClause) -> GroupClause
    decreases g,
{
    match g {
        GroupClause::Base(c) => GroupClause::Base(c.clone()),
        GroupClause::Expression { left, op, right } => GroupClause::Expression {
            left: Box::new(copy_group(left)),
            op: *op,
            right: Box::new(copy_group(right)),
        },
    }
}

// ---------------------------------------------------------------------------
// Views
// ---------------------------------------------------------------------------

pub open spec fn opt_str(o: Option<String>) -> Option<Seq<char>> {
    match o {
        Some(s) => Some(s@),
        None => None,
    }
}

pub open spec fn strs_view(s: Seq<String>) -> Seq<Seq<char>>
    decreases s.len(),
{
    if s.len() == 0 {
        Seq::empty()
    } else {
        strs_view(s.drop_last()).push(s.last()@)
    }
}

impl View for ColumnRef {
    type V = SpecColumnRef;

    open spec fn view(&self) -> SpecColumnRef {
        SpecColumnRef { table: opt_str(self.table), column: self.column@ }
    }
}

impl View for AggregateFunction {
    type V = SpecAggregateFunction;

    open spec fn view(&self) -> SpecAggregateFunction {
        SpecAggregateFunction { function: self.function, column: self.column@ }
    }
}

impl View for JoinCondition {
    type V = SpecJoinCondition;

    open spec fn view(&self) -> SpecJoinCondition {
        SpecJoinCondition { left_col: self.left_col@, right_col: self.right_col@ }
    }
}

impl View for OrderByItem {
    type V = SpecOrderByItem;

    open spec fn view(&self) -> SpecOrderByItem {
        SpecOrderByItem {
            column: self.column@,
            direction: self.direction,
            nulls_first: self.nulls_first,
        }
    }
}

impl View for FieldDef {
    type V = SpecFieldDef;

    open spec fn view(&self) -> SpecFieldDef {
        SpecFieldDef { name: self.name@, data_type: self.data_type }
    }
}

impl View for OptionValue {
    type V = SpecOptionValue;

    open spec fn view(&self) -> SpecOptionValue {
        match self {
            OptionValue::String(s) => SpecOptionValue::Str(s@),
            OptionValue::Number(s) => SpecOptionValue::Number(s@),
            OptionValue::Boolean(b) => SpecOptionValue::Boolean(*b),
            OptionValue::Variable(s) => SpecOptionValue::Variable(s@),
        }
    }
}

impl View for ConnectorOption {
    type V = SpecConnectorOption;

    open spec fn view(&self) -> SpecConnectorOption {
        SpecConnectorOption { key: self.key@, value: self.value@ }
    }
}

impl View for IrLiteral {
    type V = SpecLiteral;

    open spec fn view(&self) -> SpecLiteral {
        match self {
            IrLiteral::Integer(i) => SpecLiteral::Integer(*i),
            IrLiteral::Float(s) => SpecLiteral::Float(s@),
            IrLiteral::String(s) => SpecLiteral::Str(s@),
            IrLiteral::Boolean(b) => SpecLiteral::Boolean(*b),
        }
    }
}

pub open spec fn columns_view(s: Seq<ColumnRef>) -> Seq<SpecColumnRef>
    decreases s.len(),
{
    if s.len() == 0 {
        Seq::empty()
    } else {
        columns_view(s.drop_last()).push(s.last()@)
    }
}

pub open spec fn joins_view(s: Seq<JoinCondition>) -> Seq<SpecJoinCondition>
    decreases s.len(),
{
    if s.len() == 0 {
        Seq::empty()
    } else {
        joins_view(s.drop_last()).push(s.last()@)
    }
}

pub open spec fn order_items_view(s: Seq<OrderByItem>) -> Seq<SpecOrderByItem>
    decreases s.len(),
{
    if s.len() == 0 {
        Seq::empty()
    } else {
        order_items_view(s.drop_last()).push(s.last()@)
    }
}

pub open spec fn fields_view(s: Seq<FieldDef>) -> Seq<SpecFieldDef>
    decreases s.len(),
{
    if s.len() == 0 {
        Seq::empty()
    } else {
        fields_view(s.drop_last()).push(s.last()@)
    }
}

pub open spec fn options_view(s: Seq<ConnectorOption>) -> Seq<SpecConnectorOption>
    decreases s.len(),
{
    if s.len() == 0 {
        Seq::empty()
    } else {
        options_view(s.drop_last()).push(s.last()@)
    }
}

pub open spec fn plan_view(p: IrPlan) -> SpecIrPlan
    decreases p,
{
    match p {
        IrPlan::Source { source_name, alias } => SpecIrPlan::Source {
            source_name: source_name@,
            alias: opt_str(alias),
        },
        IrPlan::Filter { input, predicate } => SpecIrPlan::Filter {
            input: Box::new(plan_view(*input)),
            predicate: filter_view(predicate),
        },
        IrPlan::Mapping { input, projections } => SpecIrPlan::Mapping {
            input: Box::new(plan_view(*input)),
            projections: projections_view(projections@),
        },
        IrPlan::FlatMap { input, projection } => SpecIrPlan::FlatMap {
            input: Box::new(plan_view(*input)),
            projection: projection_view(projection),
        },
        IrPlan::GroupBy { input, keys, aggregations, having } => SpecIrPlan::GroupBy {
            input: Box::new(plan_view(*input)),
            keys: columns_view(keys@),
            aggregations: projections_view(aggregations@),
            having: match having {
                Some(h) => Some(group_view(h)),
                None => None,
            },
        },
        IrPlan::Join { left, right, condition, join_type } => SpecIrPlan::Join {
            left: Box::new(plan_view(*left)),
            right: Box::new(plan_view(*right)),
            condition: joins_view(condition@),
            join_type,
        },
        IrPlan::OrderBy { input, items } => SpecIrPlan::OrderBy {
            input: Box::new(plan_view(*input)),
            items: order_items_view(items@),
        },
        IrPlan::Limit { input, limit, offset } => SpecIrPlan::Limit {
            input: Box::new(plan_view(*input)),
            limit,
            offset,
        },
        IrPlan::Distinct { input } => SpecIrPlan::Distinct { input: Box::new(plan_view(*input)) },
    }
}

pub open spec fn projections_view(s: Seq<ProjectionColumn>) -> Seq<SpecProjectionColumn>
    decreases s,
{
    if s.len() == 0 {
        Seq::empty()
    } else {
        projections_view(s.drop_last()).push(projection_view(s.last()))
    }
}

pub open spec fn projection_view(p: ProjectionColumn) -> SpecProjectionColumn
    decreases p,
{
    match p {
        ProjectionColumn::Column(c, a) => SpecProjectionColumn::Column(c@, opt_str(a)),
        ProjectionColumn::Aggregate(g, a) => SpecProjectionColumn::Aggregate(g@, opt_str(a)),
        ProjectionColumn::ComplexValue(f, a) => SpecProjectionColumn::ComplexValue(
            field_view(f),
            opt_str(a),
        ),
        ProjectionColumn::StringLiteral(s, a) => SpecProjectionColumn::StringLiteral(
            s@,
            opt_str(a),
        ),
        ProjectionColumn::Subquery(q, a) => SpecProjectionColumn::Subquery(
            Box::new(plan_view(*q)),
            opt_str(a),
        ),
        ProjectionColumn::SubqueryVec(n, a) => SpecProjectionColumn::SubqueryVec(n@, opt_str(a)),
    }
}

pub open spec fn filter_view(f: FilterClause) -> SpecFilterClause
    decreases f,
{
    match f {
        FilterClause::Base(c) => SpecFilterClause::Base(filter_condition_view(c)),
        FilterClause::Expression { left, binary_op, right } => SpecFilterClause::Expression {
            left: Box::new(filter_view(*left)),
            binary_op,
            right: Box::new(filter_view(*right)),
        },
    }
}

pub open spec fn filter_condition_view(c: FilterConditionType) -> SpecConditionType
    decreases c,
{
    match c {
        FilterConditionType::Comparison(x) => SpecConditionType::Comparison(condition_view(x)),
        FilterConditionType::NullCheck(x) => SpecConditionType::NullCheck(null_condition_view(x)),
        FilterConditionType::In(x) => SpecConditionType::In(in_condition_view(x)),
        FilterConditionType::Exists(x) => SpecConditionType::Exists(exists_condition_view(x)),
        FilterConditionType::Boolean(b) => SpecConditionType::Boolean(b),
    }
}

pub open spec fn group_view(g: GroupClause) -> SpecGroupClause
    decreases g,
{
    match g {
        GroupClause::Base(c) => SpecGroupClause::Base(group_condition_view(c)),
        GroupClause::Expression { left, op, right } => SpecGroupClause::Expression {
            left: Box::new(group_view(*left)),
            op,
            right: Box::new(group_view(*right)),
        },
    }
}

pub open spec fn group_condition_view(c: GroupBaseCondition) -> SpecConditionType
    decreases c,
{
    match c {
        GroupBaseCondition::Comparison(x) => SpecConditionType::Comparison(condition_view(x)),
        GroupBaseCondition::NullCheck(x) => SpecConditionType::NullCheck(null_condition_view(x)),
        GroupBaseCondition::In(x) => SpecConditionType::In(in_condition_view(x)),
        GroupBaseCondition::Exists(x) => SpecConditionType::Exists(exists_condition_view(x)),
        GroupBaseCondition::Boolean(b) => SpecConditionType::Boolean(b),
    }
}

pub open spec fn condition_view(c: Condition) -> SpecCondition
    decreases c,
{
    SpecCondition {
        left_field: field_view(c.left_field),
        operator: c.operator,
        right_field: field_view(c.right_field),
    }
}

pub open spec fn null_condition_view(c: NullCondition) -> SpecNullCondition
    decreases c,
{
    SpecNullCondition { field: field_view(c.field), operator: c.operator }
}

pub open spec fn in_condition_view(c: InCondition) -> SpecInCondition
    decreases c,
{
    match c {
        InCondition::Subquery { field, subquery, negated } => SpecInCondition::Subquery {
            field: field_view(field),
            subquery: Box::new(plan_view(*subquery)),
            negated,
        },
        InCondition::Vec { field, vector_name, vector_type, negated } => SpecInCondition::Vec {
            field: field_view(field),
            vector_name: vector_name@,
            vector_type: vector_type@,
            negated,
        },
    }
}

pub open spec fn exists_condition_view(c: ExistsCondition) -> SpecExistsCondition
    decreases c,
{
    match c {
        ExistsCondition::Subquery { subquery, negated } => SpecExistsCondition::Subquery {
            subquery: Box::new(plan_view(*subquery)),
            negated,
        },
        ExistsCondition::Vec { vector_name, negated } => SpecExistsCondition::Vec {
            vector_name: vector_name@,
            negated,
        },
    }
}

pub open spec fn field_view(f: ComplexField) -> SpecComplexField
    decreases f,
{
    SpecComplexField {
        column_ref: match f.column_ref {
            Some(c) => Some(c@),
            None => None,
        },
        literal: match f.literal {
            Some(l) => Some(l@),
            None => None,
        },
        aggregate: match f.aggregate {
            Some(g) => Some(g@),
            None => None,
        },
        nested_expr: match f.nested_expr {
            Some(b) => Some(
                Box::new(
                    SpecNestedExpr {
                        left: field_view(b.0),
                        op: b.1@,
                        right: field_view(b.2),
                        parenthesized: b.3,
                    },
                ),
            ),
            None => None,
        },
        subquery: match f.subquery {
            Some(q) => Some(Box::new(plan_view(*q))),
            None => None,
        },
        subquery_vec: match f.subquery_vec {
            Some(p) => Some((p.0@, p.1@)),
            None => None,
        },
    }
}

impl View for IrPlan {
    type V = SpecIrPlan;

    open spec fn view(&self) -> SpecIrPlan {
        plan_view(*self)
    }
}

impl View for ProjectionColumn {
    type V = SpecProjectionColumn;

    open spec fn view(&self) -> SpecProjectionColumn {
        projection_view(*self)
    }
}

impl View for FilterClause {
    type V = SpecFilterClause;

    open spec fn view(&self) -> SpecFilterClause {
        filter_view(*self)
    }
}

impl View for FilterConditionType {
    type V = SpecConditionType;

    open spec fn view(&self) -> SpecConditionType {
        filter_condition_view(*self)
    }
}

impl View for GroupClause {
    type V = SpecGroupClause;

    open spec fn view(&self) -> SpecGroupClause {
        group_view(*self)
    }
}

impl View for GroupBaseCondition {
    type V = SpecConditionType;

    open spec fn view(&self) -> SpecConditionType {
        group_condition_view(*self)
    }
}

impl View for Condition {
    type V = SpecCondition;

    open spec fn view(&self) -> SpecCondition {
        condition_view(*self)
    }
}

impl View for NullCondition {
    type V = SpecNullCondition;

    open spec fn view(&self) -> SpecNullCondition {
        null_condition_view(*self)
    }
}

impl View for InCondition {
    type V = SpecInCondition;

    open spec fn view(&self) -> SpecInCondition {
        in_condition_view(*self)
    }
}

impl View for ExistsCondition {
    type V = SpecExistsCondition;

    open spec fn view(&self) -> SpecExistsCondition {
        exists_condition_view(*self)
    }
}

impl View for ComplexField {
    type V = SpecComplexField;

    open spec fn view(&self) -> SpecComplexField {
        field_view(*self)
    }
}

impl View for ConnectorConfig {
    type V = SpecConnectorConfig;

    open spec fn view(&self) -> SpecConnectorConfig {
        SpecConnectorConfig {
            connector_type: self.connector_type@,
            options: options_view(self.options@),
        }
    }
}

impl View for SourceDef {
    type V = SpecSourceDef;

    open spec fn view(&self) -> SpecSourceDef {
        SpecSourceDef {
            name: self.name@,
            schema: fields_view(self.schema@),
            connector: self.connector@,
        }
    }
}

impl View for SinkDef {
    type V = SpecSinkDef;

    open spec fn view(&self) -> SpecSinkDef {
        SpecSinkDef { name: self.name@, schema: fields_view(self.schema@), connector: self.connector@ }
    }
}

impl View for Pipeline {
    type V = SpecPipeline;

    open spec fn view(&self) -> SpecPipeline {
        SpecPipeline {
            sink_name: self.sink_name@,
            sink_columns: strs_view(self.sink_columns@),
            plan: plan_view(*self.plan),
        }
    }
}

pub open spec fn sources_view(s: Seq<SourceDef>) -> Seq<SpecSourceDef>
    decreases s.len(),
{
    if s.len() == 0 {
        Seq::empty()
    } else {
        sources_view(s.drop_last()).push(s.last()@)
    }
}

pub open spec fn sinks_view(s: Seq<SinkDef>) -> Seq<SpecSinkDef>
    decreases s.len(),
{
    if s.len() == 0 {
        Seq::empty()
    } else {
        sinks_view(s.drop_last()).push(s.last()@)
    }
}

pub open spec fn pipelines_view(s: Seq<Pipeline>) -> Seq<SpecPipeline>
    decreases s.len(),
{
    if s.len() == 0 {
        Seq::empty()
    } else {
        pipelines_view(s.drop_last()).push(s.last()@)
    }
}

impl View for Program {
    type V = SpecProgram;

    open spec fn view(&self) -> SpecProgram {
        SpecProgram {
            sources: sources_view(self.sources@),
            sinks: sinks_view(self.sinks@),
            pipelines: pipelines_view(self.pipelines@),
        }
    }
}

// ---------------------------------------------------------------------------
// Facts about the sequence views
// ---------------------------------------------------------------------------

pub proof fn lemma_columns_view_push(s: Seq<ColumnRef>, x: ColumnRef)
    ensures
        columns_view(s.push(x)) == columns_view(s).push(x@),
        columns_view(Seq::empty()) == Seq::<SpecColumnRef>::empty(),
{
    assert(s.push(x).drop_last() =~= s);
}

pub proof fn lemma_joins_view_push(s: Seq<JoinCondition>, x: JoinCondition)
    ensures
        joins_view(s.push(x)) == joins_view(s).push(x@),
        joins_view(Seq::empty()) == Seq::<SpecJoinCondition>::empty(),
{
    assert(s.push(x).drop_last() =~= s);
}

pub proof fn lemma_order_items_view_push(s: Seq<OrderByItem>, x: OrderByItem)
    ensures
        order_items_view(s.push(x)) == order_items_view(s).push(x@),
        order_items_view(Seq::empty()) == Seq::<SpecOrderByItem>::empty(),
{
    assert(s.push(x).drop_last() =~= s);
}

pub proof fn lemma_fields_view_push(s: Seq<FieldDef>, x: FieldDef)
    ensures
        fields_view(s.push(x)) == fields_view(s).push(x@),
        fields_view(Seq::empty()) == Seq::<SpecFieldDef>::empty(),
{
    assert(s.push(x).drop_last() =~= s);
}

pub proof fn lemma_options_view_push(s: Seq<ConnectorOption>, x: ConnectorOption)
    ensures
        options_view(s.push(x)) == options_view(s).push(x@),
        options_view(Seq::empty()) == Seq::<SpecConnectorOption>::empty(),
{
    assert(s.push(x).drop_last() =~= s);
}

/// The view of the list holds the view of each element, in place.
pub proof fn lemma_sources_view_index(s: Seq<SourceDef>)
    ensures
        sources_view(s).len() == s.len(),
        forall|i: int| 0 <= i < s.len() ==> #[trigger] sources_view(s)[i] == s[i]@,
    decreases s.len(),
{
    if s.len() > 0 {
        lemma_sources_view_index(s.drop_last());
    }
}

/// The view of the list holds the view of each element, in place.
pub proof fn lemma_projections_view_index(s: Seq<ProjectionColumn>)
    ensures
        projections_view(s).len() == s.len(),
        forall|i: int| 0 <= i < s.len() ==> #[trigger] projections_view(s)[i] == projection_view(s[i]),
    decreases s.len(),
{
    if s.len() > 0 {
        lemma_projections_view_index(s.drop_last());
    }
}

/// The view of the list holds the view of each element, in place.
pub proof fn lemma_columns_view_index(s: Seq<ColumnRef>)
    ensures
        columns_view(s).len() == s.len(),
        forall|i: int| 0 <= i < s.len() ==> #[trigger] columns_view(s)[i] == s[i]@,
    decreases s.len(),
{
    if s.len() > 0 {
        lemma_columns_view_index(s.drop_last());
    }
}

/// The view of the list holds the view of each element, in place.
pub proof fn lemma_strs_view_index(s: Seq<String>)
    ensures
        strs_view(s).len() == s.len(),
        forall|i: int| 0 <= i < s.len() ==> #[trigger] strs_view(s)[i] == s[i]@,
    decreases s.len(),
{
    if s.len() > 0 {
        lemma_strs_view_index(s.drop_last());
    }
}

/// The view of the list holds the view of each element, in place.
pub proof fn lemma_fields_view_index(s: Seq<FieldDef>)
    ensures
        fields_view(s).len() == s.len(),
        forall|i: int| 0 <= i < s.len() ==> #[trigger] fields_view(s)[i] == s[i]@,
    decreases s.len(),
{
    if s.len() > 0 {
        lemma_fields_view_index(s.drop_last());
    }
}

/// The view of the list holds the view of each element, in place.
pub proof fn lemma_pipelines_view_index(s: Seq<Pipeline>)
    ensures
        pipelines_view(s).len() == s.len(),
        forall|i: int| 0 <= i < s.len() ==> #[trigger] pipelines_view(s)[i] == s[i]@,
    decreases s.len(),
{
    if s.len() > 0 {
        lemma_pipelines_view_index(s.drop_last());
    }
}

/// The view of the list holds the view of each element, in place.
pub proof fn lemma_sinks_view_index(s: Seq<SinkDef>)
    ensures
        sinks_view(s).len() == s.len(),
        forall|i: int| 0 <= i < s.len() ==> #[trigger] sinks_view(s)[i] == s[i]@,
    decreases s.len(),
{
    if s.len() > 0 {
        lemma_sinks_view_index(s.drop_last());
    }
}

/// The view of a list of options holds the view of each option, in place.
pub proof fn lemma_options_view_index(s: Seq<ConnectorOption>)
    ensures
        options_view(s).len() == s.len(),
        forall|i: int| 0 <= i < s.len() ==> #[trigger] options_view(s)[i] == s[i]@,
    decreases s.len(),
{
    if s.len() > 0 {
        lemma_options_view_index(s.drop_last());
    }
}

pub proof fn lemma_strs_view_push(s: Seq<String>, x: String)
    ensures
        strs_view(s.push(x)) == strs_view(s).push(x@),
        strs_view(Seq::empty()) == Seq::<Seq<char>>::empty(),
{
    assert(s.push(x).drop_last() =~= s);
}

pub proof fn lemma_projections_view_push(s: Seq<ProjectionColumn>, x: ProjectionColumn)
    ensures
        projections_view(s.push(x)) == projections_view(s).push(projection_view(x)),
        projections_view(Seq::empty()) == Seq::<SpecProjectionColumn>::empty(),
{
    assert(s.push(x).drop_last() =~= s);
}

pub proof fn lemma_sources_view_push(s: Seq<SourceDef>, x: SourceDef)
    ensures
        sources_view(s.push(x)) == sources_view(s).push(x@),
        sources_view(Seq::empty()) == Seq::<SpecSourceDef>::empty(),
{
    assert(s.push(x).drop_last() =~= s);
}

pub proof fn lemma_sinks_view_push(s: Seq<SinkDef>, x: SinkDef)
    ensures
        sinks_view(s.push(x)) == sinks_view(s).push(x@),
        sinks_view(Seq::empty()) == Seq::<SpecSinkDef>::empty(),
{
    assert(s.push(x).drop_last() =~= s);
}

pub proof fn lemma_pipelines_view_push(s: Seq<Pipeline>, x: Pipeline)
    ensures
        pipelines_view(s.push(x)) == pipelines_view(s).push(x@),
        pipelines_view(Seq::empty()) == Seq::<SpecPipeline>::empty(),
{
    assert(s.push(x).drop_last() =~= s);
}

// ---------------------------------------------------------------------------
// Operations on the IR
// ---------------------------------------------------------------------------

impl IrPlan {
    pub fn filter(input: Arc<IrPlan>, predicate: FilterClause) -> (r: Self)
        ensures
            r == (IrPlan::Filter { input, predicate }),
    {
        IrPlan::Filter { input, predicate }
    }

    pub fn map(input: Arc<IrPlan>, projections: Vec<ProjectionColumn>) -> (r: Self)
        ensures
            r == (IrPlan::Mapping { input, projections }),
    {
        IrPlan::Mapping { input, projections }
    }

    pub fn flat_map(input: Arc<IrPlan>, projection: ProjectionColumn) -> (r: Self)
        ensures
            r == (IrPlan::FlatMap { input, projection }),
    {
        IrPlan::FlatMap { input, projection }
    }

    pub fn group_by(
        input: Arc<IrPlan>,
        keys: Vec<ColumnRef>,
        aggregations: Vec<ProjectionColumn>,
        having: Option<GroupClause>,
    ) -> (r: Self)
        ensures
            r == (IrPlan::GroupBy { input, keys, aggregations, having }),
    {
        IrPlan::GroupBy { input, keys, aggregations, having }
    }

    pub fn order_by(input: Arc<IrPlan>, items: Vec<OrderByItem>) -> (r: Self)
        ensures
            r == (IrPlan::OrderBy { input, items }),
    {
        IrPlan::OrderBy { input, items }
    }

    pub fn limit(input: Arc<IrPlan>, limit: i64, offset: Option<i64>) -> (r: Self)
        ensures
            r == (IrPlan::Limit { input, limit, offset }),
    {
        IrPlan::Limit { input, limit, offset }
    }

    pub fn distinct(input: Arc<IrPlan>) -> (r: Self)
        ensures
            r == (IrPlan::Distinct { input }),
    {
        IrPlan::Distinct { input }
    }
}

impl Program {
    pub fn new() -> (p: Self)
        ensures
            p.sources@.len() == 0,
            p.sinks@.len() == 0,
            p.pipelines@.len() == 0,
    {
        Program { sources: Vec::new(), sinks: Vec::new(), pipelines: Vec::new() }
    }

    pub fn add_source(&mut self, source: SourceDef)
        ensures
            final(self).sources@ == old(self).sources@.push(source),
            final(self).sinks@ == old(self).sinks@,
            final(self).pipelines@ == old(self).pipelines@,
    {
        self.sources.push(source);
    }

    pub fn add_sink(&mut self, sink: SinkDef)
        ensures
            final(self).sinks@ == old(self).sinks@.push(sink),
            final(self).sources@ == old(self).sources@,
            final(self).pipelines@ == old(self).pipelines@,
    {
        self.sinks.push(sink);
    }

    pub fn add_pipeline(&mut self, pipeline: Pipeline)
        ensures
            final(self).pipelines@ == old(self).pipelines@.push(pipeline),
            final(self).sources@ == old(self).sources@,
            final(self).sinks@ == old(self).sinks@,
    {
        self.pipelines.push(pipeline);
    }
}

// ---------------------------------------------------------------------------
// Shared plan nodes
// ---------------------------------------------------------------------------

/// `Arc::clone`: another handle to the same plan node, so the same plan.
#[verifier::external_body]
pub(crate) fn share_plan(a: &Arc<IrPlan>) -> (r: Arc<IrPlan>)
    ensures
        r == *a,
{
    Arc::clone(a)
}

/// `Arc::ptr_eq`: whether two handles point to the same plan node. Two
/// handles of one node hold one plan; nothing is stated when the nodes
/// differ, since equal plans may sit in different nodes.
#[verifier::external_body]
pub(crate) fn same_node(a: &Arc<IrPlan>, b: &Arc<IrPlan>) -> (r: bool)
    ensures
        r ==> *a == *b,
{
    Arc::ptr_eq(a, b)
}

} // verus!
