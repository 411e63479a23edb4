//! The operator chain generated for a plan.
use crate::ir::{
    BinaryOp, ComparisonOp, ComplexField, Condition, ExistsCondition, FilterClause,
    FilterConditionType, InCondition, IrLiteral, IrPlan, NullCondition, NullOp, Pipeline,
    ProjectionColumn, SpecComplexField, SpecConditionType, SpecExistsCondition, SpecFilterClause,
    SpecInCondition, SpecIrPlan, SpecLiteral, SpecProjectionColumn, field_view, filter_view,
    projections_view,
};
use crate::text::nat_text;
use crate::utils::naming::NameGenerator;
use std::sync::Arc;
use vstd::prelude::*;

verus! {

/// A value in a generated predicate.
#[derive(Debug)]
pub enum Operand {
    /// The record's field of this name.
    Field(String),
    /// An integer, written without a type suffix.
    Int(i64),
    /// A float, as written.
    Float(String),
    /// A string, as an owned `String`.
    Str(String),
    Bool(bool),
    /// A field that is neither a column nor a literal stands for `0`.
    Zero,
}

/// A generated predicate on a record.
#[derive(Debug)]
pub enum PredicateCode {
    Compare(Operand, ComparisonOp, Operand),
    /// Evaluates the operand, and is false.
    IsNull(Operand),
    /// Evaluates the operand, and is true.
    IsNotNull(Operand),
    /// Holds of every record, or of none.
    Always(bool),
    /// The operand is (or, negated, is not) among the results of a
    /// subquery, held in the named variable.
    InResult(Operand, bool, String),
    /// The subquery whose results are held in the named variable has (or,
    /// negated, has no) result.
    ExistsResult(bool, String),
    /// The operand is (or, negated, is not) in the named vector.
    InVec(Operand, bool, String),
    /// The named vector is not empty (or, negated, is empty).
    ExistsVec(bool, String),
    And(Box<PredicateCode>, Box<PredicateCode>),
    Or(Box<PredicateCode>, Box<PredicateCode>),
}

/// A generated projection of a record.
#[derive(Debug)]
pub enum ProjectionCode {
    /// The record's field of this name.
    Field(String),
    /// The record itself.
    Whole,
}

/// A generated operator chain.
#[derive(Debug)]
pub enum PlanCode {
    /// The stream variable of a source.
    Stream(String),
    Filter(Box<PlanCode>, PredicateCode),
    Project(Box<PlanCode>, ProjectionCode),
    /// Records from `offset` on (zero without one), at most `limit` of them.
    Limit(Box<PlanCode>, usize, Option<usize>),
    /// Each record once.
    Distinct(Box<PlanCode>),
    /// An operation without generated code: a flat map, grouping, join or ordering.
    Unsupported,
}

/// `o` is how a field is read: a column by its name (without its table),
/// else a literal, else `0`.
pub open spec fn is_operand(o: Operand, f: SpecComplexField) -> bool {
    match f.column_ref {
        Some(c) => o matches Operand::Field(n) && n@ == c.column,
        None => match f.literal {
            Some(SpecLiteral::Integer(i)) => o == Operand::Int(i),
            Some(SpecLiteral::Float(s)) => o matches Operand::Float(t) && t@ == s,
            Some(SpecLiteral::Str(s)) => o matches Operand::Str(t) && t@ == s,
            Some(SpecLiteral::Boolean(b)) => o == Operand::Bool(b),
            None => o == Operand::Zero,
        },
    }
}

/// The name of the variable holding the results of subquery `k`.
pub open spec fn result_name(k: int) -> Seq<char> {
    seq!['s', 'u', 'b', 'q', 'u', 'e', 'r', 'y', '_'] + nat_text(k as nat) + seq![
        '_',
        'r',
        'e',
        's',
        'u',
        'l',
        't',
    ]
}

/// The name of the variable holding the collected stream of subquery `k`.
pub open spec fn data_name(k: int) -> Seq<char> {
    seq!['s', 'u', 'b', 'q', 'u', 'e', 'r', 'y', '_'] + nat_text(k as nat) + seq![
        '_',
        'd',
        'a',
        't',
        'a',
    ]
}

/// The subqueries the code of a plan runs before its own chain, in the
/// order they run: those of a filter's input, then those of its own
/// conditions; for a condition, the subqueries of the subquery's own plan,
/// then the subquery itself. Operations without generated code run none.
pub open spec fn plan_runs(p: SpecIrPlan) -> Seq<SpecIrPlan>
    decreases p,
{
    match p {
        SpecIrPlan::Filter { input, predicate } => plan_runs(*input) + filter_runs(predicate),
        SpecIrPlan::Mapping { input, .. } => plan_runs(*input),
        SpecIrPlan::Limit { input, .. } => plan_runs(*input),
        SpecIrPlan::Distinct { input } => plan_runs(*input),
        _ => Seq::empty(),
    }
}

/// The subqueries the predicate of a filter runs, in the order they run.
pub open spec fn filter_runs(f: SpecFilterClause) -> Seq<SpecIrPlan>
    decreases f,
{
    match f {
        SpecFilterClause::Base(c) => match c {
            SpecConditionType::In(SpecInCondition::Subquery { subquery, .. }) => plan_runs(
                *subquery,
            ).push(*subquery),
            SpecConditionType::Exists(SpecExistsCondition::Subquery { subquery, .. }) => plan_runs(
                *subquery,
            ).push(*subquery),
            _ => Seq::empty(),
        },
        SpecFilterClause::Expression { left, right, .. } => filter_runs(*left) + filter_runs(
            *right,
        ),
    }
}

/// `p` is the predicate of a filter whose subqueries are numbered from
/// `base` on, in the order they run: comparisons and null checks of its
/// operands; a constant for a boolean; for `IN` a membership test of the
/// operand in the subquery's results or in the named vector; for `EXISTS`
/// a test that the subquery's results or the named vector are not empty
/// (each the other way round when negated); `&&` / `||` of the two sides of
/// an expression.
pub open spec fn is_predicate(p: PredicateCode, f: SpecFilterClause, base: int) -> bool
    decreases f,
{
    match f {
        SpecFilterClause::Base(c) => match c {
            SpecConditionType::Comparison(cd) => p matches PredicateCode::Compare(l, op, r) && op
                == cd.operator && is_operand(l, cd.left_field) && is_operand(r, cd.right_field),
            SpecConditionType::NullCheck(n) => match n.operator {
                NullOp::IsNull => p matches PredicateCode::IsNull(o) && is_operand(o, n.field),
                NullOp::IsNotNull => p matches PredicateCode::IsNotNull(o) && is_operand(o, n.field),
            },
            SpecConditionType::Boolean(b) => p == PredicateCode::Always(b),
            SpecConditionType::In(SpecInCondition::Subquery { field, subquery, negated }) => p matches PredicateCode::InResult(o, neg, v)
                && is_operand(o, field) && neg == negated && v@ == result_name(
                base + plan_runs(*subquery).len(),
            ),
            SpecConditionType::In(SpecInCondition::Vec { field, vector_name, negated, .. }) => p matches PredicateCode::InVec(o, neg, v)
                && is_operand(o, field) && neg == negated && v@ == vector_name,
            SpecConditionType::Exists(SpecExistsCondition::Subquery { subquery, negated }) => p matches PredicateCode::ExistsResult(neg, v)
                && neg == negated && v@ == result_name(base + plan_runs(*subquery).len()),
            SpecConditionType::Exists(SpecExistsCondition::Vec { vector_name, negated }) => p matches PredicateCode::ExistsVec(neg, v)
                && neg == negated && v@ == vector_name,
        },
        SpecFilterClause::Expression { left, binary_op, right } => match binary_op {
            BinaryOp::And => p matches PredicateCode::And(a, b) && is_predicate(*a, *left, base)
                && is_predicate(*b, *right, base + filter_runs(*left).len()),
            BinaryOp::Or => p matches PredicateCode::Or(a, b) && is_predicate(*a, *left, base)
                && is_predicate(*b, *right, base + filter_runs(*left).len()),
        },
    }
}

/// `m` is the projection of a list of columns: a single plain column is
/// its field; anything else keeps the whole record.
pub open spec fn is_projection(m: ProjectionCode, ps: Seq<SpecProjectionColumn>) -> bool {
    if ps.len() == 1 && ps[0] is Column {
        m matches ProjectionCode::Field(n) && n@ == ps[0]->Column_0.column
    } else {
        m == ProjectionCode::Whole
    }
}

/// `c` is the operator chain of a plan whose subqueries are numbered from
/// `base` on: a source's stream variable `name_source`; a filter,
/// projection, limit or distinct on the chain of its input (a limit keeps
/// the records `limit_keeps` says); any other operation is not covered.
pub open spec fn is_plan_code(c: PlanCode, p: SpecIrPlan, base: int) -> bool
    decreases p,
{
    match p {
        SpecIrPlan::Source { source_name, .. } => c matches PlanCode::Stream(v) && v@ == source_name
            + "_source"@,
        SpecIrPlan::Filter { input, predicate } => c matches PlanCode::Filter(i, pr)
            && is_plan_code(*i, *input, base) && is_predicate(
            pr,
            predicate,
            base + plan_runs(*input).len(),
        ),
        SpecIrPlan::Mapping { input, projections } => c matches PlanCode::Project(i, m)
            && is_plan_code(*i, *input, base) && is_projection(m, projections),
        SpecIrPlan::Limit { input, limit, offset } => c matches PlanCode::Limit(i, l, o)
            && is_plan_code(*i, *input, base) && l == limit as usize && o == match offset {
            Some(x) => Some(x as usize),
            None => None,
        },
        SpecIrPlan::Distinct { input } => c matches PlanCode::Distinct(i) && is_plan_code(
            *i,
            *input,
            base,
        ),
        _ => c == PlanCode::Unsupported,
    }
}

/// Which records a limit keeps, by their position `idx` in its input
/// (counting from zero): those from `offset` on (zero without one), at most
/// `limit` of them.
pub open spec fn limit_keeps(idx: int, limit: usize, offset: Option<usize>) -> bool {
    match offset {
        Some(m) => m <= idx < m + limit,
        None => 0 <= idx < limit,
    }
}

/// `a` and `b` are the same operand, texts compared by their characters.
pub open spec fn same_operand(a: Operand, b: Operand) -> bool {
    match a {
        Operand::Field(x) => b matches Operand::Field(y) && x@ == y@,
        Operand::Float(x) => b matches Operand::Float(y) && x@ == y@,
        Operand::Str(x) => b matches Operand::Str(y) && x@ == y@,
        _ => a == b,
    }
}

/// `a` and `b` are the same predicate, texts compared by their characters.
pub open spec fn same_predicate(a: PredicateCode, b: PredicateCode) -> bool
    decreases a,
{
    match a {
        PredicateCode::Compare(l, op, r) => b matches PredicateCode::Compare(l2, op2, r2)
            && same_operand(l, l2) && op == op2 && same_operand(r, r2),
        PredicateCode::IsNull(o) => b matches PredicateCode::IsNull(o2) && same_operand(o, o2),
        PredicateCode::IsNotNull(o) => b matches PredicateCode::IsNotNull(o2) && same_operand(o, o2),
        PredicateCode::Always(x) => b == PredicateCode::Always(x),
        PredicateCode::InResult(o, n, v) => b matches PredicateCode::InResult(o2, n2, v2)
            && same_operand(o, o2) && n == n2 && v@ == v2@,
        PredicateCode::ExistsResult(n, v) => b matches PredicateCode::ExistsResult(n2, v2) && n
            == n2 && v@ == v2@,
        PredicateCode::InVec(o, n, v) => b matches PredicateCode::InVec(o2, n2, v2) && same_operand(
            o,
            o2,
        ) && n == n2 && v@ == v2@,
        PredicateCode::ExistsVec(n, v) => b matches PredicateCode::ExistsVec(n2, v2) && n == n2
            && v@ == v2@,
        PredicateCode::And(x, y) => b matches PredicateCode::And(x2, y2) && same_predicate(*x, *x2)
            && same_predicate(*y, *y2),
        PredicateCode::Or(x, y) => b matches PredicateCode::Or(x2, y2) && same_predicate(*x, *x2)
            && same_predicate(*y, *y2),
    }
}

/// `a` and `b` are the same projection, texts compared by their characters.
pub open spec fn same_projection(a: ProjectionCode, b: ProjectionCode) -> bool {
    match a {
        ProjectionCode::Field(x) => b matches ProjectionCode::Field(y) && x@ == y@,
        ProjectionCode::Whole => b == ProjectionCode::Whole,
    }
}

/// `a` and `b` are the same operator chain, texts compared by their
/// characters.
pub open spec fn same_code(a: PlanCode, b: PlanCode) -> bool
    decreases a,
{
    match a {
        PlanCode::Stream(x) => b matches PlanCode::Stream(y) && x@ == y@,
        PlanCode::Filter(i, p) => b matches PlanCode::Filter(i2, p2) && same_code(*i, *i2)
            && same_predicate(p, p2),
        PlanCode::Project(i, m) => b matches PlanCode::Project(i2, m2) && same_code(*i, *i2)
            && same_projection(m, m2),
        PlanCode::Limit(i, l, o) => b matches PlanCode::Limit(i2, l2, o2) && same_code(*i, *i2)
            && l == l2 && o == o2,
        PlanCode::Distinct(i) => b matches PlanCode::Distinct(i2) && same_code(*i, *i2),
        PlanCode::Unsupported => b == PlanCode::Unsupported,
    }
}

proof fn lemma_predicate_unique(a: PredicateCode, b: PredicateCode, f: SpecFilterClause, base: int)
    requires
        is_predicate(a, f, base),
        is_predicate(b, f, base),
    ensures
        same_predicate(a, b),
    decreases f,
{
    match f {
        SpecFilterClause::Base(_) => {},
        SpecFilterClause::Expression { left, right, .. } => {
            match a {
                PredicateCode::And(x, y) => match b {
                    PredicateCode::And(x2, y2) => {
                        lemma_predicate_unique(*x, *x2, *left, base);
                        lemma_predicate_unique(*y, *y2, *right, base + filter_runs(*left).len());
                    },
                    _ => {},
                },
                PredicateCode::Or(x, y) => match b {
                    PredicateCode::Or(x2, y2) => {
                        lemma_predicate_unique(*x, *x2, *left, base);
                        lemma_predicate_unique(*y, *y2, *right, base + filter_runs(*left).len());
                    },
                    _ => {},
                },
                _ => {},
            }
        },
    }
}

/// The code of a plan is unique: two operator chains of the same plan, with
/// its subqueries numbered from the same `base`, are the same chain.
pub proof fn lemma_plan_code_unique(a: PlanCode, b: PlanCode, p: SpecIrPlan, base: int)
    requires
        is_plan_code(a, p, base),
        is_plan_code(b, p, base),
    ensures
        same_code(a, b),
    decreases p,
{
    match p {
        SpecIrPlan::Filter { input, predicate } => match a {
            PlanCode::Filter(i, pr) => match b {
                PlanCode::Filter(i2, pr2) => {
                    lemma_plan_code_unique(*i, *i2, *input, base);
                    lemma_predicate_unique(pr, pr2, predicate, base + plan_runs(*input).len());
                },
                _ => {},
            },
            _ => {},
        },
        SpecIrPlan::Mapping { input, .. } => match a {
            PlanCode::Project(i, _) => match b {
                PlanCode::Project(i2, _) => {
                    lemma_plan_code_unique(*i, *i2, *input, base);
                },
                _ => {},
            },
            _ => {},
        },
        SpecIrPlan::Limit { input, .. } => match a {
            PlanCode::Limit(i, _, _) => match b {
                PlanCode::Limit(i2, _, _) => {
                    lemma_plan_code_unique(*i, *i2, *input, base);
                },
                _ => {},
            },
            _ => {},
        },
        SpecIrPlan::Distinct { input } => match a {
            PlanCode::Distinct(i) => match b {
                PlanCode::Distinct(i2) => {
                    lemma_plan_code_unique(*i, *i2, *input, base);
                },
                _ => {},
            },
            _ => {},
        },
        _ => {},
    }
}

/// The run of one subquery: its number, the variables that hold its
/// collected stream and its results, and its operator chain.
#[derive(Debug)]
pub struct SubqueryExec {
    pub id: usize,
    pub data_var: String,
    pub result_var: String,
    pub chain: PlanCode,
}

/// From position `start` on, `execs` runs the subqueries `runs` in order:
/// the run at position `k` is numbered `k`, names its variables after `k`,
/// and is the chain of its subquery, whose own subqueries are the runs just
/// before it.
pub open spec fn is_run_list(execs: Seq<SubqueryExec>, start: int, runs: Seq<SpecIrPlan>) -> bool {
    &&& 0 <= start
    &&& start + runs.len() <= execs.len()
    &&& forall|t: int| 0 <= t < runs.len() ==> is_run_at(execs, start + t, #[trigger] runs[t])
}

/// The run at position `k` is numbered `k`, names its variables after `k`,
/// and is the chain of `run`, whose own subqueries are the runs just
/// before it.
pub open spec fn is_run_at(execs: Seq<SubqueryExec>, k: int, run: SpecIrPlan) -> bool {
    &&& execs[k].id == k
    &&& execs[k].result_var@ == result_name(k)
    &&& execs[k].data_var@ == data_name(k)
    &&& is_plan_code(execs[k].chain, run, k - plan_runs(run).len())
}

proof fn lemma_run_list_concat(e: Seq<SubqueryExec>, s: int, a: Seq<SpecIrPlan>, b: Seq<SpecIrPlan>)
    requires
        is_run_list(e, s, a),
        is_run_list(e, s + a.len(), b),
    ensures
        is_run_list(e, s, a + b),
{
    assert forall|t: int| 0 <= t < (a + b).len() implies is_run_at(e, s + t, #[trigger] (a + b)[t]) by {
        if t < a.len() {
            assert((a + b)[t] == a[t]);
        } else {
            assert((a + b)[t] == b[t - a.len()]);
            assert(is_run_at(e, s + a.len() + (t - a.len()), b[t - a.len()]));
        }
    }
}

proof fn lemma_run_list_kept(old_e: Seq<SubqueryExec>, e: Seq<SubqueryExec>, s: int, a: Seq<SpecIrPlan>)
    requires
        is_run_list(old_e, s, a),
        old_e.len() <= e.len(),
        forall|k: int| 0 <= k < old_e.len() ==> #[trigger] e[k] == old_e[k],
    ensures
        is_run_list(e, s, a),
{
    assert forall|t: int| 0 <= t < a.len() implies is_run_at(e, s + t, #[trigger] a[t]) by {
        assert(is_run_at(old_e, s + t, a[t]));
        assert(e[s + t] == old_e[s + t]);
    }
}

/// The chain of a plan, whose subquery runs are pushed onto `runs` and
/// numbered from its length on.
fn plan_code(plan: &Arc<IrPlan>, runs: &mut Vec<SubqueryExec>) -> (r: PlanCode)
    ensures
        final(runs)@.len() == old(runs)@.len() + plan_runs(plan@).len(),
        forall|k: int| 0 <= k < old(runs)@.len() ==> #[trigger] final(runs)@[k] == old(runs)@[k],
        is_run_list(final(runs)@, old(runs)@.len() as int, plan_runs(plan@)),
        is_plan_code(r, plan@, old(runs)@.len() as int),
    decreases **plan, 0nat,
{
    let ghost e0 = runs@;
    match &**plan {
        IrPlan::Source { source_name, .. } => {
            let mut names = NameGenerator::new();
            let v = names.source(source_name.as_str());
            proof {
                reveal_strlit("_source");
            }
            assert(v@ == source_name@ + "_source"@);
            assert(plan_runs(plan@) =~= Seq::<SpecIrPlan>::empty());
            PlanCode::Stream(v)
        },
        IrPlan::Filter { input, predicate } => {
            let input_code = plan_code(input, runs);
            let ghost e1 = runs@;
            let filter_fn = predicate_code(predicate, runs);
            proof {
                lemma_run_list_kept(e1, runs@, e0.len() as int, plan_runs(input@));
                lemma_run_list_concat(runs@, e0.len() as int, plan_runs(input@), filter_runs(filter_view(*predicate)));
            }
            PlanCode::Filter(Box::new(input_code), filter_fn)
        },
        IrPlan::Mapping { input, projections } => {
            let input_code = plan_code(input, runs);
            let map_fn = generate_map_projection(projections);
            PlanCode::Project(Box::new(input_code), map_fn)
        },
        IrPlan::Limit { input, limit, offset } => {
            let input_code = plan_code(input, runs);
            let limit_val = *limit as usize;
            let offset_val = match offset {
                Some(o) => Some(*o as usize),
                None => None,
            };
            PlanCode::Limit(Box::new(input_code), limit_val, offset_val)
        },
        IrPlan::Distinct { input } => {
            let input_code = plan_code(input, runs);
            PlanCode::Distinct(Box::new(input_code))
        },
        _ => {
            assert(plan_runs(plan@) =~= Seq::<SpecIrPlan>::empty());
            PlanCode::Unsupported
        },
    }
}

/// Pushes the run of a subquery, after those of its own plan; returns the
/// variable that holds its results.
fn subquery_run(subquery: &Arc<IrPlan>, runs: &mut Vec<SubqueryExec>) -> (v: String)
    ensures
        final(runs)@.len() == old(runs)@.len() + plan_runs(subquery@).len() + 1,
        forall|k: int| 0 <= k < old(runs)@.len() ==> #[trigger] final(runs)@[k] == old(runs)@[k],
        is_run_list(final(runs)@, old(runs)@.len() as int, plan_runs(subquery@).push(subquery@)),
        v@ == result_name((old(runs)@.len() + plan_runs(subquery@).len()) as int),
    decreases **subquery, 1nat,
{
    let ghost e0 = runs@;
    let chain = plan_code(subquery, runs);
    let ghost e1 = runs@;
    let id = runs.len();
    let mut names = NameGenerator::new();
    let result_var = names.subquery_result(id);
    let data_var = names.subquery_data(id);
    let v = result_var.clone();
    runs.push(SubqueryExec { id, data_var, result_var, chain });
    proof {
        lemma_run_list_kept(e1, runs@, e0.len() as int, plan_runs(subquery@));
        assert(is_run_list(runs@, id as int, seq![subquery@]));
        lemma_run_list_concat(runs@, e0.len() as int, plan_runs(subquery@), seq![subquery@]);
        assert(plan_runs(subquery@) + seq![subquery@] =~= plan_runs(subquery@).push(subquery@));
    }
    v
}

/// The predicate of a filter, whose subquery runs are pushed onto `runs`
/// and numbered from its length on.
fn predicate_code(filter: &FilterClause, runs: &mut Vec<SubqueryExec>) -> (r: PredicateCode)
    ensures
        final(runs)@.len() == old(runs)@.len() + filter_runs(filter_view(*filter)).len(),
        forall|k: int| 0 <= k < old(runs)@.len() ==> #[trigger] final(runs)@[k] == old(runs)@[k],
        is_run_list(final(runs)@, old(runs)@.len() as int, filter_runs(filter_view(*filter))),
        is_predicate(r, filter_view(*filter), old(runs)@.len() as int),
    decreases *filter, 0nat,
{
    let ghost e0 = runs@;
    match filter {
        FilterClause::Base(cond_type) => {
            proof {
                assert(filter_view(*filter) == SpecFilterClause::Base(crate::ir::filter_condition_view(*cond_type)));
            }
            match cond_type {
                FilterConditionType::In(InCondition::Subquery { field, subquery, negated }) => {
                    let o = generate_field_access(field);
                    let v = subquery_run(subquery, runs);
                    PredicateCode::InResult(o, *negated, v)
                },
                FilterConditionType::Exists(ExistsCondition::Subquery { subquery, negated }) => {
                    let v = subquery_run(subquery, runs);
                    PredicateCode::ExistsResult(*negated, v)
                },
                _ => {
                    assert(filter_runs(filter_view(*filter)) =~= Seq::<SpecIrPlan>::empty());
                    generate_base_condition(cond_type)
                },
            }
        },
        FilterClause::Expression { left, binary_op, right } => {
            let left_code = predicate_code(left, runs);
            let ghost e1 = runs@;
            let right_code = predicate_code(right, runs);
            proof {
                lemma_run_list_kept(e1, runs@, e0.len() as int, filter_runs(filter_view(**left)));
                lemma_run_list_concat(runs@, e0.len() as int, filter_runs(filter_view(**left)), filter_runs(filter_view(**right)));
            }
            match binary_op {
                BinaryOp::And => PredicateCode::And(Box::new(left_code), Box::new(right_code)),
                BinaryOp::Or => PredicateCode::Or(Box::new(left_code), Box::new(right_code)),
            }
        },
    }
}

/// Generate code for an IR plan node
/// This recursively generates the streaming pipeline code: the chain of a
/// plan whose subqueries are numbered from zero.
pub fn generate_ir_plan(plan: &Arc<IrPlan>) -> (r: PlanCode)
    ensures
        is_plan_code(r, plan@, 0),
{
    let mut runs: Vec<SubqueryExec> = Vec::new();
    plan_code(plan, &mut runs)
}

/// Generate filter predicate function: the predicate of a filter whose
/// subqueries are numbered from zero.
pub fn generate_filter_predicate(filter: &FilterClause) -> (r: PredicateCode)
    ensures
        is_predicate(r, filter_view(*filter), 0),
{
    let mut runs: Vec<SubqueryExec> = Vec::new();
    predicate_code(filter, &mut runs)
}

/// Generate base filter condition: a condition without a subquery.
pub fn generate_base_condition(cond_type: &FilterConditionType) -> (r: PredicateCode)
    requires
        !(cond_type is In && cond_type->In_0 is Subquery),
        !(cond_type is Exists && cond_type->Exists_0 is Subquery),
    ensures
        is_predicate(r, SpecFilterClause::Base(crate::ir::filter_condition_view(*cond_type)), 0),
{
    match cond_type {
        FilterConditionType::Comparison(cond) => generate_comparison(cond),
        FilterConditionType::NullCheck(null_cond) => generate_null_check(null_cond),
        FilterConditionType::Boolean(val) => PredicateCode::Always(*val),
        FilterConditionType::In(InCondition::Vec { field, vector_name, negated, .. }) => {
            PredicateCode::InVec(generate_field_access(field), *negated, vector_name.clone())
        },
        FilterConditionType::Exists(ExistsCondition::Vec { vector_name, negated }) => {
            PredicateCode::ExistsVec(*negated, vector_name.clone())
        },
        _ => PredicateCode::Always(true),
    }
}

/// The subqueries the pipelines' code runs, in the order they run: those of
/// each pipeline in turn.
pub open spec fn pipelines_runs(ps: Seq<Pipeline>) -> Seq<SpecIrPlan>
    decreases ps.len(),
{
    if ps.len() == 0 {
        Seq::empty()
    } else {
        pipelines_runs(ps.drop_last()) + plan_runs(ps.last().plan@)
    }
}

/// The chains of the pipelines and the subquery runs they need: each
/// pipeline's chain numbers its subqueries after those of the pipelines
/// before it.
pub(crate) fn pipelines_code(pipelines: &[Pipeline]) -> (r: (Vec<PlanCode>, Vec<SubqueryExec>))
    ensures
        r.0@.len() == pipelines@.len(),
        forall|i: int|
            0 <= i < pipelines@.len() ==> is_plan_code(
                #[trigger] r.0@[i],
                pipelines@[i].plan@,
                pipelines_runs(pipelines@.take(i)).len() as int,
            ),
        r.1@.len() == pipelines_runs(pipelines@).len(),
        is_run_list(r.1@, 0, pipelines_runs(pipelines@)),
{
    let mut chains: Vec<PlanCode> = Vec::new();
    let mut runs: Vec<SubqueryExec> = Vec::new();
    let mut i: usize = 0;
    proof {
        assert(pipelines@.take(0) =~= Seq::<Pipeline>::empty());
    }
    while i < pipelines.len()
        invariant
            i <= pipelines.len(),
            chains@.len() == i,
            runs@.len() == pipelines_runs(pipelines@.take(i as int)).len(),
            is_run_list(runs@, 0, pipelines_runs(pipelines@.take(i as int))),
            forall|k: int|
                0 <= k < i ==> is_plan_code(
                    #[trigger] chains@[k],
                    pipelines@[k].plan@,
                    pipelines_runs(pipelines@.take(k)).len() as int,
                ),
        decreases pipelines.len() - i,
    {
        let ghost e0 = runs@;
        let c = plan_code(&pipelines[i].plan, &mut runs);
        proof {
            let before = pipelines@.take(i as int);
            assert(pipelines@.take(i + 1).drop_last() =~= before);
            assert(pipelines@.take(i + 1).last() == pipelines@[i as int]);
            lemma_run_list_kept(e0, runs@, 0, pipelines_runs(before));
            lemma_run_list_concat(runs@, 0, pipelines_runs(before), plan_runs(pipelines@[i as int].plan@));
        }
        chains.push(c);
        i = i + 1;
    }
    proof {
        assert(pipelines@.take(pipelines@.len() as int) =~= pipelines@);
    }
    (chains, runs)
}

/// Generate code for executing subqueries: the runs of the subqueries of
/// the pipelines, in the order they run, each numbered by its position.
pub fn generate_subquery_execution(pipelines: &[Pipeline]) -> (r: Vec<SubqueryExec>)
    ensures
        r@.len() == pipelines_runs(pipelines@).len(),
        is_run_list(r@, 0, pipelines_runs(pipelines@)),
{
    pipelines_code(pipelines).1
}

/// Generate comparison condition
pub fn generate_comparison(cond: &Condition) -> (r: PredicateCode)
    ensures
        r matches PredicateCode::Compare(l, op, rt) && op == cond.operator && is_operand(
            l,
            field_view(cond.left_field),
        ) && is_operand(rt, field_view(cond.right_field)),
{
    let left = generate_field_access(&cond.left_field);
    let right = generate_field_access(&cond.right_field);
    PredicateCode::Compare(left, cond.operator, right)
}

/// Generate null check condition
pub fn generate_null_check(null_cond: &NullCondition) -> (r: PredicateCode)
    ensures
        match null_cond.operator {
            NullOp::IsNull => r matches PredicateCode::IsNull(o) && is_operand(
                o,
                field_view(null_cond.field),
            ),
            NullOp::IsNotNull => r matches PredicateCode::IsNotNull(o) && is_operand(
                o,
                field_view(null_cond.field),
            ),
        },
{
    let field = generate_field_access(&null_cond.field);
    match null_cond.operator {
        NullOp::IsNull => PredicateCode::IsNull(field),
        NullOp::IsNotNull => PredicateCode::IsNotNull(field),
    }
}

/// Generate field access expression
pub fn generate_field_access(field: &ComplexField) -> (r: Operand)
    ensures
        is_operand(r, field_view(*field)),
{
    if let Some(col) = &field.column_ref {
        Operand::Field(col.column.clone())
    } else if let Some(lit) = &field.literal {
        match lit {
            IrLiteral::Integer(n) => Operand::Int(*n),
            IrLiteral::Float(f) => Operand::Float(f.clone()),
            IrLiteral::String(s) => Operand::Str(s.clone()),
            IrLiteral::Boolean(b) => Operand::Bool(*b),
        }
    } else {
        Operand::Zero
    }
}

/// Generate map projection function
pub fn generate_map_projection(projections: &Vec<ProjectionColumn>) -> (r: ProjectionCode)
    ensures
        is_projection(r, projections_view(projections@)),
{
    proof {
        crate::ir::lemma_projections_view_index(projections@);
    }
    if projections.len() == 1 {
        match &projections[0] {
            ProjectionColumn::Column(col_ref, _) => ProjectionCode::Field(col_ref.column.clone()),
            _ => ProjectionCode::Whole,
        }
    } else {
        ProjectionCode::Whole
    }
}

/// How a record's field is read in generated code: a column by its name
/// (whatever its table), else an integer, float, string or boolean literal
/// as that value, else zero.
pub proof fn lemma_operand(o: Operand, f: SpecComplexField)
    requires
        is_operand(o, f),
    ensures
        f.column_ref is Some ==> o is Field && o->Field_0@ == f.column_ref->0.column,
        f.column_ref is None && f.literal is None ==> o is Zero,
        forall|i: i64| f.column_ref is None && f.literal == Some(SpecLiteral::Integer(i)) ==> o == Operand::Int(i),
        forall|b: bool| f.column_ref is None && f.literal == Some(SpecLiteral::Boolean(b)) ==> o == Operand::Bool(b),
        forall|x: Seq<char>| f.column_ref is None && f.literal == Some(SpecLiteral::Str(x)) ==> o is Str && o->Str_0@ == x,
        forall|x: Seq<char>| f.column_ref is None && f.literal == Some(SpecLiteral::Float(x)) ==> o is Float && o->Float_0@ == x,
{
}

/// A comparison keeps its operator and its two sides in order; a null check
/// tests the field it is given; a boolean is a constant; `AND` and `OR`
/// combine the predicates of their two sides by the same connective.
pub proof fn lemma_predicate(p: PredicateCode, f: SpecFilterClause, base: int)
    requires
        is_predicate(p, f, base),
    ensures
        f is Base && f->Base_0 is Comparison ==> p is Compare && p->Compare_1
            == f->Base_0->Comparison_0.operator && is_operand(p->Compare_0, f->Base_0->Comparison_0.left_field)
            && is_operand(p->Compare_2, f->Base_0->Comparison_0.right_field),
        forall|b: bool| f == SpecFilterClause::Base(SpecConditionType::Boolean(b)) ==> p == PredicateCode::Always(b),
        f is Expression && f->binary_op == BinaryOp::And ==> p is And,
        f is Expression && f->binary_op == BinaryOp::Or ==> p is Or,
{
}

/// The operator chain of a plan: a source's stream is its `name_source`
/// variable; a filter, projection, limit and distinct each add their one
/// operator to their input's chain, a projection of one plain column taking
/// that column and any other keeping the whole record, a limit keeping its
/// count and offset; no other operation has code.
pub proof fn lemma_plan_code(c: PlanCode, p: SpecIrPlan, base: int)
    requires
        is_plan_code(c, p, base),
    ensures
        p is Source ==> c is Stream && c->Stream_0@ == p->source_name + seq![
            '_',
            's',
            'o',
            'u',
            'r',
            'c',
            'e',
        ],
        p is Filter ==> c is Filter && is_plan_code(*c->Filter_0, *p->Filter_input, base),
        p is Mapping ==> c is Project && is_plan_code(*c->Project_0, *p->Mapping_input, base),
        p is Mapping && p->Mapping_projections.len() == 1 && p->Mapping_projections[0] is Column
            ==> c->Project_1 is Field && c->Project_1->Field_0@ == p->Mapping_projections[0]->Column_0.column,
        p is Mapping && !(p->Mapping_projections.len() == 1 && p->Mapping_projections[0] is Column)
            ==> c->Project_1 is Whole,
        p is Limit ==> c is Limit && is_plan_code(*c->Limit_0, *p->Limit_input, base) && c->Limit_1
            == p->limit as usize && c->Limit_2 == match p->offset {
            Some(x) => Some(x as usize),
            None => None,
        },
        p is Distinct ==> c is Distinct && is_plan_code(*c->Distinct_0, *p->Distinct_input, base),
        p is Join || p is GroupBy || p is OrderBy || p is FlatMap ==> c is Unsupported,
{
    reveal_strlit("_source");
}

} // verus!
