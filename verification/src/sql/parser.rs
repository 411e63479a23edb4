//! The rules of the grammar that may contain subqueries, executable. Each
//! function returns exactly what its grammar rule gives: the value (through
//! its model) and the position after it, or `None` where the rule fails.
use crate::ir::{
    columns_view, field_view, filter_condition_view, filter_view, group_condition_view,
    group_view, joins_view, lemma_projections_view_push, order_items_view, plan_view,
    projection_view, projections_view, ColumnRef, ComparisonOp, ComplexField, Condition,
    ExistsCondition, FilterClause, FilterConditionType, GroupBaseCondition, GroupClause,
    InCondition, IrLiteral, IrPlan, JoinCondition, JoinType, NullCondition, OrderByItem,
    ProjectionColumn, AggregateFunction, SpecColumnRef, SpecFilterClause, SpecGroupClause,
    SpecIrPlan, SpecOrderByItem, SpecProjectionColumn,
};
use crate::sql::grammar::{
    aterm, arith, arith_rest, build_plan, column, column_item, columns, columns_rest,
    condition, factor, fld_agg, fld_col, fld_lit, fld_nested, fld_sub, from_clause,
    from_rest, having_conds, having_rest, having_term, in_cond, join_clause, join_kind,
    opt_group, opt_where, operand, scan, select_body, sexpr, sexpr_rest, subquery, sunit,
    where_conds, where_rest, where_term, with_alias, wrap, zero_field, SpecPending, fwd,
};
use crate::sql::lexer::{Kw, Sym, Token};
use crate::sql::tokens::{
    aggregate_x, alias_x, arith_sym_x, bin_op_x, bool_x, column_refs_x, comparison_x, ident_x,
    join_pairs_x, kw_x, null_op_x, number_lit_x, opt_limit_x, opt_order_x, string_x, sym_x,
    table_column_x, tv,
};
use std::sync::Arc;
use vstd::prelude::*;

verus! {

/// An arithmetic chain whose last binary node is not built yet.
pub enum Pending {
    Single(ComplexField),
    Binary(ComplexField, String, ComplexField),
}

impl View for Pending {
    type V = SpecPending;

    open spec fn view(&self) -> SpecPending {
        match self {
            Pending::Single(f) => SpecPending::Single(field_view(*f)),
            Pending::Binary(l, op, r) => SpecPending::Binary(field_view(*l), op@, field_view(*r)),
        }
    }
}

fn fx_col(c: ColumnRef) -> (f: ComplexField)
    ensures
        field_view(f) == fld_col(c@),
{
    ComplexField {
        column_ref: Some(c),
        literal: None,
        aggregate: None,
        nested_expr: None,
        subquery: None,
        subquery_vec: None,
    }
}

fn fx_lit(l: IrLiteral) -> (f: ComplexField)
    ensures
        field_view(f) == fld_lit(l@),
{
    ComplexField {
        column_ref: None,
        literal: Some(l),
        aggregate: None,
        nested_expr: None,
        subquery: None,
        subquery_vec: None,
    }
}

fn fx_agg(a: AggregateFunction) -> (f: ComplexField)
    ensures
        field_view(f) == fld_agg(a@),
{
    ComplexField {
        column_ref: None,
        literal: None,
        aggregate: Some(a),
        nested_expr: None,
        subquery: None,
        subquery_vec: None,
    }
}

fn fx_sub(q: Arc<IrPlan>) -> (f: ComplexField)
    ensures
        field_view(f) == fld_sub(plan_view(*q)),
{
    ComplexField {
        column_ref: None,
        literal: None,
        aggregate: None,
        nested_expr: None,
        subquery: Some(q),
        subquery_vec: None,
    }
}

fn wrap_x(pd: Pending, paren: bool) -> (f: ComplexField)
    ensures
        field_view(f) == wrap(pd@, paren),
{
    match pd {
        Pending::Single(f) => f,
        Pending::Binary(l, op, r) => {
            let ghost gl = l;
            let ghost gop = op;
            let ghost gr = r;
            let f = ComplexField {
                column_ref: None,
                literal: None,
                aggregate: None,
                nested_expr: Some(Arc::new((l, op, r, paren))),
                subquery: None,
                subquery_vec: None,
            };
            assert(field_view(f) == fld_nested(field_view(gl), gop@, field_view(gr), paren));
            f
        },
    }
}

fn with_alias_x(c: ProjectionColumn, a: String) -> (r: ProjectionColumn)
    ensures
        projection_view(r) == with_alias(projection_view(c), a@),
{
    match c {
        ProjectionColumn::Column(x, _) => ProjectionColumn::Column(x, Some(a)),
        ProjectionColumn::Aggregate(x, _) => ProjectionColumn::Aggregate(x, Some(a)),
        ProjectionColumn::ComplexValue(x, _) => ProjectionColumn::ComplexValue(x, Some(a)),
        ProjectionColumn::StringLiteral(x, _) => ProjectionColumn::StringLiteral(x, Some(a)),
        ProjectionColumn::Subquery(x, _) => ProjectionColumn::Subquery(x, Some(a)),
        ProjectionColumn::SubqueryVec(x, y) => ProjectionColumn::SubqueryVec(x, y),
    }
}

/// A `WHERE` condition reused in `HAVING`.
fn to_group_base(c: FilterConditionType) -> (g: GroupBaseCondition)
    ensures
        group_condition_view(g) == filter_condition_view(c),
{
    match c {
        FilterConditionType::Comparison(x) => GroupBaseCondition::Comparison(x),
        FilterConditionType::NullCheck(x) => GroupBaseCondition::NullCheck(x),
        FilterConditionType::In(x) => GroupBaseCondition::In(x),
        FilterConditionType::Exists(x) => GroupBaseCondition::Exists(x),
        FilterConditionType::Boolean(b) => GroupBaseCondition::Boolean(b),
    }
}

/// The same tree of conditions, as a `HAVING` clause.
pub open spec fn filter_as_group(f: SpecFilterClause) -> SpecGroupClause
    decreases f,
{
    match f {
        SpecFilterClause::Base(c) => SpecGroupClause::Base(c),
        SpecFilterClause::Expression { left, binary_op, right } => SpecGroupClause::Expression {
            left: Box::new(filter_as_group(*left)),
            op: binary_op,
            right: Box::new(filter_as_group(*right)),
        },
    }
}

/// Turns a filter into a `HAVING` clause with the same conditions and
/// operators, node for node.
pub fn convert_filter_to_group(filter: FilterClause) -> (g: GroupClause)
    ensures
        group_view(g) == filter_as_group(filter_view(filter)),
    decreases filter,
{
    match filter {
        FilterClause::Base(c) => GroupClause::Base(to_group_base(c)),
        FilterClause::Expression { left, binary_op, right } => GroupClause::Expression {
            left: Box::new(convert_filter_to_group(*left)),
            op: binary_op,
            right: Box::new(convert_filter_to_group(*right)),
        },
    }
}

pub fn subquery_x(t: &Vec<Token>, p: usize) -> (r: Option<(Arc<IrPlan>, usize)>)
    requires
        p <= t.len(),
    ensures
        match r {
            Some((pl, q)) => subquery(tv(t), p as int) == Some((plan_view(*pl), q as int)) && p
                < q <= t.len(),
            None => subquery(tv(t), p as int) is None,
        },
    decreases t.len() - p, 1nat,
{
    if !sym_x(t, p, Sym::LParen) {
        return None;
    }
    match select_body_x(t, p + 1) {
        Some((pl, q)) => if sym_x(t, q, Sym::RParen) {
            Some((pl, q + 1))
        } else {
            None
        },
        None => None,
    }
}

pub fn factor_x(t: &Vec<Token>, p: usize) -> (r: Option<(ComplexField, usize)>)
    requires
        p <= t.len(),
    ensures
        match r {
            Some((f, q)) => factor(tv(t), p as int) == Some((field_view(f), q as int)) && p < q
                <= t.len(),
            None => factor(tv(t), p as int) is None,
        },
    decreases t.len() - p, 2nat,
{
    if let Some((a, q)) = aggregate_x(t, p) {
        return Some((fx_agg(a), q));
    }
    if let Some((c, q)) = table_column_x(t, p) {
        return Some((fx_col(c), q));
    }
    if let Some(n) = ident_x(t, p) {
        return Some((fx_col(ColumnRef { table: None, column: n }), p + 1));
    }
    if let Some((l, q)) = number_lit_x(t, p) {
        return Some((fx_lit(l), q));
    }
    if let Some(s) = string_x(t, p) {
        return Some((fx_lit(IrLiteral::String(s)), p + 1));
    }
    if let Some(b) = bool_x(t, p) {
        return Some((fx_lit(IrLiteral::Boolean(b)), p + 1));
    }
    match subquery_x(t, p) {
        Some((pl, q)) => Some((fx_sub(pl), q)),
        None => None,
    }
}

pub fn aterm_x(t: &Vec<Token>, p: usize) -> (r: Option<(ComplexField, usize)>)
    requires
        p <= t.len(),
    ensures
        match r {
            Some((f, q)) => aterm(tv(t), p as int) == Some((field_view(f), q as int)) && p < q
                <= t.len(),
            None => aterm(tv(t), p as int) is None,
        },
    decreases t.len() - p, 3nat,
{
    if sym_x(t, p, Sym::LParen) {
        if let Some((f, q)) = arith_x(t, p + 1, true) {
            if sym_x(t, q, Sym::RParen) {
                return Some((f, q + 1));
            }
        }
    }
    factor_x(t, p)
}

pub fn arith_x(t: &Vec<Token>, p: usize, paren: bool) -> (r: Option<(ComplexField, usize)>)
    requires
        p <= t.len(),
    ensures
        match r {
            Some((f, q)) => arith(tv(t), p as int, paren) == Some((field_view(f), q as int)) && p
                < q <= t.len(),
            None => arith(tv(t), p as int, paren) is None,
        },
    decreases t.len() - p, 5nat,
{
    let (f, q0) = match aterm_x(t, p) {
        Some(x) => x,
        None => {
            return None;
        },
    };
    let mut pd = Pending::Single(f);
    let mut q = q0;
    let ghost target = arith_rest(tv(t), q0 as int, pd@);
    loop
        invariant
            p < q0 <= q <= t.len(),
            arith_rest(tv(t), q as int, pd@) == target,
            arith(tv(t), p as int, paren) == match target {
                Some((pd2, r)) => Some((wrap(pd2, paren), r)),
                None => None,
            },
        decreases t.len() - q,
    {
        let op = match arith_sym_x(t, q) {
            Some(op) => op,
            None => {
                return Some((wrap_x(pd, paren), q));
            },
        };
        match aterm_x(t, q + 1) {
            Some((g, r)) => {
                pd = Pending::Binary(wrap_x(pd, false), op, g);
                q = r;
            },
            None => {
                return Some((wrap_x(pd, paren), q));
            },
        }
    }
}

pub fn in_cond_x(t: &Vec<Token>, p: usize) -> (r: Option<(FilterConditionType, usize)>)
    requires
        p <= t.len(),
    ensures
        match r {
            Some((c, q)) => in_cond(tv(t), p as int) == Some((filter_condition_view(c), q as int))
                && p < q <= t.len(),
            None => in_cond(tv(t), p as int) is None,
        },
    decreases t.len() - p, 6nat,
{
    let (f, q) = match arith_x(t, p, false) {
        Some(x) => x,
        None => {
            return None;
        },
    };
    let (neg, q2) = if kw_x(t, q, Kw::Not) && kw_x(t, q + 1, Kw::In) {
        (true, q + 2)
    } else if kw_x(t, q, Kw::In) {
        (false, q + 1)
    } else {
        return None;
    };
    match subquery_x(t, q2) {
        Some((pl, r)) => Some(
            (
                FilterConditionType::In(
                    InCondition::Subquery { field: f, subquery: pl, negated: neg },
                ),
                r,
            ),
        ),
        None => None,
    }
}

#[verifier::rlimit(40)]
pub fn condition_x(t: &Vec<Token>, p: usize) -> (r: Option<(FilterConditionType, usize)>)
    requires
        p <= t.len(),
    ensures
        match r {
            Some((c, q)) => condition(tv(t), p as int) == Some(
                (filter_condition_view(c), q as int),
            ) && p < q <= t.len(),
            None => condition(tv(t), p as int) is None,
        },
    decreases t.len() - p, 7nat,
{
    if kw_x(t, p, Kw::Not) && kw_x(t, p + 1, Kw::Exists) {
        return match subquery_x(t, p + 2) {
            Some((pl, q)) => Some(
                (
                    FilterConditionType::Exists(
                        ExistsCondition::Subquery { subquery: pl, negated: true },
                    ),
                    q,
                ),
            ),
            None => None,
        };
    }
    if kw_x(t, p, Kw::Exists) {
        return match subquery_x(t, p + 1) {
            Some((pl, q)) => Some(
                (
                    FilterConditionType::Exists(
                        ExistsCondition::Subquery { subquery: pl, negated: false },
                    ),
                    q,
                ),
            ),
            None => None,
        };
    }
    if let Some(r) = in_cond_x(t, p) {
        return Some(r);
    }
    if let Some(b) = bool_x(t, p) {
        return Some((FilterConditionType::Boolean(b), p + 1));
    }
    let (f, q) = match arith_x(t, p, false) {
        Some(x) => x,
        None => {
            return None;
        },
    };
    match comparison_x(t, q) {
        Some(op) => match arith_x(t, q + 1, false) {
            Some((g, r)) => Some(
                (
                    FilterConditionType::Comparison(
                        Condition { left_field: f, operator: op, right_field: g },
                    ),
                    r,
                ),
            ),
            None => {
                let z = fx_lit(IrLiteral::Integer(0));
                assert(field_view(z) == zero_field());
                Some(
                    (
                        FilterConditionType::Comparison(
                            Condition {
                                left_field: f,
                                operator: ComparisonOp::NotEqual,
                                right_field: z,
                            },
                        ),
                        q,
                    ),
                )
            },
        },
        None => match null_op_x(t, q) {
            Some((nop, r)) => Some(
                (FilterConditionType::NullCheck(NullCondition { field: f, operator: nop }), r),
            ),
            None => {
                let z = fx_lit(IrLiteral::Integer(0));
                assert(field_view(z) == zero_field());
                Some(
                    (
                        FilterConditionType::Comparison(
                            Condition {
                                left_field: f,
                                operator: ComparisonOp::NotEqual,
                                right_field: z,
                            },
                        ),
                        q,
                    ),
                )
            },
        },
    }
}

pub fn where_term_x(t: &Vec<Token>, p: usize) -> (r: Option<(FilterClause, usize)>)
    requires
        p <= t.len(),
    ensures
        match r {
            Some((f, q)) => where_term(tv(t), p as int) == Some((filter_view(f), q as int)) && p
                < q <= t.len(),
            None => where_term(tv(t), p as int) is None,
        },
    decreases t.len() - p, 8nat,
{
    if sym_x(t, p, Sym::LParen) {
        if let Some((f, q)) = where_conds_x(t, p + 1) {
            if sym_x(t, q, Sym::RParen) {
                return Some((f, q + 1));
            }
        }
    }
    match condition_x(t, p) {
        Some((c, q)) => Some((FilterClause::Base(c), q)),
        None => None,
    }
}

pub fn where_conds_x(t: &Vec<Token>, p: usize) -> (r: Option<(FilterClause, usize)>)
    requires
        p <= t.len(),
    ensures
        match r {
            Some((f, q)) => where_conds(tv(t), p as int) == Some((filter_view(f), q as int)) && p
                < q <= t.len(),
            None => where_conds(tv(t), p as int) is None,
        },
    decreases t.len() - p, 9nat,
{
    let (f0, q0) = match where_term_x(t, p) {
        Some(x) => x,
        None => {
            return None;
        },
    };
    let mut acc = f0;
    let mut q = q0;
    let ghost target = where_rest(tv(t), q0 as int, filter_view(acc));
    loop
        invariant
            p < q0 <= q <= t.len(),
            where_rest(tv(t), q as int, filter_view(acc)) == target,
            where_conds(tv(t), p as int) == target,
        decreases t.len() - q,
    {
        let op = match bin_op_x(t, q) {
            Some(op) => op,
            None => {
                return Some((acc, q));
            },
        };
        match where_term_x(t, q + 1) {
            Some((g, r)) => {
                acc = FilterClause::Expression { left: Box::new(acc), binary_op: op, right: Box::new(g) };
                q = r;
            },
            None => {
                return Some((acc, q));
            },
        }
    }
}

pub fn having_term_x(t: &Vec<Token>, p: usize) -> (r: Option<(GroupClause, usize)>)
    requires
        p <= t.len(),
    ensures
        match r {
            Some((f, q)) => having_term(tv(t), p as int) == Some((group_view(f), q as int)) && p
                < q <= t.len(),
            None => having_term(tv(t), p as int) is None,
        },
    decreases t.len() - p, 8nat,
{
    if sym_x(t, p, Sym::LParen) {
        if let Some((f, q)) = having_conds_x(t, p + 1) {
            if sym_x(t, q, Sym::RParen) {
                return Some((f, q + 1));
            }
        }
    }
    match condition_x(t, p) {
        Some((c, q)) => Some((convert_filter_to_group(FilterClause::Base(c)), q)),
        None => None,
    }
}

pub fn having_conds_x(t: &Vec<Token>, p: usize) -> (r: Option<(GroupClause, usize)>)
    requires
        p <= t.len(),
    ensures
        match r {
            Some((f, q)) => having_conds(tv(t), p as int) == Some((group_view(f), q as int)) && p
                < q <= t.len(),
            None => having_conds(tv(t), p as int) is None,
        },
    decreases t.len() - p, 9nat,
{
    let (f0, q0) = match having_term_x(t, p) {
        Some(x) => x,
        None => {
            return None;
        },
    };
    let mut acc = f0;
    let mut q = q0;
    let ghost target = having_rest(tv(t), q0 as int, group_view(acc));
    loop
        invariant
            p < q0 <= q <= t.len(),
            having_rest(tv(t), q as int, group_view(acc)) == target,
            having_conds(tv(t), p as int) == target,
        decreases t.len() - q,
    {
        let op = match bin_op_x(t, q) {
            Some(op) => op,
            None => {
                return Some((acc, q));
            },
        };
        match having_term_x(t, q + 1) {
            Some((g, r)) => {
                acc = GroupClause::Expression { left: Box::new(acc), op, right: Box::new(g) };
                q = r;
            },
            None => {
                return Some((acc, q));
            },
        }
    }
}

pub fn operand_x(t: &Vec<Token>, p: usize) -> (r: Option<(ComplexField, usize)>)
    requires
        p <= t.len(),
    ensures
        match r {
            Some((f, q)) => operand(tv(t), p as int) == Some((field_view(f), q as int)) && p < q
                <= t.len(),
            None => operand(tv(t), p as int) is None,
        },
    decreases t.len() - p, 2nat,
{
    if let Some((a, q)) = aggregate_x(t, p) {
        return Some((fx_agg(a), q));
    }
    if let Some((c, q)) = table_column_x(t, p) {
        return Some((fx_col(c), q));
    }
    if let Some(n) = ident_x(t, p) {
        return Some((fx_col(ColumnRef { table: None, column: n }), p + 1));
    }
    if let Some((l, q)) = number_lit_x(t, p) {
        return Some((fx_lit(l), q));
    }
    match subquery_x(t, p) {
        Some((pl, q)) => Some((fx_sub(pl), q)),
        None => None,
    }
}

pub fn sunit_x(t: &Vec<Token>, p: usize) -> (r: Option<(ComplexField, usize)>)
    requires
        p <= t.len(),
    ensures
        match r {
            Some((f, q)) => sunit(tv(t), p as int) == Some((field_view(f), q as int)) && p < q
                <= t.len(),
            None => sunit(tv(t), p as int) is None,
        },
    decreases t.len() - p, 3nat,
{
    if sym_x(t, p, Sym::LParen) {
        if let Some((f, q)) = sexpr_x(t, p + 1, true) {
            if sym_x(t, q, Sym::RParen) {
                return Some((f, q + 1));
            }
        }
    }
    operand_x(t, p)
}

pub fn sexpr_x(t: &Vec<Token>, p: usize, paren: bool) -> (r: Option<(ComplexField, usize)>)
    requires
        p <= t.len(),
    ensures
        match r {
            Some((f, q)) => sexpr(tv(t), p as int, paren) == Some((field_view(f), q as int)) && p
                < q <= t.len(),
            None => sexpr(tv(t), p as int, paren) is None,
        },
    decreases t.len() - p, 5nat,
{
    let (f, q0) = match sunit_x(t, p) {
        Some(x) => x,
        None => {
            return None;
        },
    };
    let op0 = match arith_sym_x(t, q0) {
        Some(op) => op,
        None => {
            return None;
        },
    };
    let (g, q1) = match sunit_x(t, q0 + 1) {
        Some(x) => x,
        None => {
            return None;
        },
    };
    let mut pd = Pending::Binary(f, op0, g);
    let mut q = q1;
    let ghost target = sexpr_rest(tv(t), q1 as int, pd@);
    loop
        invariant
            p < q1 <= q <= t.len(),
            sexpr_rest(tv(t), q as int, pd@) == target,
            sexpr(tv(t), p as int, paren) == match target {
                Some((pd2, r)) => Some((wrap(pd2, paren), r)),
                None => None,
            },
        decreases t.len() - q,
    {
        let op = match arith_sym_x(t, q) {
            Some(op) => op,
            None => {
                return Some((wrap_x(pd, paren), q));
            },
        };
        match sunit_x(t, q + 1) {
            Some((g2, r)) => {
                pd = Pending::Binary(wrap_x(pd, false), op, g2);
                q = r;
            },
            None => {
                return Some((wrap_x(pd, paren), q));
            },
        }
    }
}

pub fn column_item_x(t: &Vec<Token>, p: usize) -> (r: Option<(ProjectionColumn, usize)>)
    requires
        p <= t.len(),
    ensures
        match r {
            Some((c, q)) => column_item(tv(t), p as int) == Some(
                (projection_view(c), q as int),
            ) && p < q <= t.len(),
            None => column_item(tv(t), p as int) is None,
        },
    decreases t.len() - p, 6nat,
{
    if let Some((f, q)) = sexpr_x(t, p, false) {
        return Some((ProjectionColumn::ComplexValue(f, None), q));
    }
    if let Some((a, q)) = aggregate_x(t, p) {
        return Some((ProjectionColumn::Aggregate(a, None), q));
    }
    if let Some((c, q)) = table_column_x(t, p) {
        return Some((ProjectionColumn::Column(c, None), q));
    }
    if let Some(n) = ident_x(t, p) {
        return Some((ProjectionColumn::Column(ColumnRef { table: None, column: n }, None), p + 1));
    }
    if let Some(s) = string_x(t, p) {
        return Some((ProjectionColumn::StringLiteral(s, None), p + 1));
    }
    if let Some((pl, q)) = subquery_x(t, p) {
        return Some((ProjectionColumn::Subquery(pl, None), q));
    }
    match sunit_x(t, p) {
        Some((f, q)) => Some((ProjectionColumn::ComplexValue(f, None), q)),
        None => None,
    }
}

pub fn column_x(t: &Vec<Token>, p: usize) -> (r: Option<(ProjectionColumn, usize)>)
    requires
        p <= t.len(),
    ensures
        match r {
            Some((c, q)) => column(tv(t), p as int) == Some((projection_view(c), q as int)) && p
                < q <= t.len(),
            None => column(tv(t), p as int) is None,
        },
    decreases t.len() - p, 7nat,
{
    let (c, q) = match column_item_x(t, p) {
        Some(x) => x,
        None => {
            return None;
        },
    };
    match alias_x(t, q) {
        Some((a, r)) => Some((with_alias_x(c, a), r)),
        None => Some((c, q)),
    }
}

pub fn columns_x(t: &Vec<Token>, p: usize) -> (r: Option<(Vec<ProjectionColumn>, usize)>)
    requires
        p <= t.len(),
    ensures
        match r {
            Some((v, q)) => columns(tv(t), p as int) == Some((projections_view(v@), q as int))
                && p < q <= t.len(),
            None => columns(tv(t), p as int) is None,
        },
    decreases t.len() - p, 8nat,
{
    let (c, q0) = match column_x(t, p) {
        Some(x) => x,
        None => {
            return None;
        },
    };
    let mut acc: Vec<ProjectionColumn> = Vec::new();
    proof {
        lemma_projections_view_push(acc@, c);
    }
    acc.push(c);
    assert(projections_view(acc@) =~= seq![projection_view(c)]);
    let mut q = q0;
    loop
        invariant
            p < q0 <= q <= t.len(),
            columns_rest(tv(t), q as int, projections_view(acc@)) == columns(tv(t), p as int),
        decreases t.len() - q,
    {
        if !sym_x(t, q, Sym::Comma) {
            return Some((acc, q));
        }
        match column_x(t, q + 1) {
            Some((c2, r)) => {
                proof {
                    lemma_projections_view_push(acc@, c2);
                }
                acc.push(c2);
                q = r;
            },
            None => {
                return Some((acc, q));
            },
        }
    }
}

pub fn scan_x(t: &Vec<Token>, p: usize) -> (r: Option<(Arc<IrPlan>, usize)>)
    requires
        p <= t.len(),
    ensures
        match r {
            Some((pl, q)) => scan(tv(t), p as int) == Some((plan_view(*pl), q as int)) && p < q
                <= t.len(),
            None => scan(tv(t), p as int) is None,
        },
    decreases t.len() - p, 2nat,
{
    if let Some((pl, q)) = subquery_x(t, p) {
        return match alias_x(t, q) {
            Some((_, r)) => Some((pl, r)),
            None => Some((pl, q)),
        };
    }
    match ident_x(t, p) {
        Some(n) => match alias_x(t, p + 1) {
            Some((a, r)) => Some((Arc::new(IrPlan::Source { source_name: n, alias: Some(a) }), r)),
            None => Some((Arc::new(IrPlan::Source { source_name: n, alias: None }), p + 1)),
        },
        None => None,
    }
}

fn join_kind_x(t: &Vec<Token>, p: usize) -> (r: (JoinType, usize))
    requires
        p <= t.len(),
    ensures
        join_kind(tv(t), p as int) == (r.0, r.1 as int),
        p <= r.1 <= t.len(),
{
    if kw_x(t, p, Kw::Inner) {
        (JoinType::Inner, p + 1)
    } else if kw_x(t, p, Kw::Left) && kw_x(t, p + 1, Kw::Outer) {
        (JoinType::Left, p + 2)
    } else if kw_x(t, p, Kw::Left) {
        (JoinType::Left, p + 1)
    } else if kw_x(t, p, Kw::Outer) {
        (JoinType::Outer, p + 1)
    } else {
        (JoinType::Inner, p)
    }
}

/// The parts of a join clause at `p`: its kind, right side and conditions.
pub fn join_parts_x(t: &Vec<Token>, p: usize) -> (r: Option<
    (JoinType, Arc<IrPlan>, Vec<JoinCondition>, usize),
>)
    requires
        p <= t.len(),
    ensures
        match r {
            Some((kind, right, conds, s)) => p < s <= t.len() && forall|l: SpecIrPlan|
                #[trigger] join_clause(tv(t), p as int, l) == Some(
                    (
                        SpecIrPlan::Join {
                            left: Box::new(l),
                            right: Box::new(plan_view(*right)),
                            condition: joins_view(conds@),
                            join_type: kind,
                        },
                        s as int,
                    ),
                ),
            None => forall|l: SpecIrPlan| #[trigger] join_clause(tv(t), p as int, l) is None,
        },
    decreases t.len() - p, 3nat,
{
    let (kind, q) = join_kind_x(t, p);
    if !kw_x(t, q, Kw::Join) {
        return None;
    }
    let (right, r) = match scan_x(t, q + 1) {
        Some(x) => x,
        None => {
            return None;
        },
    };
    if !kw_x(t, r, Kw::On) {
        return None;
    }
    match join_pairs_x(t, r + 1) {
        Some((conds, s)) => Some((kind, right, conds, s)),
        None => None,
    }
}

pub fn from_clause_x(t: &Vec<Token>, p: usize) -> (r: Option<(Arc<IrPlan>, usize)>)
    requires
        p <= t.len(),
    ensures
        match r {
            Some((pl, q)) => from_clause(tv(t), p as int) == Some((plan_view(*pl), q as int)) && p
                < q <= t.len(),
            None => from_clause(tv(t), p as int) is None,
        },
    decreases t.len() - p, 5nat,
{
    let (pl0, q0) = match scan_x(t, p) {
        Some(x) => x,
        None => {
            return None;
        },
    };
    let mut plan = pl0;
    let mut q = q0;
    let ghost target = from_rest(tv(t), q0 as int, plan@);
    loop
        invariant
            p < q0 <= q <= t.len(),
            from_rest(tv(t), q as int, plan_view(*plan)) == target,
            from_clause(tv(t), p as int) == target,
        decreases t.len() - q,
    {
        match join_parts_x(t, q) {
            Some((kind, right, conds, s)) => {
                let ghost old_plan = plan@;
                plan = Arc::new(IrPlan::Join { left: plan, right, condition: conds, join_type: kind });
                assert(join_clause(tv(t), q as int, old_plan) == Some((plan_view(*plan), s as int)));
                q = s;
            },
            None => {
                assert(join_clause(tv(t), q as int, plan_view(*plan)) is None);
                return Some((plan, q));
            },
        }
    }
}

pub open spec fn opt_filter_view(o: Option<FilterClause>) -> Option<SpecFilterClause> {
    match o {
        Some(f) => Some(filter_view(f)),
        None => None,
    }
}

pub open spec fn opt_group_view(o: Option<(Vec<ColumnRef>, Option<GroupClause>)>) -> Option<
    (Seq<SpecColumnRef>, Option<SpecGroupClause>),
> {
    match o {
        Some((k, h)) => Some(
            (
                columns_view(k@),
                match h {
                    Some(x) => Some(group_view(x)),
                    None => None,
                },
            ),
        ),
        None => None,
    }
}

pub open spec fn opt_items_view(o: Option<Vec<OrderByItem>>) -> Option<Seq<SpecOrderByItem>> {
    match o {
        Some(v) => Some(order_items_view(v@)),
        None => None,
    }
}

pub fn opt_where_x(t: &Vec<Token>, p: usize) -> (r: Option<(Option<FilterClause>, usize)>)
    requires
        p <= t.len(),
    ensures
        match r {
            Some((o, q)) => opt_where(tv(t), p as int) == Some((opt_filter_view(o), q as int)) && p
                <= q <= t.len(),
            None => opt_where(tv(t), p as int) is None,
        },
    decreases t.len() - p, 10nat,
{
    if kw_x(t, p, Kw::Where) {
        match where_conds_x(t, p + 1) {
            Some((f, q)) => Some((Some(f), q)),
            None => None,
        }
    } else {
        Some((None, p))
    }
}

pub fn opt_group_x(t: &Vec<Token>, p: usize) -> (r: Option<
    (Option<(Vec<ColumnRef>, Option<GroupClause>)>, usize),
>)
    requires
        p <= t.len(),
    ensures
        match r {
            Some((o, q)) => opt_group(tv(t), p as int) == Some((opt_group_view(o), q as int)) && p
                <= q <= t.len(),
            None => opt_group(tv(t), p as int) is None,
        },
    decreases t.len() - p, 10nat,
{
    if kw_x(t, p, Kw::Group) && kw_x(t, p + 1, Kw::By) {
        match column_refs_x(t, p + 2) {
            Some((keys, q)) => if kw_x(t, q, Kw::Having) {
                match having_conds_x(t, q + 1) {
                    Some((h, r)) => Some((Some((keys, Some(h))), r)),
                    None => None,
                }
            } else {
                Some((Some((keys, None)), q))
            },
            None => None,
        }
    } else {
        Some((None, p))
    }
}

/// Assembles the plan of a query bottom-up (see `build_plan`).
pub fn build_plan_x(
    from: Arc<IrPlan>,
    filter: Option<FilterClause>,
    projections: Vec<ProjectionColumn>,
    group: Option<(Vec<ColumnRef>, Option<GroupClause>)>,
    distinct: bool,
    order: Option<Vec<OrderByItem>>,
    limit: Option<(i64, Option<i64>)>,
) -> (r: Arc<IrPlan>)
    ensures
        plan_view(*r) == build_plan(
            plan_view(*from),
            opt_filter_view(filter),
            projections_view(projections@),
            opt_group_view(group),
            distinct,
            opt_items_view(order),
            limit,
        ),
{
    let ghost fv = opt_filter_view(filter);
    let ghost pv = projections_view(projections@);
    let ghost gv = opt_group_view(group);
    let ghost ov = opt_items_view(order);
    let ghost g1 = match fv {
        Some(f) => SpecIrPlan::Filter { input: Box::new(from@), predicate: f },
        None => from@,
    };
    let ghost g2 = match gv {
        Some((keys, having)) => SpecIrPlan::GroupBy {
            input: Box::new(g1),
            keys,
            aggregations: pv,
            having,
        },
        None => if pv.len() > 0 {
            SpecIrPlan::Mapping { input: Box::new(g1), projections: pv }
        } else {
            g1
        },
    };
    let ghost g3 = if distinct {
        SpecIrPlan::Distinct { input: Box::new(g2) }
    } else {
        g2
    };
    let ghost g4 = match ov {
        Some(items) => SpecIrPlan::OrderBy { input: Box::new(g3), items },
        None => g3,
    };
    assert(build_plan(from@, fv, pv, gv, distinct, ov, limit) == match limit {
        Some((n, off)) => SpecIrPlan::Limit { input: Box::new(g4), limit: n, offset: off },
        None => g4,
    });
    let mut plan = from;
    if let Some(f) = filter {
        plan = Arc::new(IrPlan::Filter { input: plan, predicate: f });
    }
    assert(plan@ == g1);
    match group {
        Some((keys, having)) => {
            plan = Arc::new(
                IrPlan::GroupBy { input: plan, keys, aggregations: projections, having },
            );
        },
        None => {
            if projections.len() > 0 {
                plan = Arc::new(IrPlan::Mapping { input: plan, projections });
            } else {
                assert(pv.len() == 0);
            }
        },
    }
    assert(plan@ == g2);
    if distinct {
        plan = Arc::new(IrPlan::Distinct { input: plan });
    }
    assert(plan@ == g3);
    if let Some(items) = order {
        plan = Arc::new(IrPlan::OrderBy { input: plan, items });
    }
    assert(plan@ == g4);
    if let Some((n, off)) = limit {
        plan = Arc::new(IrPlan::Limit { input: plan, limit: n, offset: off });
    }
    plan
}

pub fn select_body_x(t: &Vec<Token>, p: usize) -> (r: Option<(Arc<IrPlan>, usize)>)
    requires
        p <= t.len(),
    ensures
        match r {
            Some((pl, q)) => select_body(tv(t), p as int) == Some((plan_view(*pl), q as int)) && p
                < q <= t.len(),
            None => select_body(tv(t), p as int) is None,
        },
    decreases t.len() - p, 12nat,
{
    if !kw_x(t, p, Kw::Select) {
        return None;
    }
    let distinct = kw_x(t, p + 1, Kw::Distinct);
    let p2 = if distinct {
        p + 2
    } else {
        p + 1
    };
    let (projs, p3) = if sym_x(t, p2, Sym::Star) {
        let v: Vec<ProjectionColumn> = Vec::new();
        assert(projections_view(v@) =~= Seq::<SpecProjectionColumn>::empty());
        (v, p2 + 1)
    } else {
        match columns_x(t, p2) {
            Some(x) => x,
            None => {
                return None;
            },
        }
    };
    if !kw_x(t, p3, Kw::From) {
        return None;
    }
    let (from, p4) = match from_clause_x(t, p3 + 1) {
        Some(x) => x,
        None => {
            return None;
        },
    };
    let (filter, p5) = match opt_where_x(t, p4) {
        Some(x) => x,
        None => {
            return None;
        },
    };
    let (group, p6) = match opt_group_x(t, p5) {
        Some(x) => x,
        None => {
            return None;
        },
    };
    let (order, p7) = match opt_order_x(t, p6) {
        Some(x) => x,
        None => {
            return None;
        },
    };
    let (limit, p8) = match opt_limit_x(t, p7) {
        Some(x) => x,
        None => {
            return None;
        },
    };
    Some((build_plan_x(from, filter, projs, group, distinct, order, limit), p8))
}

} // verus!
