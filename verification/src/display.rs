//! Text of column references, aggregate kinds and fields, as they are shown
//! to users.
use crate::ir::{
    AggregateType, ColumnRef, ComplexField, IrLiteral, SpecColumnRef, SpecComplexField,
    SpecLiteral,
};
use crate::text::{i64_text, int_text, push_text};
use vstd::prelude::*;

verus! {

/// `table.column`, or `column` without a table.
pub open spec fn column_ref_text(c: SpecColumnRef) -> Seq<char> {
    match c.table {
        Some(t) => t + seq!['.'] + c.column,
        None => c.column,
    }
}

/// The lower-case name of an aggregate function.
pub open spec fn aggregate_name(a: AggregateType) -> Seq<char> {
    match a {
        AggregateType::Max => seq!['m', 'a', 'x'],
        AggregateType::Min => seq!['m', 'i', 'n'],
        AggregateType::Avg => seq!['a', 'v', 'g'],
        AggregateType::Sum => seq!['s', 'u', 'm'],
        AggregateType::Count => seq!['c', 'o', 'u', 'n', 't'],
    }
}

pub open spec fn bool_text(b: bool) -> Seq<char> {
    if b {
        seq!['t', 'r', 'u', 'e']
    } else {
        seq!['f', 'a', 'l', 's', 'e']
    }
}

/// Whether showing the field prints a float literal. The first of a nested
/// expression, a column, a literal and an aggregate that is present is shown.
pub open spec fn shows_float(f: SpecComplexField) -> bool
    decreases f,
{
    match f.nested_expr {
        Some(n) => shows_float(n.left) || shows_float(n.right),
        None => f.column_ref is None && (f.literal matches Some(SpecLiteral::Float(_))),
    }
}

/// The text of a field: a nested expression as `P left op right P`, where
/// `P` is `true` or `false` as the expression was parenthesized; else the
/// column; else the literal; else `aggregate(column)`; else nothing. Fields
/// that show a float literal (`shows_float`) are not covered.
pub open spec fn field_text(f: SpecComplexField) -> Seq<char>
    decreases f,
{
    match f.nested_expr {
        Some(n) => bool_text(n.parenthesized) + field_text(n.left) + seq![' '] + n.op + seq![' ']
            + field_text(n.right) + bool_text(n.parenthesized),
        None => match f.column_ref {
            Some(c) => column_ref_text(c),
            None => match f.literal {
                Some(SpecLiteral::Integer(i)) => int_text(i as int),
                Some(SpecLiteral::Float(s)) => s,
                Some(SpecLiteral::Str(s)) => s,
                Some(SpecLiteral::Boolean(b)) => bool_text(b),
                None => match f.aggregate {
                    Some(a) => aggregate_name(a.function) + seq!['('] + column_ref_text(a.column)
                        + seq![')'],
                    None => Seq::empty(),
                },
            },
        },
    }
}

fn push_bool(s: &mut String, b: bool)
    ensures
        final(s)@ == old(s)@ + bool_text(b),
{
    proof {
        reveal_strlit("true");
        reveal_strlit("false");
    }
    if b {
        push_text(s, "true");
    } else {
        push_text(s, "false");
    }
}

fn push_column_ref(s: &mut String, c: &ColumnRef)
    ensures
        final(s)@ == old(s)@ + column_ref_text(c@),
{
    match &c.table {
        Some(t) => {
            push_text(s, t.as_str());
            proof {
                reveal_strlit(".");
            }
            push_text(s, ".");
            push_text(s, c.column.as_str());
            assert(final(s)@ =~= old(s)@ + column_ref_text(c@));
        },
        None => {
            push_text(s, c.column.as_str());
        },
    }
}

fn push_aggregate_name(s: &mut String, a: AggregateType)
    ensures
        final(s)@ == old(s)@ + aggregate_name(a),
{
    proof {
        reveal_strlit("max");
        reveal_strlit("min");
        reveal_strlit("avg");
        reveal_strlit("sum");
        reveal_strlit("count");
    }
    match a {
        AggregateType::Max => push_text(s, "max"),
        AggregateType::Min => push_text(s, "min"),
        AggregateType::Avg => push_text(s, "avg"),
        AggregateType::Sum => push_text(s, "sum"),
        AggregateType::Count => push_text(s, "count"),
    }
    assert(final(s)@ =~= old(s)@ + aggregate_name(a));
}

fn push_field(s: &mut String, f: &ComplexField)
    requires
        !shows_float(f@),
    ensures
        final(s)@ == old(s)@ + field_text(f@),
    decreases f@,
{
    if let Some(nested) = &f.nested_expr {
        let paren = nested.3;
        push_bool(s, paren);
        push_field(s, &nested.0);
        proof {
            reveal_strlit(" ");
        }
        push_text(s, " ");
        push_text(s, nested.1.as_str());
        push_text(s, " ");
        push_field(s, &nested.2);
        push_bool(s, paren);
        assert(final(s)@ =~= old(s)@ + field_text(f@));
    } else if let Some(c) = &f.column_ref {
        push_column_ref(s, c);
    } else if let Some(lit) = &f.literal {
        match lit {
            IrLiteral::Integer(i) => {
                let t = i64_text(*i);
                push_text(s, t.as_str());
            },
            IrLiteral::Float(_) => {},
            IrLiteral::String(t) => push_text(s, t.as_str()),
            IrLiteral::Boolean(b) => push_bool(s, *b),
        }
    } else if let Some(a) = &f.aggregate {
        push_aggregate_name(s, a.function);
        proof {
            reveal_strlit("(");
            reveal_strlit(")");
        }
        push_text(s, "(");
        push_column_ref(s, &a.column);
        push_text(s, ")");
        assert(final(s)@ =~= old(s)@ + field_text(f@));
    } else {
        assert(field_text(f@) =~= Seq::<char>::empty());
        assert(final(s)@ =~= old(s)@ + field_text(f@));
    }
}

impl ColumnRef {
    /// `table.column`, or `column` without a table.
    pub fn to_string(&self) -> (r: String)
        ensures
            r@ == column_ref_text(self@),
    {
        let mut s = String::new();
        push_column_ref(&mut s, self);
        assert(s@ =~= column_ref_text(self@));
        s
    }
}

impl AggregateType {
    /// The lower-case name of the function.
    pub fn to_string(&self) -> (r: String)
        ensures
            r@ == aggregate_name(*self),
    {
        let mut s = String::new();
        push_aggregate_name(&mut s, *self);
        assert(s@ =~= aggregate_name(*self));
        s
    }
}

impl ComplexField {
    /// The text of the field (see `field_text`). A float literal is shown
    /// with two decimals from its binary value, which is not computed here.
    pub fn to_string(&self) -> (r: String)
        requires
            !shows_float(self@),
        ensures
            r@ == field_text(self@),
    {
        let mut s = String::new();
        push_field(&mut s, self);
        assert(s@ =~= field_text(self@));
        s
    }
}

/// How a field is shown: a nested expression as its two sides around its
/// operator, spaced, between the text of its parenthesized flag; else a
/// column as `table.column` or `column`; else a non-negative integer as a
/// numeral that reads back as it, a string as itself, a boolean as `true`
/// or `false`; else an aggregate as `name(column)`; else nothing.
pub proof fn lemma_field_text(f: SpecComplexField)
    ensures
        f.nested_expr is Some ==> field_text(f) == bool_text(f.nested_expr->0.parenthesized)
            + field_text(f.nested_expr->0.left) + seq![' '] + f.nested_expr->0.op + seq![' ']
            + field_text(f.nested_expr->0.right) + bool_text(f.nested_expr->0.parenthesized),
        f.nested_expr is None && f.column_ref is Some ==> field_text(f) == match f.column_ref->0.table {
            Some(t) => t + seq!['.'] + f.column_ref->0.column,
            None => f.column_ref->0.column,
        },
        forall|i: i64|
            f.nested_expr is None && f.column_ref is None && f.literal == Some(SpecLiteral::Integer(i))
                && i >= 0 ==> crate::sql::grammar::all_digits(field_text(f))
                && crate::sql::grammar::decimal_value(field_text(f)) == i,
        forall|x: Seq<char>|
            f.nested_expr is None && f.column_ref is None && f.literal == Some(SpecLiteral::Str(x)) ==> field_text(f) == x,
        forall|b: bool|
            f.nested_expr is None && f.column_ref is None && f.literal == Some(SpecLiteral::Boolean(b)) ==> field_text(f) == (if b {
                seq!['t', 'r', 'u', 'e']
            } else {
                seq!['f', 'a', 'l', 's', 'e']
            }),
        f.nested_expr is None && f.column_ref is None && f.literal is None && f.aggregate is Some ==> field_text(f)
            == aggregate_name(f.aggregate->0.function) + seq!['('] + column_ref_text(f.aggregate->0.column) + seq![')'],
        f.nested_expr is None && f.column_ref is None && f.literal is None && f.aggregate is None ==> field_text(f).len() == 0,
{
    if f.nested_expr is None && f.column_ref is None {
        if let Some(SpecLiteral::Integer(i)) = f.literal {
            if i >= 0 {
                crate::sql::grammar::lemma_decimal_round_trip(i as nat);
            }
        }
    }
}

/// The lower-case names of the aggregate functions.
pub proof fn lemma_aggregate_names()
    ensures
        aggregate_name(AggregateType::Max) == seq!['m', 'a', 'x'],
        aggregate_name(AggregateType::Min) == seq!['m', 'i', 'n'],
        aggregate_name(AggregateType::Avg) == seq!['a', 'v', 'g'],
        aggregate_name(AggregateType::Sum) == seq!['s', 'u', 'm'],
        aggregate_name(AggregateType::Count) == seq!['c', 'o', 'u', 'n', 't'],
{
}

} // verus!
