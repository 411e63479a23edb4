//! The grammar of the SQL dialect, written as a deterministic parsing
//! expression grammar over tokens. Each rule maps a token sequence and a start
//! position to the parsed value and the position after it, or to `None`.
//! Alternatives are tried in order and repetitions stop at the first item that
//! does not parse.
//!
//! ```text
//! program        := (statement (";" statement)* ";"?)?
//! statement      := query | CREATE SOURCE def | CREATE SINK def
//!                 | INSERT INTO name ("(" name ("," name)* ")")? query
//! def            := name "(" field ("," field)* ")" (WITH "(" option ("," option)* ")")?
//! field          := name type          option := name "=" (string | number | boolean | name)
//! query          := SELECT DISTINCT? ("*" | column ("," column)*) FROM from
//!                   (WHERE cond)? (GROUP BY colref ("," colref)* (HAVING hcond)?)?
//!                   (ORDER BY item ("," item)*)? (LIMIT int (OFFSET int)?)?
//! column         := item (AS? name)?
//! item           := sexpr | aggregate | name "." name | name | string | subquery | sunit
//! sexpr          := sunit (op sunit)+     sunit := "(" sexpr ")" | operand
//! operand        := aggregate | name "." name | name | number | subquery
//! from           := scan join*             scan := subquery (AS? name)? | name (AS? name)?
//! join           := (INNER | LEFT OUTER? | OUTER)? JOIN scan ON colpair (AND colpair)*
//! cond           := term (AND|OR term)*    term := "(" cond ")" | condition
//! condition      := NOT? EXISTS subquery | arith NOT? IN subquery | boolean
//!                 | arith (cmp arith | IS NOT? NULL)?
//! arith          := aterm (op aterm)*      aterm := "(" arith ")" | factor
//! factor         := aggregate | name "." name | name | number | string | boolean | subquery
//! aggregate      := (MAX|MIN|AVG|SUM|COUNT) "(" ("*" | name "." name | name) ")"
//! item(order)    := colref (ASC|DESC)? (NULLS (FIRST|LAST))?
//! subquery       := "(" query ")"
//! ```
use crate::ir::{
    AggregateType, BinaryOp, ComparisonOp, DataType, JoinType, NullOp, OrderDirection,
    SpecAggregateFunction, SpecColumnRef, SpecComplexField, SpecCondition, SpecConditionType,
    SpecConnectorConfig, SpecConnectorOption, SpecExistsCondition, SpecFieldDef,
    SpecFilterClause, SpecGroupClause, SpecInCondition, SpecIrPlan, SpecJoinCondition,
    SpecLiteral, SpecNestedExpr, SpecNullCondition, SpecOptionValue, SpecOrderByItem,
    SpecPipeline, SpecProgram, SpecProjectionColumn, SpecSinkDef, SpecSourceDef,
};
use crate::sql::lexer::{kw_reserved, lex, word_kw, Kw, SpecToken, Sym};
use crate::text::{ascii_upper_seq, is_digit};
use vstd::prelude::*;

verus! {

/// A parse result: the value and the position after it.
pub type Parsed<X> = Option<(X, int)>;

/// Why a program is rejected.
#[derive(Debug, Clone, Copy, PartialEq, Eq, Structural)]
pub enum ParseError {
    /// The text is not a program of the grammar.
    Syntax,
    /// A statement is a bare query; queries must feed a sink (`INSERT INTO`).
    StandaloneQuery,
}

/// The message of a parse error.
pub open spec fn error_message(e: ParseError) -> Seq<char> {
    match e {
        ParseError::Syntax => "SQL syntax error: the text is not a program of the grammar"@,
        ParseError::StandaloneQuery => "Standalone queries not supported. Use INSERT INTO <sink> SELECT ..."@,
    }
}

impl ParseError {
    /// What went wrong, as text.
    pub fn message(&self) -> (r: String)
        ensures
            r@ == error_message(*self),
    {
        match self {
            ParseError::Syntax => "SQL syntax error: the text is not a program of the grammar".to_owned(),
            ParseError::StandaloneQuery => "Standalone queries not supported. Use INSERT INTO <sink> SELECT ...".to_owned(),
        }
    }
}

/// A parsed statement; a bare query keeps no value.
pub enum SpecStatement {
    Query,
    CreateSource(SpecSourceDef),
    CreateSink(SpecSinkDef),
    InsertInto(SpecPipeline),
}

/// An arithmetic chain whose last binary node is not built yet, so that the
/// node can still be marked as parenthesized.
pub enum SpecPending {
    Single(SpecComplexField),
    Binary(SpecComplexField, Seq<char>, SpecComplexField),
}

// ---------------------------------------------------------------------------
// Tokens
// ---------------------------------------------------------------------------

pub open spec fn fwd(t: Seq<SpecToken>, p: int, q: int) -> bool {
    p < q <= t.len()
}

pub open spec fn kw_at(t: Seq<SpecToken>, p: int, k: Kw) -> bool {
    0 <= p < t.len() && (t[p] matches SpecToken::Word { kw, .. } && kw == Some(k))
}

pub open spec fn word_kw_at(t: Seq<SpecToken>, p: int) -> Option<Kw> {
    if 0 <= p < t.len() {
        match t[p] {
            SpecToken::Word { kw, .. } => kw,
            _ => None,
        }
    } else {
        None
    }
}

pub open spec fn sym_at(t: Seq<SpecToken>, p: int, s: Sym) -> bool {
    0 <= p < t.len() && t[p] == SpecToken::Sym(s)
}

/// A name: a word that is not reserved.
pub open spec fn ident_at(t: Seq<SpecToken>, p: int) -> Option<Seq<char>> {
    if 0 <= p < t.len() {
        match t[p] {
            SpecToken::Word { text, kw } => match kw {
                Some(k) => if kw_reserved(k) {
                    None
                } else {
                    Some(text)
                },
                None => Some(text),
            },
            _ => None,
        }
    } else {
        None
    }
}

pub open spec fn bool_at(t: Seq<SpecToken>, p: int) -> Option<bool> {
    if kw_at(t, p, Kw::True) {
        Some(true)
    } else if kw_at(t, p, Kw::False) {
        Some(false)
    } else {
        None
    }
}

pub open spec fn string_at(t: Seq<SpecToken>, p: int) -> Option<Seq<char>> {
    if 0 <= p < t.len() {
        match t[p] {
            SpecToken::Str(s) => Some(s),
            _ => None,
        }
    } else {
        None
    }
}

pub open spec fn number_at(t: Seq<SpecToken>, p: int) -> Option<Seq<char>> {
    if 0 <= p < t.len() {
        match t[p] {
            SpecToken::Number(s) => Some(s),
            _ => None,
        }
    } else {
        None
    }
}

pub open spec fn has_char(s: Seq<char>, c: char) -> bool {
    exists|i: int| 0 <= i < s.len() && s[i] == c
}

pub open spec fn all_digits(s: Seq<char>) -> bool {
    forall|i: int| 0 <= i < s.len() ==> is_digit(#[trigger] s[i])
}

/// The value of a decimal numeral.
pub open spec fn decimal_value(s: Seq<char>) -> int
    decreases s.len(),
{
    if s.len() == 0 {
        0
    } else {
        decimal_value(s.drop_last()) * 10 + (s.last() as int - '0' as int)
    }
}

/// A decimal integer that fits an `i64`.
pub open spec fn int_value(s: Seq<char>) -> Option<i64> {
    if s.len() > 0 && all_digits(s) && decimal_value(s) <= i64::MAX {
        Some(decimal_value(s) as i64)
    } else {
        None
    }
}

/// A number literal: a float (kept as text) when written with a `.`, else an
/// integer that must fit an `i64`.
pub open spec fn number_lit(t: Seq<SpecToken>, p: int) -> Parsed<SpecLiteral> {
    match number_at(t, p) {
        Some(s) => if has_char(s, '.') {
            Some((SpecLiteral::Float(s), p + 1))
        } else {
            match int_value(s) {
                Some(v) => Some((SpecLiteral::Integer(v), p + 1)),
                None => None,
            }
        },
        None => None,
    }
}

pub open spec fn int_lit(t: Seq<SpecToken>, p: int) -> Parsed<i64> {
    match number_at(t, p) {
        Some(s) => match int_value(s) {
            Some(v) => Some((v, p + 1)),
            None => None,
        },
        None => None,
    }
}

pub open spec fn agg_kind(k: Option<Kw>) -> Option<AggregateType> {
    match k {
        Some(Kw::AggMax) => Some(AggregateType::Max),
        Some(Kw::AggMin) => Some(AggregateType::Min),
        Some(Kw::AggAvg) => Some(AggregateType::Avg),
        Some(Kw::AggSum) => Some(AggregateType::Sum),
        Some(Kw::AggCount) => Some(AggregateType::Count),
        _ => None,
    }
}

pub open spec fn data_type_of(k: Option<Kw>) -> Option<DataType> {
    match k {
        Some(Kw::TyInteger) | Some(Kw::TyI32) => Some(DataType::Integer),
        Some(Kw::TyBigInt) | Some(Kw::TyI64) => Some(DataType::BigInt),
        Some(Kw::TyFloat) | Some(Kw::TyF32) => Some(DataType::Float),
        Some(Kw::TyDouble) | Some(Kw::TyF64) => Some(DataType::Double),
        Some(Kw::TyString) => Some(DataType::String),
        Some(Kw::TyBoolean) | Some(Kw::TyBool) => Some(DataType::Boolean),
        Some(Kw::TyTimestamp) => Some(DataType::Timestamp),
        _ => None,
    }
}

pub open spec fn comparison_at(t: Seq<SpecToken>, p: int) -> Option<ComparisonOp> {
    if sym_at(t, p, Sym::Gt) {
        Some(ComparisonOp::GreaterThan)
    } else if sym_at(t, p, Sym::Lt) {
        Some(ComparisonOp::LessThan)
    } else if sym_at(t, p, Sym::Eq) {
        Some(ComparisonOp::Equal)
    } else if sym_at(t, p, Sym::NotEq) {
        Some(ComparisonOp::NotEqual)
    } else if sym_at(t, p, Sym::Ge) {
        Some(ComparisonOp::GreaterThanEquals)
    } else if sym_at(t, p, Sym::Le) {
        Some(ComparisonOp::LessThanEquals)
    } else {
        None
    }
}

/// `IS NULL` or `IS NOT NULL`.
pub open spec fn null_op_at(t: Seq<SpecToken>, p: int) -> Parsed<NullOp> {
    if kw_at(t, p, Kw::Is) && kw_at(t, p + 1, Kw::Null) {
        Some((NullOp::IsNull, p + 2))
    } else if kw_at(t, p, Kw::Is) && kw_at(t, p + 1, Kw::Not) && kw_at(t, p + 2, Kw::Null) {
        Some((NullOp::IsNotNull, p + 3))
    } else {
        None
    }
}

pub open spec fn bin_op_at(t: Seq<SpecToken>, p: int) -> Option<BinaryOp> {
    if kw_at(t, p, Kw::And) {
        Some(BinaryOp::And)
    } else if kw_at(t, p, Kw::Or) {
        Some(BinaryOp::Or)
    } else {
        None
    }
}

/// An arithmetic operator and its text.
pub open spec fn arith_sym_at(t: Seq<SpecToken>, p: int) -> Option<Seq<char>> {
    if sym_at(t, p, Sym::Plus) {
        Some(seq!['+'])
    } else if sym_at(t, p, Sym::Minus) {
        Some(seq!['-'])
    } else if sym_at(t, p, Sym::Star) {
        Some(seq!['*'])
    } else if sym_at(t, p, Sym::Slash) {
        Some(seq!['/'])
    } else if sym_at(t, p, Sym::Percent) {
        Some(seq!['%'])
    } else {
        None
    }
}

// ---------------------------------------------------------------------------
// Values built by the rules
// ---------------------------------------------------------------------------

pub open spec fn fld_col(c: SpecColumnRef) -> SpecComplexField {
    SpecComplexField {
        column_ref: Some(c),
        literal: None,
        aggregate: None,
        nested_expr: None,
        subquery: None,
        subquery_vec: None,
    }
}

pub open spec fn fld_lit(l: SpecLiteral) -> SpecComplexField {
    SpecComplexField {
        column_ref: None,
        literal: Some(l),
        aggregate: None,
        nested_expr: None,
        subquery: None,
        subquery_vec: None,
    }
}

pub open spec fn fld_agg(a: SpecAggregateFunction) -> SpecComplexField {
    SpecComplexField {
        column_ref: None,
        literal: None,
        aggregate: Some(a),
        nested_expr: None,
        subquery: None,
        subquery_vec: None,
    }
}

pub open spec fn fld_sub(q: SpecIrPlan) -> SpecComplexField {
    SpecComplexField {
        column_ref: None,
        literal: None,
        aggregate: None,
        nested_expr: None,
        subquery: Some(Box::new(q)),
        subquery_vec: None,
    }
}

pub open spec fn fld_nested(
    l: SpecComplexField,
    op: Seq<char>,
    r: SpecComplexField,
    paren: bool,
) -> SpecComplexField {
    SpecComplexField {
        column_ref: None,
        literal: None,
        aggregate: None,
        nested_expr: Some(
            Box::new(SpecNestedExpr { left: l, op: op, right: r, parenthesized: paren }),
        ),
        subquery: None,
        subquery_vec: None,
    }
}

/// Completes a chain; a binary chain becomes a nested expression marked
/// `paren` when the chain was written in parentheses.
pub open spec fn wrap(pd: SpecPending, paren: bool) -> SpecComplexField {
    match pd {
        SpecPending::Single(f) => f,
        SpecPending::Binary(l, op, r) => fld_nested(l, op, r, paren),
    }
}

pub open spec fn with_alias(c: SpecProjectionColumn, a: Seq<char>) -> SpecProjectionColumn {
    match c {
        SpecProjectionColumn::Column(x, _) => SpecProjectionColumn::Column(x, Some(a)),
        SpecProjectionColumn::Aggregate(x, _) => SpecProjectionColumn::Aggregate(x, Some(a)),
        SpecProjectionColumn::ComplexValue(x, _) => SpecProjectionColumn::ComplexValue(x, Some(a)),
        SpecProjectionColumn::StringLiteral(x, _) => SpecProjectionColumn::StringLiteral(x, Some(a)),
        SpecProjectionColumn::Subquery(x, _) => SpecProjectionColumn::Subquery(x, Some(a)),
        SpecProjectionColumn::SubqueryVec(x, y) => SpecProjectionColumn::SubqueryVec(x, y),
    }
}

/// The literal `0` that a bare expression condition is compared against.
pub open spec fn zero_field() -> SpecComplexField {
    fld_lit(SpecLiteral::Integer(0))
}

// ---------------------------------------------------------------------------
// Rules without subqueries
// ---------------------------------------------------------------------------

/// `name "." name`
pub open spec fn table_column(t: Seq<SpecToken>, p: int) -> Parsed<SpecColumnRef> {
    match (ident_at(t, p), ident_at(t, p + 2)) {
        (Some(a), Some(b)) => if sym_at(t, p + 1, Sym::Dot) {
            Some((SpecColumnRef { table: Some(a), column: b }, p + 3))
        } else {
            None
        },
        _ => None,
    }
}

/// `name "." name | name`
pub open spec fn column_ref(t: Seq<SpecToken>, p: int) -> Parsed<SpecColumnRef> {
    match table_column(t, p) {
        Some(r) => Some(r),
        None => match ident_at(t, p) {
            Some(n) => Some((SpecColumnRef { table: None, column: n }, p + 1)),
            None => None,
        },
    }
}

pub open spec fn star_column() -> SpecColumnRef {
    SpecColumnRef { table: None, column: seq!['*'] }
}

/// `(MAX|MIN|AVG|SUM|COUNT) "(" ("*" | name "." name | name) ")"`
pub open spec fn aggregate(t: Seq<SpecToken>, p: int) -> Parsed<SpecAggregateFunction> {
    match agg_kind(word_kw_at(t, p)) {
        Some(f) => if !sym_at(t, p + 1, Sym::LParen) {
            None
        } else {
            let arg = if sym_at(t, p + 2, Sym::Star) {
                Some((star_column(), p + 3))
            } else {
                column_ref(t, p + 2)
            };
            match arg {
                Some((c, q)) => if sym_at(t, q, Sym::RParen) {
                    Some((SpecAggregateFunction { function: f, column: c }, q + 1))
                } else {
                    None
                },
                None => None,
            }
        },
        None => None,
    }
}

/// An optional alias: `AS name` or `name`.
pub open spec fn alias_at(t: Seq<SpecToken>, p: int) -> Option<(Seq<char>, int)> {
    if kw_at(t, p, Kw::As) {
        match ident_at(t, p + 1) {
            Some(a) => Some((a, p + 2)),
            None => None,
        }
    } else {
        match ident_at(t, p) {
            Some(a) => Some((a, p + 1)),
            None => None,
        }
    }
}

pub open spec fn join_pair(t: Seq<SpecToken>, p: int) -> Parsed<SpecJoinCondition> {
    match table_column(t, p) {
        Some((l, q)) => if sym_at(t, q, Sym::Eq) {
            match table_column(t, q + 1) {
                Some((r, s)) => Some((SpecJoinCondition { left_col: l, right_col: r }, s)),
                None => None,
            }
        } else {
            None
        },
        None => None,
    }
}

pub open spec fn join_pairs_rest(
    t: Seq<SpecToken>,
    q: int,
    acc: Seq<SpecJoinCondition>,
) -> Parsed<Seq<SpecJoinCondition>>
    decreases t.len() - q,
{
    if kw_at(t, q, Kw::And) {
        match join_pair(t, q + 1) {
            Some((c, r)) => if fwd(t, q, r) {
                join_pairs_rest(t, r, acc.push(c))
            } else {
                Some((acc, q))
            },
            None => Some((acc, q)),
        }
    } else {
        Some((acc, q))
    }
}

/// `colpair (AND colpair)*`
pub open spec fn join_pairs(t: Seq<SpecToken>, p: int) -> Parsed<Seq<SpecJoinCondition>> {
    match join_pair(t, p) {
        Some((c, q)) => join_pairs_rest(t, q, seq![c]),
        None => None,
    }
}

pub open spec fn column_refs_rest(
    t: Seq<SpecToken>,
    q: int,
    acc: Seq<SpecColumnRef>,
) -> Parsed<Seq<SpecColumnRef>>
    decreases t.len() - q,
{
    if sym_at(t, q, Sym::Comma) {
        match column_ref(t, q + 1) {
            Some((c, r)) => if fwd(t, q, r) {
                column_refs_rest(t, r, acc.push(c))
            } else {
                Some((acc, q))
            },
            None => Some((acc, q)),
        }
    } else {
        Some((acc, q))
    }
}

/// `colref ("," colref)*`
pub open spec fn column_refs(t: Seq<SpecToken>, p: int) -> Parsed<Seq<SpecColumnRef>> {
    match column_ref(t, p) {
        Some((c, q)) => column_refs_rest(t, q, seq![c]),
        None => None,
    }
}

/// `colref (ASC|DESC)? (NULLS (FIRST|LAST))?`
pub open spec fn order_item(t: Seq<SpecToken>, p: int) -> Parsed<SpecOrderByItem> {
    match column_ref(t, p) {
        Some((c, q)) => {
            let (dir, q2) = if kw_at(t, q, Kw::Asc) {
                (OrderDirection::Asc, q + 1)
            } else if kw_at(t, q, Kw::Desc) {
                (OrderDirection::Desc, q + 1)
            } else {
                (OrderDirection::Asc, q)
            };
            let (nulls, q3) = if kw_at(t, q2, Kw::Nulls) && kw_at(t, q2 + 1, Kw::First) {
                (Some(true), q2 + 2)
            } else if kw_at(t, q2, Kw::Nulls) && kw_at(t, q2 + 1, Kw::Last) {
                (Some(false), q2 + 2)
            } else {
                (None, q2)
            };
            Some((SpecOrderByItem { column: c, direction: dir, nulls_first: nulls }, q3))
        },
        None => None,
    }
}

pub open spec fn order_items_rest(
    t: Seq<SpecToken>,
    q: int,
    acc: Seq<SpecOrderByItem>,
) -> Parsed<Seq<SpecOrderByItem>>
    decreases t.len() - q,
{
    if sym_at(t, q, Sym::Comma) {
        match order_item(t, q + 1) {
            Some((c, r)) => if fwd(t, q, r) {
                order_items_rest(t, r, acc.push(c))
            } else {
                Some((acc, q))
            },
            None => Some((acc, q)),
        }
    } else {
        Some((acc, q))
    }
}

/// `ORDER BY item ("," item)*`, if present.
pub open spec fn opt_order(t: Seq<SpecToken>, p: int) -> Parsed<Option<Seq<SpecOrderByItem>>> {
    if kw_at(t, p, Kw::Order) && kw_at(t, p + 1, Kw::By) {
        match order_item(t, p + 2) {
            Some((c, q)) => match order_items_rest(t, q, seq![c]) {
                Some((items, r)) => Some((Some(items), r)),
                None => None,
            },
            None => None,
        }
    } else {
        Some((None, p))
    }
}

/// `LIMIT int (OFFSET int)?`, if present.
pub open spec fn opt_limit(t: Seq<SpecToken>, p: int) -> Parsed<Option<(i64, Option<i64>)>> {
    if kw_at(t, p, Kw::Limit) {
        match int_lit(t, p + 1) {
            Some((n, q)) => if kw_at(t, q, Kw::Offset) {
                match int_lit(t, q + 1) {
                    Some((m, r)) => Some((Some((n, Some(m))), r)),
                    None => Some((Some((n, None)), q)),
                }
            } else {
                Some((Some((n, None)), q))
            },
            None => None,
        }
    } else {
        Some((None, p))
    }
}

// ---------------------------------------------------------------------------
// Rules that may contain subqueries (mutually recursive)
// ---------------------------------------------------------------------------

/// `"(" query ")"`
pub open spec fn subquery(t: Seq<SpecToken>, p: int) -> Parsed<SpecIrPlan>
    decreases t.len() - p, 1nat,
{
    if !sym_at(t, p, Sym::LParen) {
        None
    } else {
        match select_body(t, p + 1) {
            Some((plan, q)) => if sym_at(t, q, Sym::RParen) {
                Some((plan, q + 1))
            } else {
                None
            },
            None => None,
        }
    }
}

/// `aggregate | name "." name | name | number | string | boolean | subquery`
pub open spec fn factor(t: Seq<SpecToken>, p: int) -> Parsed<SpecComplexField>
    decreases t.len() - p, 2nat,
{
    match aggregate(t, p) {
        Some((a, q)) => Some((fld_agg(a), q)),
        None => match table_column(t, p) {
            Some((c, q)) => Some((fld_col(c), q)),
            None => match ident_at(t, p) {
                Some(n) => Some((fld_col(SpecColumnRef { table: None, column: n }), p + 1)),
                None => match number_lit(t, p) {
                    Some((l, q)) => Some((fld_lit(l), q)),
                    None => match string_at(t, p) {
                        Some(s) => Some((fld_lit(SpecLiteral::Str(s)), p + 1)),
                        None => match bool_at(t, p) {
                            Some(b) => Some((fld_lit(SpecLiteral::Boolean(b)), p + 1)),
                            None => match subquery(t, p) {
                                Some((q_plan, q)) => Some((fld_sub(q_plan), q)),
                                None => None,
                            },
                        },
                    },
                },
            },
        },
    }
}

/// `"(" arith ")" | factor`
pub open spec fn aterm(t: Seq<SpecToken>, p: int) -> Parsed<SpecComplexField>
    decreases t.len() - p, 3nat,
{
    let inner = if sym_at(t, p, Sym::LParen) {
        match arith(t, p + 1, true) {
            Some((f, q)) => if sym_at(t, q, Sym::RParen) {
                Some((f, q + 1))
            } else {
                None
            },
            None => None,
        }
    } else {
        None
    };
    match inner {
        Some(r) => Some(r),
        None => factor(t, p),
    }
}

pub open spec fn arith_rest(t: Seq<SpecToken>, q: int, acc: SpecPending) -> Parsed<SpecPending>
    decreases t.len() - q, 4nat,
{
    match arith_sym_at(t, q) {
        Some(op) => match aterm(t, q + 1) {
            Some((g, r)) => if fwd(t, q, r) {
                arith_rest(t, r, SpecPending::Binary(wrap(acc, false), op, g))
            } else {
                Some((acc, q))
            },
            None => Some((acc, q)),
        },
        None => Some((acc, q)),
    }
}

/// `aterm (op aterm)*`, left-associated; `paren` marks a chain written in
/// parentheses.
pub open spec fn arith(t: Seq<SpecToken>, p: int, paren: bool) -> Parsed<SpecComplexField>
    decreases t.len() - p, 5nat,
{
    match aterm(t, p) {
        Some((f, q)) => if fwd(t, p, q) {
            match arith_rest(t, q, SpecPending::Single(f)) {
                Some((pd, r)) => Some((wrap(pd, paren), r)),
                None => None,
            }
        } else {
            None
        },
        None => None,
    }
}

/// `arith NOT? IN subquery`
pub open spec fn in_cond(t: Seq<SpecToken>, p: int) -> Parsed<SpecConditionType>
    decreases t.len() - p, 6nat,
{
    match arith(t, p, false) {
        Some((f, q)) => {
            let k = if kw_at(t, q, Kw::Not) && kw_at(t, q + 1, Kw::In) {
                Some((true, q + 2))
            } else if kw_at(t, q, Kw::In) {
                Some((false, q + 1))
            } else {
                None
            };
            match k {
                Some((neg, q2)) => if fwd(t, p, q2) {
                    match subquery(t, q2) {
                        Some((plan, r)) => Some(
                            (
                                SpecConditionType::In(
                                    SpecInCondition::Subquery {
                                        field: f,
                                        subquery: Box::new(plan),
                                        negated: neg,
                                    },
                                ),
                                r,
                            ),
                        ),
                        None => None,
                    }
                } else {
                    None
                },
                None => None,
            }
        },
        None => None,
    }
}

/// `NOT? EXISTS subquery | in | boolean | arith (cmp arith | IS NOT? NULL)?`
pub open spec fn condition(t: Seq<SpecToken>, p: int) -> Parsed<SpecConditionType>
    decreases t.len() - p, 7nat,
{
    if kw_at(t, p, Kw::Not) && kw_at(t, p + 1, Kw::Exists) {
        match subquery(t, p + 2) {
            Some((plan, q)) => Some(
                (
                    SpecConditionType::Exists(
                        SpecExistsCondition::Subquery { subquery: Box::new(plan), negated: true },
                    ),
                    q,
                ),
            ),
            None => None,
        }
    } else if kw_at(t, p, Kw::Exists) {
        match subquery(t, p + 1) {
            Some((plan, q)) => Some(
                (
                    SpecConditionType::Exists(
                        SpecExistsCondition::Subquery { subquery: Box::new(plan), negated: false },
                    ),
                    q,
                ),
            ),
            None => None,
        }
    } else {
        match in_cond(t, p) {
            Some(r) => Some(r),
            None => match bool_at(t, p) {
                Some(b) => Some((SpecConditionType::Boolean(b), p + 1)),
                None => match arith(t, p, false) {
                    Some((f, q)) => {
                        let bare = Some(
                            (
                                SpecConditionType::Comparison(
                                    SpecCondition {
                                        left_field: f,
                                        operator: ComparisonOp::NotEqual,
                                        right_field: zero_field(),
                                    },
                                ),
                                q,
                            ),
                        );
                        match comparison_at(t, q) {
                            Some(op) => if fwd(t, p, q) {
                                match arith(t, q + 1, false) {
                                    Some((g, r)) => Some(
                                        (
                                            SpecConditionType::Comparison(
                                                SpecCondition {
                                                    left_field: f,
                                                    operator: op,
                                                    right_field: g,
                                                },
                                            ),
                                            r,
                                        ),
                                    ),
                                    None => bare,
                                }
                            } else {
                                None
                            },
                            None => match null_op_at(t, q) {
                                Some((nop, r)) => Some(
                                    (
                                        SpecConditionType::NullCheck(
                                            SpecNullCondition { field: f, operator: nop },
                                        ),
                                        r,
                                    ),
                                ),
                                None => bare,
                            },
                        }
                    },
                    None => None,
                },
            },
        }
    }
}

/// `"(" cond ")" | condition`
pub open spec fn where_term(t: Seq<SpecToken>, p: int) -> Parsed<SpecFilterClause>
    decreases t.len() - p, 8nat,
{
    let inner = if sym_at(t, p, Sym::LParen) {
        match where_conds(t, p + 1) {
            Some((f, q)) => if sym_at(t, q, Sym::RParen) {
                Some((f, q + 1))
            } else {
                None
            },
            None => None,
        }
    } else {
        None
    };
    match inner {
        Some(r) => Some(r),
        None => match condition(t, p) {
            Some((c, q)) => Some((SpecFilterClause::Base(c), q)),
            None => None,
        },
    }
}

pub open spec fn where_rest(t: Seq<SpecToken>, q: int, acc: SpecFilterClause) -> Parsed<
    SpecFilterClause,
>
    decreases t.len() - q, 8nat,
{
    match bin_op_at(t, q) {
        Some(op) => match where_term(t, q + 1) {
            Some((g, r)) => if fwd(t, q, r) {
                where_rest(
                    t,
                    r,
                    SpecFilterClause::Expression {
                        left: Box::new(acc),
                        binary_op: op,
                        right: Box::new(g),
                    },
                )
            } else {
                Some((acc, q))
            },
            None => Some((acc, q)),
        },
        None => Some((acc, q)),
    }
}

/// `term ((AND|OR) term)*`, left-associated.
pub open spec fn where_conds(t: Seq<SpecToken>, p: int) -> Parsed<SpecFilterClause>
    decreases t.len() - p, 9nat,
{
    match where_term(t, p) {
        Some((f, q)) => if fwd(t, p, q) {
            where_rest(t, q, f)
        } else {
            None
        },
        None => None,
    }
}

/// `"(" hcond ")" | condition`
pub open spec fn having_term(t: Seq<SpecToken>, p: int) -> Parsed<SpecGroupClause>
    decreases t.len() - p, 8nat,
{
    let inner = if sym_at(t, p, Sym::LParen) {
        match having_conds(t, p + 1) {
            Some((f, q)) => if sym_at(t, q, Sym::RParen) {
                Some((f, q + 1))
            } else {
                None
            },
            None => None,
        }
    } else {
        None
    };
    match inner {
        Some(r) => Some(r),
        None => match condition(t, p) {
            Some((c, q)) => Some((SpecGroupClause::Base(c), q)),
            None => None,
        },
    }
}

pub open spec fn having_rest(t: Seq<SpecToken>, q: int, acc: SpecGroupClause) -> Parsed<
    SpecGroupClause,
>
    decreases t.len() - q, 8nat,
{
    match bin_op_at(t, q) {
        Some(op) => match having_term(t, q + 1) {
            Some((g, r)) => if fwd(t, q, r) {
                having_rest(
                    t,
                    r,
                    SpecGroupClause::Expression { left: Box::new(acc), op: op, right: Box::new(g) },
                )
            } else {
                Some((acc, q))
            },
            None => Some((acc, q)),
        },
        None => Some((acc, q)),
    }
}

/// `hterm ((AND|OR) hterm)*`, left-associated.
pub open spec fn having_conds(t: Seq<SpecToken>, p: int) -> Parsed<SpecGroupClause>
    decreases t.len() - p, 9nat,
{
    match having_term(t, p) {
        Some((f, q)) => if fwd(t, p, q) {
            having_rest(t, q, f)
        } else {
            None
        },
        None => None,
    }
}

/// `aggregate | name "." name | name | number | subquery`
pub open spec fn operand(t: Seq<SpecToken>, p: int) -> Parsed<SpecComplexField>
    decreases t.len() - p, 2nat,
{
    match aggregate(t, p) {
        Some((a, q)) => Some((fld_agg(a), q)),
        None => match table_column(t, p) {
            Some((c, q)) => Some((fld_col(c), q)),
            None => match ident_at(t, p) {
                Some(n) => Some((fld_col(SpecColumnRef { table: None, column: n }), p + 1)),
                None => match number_lit(t, p) {
                    Some((l, q)) => Some((fld_lit(l), q)),
                    None => match subquery(t, p) {
                        Some((q_plan, q)) => Some((fld_sub(q_plan), q)),
                        None => None,
                    },
                },
            },
        },
    }
}

/// `"(" sexpr ")" | operand`
pub open spec fn sunit(t: Seq<SpecToken>, p: int) -> Parsed<SpecComplexField>
    decreases t.len() - p, 3nat,
{
    let inner = if sym_at(t, p, Sym::LParen) {
        match sexpr(t, p + 1, true) {
            Some((f, q)) => if sym_at(t, q, Sym::RParen) {
                Some((f, q + 1))
            } else {
                None
            },
            None => None,
        }
    } else {
        None
    };
    match inner {
        Some(r) => Some(r),
        None => operand(t, p),
    }
}

pub open spec fn sexpr_rest(t: Seq<SpecToken>, q: int, acc: SpecPending) -> Parsed<SpecPending>
    decreases t.len() - q, 4nat,
{
    match arith_sym_at(t, q) {
        Some(op) => match sunit(t, q + 1) {
            Some((g, r)) => if fwd(t, q, r) {
                sexpr_rest(t, r, SpecPending::Binary(wrap(acc, false), op, g))
            } else {
                Some((acc, q))
            },
            None => Some((acc, q)),
        },
        None => Some((acc, q)),
    }
}

/// `sunit (op sunit)+`: a computed column has at least one operator.
pub open spec fn sexpr(t: Seq<SpecToken>, p: int, paren: bool) -> Parsed<SpecComplexField>
    decreases t.len() - p, 5nat,
{
    match sunit(t, p) {
        Some((f, q)) => if fwd(t, p, q) {
            match arith_sym_at(t, q) {
                Some(op) => match sunit(t, q + 1) {
                    Some((g, r)) => if fwd(t, q, r) {
                        match sexpr_rest(t, r, SpecPending::Binary(f, op, g)) {
                            Some((pd, s)) => Some((wrap(pd, paren), s)),
                            None => None,
                        }
                    } else {
                        None
                    },
                    None => None,
                },
                None => None,
            }
        } else {
            None
        },
        None => None,
    }
}

/// `sexpr | aggregate | name "." name | name | string | subquery | sunit`: a
/// number or a parenthesized expression alone is a computed column too.
pub open spec fn column_item(t: Seq<SpecToken>, p: int) -> Parsed<SpecProjectionColumn>
    decreases t.len() - p, 6nat,
{
    match sexpr(t, p, false) {
        Some((f, q)) => Some((SpecProjectionColumn::ComplexValue(f, None), q)),
        None => match aggregate(t, p) {
            Some((a, q)) => Some((SpecProjectionColumn::Aggregate(a, None), q)),
            None => match table_column(t, p) {
                Some((c, q)) => Some((SpecProjectionColumn::Column(c, None), q)),
                None => match ident_at(t, p) {
                    Some(n) => Some(
                        (SpecProjectionColumn::Column(SpecColumnRef { table: None, column: n }, None), p + 1),
                    ),
                    None => match string_at(t, p) {
                        Some(s) => Some((SpecProjectionColumn::StringLiteral(s, None), p + 1)),
                        None => match subquery(t, p) {
                            Some((plan, q)) => Some(
                                (SpecProjectionColumn::Subquery(Box::new(plan), None), q),
                            ),
                            None => match sunit(t, p) {
                                Some((f, q)) => Some((SpecProjectionColumn::ComplexValue(f, None), q)),
                                None => None,
                            },
                        },
                    },
                },
            },
        },
    }
}

/// `item (AS? name)?`
pub open spec fn column(t: Seq<SpecToken>, p: int) -> Parsed<SpecProjectionColumn>
    decreases t.len() - p, 7nat,
{
    match column_item(t, p) {
        Some((c, q)) => match alias_at(t, q) {
            Some((a, r)) => Some((with_alias(c, a), r)),
            None => Some((c, q)),
        },
        None => None,
    }
}

pub open spec fn columns_rest(
    t: Seq<SpecToken>,
    q: int,
    acc: Seq<SpecProjectionColumn>,
) -> Parsed<Seq<SpecProjectionColumn>>
    decreases t.len() - q, 8nat,
{
    if sym_at(t, q, Sym::Comma) {
        match column(t, q + 1) {
            Some((c, r)) => if fwd(t, q, r) {
                columns_rest(t, r, acc.push(c))
            } else {
                Some((acc, q))
            },
            None => Some((acc, q)),
        }
    } else {
        Some((acc, q))
    }
}

/// `column ("," column)*`
pub open spec fn columns(t: Seq<SpecToken>, p: int) -> Parsed<Seq<SpecProjectionColumn>>
    decreases t.len() - p, 8nat,
{
    match column(t, p) {
        Some((c, q)) => if fwd(t, p, q) {
            columns_rest(t, q, seq![c])
        } else {
            None
        },
        None => None,
    }
}

/// `subquery (AS? name)? | name (AS? name)?`; a subquery's alias is dropped.
pub open spec fn scan(t: Seq<SpecToken>, p: int) -> Parsed<SpecIrPlan>
    decreases t.len() - p, 2nat,
{
    match subquery(t, p) {
        Some((plan, q)) => match alias_at(t, q) {
            Some((_, r)) => Some((plan, r)),
            None => Some((plan, q)),
        },
        None => match ident_at(t, p) {
            Some(n) => match alias_at(t, p + 1) {
                Some((a, r)) => Some((SpecIrPlan::Source { source_name: n, alias: Some(a) }, r)),
                None => Some((SpecIrPlan::Source { source_name: n, alias: None }, p + 1)),
            },
            None => None,
        },
    }
}

/// The join kind and the position of `JOIN`.
pub open spec fn join_kind(t: Seq<SpecToken>, p: int) -> (JoinType, int) {
    if kw_at(t, p, Kw::Inner) {
        (JoinType::Inner, p + 1)
    } else if kw_at(t, p, Kw::Left) && kw_at(t, p + 1, Kw::Outer) {
        (JoinType::Left, p + 2)
    } else if kw_at(t, p, Kw::Left) {
        (JoinType::Left, p + 1)
    } else if kw_at(t, p, Kw::Outer) {
        (JoinType::Outer, p + 1)
    } else {
        (JoinType::Inner, p)
    }
}

/// `kind? JOIN scan ON colpair (AND colpair)*`, joined onto `left`.
pub open spec fn join_clause(t: Seq<SpecToken>, p: int, left: SpecIrPlan) -> Parsed<SpecIrPlan>
    decreases t.len() - p, 3nat,
{
    let (kind, q) = join_kind(t, p);
    if !kw_at(t, q, Kw::Join) {
        None
    } else {
        match scan(t, q + 1) {
            Some((right, r)) => if kw_at(t, r, Kw::On) {
                match join_pairs(t, r + 1) {
                    Some((conds, s)) => Some(
                        (
                            SpecIrPlan::Join {
                                left: Box::new(left),
                                right: Box::new(right),
                                condition: conds,
                                join_type: kind,
                            },
                            s,
                        ),
                    ),
                    None => None,
                }
            } else {
                None
            },
            None => None,
        }
    }
}

pub open spec fn from_rest(t: Seq<SpecToken>, q: int, plan: SpecIrPlan) -> Parsed<SpecIrPlan>
    decreases t.len() - q, 4nat,
{
    match join_clause(t, q, plan) {
        Some((p2, r)) => if fwd(t, q, r) {
            from_rest(t, r, p2)
        } else {
            Some((plan, q))
        },
        None => Some((plan, q)),
    }
}

/// `scan join*`, joins applied left to right.
pub open spec fn from_clause(t: Seq<SpecToken>, p: int) -> Parsed<SpecIrPlan>
    decreases t.len() - p, 5nat,
{
    match scan(t, p) {
        Some((plan, q)) => if fwd(t, p, q) {
            from_rest(t, q, plan)
        } else {
            None
        },
        None => None,
    }
}

/// `WHERE cond`, if present.
pub open spec fn opt_where(t: Seq<SpecToken>, p: int) -> Parsed<Option<SpecFilterClause>>
    decreases t.len() - p, 10nat,
{
    if kw_at(t, p, Kw::Where) {
        match where_conds(t, p + 1) {
            Some((f, q)) => Some((Some(f), q)),
            None => None,
        }
    } else {
        Some((None, p))
    }
}

/// `GROUP BY colref ("," colref)* (HAVING hcond)?`, if present.
pub open spec fn opt_group(t: Seq<SpecToken>, p: int) -> Parsed<
    Option<(Seq<SpecColumnRef>, Option<SpecGroupClause>)>,
>
    decreases t.len() - p, 10nat,
{
    if kw_at(t, p, Kw::Group) && kw_at(t, p + 1, Kw::By) {
        match column_refs(t, p + 2) {
            Some((keys, q)) => if kw_at(t, q, Kw::Having) && fwd(t, p, q) {
                match having_conds(t, q + 1) {
                    Some((h, r)) => Some((Some((keys, Some(h))), r)),
                    None => None,
                }
            } else {
                Some((Some((keys, None)), q))
            },
            None => None,
        }
    } else {
        Some((None, p))
    }
}

/// The plan of a query, built bottom-up: the `FROM` plan, then the filter,
/// then grouping (with the selected columns as aggregations) or, without
/// grouping, the projection when columns are listed, then `DISTINCT`, the
/// ordering and the limit.
pub open spec fn build_plan(
    from: SpecIrPlan,
    filter: Option<SpecFilterClause>,
    projections: Seq<SpecProjectionColumn>,
    group: Option<(Seq<SpecColumnRef>, Option<SpecGroupClause>)>,
    distinct: bool,
    order: Option<Seq<SpecOrderByItem>>,
    limit: Option<(i64, Option<i64>)>,
) -> SpecIrPlan {
    let p1 = match filter {
        Some(f) => SpecIrPlan::Filter { input: Box::new(from), predicate: f },
        None => from,
    };
    let p2 = match group {
        Some((keys, having)) => SpecIrPlan::GroupBy {
            input: Box::new(p1),
            keys,
            aggregations: projections,
            having,
        },
        None => if projections.len() > 0 {
            SpecIrPlan::Mapping { input: Box::new(p1), projections }
        } else {
            p1
        },
    };
    let p3 = if distinct {
        SpecIrPlan::Distinct { input: Box::new(p2) }
    } else {
        p2
    };
    let p4 = match order {
        Some(items) => SpecIrPlan::OrderBy { input: Box::new(p3), items },
        None => p3,
    };
    match limit {
        Some((n, off)) => SpecIrPlan::Limit { input: Box::new(p4), limit: n, offset: off },
        None => p4,
    }
}

/// `SELECT DISTINCT? ("*" | columns) FROM from where? group? order? limit?`
pub open spec fn select_body(t: Seq<SpecToken>, p: int) -> Parsed<SpecIrPlan>
    decreases t.len() - p, 12nat,
{
    if !kw_at(t, p, Kw::Select) {
        None
    } else {
        let distinct = kw_at(t, p + 1, Kw::Distinct);
        let p2 = if distinct {
            p + 2
        } else {
            p + 1
        };
        let cols = if sym_at(t, p2, Sym::Star) {
            Some((Seq::empty(), p2 + 1))
        } else {
            columns(t, p2)
        };
        match cols {
            Some((projs, p3)) => if kw_at(t, p3, Kw::From) && fwd(t, p, p3) {
                match from_clause(t, p3 + 1) {
                    Some((from, p4)) => if fwd(t, p, p4) {
                        match opt_where(t, p4) {
                            Some((filter, p5)) => if fwd(t, p, p5) {
                                match opt_group(t, p5) {
                                    Some((group, p6)) => match opt_order(t, p6) {
                                        Some((order, p7)) => match opt_limit(t, p7) {
                                            Some((limit, p8)) => Some(
                                                (
                                                    build_plan(
                                                        from,
                                                        filter,
                                                        projs,
                                                        group,
                                                        distinct,
                                                        order,
                                                        limit,
                                                    ),
                                                    p8,
                                                ),
                                            ),
                                            None => None,
                                        },
                                        None => None,
                                    },
                                    None => None,
                                }
                            } else {
                                None
                            },
                            None => None,
                        }
                    } else {
                        None
                    },
                    None => None,
                }
            } else {
                None
            },
            None => None,
        }
    }
}

// ---------------------------------------------------------------------------
// Statements
// ---------------------------------------------------------------------------

/// `name type`
pub open spec fn field_def(t: Seq<SpecToken>, p: int) -> Parsed<SpecFieldDef> {
    match (ident_at(t, p), data_type_of(word_kw_at(t, p + 1))) {
        (Some(n), Some(d)) => Some((SpecFieldDef { name: n, data_type: d }, p + 2)),
        _ => None,
    }
}

pub open spec fn field_defs_rest(t: Seq<SpecToken>, q: int, acc: Seq<SpecFieldDef>) -> Parsed<
    Seq<SpecFieldDef>,
>
    decreases t.len() - q,
{
    if sym_at(t, q, Sym::Comma) {
        match field_def(t, q + 1) {
            Some((f, r)) => if fwd(t, q, r) {
                field_defs_rest(t, r, acc.push(f))
            } else {
                Some((acc, q))
            },
            None => Some((acc, q)),
        }
    } else {
        Some((acc, q))
    }
}

/// `string | number | boolean | name`
pub open spec fn option_value_at(t: Seq<SpecToken>, p: int) -> Option<SpecOptionValue> {
    match string_at(t, p) {
        Some(s) => Some(SpecOptionValue::Str(s)),
        None => match number_at(t, p) {
            Some(s) => Some(SpecOptionValue::Number(s)),
            None => match bool_at(t, p) {
                Some(b) => Some(SpecOptionValue::Boolean(b)),
                None => match ident_at(t, p) {
                    Some(n) => Some(SpecOptionValue::Variable(n)),
                    None => None,
                },
            },
        },
    }
}

/// `name "=" value`
pub open spec fn option_pair(t: Seq<SpecToken>, p: int) -> Parsed<SpecConnectorOption> {
    match (ident_at(t, p), option_value_at(t, p + 2)) {
        (Some(k), Some(v)) => if sym_at(t, p + 1, Sym::Eq) {
            Some((SpecConnectorOption { key: k, value: v }, p + 3))
        } else {
            None
        },
        _ => None,
    }
}

pub open spec fn option_pairs_rest(
    t: Seq<SpecToken>,
    q: int,
    acc: Seq<SpecConnectorOption>,
) -> Parsed<Seq<SpecConnectorOption>>
    decreases t.len() - q,
{
    if sym_at(t, q, Sym::Comma) {
        match option_pair(t, q + 1) {
            Some((o, r)) => if fwd(t, q, r) {
                option_pairs_rest(t, r, acc.push(o))
            } else {
                Some((acc, q))
            },
            None => Some((acc, q)),
        }
    } else {
        Some((acc, q))
    }
}

/// `WITH "(" option ("," option)* ")"`, if present; no options otherwise.
pub open spec fn opt_with(t: Seq<SpecToken>, p: int) -> Parsed<Seq<SpecConnectorOption>> {
    if kw_at(t, p, Kw::With) {
        if !sym_at(t, p + 1, Sym::LParen) {
            None
        } else {
            match option_pair(t, p + 2) {
                Some((o, q)) => match option_pairs_rest(t, q, seq![o]) {
                    Some((opts, r)) => if sym_at(t, r, Sym::RParen) {
                        Some((opts, r + 1))
                    } else {
                        None
                    },
                    None => None,
                },
                None => None,
            }
        }
    } else {
        Some((Seq::empty(), p))
    }
}

/// `name "(" field ("," field)* ")" with?`: name, schema and options.
pub open spec fn definition(t: Seq<SpecToken>, p: int) -> Parsed<
    (Seq<char>, Seq<SpecFieldDef>, Seq<SpecConnectorOption>),
> {
    match ident_at(t, p) {
        Some(name) => if !sym_at(t, p + 1, Sym::LParen) {
            None
        } else {
            match field_def(t, p + 2) {
                Some((f, q)) => match field_defs_rest(t, q, seq![f]) {
                    Some((fields, r)) => if sym_at(t, r, Sym::RParen) {
                        match opt_with(t, r + 1) {
                            Some((opts, s)) => Some(((name, fields, opts), s)),
                            None => None,
                        }
                    } else {
                        None
                    },
                    None => None,
                },
                None => None,
            }
        },
        None => None,
    }
}

pub open spec fn connector_word() -> Seq<char> {
    seq!['c', 'o', 'n', 'n', 'e', 'c', 't', 'o', 'r']
}

pub open spec fn unknown_word() -> Seq<char> {
    seq!['u', 'n', 'k', 'n', 'o', 'w', 'n']
}

/// Index of the first option with key `key`, if any.
pub open spec fn first_option(opts: Seq<SpecConnectorOption>, key: Seq<char>) -> Option<int> {
    if exists|i: int| 0 <= i < opts.len() && opts[i].key == key {
        Some(
            choose|i: int|
                0 <= i < opts.len() && opts[i].key == key && forall|j: int|
                    0 <= j < i ==> opts[j].key != key,
        )
    } else {
        None
    }
}

/// The connector type: the string value of the first `connector` option, or
/// `unknown` when there is none or its value is not a string.
pub open spec fn connector_type_of(opts: Seq<SpecConnectorOption>) -> Seq<char> {
    match first_option(opts, connector_word()) {
        Some(i) => match opts[i].value {
            SpecOptionValue::Str(s) => s,
            _ => unknown_word(),
        },
        None => unknown_word(),
    }
}

pub open spec fn names_rest(t: Seq<SpecToken>, q: int, acc: Seq<Seq<char>>) -> Parsed<
    Seq<Seq<char>>,
>
    decreases t.len() - q,
{
    if sym_at(t, q, Sym::Comma) {
        match ident_at(t, q + 1) {
            Some(n) => names_rest(t, q + 2, acc.push(n)),
            None => Some((acc, q)),
        }
    } else {
        Some((acc, q))
    }
}

/// `("(" name ("," name)* ")")?`
pub open spec fn opt_name_list(t: Seq<SpecToken>, p: int) -> Parsed<Seq<Seq<char>>> {
    if sym_at(t, p, Sym::LParen) {
        match ident_at(t, p + 1) {
            Some(n) => match names_rest(t, p + 2, seq![n]) {
                Some((names, q)) => if sym_at(t, q, Sym::RParen) {
                    Some((names, q + 1))
                } else {
                    None
                },
                None => None,
            },
            None => None,
        }
    } else {
        Some((Seq::empty(), p))
    }
}

pub open spec fn statement(t: Seq<SpecToken>, p: int) -> Parsed<SpecStatement> {
    if kw_at(t, p, Kw::Select) {
        match select_body(t, p) {
            Some((_, q)) => Some((SpecStatement::Query, q)),
            None => None,
        }
    } else if kw_at(t, p, Kw::Create) && kw_at(t, p + 1, Kw::Source) {
        match definition(t, p + 2) {
            Some(((name, fields, opts), q)) => Some(
                (
                    SpecStatement::CreateSource(
                        SpecSourceDef {
                            name,
                            schema: fields,
                            connector: SpecConnectorConfig {
                                connector_type: connector_type_of(opts),
                                options: opts,
                            },
                        },
                    ),
                    q,
                ),
            ),
            None => None,
        }
    } else if kw_at(t, p, Kw::Create) && kw_at(t, p + 1, Kw::Sink) {
        match definition(t, p + 2) {
            Some(((name, fields, opts), q)) => Some(
                (
                    SpecStatement::CreateSink(
                        SpecSinkDef {
                            name,
                            schema: fields,
                            connector: SpecConnectorConfig {
                                connector_type: connector_type_of(opts),
                                options: opts,
                            },
                        },
                    ),
                    q,
                ),
            ),
            None => None,
        }
    } else if kw_at(t, p, Kw::Insert) && kw_at(t, p + 1, Kw::Into) {
        match ident_at(t, p + 2) {
            Some(sink) => match opt_name_list(t, p + 3) {
                Some((cols, q)) => match select_body(t, q) {
                    Some((plan, r)) => Some(
                        (
                            SpecStatement::InsertInto(
                                SpecPipeline { sink_name: sink, sink_columns: cols, plan },
                            ),
                            r,
                        ),
                    ),
                    None => None,
                },
                None => None,
            },
            None => None,
        }
    } else {
        None
    }
}

/// Statements separated by `;`, with an optional final `;`.
pub open spec fn statements(t: Seq<SpecToken>, p: int, acc: Seq<SpecStatement>) -> Option<
    Seq<SpecStatement>,
>
    decreases t.len() - p,
{
    if p >= t.len() {
        Some(acc)
    } else {
        match statement(t, p) {
            Some((s, q)) => if sym_at(t, q, Sym::Semi) && fwd(t, p, q + 1) {
                statements(t, q + 1, acc.push(s))
            } else if q == t.len() {
                Some(acc.push(s))
            } else {
                None
            },
            None => None,
        }
    }
}

pub open spec fn has_query(s: Seq<SpecStatement>) -> bool {
    exists|i: int| 0 <= i < s.len() && s[i] is Query
}

/// The program made of the statements, each in the list of its kind, in order.
pub open spec fn collect(s: Seq<SpecStatement>) -> SpecProgram
    decreases s.len(),
{
    if s.len() == 0 {
        SpecProgram { sources: Seq::empty(), sinks: Seq::empty(), pipelines: Seq::empty() }
    } else {
        let prev = collect(s.drop_last());
        match s.last() {
            SpecStatement::CreateSource(d) => SpecProgram { sources: prev.sources.push(d), ..prev },
            SpecStatement::CreateSink(d) => SpecProgram { sinks: prev.sinks.push(d), ..prev },
            SpecStatement::InsertInto(d) => SpecProgram {
                pipelines: prev.pipelines.push(d),
                ..prev
            },
            SpecStatement::Query => prev,
        }
    }
}

/// What `parse_sql` gives for the text `s`.
pub open spec fn spec_parse_sql(s: Seq<char>) -> Result<SpecProgram, ParseError> {
    match lex(s, 0) {
        None => Err(ParseError::Syntax),
        Some(t) => match statements(t, 0, Seq::empty()) {
            None => Err(ParseError::Syntax),
            Some(stmts) => if has_query(stmts) {
                Err(ParseError::StandaloneQuery)
            } else {
                Ok(collect(stmts))
            },
        },
    }
}

/// A query builds the same plan wherever it stands: where the query rule
/// parses a plan at position `p`, a subquery opening just before `p` and
/// closed right after gives that plan, and so does an `INSERT INTO` whose
/// column list ends at `p`.
pub proof fn lemma_query_same_plan_everywhere(t: Seq<SpecToken>, p: int)
    requires
        select_body(t, p) is Some,
    ensures
        ({
            let (plan, q) = select_body(t, p)->0;
            &&& (sym_at(t, p - 1, Sym::LParen) && sym_at(t, q, Sym::RParen)) ==> subquery(t, p - 1)
                == Some((plan, q + 1))
            &&& forall|s: int|
                #![trigger statement(t, s)]
                (kw_at(t, s, Kw::Insert) && kw_at(t, s + 1, Kw::Into) && ident_at(t, s + 2) is Some
                    && opt_name_list(t, s + 3) is Some && opt_name_list(t, s + 3).unwrap().1 == p) ==> statement(t, s) == Some(
                    (
                        SpecStatement::InsertInto(
                            SpecPipeline {
                                sink_name: ident_at(t, s + 2)->0,
                                sink_columns: opt_name_list(t, s + 3).unwrap().0,
                                plan,
                            },
                        ),
                        q,
                    ),
                )
        }),
{
}

/// Each comparison symbol stands for its own operator: `<` less than, `>`
/// greater than, `=` equal, `!=` not equal, `<=` and `>=` the inclusive
/// comparisons; no other token is a comparison.
pub proof fn lemma_comparison_operators(t: Seq<SpecToken>, p: int)
    requires
        0 <= p < t.len(),
    ensures
        t[p] == SpecToken::Sym(Sym::Lt) ==> comparison_at(t, p) == Some(ComparisonOp::LessThan),
        t[p] == SpecToken::Sym(Sym::Gt) ==> comparison_at(t, p) == Some(ComparisonOp::GreaterThan),
        t[p] == SpecToken::Sym(Sym::Eq) ==> comparison_at(t, p) == Some(ComparisonOp::Equal),
        t[p] == SpecToken::Sym(Sym::NotEq) ==> comparison_at(t, p) == Some(ComparisonOp::NotEqual),
        t[p] == SpecToken::Sym(Sym::Le) ==> comparison_at(t, p) == Some(ComparisonOp::LessThanEquals),
        t[p] == SpecToken::Sym(Sym::Ge) ==> comparison_at(t, p) == Some(
            ComparisonOp::GreaterThanEquals,
        ),
        !(t[p] matches SpecToken::Sym(x) && (x == Sym::Lt || x == Sym::Gt || x == Sym::Eq || x
            == Sym::NotEq || x == Sym::Le || x == Sym::Ge)) ==> comparison_at(t, p) is None,
{
}

/// A comparison condition compares the expression before the comparison
/// symbol with the one after it, by that symbol's operator, left to right.
pub proof fn lemma_comparison_condition(t: Seq<SpecToken>, p: int)
    requires
        !kw_at(t, p, Kw::Not),
        !kw_at(t, p, Kw::Exists),
        in_cond(t, p) is None,
        bool_at(t, p) is None,
        arith(t, p, false) is Some,
        fwd(t, p, arith(t, p, false).unwrap().1),
        comparison_at(t, arith(t, p, false).unwrap().1) is Some,
        arith(t, arith(t, p, false).unwrap().1 + 1, false) is Some,
    ensures
        ({
            let (f, q) = arith(t, p, false).unwrap();
            let (g, r) = arith(t, q + 1, false).unwrap();
            condition(t, p) == Some(
                (
                    SpecConditionType::Comparison(
                        SpecCondition {
                            left_field: f,
                            operator: comparison_at(t, q).unwrap(),
                            right_field: g,
                        },
                    ),
                    r,
                ),
            )
        }),
{
}

/// What aggregate and type names mean, in any mix of cases: `MAX`, `MIN`,
/// `AVG`, `SUM` and `COUNT` are those aggregates; `INTEGER`/`I32`,
/// `BIGINT`/`I64`, `FLOAT`/`F32`, `DOUBLE`/`F64`, `STRING`, `BOOLEAN`/`BOOL`
/// and `TIMESTAMP` are those column types.
#[verifier::rlimit(60)]
pub proof fn lemma_keyword_meanings(w: Seq<char>)
    ensures
        ascii_upper_seq(w) == seq!['M', 'A', 'X'] ==> agg_kind(word_kw(w)) == Some(AggregateType::Max),
        ascii_upper_seq(w) == seq!['M', 'I', 'N'] ==> agg_kind(word_kw(w)) == Some(AggregateType::Min),
        ascii_upper_seq(w) == seq!['A', 'V', 'G'] ==> agg_kind(word_kw(w)) == Some(AggregateType::Avg),
        ascii_upper_seq(w) == seq!['S', 'U', 'M'] ==> agg_kind(word_kw(w)) == Some(AggregateType::Sum),
        ascii_upper_seq(w) == seq!['C', 'O', 'U', 'N', 'T'] ==> agg_kind(word_kw(w)) == Some(AggregateType::Count),
        ascii_upper_seq(w) == seq!['I', 'N', 'T', 'E', 'G', 'E', 'R'] ==> data_type_of(word_kw(w)) == Some(DataType::Integer),
        ascii_upper_seq(w) == seq!['I', '3', '2'] ==> data_type_of(word_kw(w)) == Some(DataType::Integer),
        ascii_upper_seq(w) == seq!['B', 'I', 'G', 'I', 'N', 'T'] ==> data_type_of(word_kw(w)) == Some(DataType::BigInt),
        ascii_upper_seq(w) == seq!['I', '6', '4'] ==> data_type_of(word_kw(w)) == Some(DataType::BigInt),
        ascii_upper_seq(w) == seq!['F', 'L', 'O', 'A', 'T'] ==> data_type_of(word_kw(w)) == Some(DataType::Float),
        ascii_upper_seq(w) == seq!['F', '3', '2'] ==> data_type_of(word_kw(w)) == Some(DataType::Float),
        ascii_upper_seq(w) == seq!['D', 'O', 'U', 'B', 'L', 'E'] ==> data_type_of(word_kw(w)) == Some(DataType::Double),
        ascii_upper_seq(w) == seq!['F', '6', '4'] ==> data_type_of(word_kw(w)) == Some(DataType::Double),
        ascii_upper_seq(w) == seq!['S', 'T', 'R', 'I', 'N', 'G'] ==> data_type_of(word_kw(w)) == Some(DataType::String),
        ascii_upper_seq(w) == seq!['B', 'O', 'O', 'L', 'E', 'A', 'N'] ==> data_type_of(word_kw(w)) == Some(DataType::Boolean),
        ascii_upper_seq(w) == seq!['B', 'O', 'O', 'L'] ==> data_type_of(word_kw(w)) == Some(DataType::Boolean),
        ascii_upper_seq(w) == seq!['T', 'I', 'M', 'E', 'S', 'T', 'A', 'M', 'P'] ==> data_type_of(word_kw(w)) == Some(DataType::Timestamp),
{
    let u = ascii_upper_seq(w);
    if w == seq!['t', 'r', 'u', 'e'] {
        assert(u[0] == 'T');
    }
    if w == seq!['f', 'a', 'l', 's', 'e'] {
        assert(u[0] == 'F' && u[1] == 'A');
    }
    if u == seq!['I', 'N', 'T', 'E', 'G', 'E', 'R'] {
        assert(u.len() == 7 && u[2] == 'T' && u[3] == 'E');
        assert(crate::sql::lexer::upper_kw(u) == Some(Kw::TyInteger));
    }
}

/// Decimal text reads back as the number it was written from: the text the
/// crate writes numbers in (in generated names and shown literals) is a
/// numeral whose value is the number.
pub proof fn lemma_decimal_round_trip(n: nat)
    ensures
        crate::text::nat_text(n).len() > 0,
        all_digits(crate::text::nat_text(n)),
        decimal_value(crate::text::nat_text(n)) == n,
    decreases n,
{
    crate::text::lemma_nat_text_digits(n);
    let t = crate::text::nat_text(n);
    if n < 10 {
        assert(t.drop_last() =~= Seq::<char>::empty());
        assert(decimal_value(t.drop_last()) == 0);
    } else {
        lemma_decimal_round_trip(n / 10);
        assert(t.drop_last() =~= crate::text::nat_text(n / 10));
        assert(n == (n / 10) * 10 + n % 10);
    }
}

/// A program's definitions come from its statements in order: the
/// statements of two parts give the first part's sources, sinks and
/// pipelines followed by the second's; a `CREATE SOURCE` gives one source,
/// a `CREATE SINK` one sink, an `INSERT INTO` one pipeline, and a bare query
/// nothing.
pub proof fn lemma_collect(a: Seq<SpecStatement>, b: Seq<SpecStatement>)
    ensures
        collect(a + b).sources == collect(a).sources + collect(b).sources,
        collect(a + b).sinks == collect(a).sinks + collect(b).sinks,
        collect(a + b).pipelines == collect(a).pipelines + collect(b).pipelines,
        forall|d: SpecSourceDef| #[trigger] collect(seq![SpecStatement::CreateSource(d)]) == (SpecProgram {
            sources: seq![d],
            sinks: Seq::empty(),
            pipelines: Seq::empty(),
        }),
        forall|d: SpecSinkDef| #[trigger] collect(seq![SpecStatement::CreateSink(d)]) == (SpecProgram {
            sources: Seq::empty(),
            sinks: seq![d],
            pipelines: Seq::empty(),
        }),
        forall|d: SpecPipeline| #[trigger] collect(seq![SpecStatement::InsertInto(d)]) == (SpecProgram {
            sources: Seq::empty(),
            sinks: Seq::empty(),
            pipelines: seq![d],
        }),
        collect(seq![SpecStatement::Query]) == (SpecProgram {
            sources: Seq::empty(),
            sinks: Seq::empty(),
            pipelines: Seq::empty(),
        }),
    decreases b.len(),
{
    assert forall|d: SpecSourceDef| #[trigger] collect(seq![SpecStatement::CreateSource(d)]) == SpecProgram {
        sources: seq![d],
        sinks: Seq::empty(),
        pipelines: Seq::empty(),
    } by {
        let x = seq![SpecStatement::CreateSource(d)];
        assert(x.drop_last() =~= Seq::<SpecStatement>::empty());
        reveal_with_fuel(collect, 2);
        assert(x.last() == SpecStatement::CreateSource(d));
        assert(collect(x).sources =~= seq![d]);
        assert(collect(x).sources.len() + collect(x).sinks.len() + collect(x).pipelines.len() == 1);
    }
    assert forall|d: SpecSinkDef| #[trigger] collect(seq![SpecStatement::CreateSink(d)]) == SpecProgram {
        sources: Seq::empty(),
        sinks: seq![d],
        pipelines: Seq::empty(),
    } by {
        let x = seq![SpecStatement::CreateSink(d)];
        assert(x.drop_last() =~= Seq::<SpecStatement>::empty());
        reveal_with_fuel(collect, 2);
        assert(x.last() == SpecStatement::CreateSink(d));
        assert(collect(x).sinks =~= seq![d]);
        assert(collect(x).sources.len() + collect(x).sinks.len() + collect(x).pipelines.len() == 1);
    }
    assert forall|d: SpecPipeline| #[trigger] collect(seq![SpecStatement::InsertInto(d)]) == SpecProgram {
        sources: Seq::empty(),
        sinks: Seq::empty(),
        pipelines: seq![d],
    } by {
        let x = seq![SpecStatement::InsertInto(d)];
        assert(x.drop_last() =~= Seq::<SpecStatement>::empty());
        reveal_with_fuel(collect, 2);
        assert(x.last() == SpecStatement::InsertInto(d));
        assert(collect(x).pipelines =~= seq![d]);
        assert(collect(x).sources.len() + collect(x).sinks.len() + collect(x).pipelines.len() == 1);
    }
    let q = seq![SpecStatement::Query];
    assert(q.drop_last() =~= Seq::<SpecStatement>::empty());
    assert(collect(q) == collect(Seq::<SpecStatement>::empty())) by {
        reveal_with_fuel(collect, 2);
    }
    if b.len() == 0 {
        assert(a + b =~= a);
        assert(collect(a).sources + Seq::<SpecSourceDef>::empty() =~= collect(a).sources);
        assert(collect(a).sinks + Seq::<SpecSinkDef>::empty() =~= collect(a).sinks);
        assert(collect(a).pipelines + Seq::<SpecPipeline>::empty() =~= collect(a).pipelines);
    } else {
        lemma_collect(a, b.drop_last());
        assert((a + b).drop_last() =~= a + b.drop_last());
        assert((a + b).last() == b.last());
        let pa = collect(a);
        let pb = collect(b.drop_last());
        match b.last() {
            SpecStatement::CreateSource(d) => {
                assert(pa.sources + pb.sources.push(d) =~= (pa.sources + pb.sources).push(d));
            },
            SpecStatement::CreateSink(d) => {
                assert(pa.sinks + pb.sinks.push(d) =~= (pa.sinks + pb.sinks).push(d));
            },
            SpecStatement::InsertInto(d) => {
                assert(pa.pipelines + pb.pipelines.push(d) =~= (pa.pipelines + pb.pipelines).push(d));
            },
            SpecStatement::Query => {},
        }
    }
}

/// What the clause keywords mean: `IS NULL` and `IS NOT NULL` are those
/// checks; `AND` and `OR` those connectives; `INNER JOIN` and a bare `JOIN`
/// are inner joins and `LEFT [OUTER] JOIN` a left join; an ordering item is
/// descending after `DESC` and ascending otherwise; `LIMIT n OFFSET m` keeps
/// `n` rows from `m` on.
pub proof fn lemma_clause_keywords(t: Seq<SpecToken>, p: int)
    ensures
        kw_at(t, p, Kw::Is) && kw_at(t, p + 1, Kw::Null) ==> null_op_at(t, p) == Some(
            (NullOp::IsNull, p + 2),
        ),
        kw_at(t, p, Kw::Is) && kw_at(t, p + 1, Kw::Not) && kw_at(t, p + 2, Kw::Null) ==> null_op_at(
            t,
            p,
        ) == Some((NullOp::IsNotNull, p + 3)),
        kw_at(t, p, Kw::And) ==> bin_op_at(t, p) == Some(BinaryOp::And),
        kw_at(t, p, Kw::Or) ==> bin_op_at(t, p) == Some(BinaryOp::Or),
        kw_at(t, p, Kw::Inner) ==> join_kind(t, p) == (JoinType::Inner, p + 1),
        kw_at(t, p, Kw::Left) ==> join_kind(t, p).0 == JoinType::Left,
        kw_at(t, p, Kw::Join) ==> join_kind(t, p) == (JoinType::Inner, p),
        column_ref(t, p) is Some && kw_at(t, column_ref(t, p).unwrap().1, Kw::Desc) ==> order_item(
            t,
            p,
        ) is Some && order_item(t, p).unwrap().0.direction == OrderDirection::Desc,
        column_ref(t, p) is Some && !kw_at(t, column_ref(t, p).unwrap().1, Kw::Desc) ==> order_item(
            t,
            p,
        ) is Some && order_item(t, p).unwrap().0.direction == OrderDirection::Asc,
        column_ref(t, p) is Some ==> order_item(t, p) is Some && order_item(t, p).unwrap().0.column
            == column_ref(t, p).unwrap().0,
        kw_at(t, p, Kw::Limit) && int_lit(t, p + 1) is Some && kw_at(t, int_lit(t, p + 1).unwrap().1, Kw::Offset)
            && int_lit(t, int_lit(t, p + 1).unwrap().1 + 1) is Some ==> opt_limit(t, p) is Some
            && opt_limit(t, p).unwrap().0 == Some(
            (int_lit(t, p + 1).unwrap().0, Some(int_lit(t, int_lit(t, p + 1).unwrap().1 + 1).unwrap().0)),
        ),
        kw_at(t, p, Kw::Limit) && int_lit(t, p + 1) is Some && !kw_at(t, int_lit(t, p + 1).unwrap().1, Kw::Offset)
            ==> opt_limit(t, p) is Some && opt_limit(t, p).unwrap().0 == Some(
            (int_lit(t, p + 1).unwrap().0, None::<i64>),
        ),
        !kw_at(t, p, Kw::Limit) ==> opt_limit(t, p) == Some((None::<(i64, Option<i64>)>, p)),
{
}

/// A definition's connector type is the string value of its first
/// `connector` option, and `unknown` when there is none or its value is not
/// a string.
pub proof fn lemma_connector_type(opts: Seq<SpecConnectorOption>)
    ensures
        forall|i: int|
            0 <= i < opts.len() && (#[trigger] opts[i]).key == "connector"@ && (forall|j: int|
                0 <= j < i ==> opts[j].key != "connector"@) ==> connector_type_of(opts) == match opts[i].value {
                SpecOptionValue::Str(v) => v,
                _ => "unknown"@,
            },
        (forall|i: int| 0 <= i < opts.len() ==> (#[trigger] opts[i]).key != "connector"@) ==> connector_type_of(opts) == "unknown"@,
{
    reveal_strlit("connector");
    reveal_strlit("unknown");
    assert(connector_word() == "connector"@);
    assert(unknown_word() == "unknown"@);
    let key = "connector"@;
    assert forall|i: int|
        0 <= i < opts.len() && (#[trigger] opts[i]).key == key && (forall|j: int|
            0 <= j < i ==> opts[j].key != key) implies first_option(opts, key) == Some(i) by {
        let k = choose|k: int|
            0 <= k < opts.len() && opts[k].key == key && forall|j: int| 0 <= j < k ==> opts[j].key != key;
        assert(0 <= k < opts.len() && opts[k].key == key && forall|j: int| 0 <= j < k ==> opts[j].key != key);
        if k < i {
            assert(opts[k].key != key);
        } else if k > i {
            assert(opts[i].key != key);
        }
    }
}

/// How a query's clauses stack: `LIMIT` applies last, to the query without
/// it; before it the ordering, then `DISTINCT`; the selected columns are
/// projected (or, with `GROUP BY`, computed per group of the keys) from the
/// rows the `WHERE` condition keeps of the `FROM` plan; `SELECT *` without
/// grouping projects nothing.
pub proof fn lemma_query_layers(
    from: SpecIrPlan,
    filter: Option<SpecFilterClause>,
    projections: Seq<SpecProjectionColumn>,
    group: Option<(Seq<SpecColumnRef>, Option<SpecGroupClause>)>,
    distinct: bool,
    order: Option<Seq<SpecOrderByItem>>,
    limit: Option<(i64, Option<i64>)>,
)
    ensures
        forall|n: i64, o: Option<i64>|
            #![trigger build_plan(from, filter, projections, group, distinct, order, Some((n, o)))]
            build_plan(from, filter, projections, group, distinct, order, Some((n, o)))
                == (SpecIrPlan::Limit {
                input: Box::new(build_plan(from, filter, projections, group, distinct, order, None)),
                limit: n,
                offset: o,
            }),
        forall|items: Seq<SpecOrderByItem>|
            #![trigger build_plan(from, filter, projections, group, distinct, Some(items), None)]
            build_plan(from, filter, projections, group, distinct, Some(items), None)
                == (SpecIrPlan::OrderBy {
                input: Box::new(build_plan(from, filter, projections, group, distinct, None, None)),
                items,
            }),
        build_plan(from, filter, projections, group, true, None, None) == (SpecIrPlan::Distinct {
            input: Box::new(build_plan(from, filter, projections, group, false, None, None)),
        }),
        forall|keys: Seq<SpecColumnRef>, having: Option<SpecGroupClause>|
            #![trigger build_plan(from, filter, projections, Some((keys, having)), false, None, None)]
            build_plan(from, filter, projections, Some((keys, having)), false, None, None)
                == (SpecIrPlan::GroupBy {
                input: Box::new(build_plan(from, filter, Seq::empty(), None, false, None, None)),
                keys,
                aggregations: projections,
                having,
            }),
        projections.len() > 0 ==> build_plan(from, filter, projections, None, false, None, None)
            == (SpecIrPlan::Mapping {
            input: Box::new(build_plan(from, filter, Seq::empty(), None, false, None, None)),
            projections,
        }),
        forall|f: SpecFilterClause|
            #![trigger build_plan(from, Some(f), Seq::empty(), None, false, None, None)]
            build_plan(from, Some(f), Seq::empty(), None, false, None, None) == (SpecIrPlan::Filter {
                input: Box::new(from),
                predicate: f,
            }),
        build_plan(from, None, Seq::empty(), None, false, None, None) == from,
{
}

/// What a `WITH` option is: `key = value` with the key's name; a quoted
/// value is a string with the quoted text, a numeral a number with its text,
/// `true` / `false` a boolean, and a plain name a variable of that name. A
/// column is its name followed by its type.
pub proof fn lemma_option_and_field(t: Seq<SpecToken>, p: int)
    ensures
        forall|x: Seq<char>| 0 <= p < t.len() && t[p] == SpecToken::Str(x) ==> option_value_at(t, p)
            == Some(SpecOptionValue::Str(x)),
        forall|x: Seq<char>| 0 <= p < t.len() && t[p] == SpecToken::Number(x) ==> option_value_at(
            t,
            p,
        ) == Some(SpecOptionValue::Number(x)),
        kw_at(t, p, Kw::True) ==> option_value_at(t, p) == Some(SpecOptionValue::Boolean(true)),
        kw_at(t, p, Kw::False) ==> option_value_at(t, p) == Some(SpecOptionValue::Boolean(false)),
        forall|x: Seq<char>|
            0 <= p < t.len() && t[p] == (SpecToken::Word { text: x, kw: None }) ==> option_value_at(
                t,
                p,
            ) == Some(SpecOptionValue::Variable(x)),
        ident_at(t, p) is Some && sym_at(t, p + 1, Sym::Eq) && option_value_at(t, p + 2) is Some
            ==> option_pair(t, p) == Some(
            (
                SpecConnectorOption {
                    key: ident_at(t, p).unwrap(),
                    value: option_value_at(t, p + 2).unwrap(),
                },
                p + 3,
            ),
        ),
        ident_at(t, p) is Some && data_type_of(word_kw_at(t, p + 1)) is Some ==> field_def(t, p)
            == Some(
            (
                SpecFieldDef {
                    name: ident_at(t, p).unwrap(),
                    data_type: data_type_of(word_kw_at(t, p + 1)).unwrap(),
                },
                p + 2,
            ),
        ),
{
}

/// `CREATE SOURCE` defines a source and `CREATE SINK` a sink, each with the
/// name, columns and options written and the connector type its options
/// give; a statement starting with `SELECT` is a bare query.
pub proof fn lemma_definitions(t: Seq<SpecToken>, p: int)
    ensures
        kw_at(t, p, Kw::Create) && kw_at(t, p + 1, Kw::Source) && definition(t, p + 2) is Some
            ==> statement(t, p) == Some(
            (
                SpecStatement::CreateSource(
                    SpecSourceDef {
                        name: definition(t, p + 2).unwrap().0.0,
                        schema: definition(t, p + 2).unwrap().0.1,
                        connector: SpecConnectorConfig {
                            connector_type: connector_type_of(definition(t, p + 2).unwrap().0.2),
                            options: definition(t, p + 2).unwrap().0.2,
                        },
                    },
                ),
                definition(t, p + 2).unwrap().1,
            ),
        ),
        kw_at(t, p, Kw::Create) && kw_at(t, p + 1, Kw::Sink) && definition(t, p + 2) is Some
            ==> statement(t, p) == Some(
            (
                SpecStatement::CreateSink(
                    SpecSinkDef {
                        name: definition(t, p + 2).unwrap().0.0,
                        schema: definition(t, p + 2).unwrap().0.1,
                        connector: SpecConnectorConfig {
                            connector_type: connector_type_of(definition(t, p + 2).unwrap().0.2),
                            options: definition(t, p + 2).unwrap().0.2,
                        },
                    },
                ),
                definition(t, p + 2).unwrap().1,
            ),
        ),
        kw_at(t, p, Kw::Select) && select_body(t, p) is Some ==> statement(t, p) is Some
            && statement(t, p).unwrap().0 == SpecStatement::Query,
{
}

/// Conditions joined by `AND` / `OR` are combined left to right, the
/// conditions so far on the left of the connective and the next one on its
/// right; a join condition pairs the column before `=` with the column after
/// it; an alias names a selected column.
pub proof fn lemma_combinations(t: Seq<SpecToken>, q: int, acc: SpecFilterClause)
    ensures
        bin_op_at(t, q) is Some && where_term(t, q + 1) is Some && fwd(t, q, where_term(t, q + 1).unwrap().1)
            ==> where_rest(t, q, acc) == where_rest(
            t,
            where_term(t, q + 1).unwrap().1,
            SpecFilterClause::Expression {
                left: Box::new(acc),
                binary_op: bin_op_at(t, q).unwrap(),
                right: Box::new(where_term(t, q + 1).unwrap().0),
            },
        ),
        bin_op_at(t, q) is None ==> where_rest(t, q, acc) == Some((acc, q)),
        table_column(t, q) is Some && sym_at(t, table_column(t, q).unwrap().1, Sym::Eq) && table_column(
            t,
            table_column(t, q).unwrap().1 + 1,
        ) is Some ==> join_pair(t, q) == Some(
            (
                SpecJoinCondition {
                    left_col: table_column(t, q).unwrap().0,
                    right_col: table_column(t, table_column(t, q).unwrap().1 + 1).unwrap().0,
                },
                table_column(t, table_column(t, q).unwrap().1 + 1).unwrap().1,
            ),
        ),
        forall|c: SpecColumnRef, a: Option<Seq<char>>, x: Seq<char>|
            #[trigger] with_alias(SpecProjectionColumn::Column(c, a), x) == SpecProjectionColumn::Column(c, Some(x)),
        forall|g: SpecAggregateFunction, a: Option<Seq<char>>, x: Seq<char>|
            #[trigger] with_alias(SpecProjectionColumn::Aggregate(g, a), x) == SpecProjectionColumn::Aggregate(g, Some(x)),
{
}

} // verus!
