//! Executable access to tokens, and the rules of the grammar that contain no
//! subquery; each function returns exactly what its grammar rule gives.
use crate::ir::{
    lemma_columns_view_push, lemma_joins_view_push, lemma_order_items_view_push, columns_view, joins_view, opt_str, order_items_view, AggregateFunction, AggregateType,
    BinaryOp, ColumnRef, ComparisonOp, DataType, IrLiteral, JoinCondition, NullOp,
    OrderByItem, OrderDirection,
};
use crate::sql::grammar::{
    agg_kind, aggregate, alias_at, all_digits, arith_sym_at, bin_op_at, bool_at, comparison_at,
    column_ref, column_refs, column_refs_rest, data_type_of, decimal_value, has_char, ident_at,
    int_lit, int_value, join_pair, join_pairs, join_pairs_rest, kw_at, null_op_at, number_at,
    number_lit, opt_limit, opt_order, order_item, order_items_rest, star_column, string_at,
    sym_at, table_column, word_kw_at,
};
use crate::sql::lexer::{is_reserved, tokens_view, Kw, SpecToken, Sym, Token};
use crate::text::{is_digit, push_char, str_chars};
use vstd::prelude::*;

verus! {

pub open spec fn tv(t: &Vec<Token>) -> Seq<SpecToken> {
    tokens_view(t@)
}

pub fn kw_x(t: &Vec<Token>, p: usize, k: Kw) -> (r: bool)
    ensures
        r == kw_at(tv(t), p as int, k),
        r ==> p < t.len(),
{
    if p < t.len() {
        match &t[p] {
            Token::Word { kw, .. } => match kw {
                Some(k2) => *k2 == k,
                None => false,
            },
            _ => false,
        }
    } else {
        false
    }
}

pub fn word_kw_x(t: &Vec<Token>, p: usize) -> (r: Option<Kw>)
    ensures
        r == word_kw_at(tv(t), p as int),
        r is Some ==> p < t.len(),
{
    if p < t.len() {
        match &t[p] {
            Token::Word { kw, .. } => *kw,
            _ => None,
        }
    } else {
        None
    }
}

pub fn sym_x(t: &Vec<Token>, p: usize, s: Sym) -> (r: bool)
    ensures
        r == sym_at(tv(t), p as int, s),
        r ==> p < t.len(),
{
    if p < t.len() {
        match &t[p] {
            Token::Sym(s2) => *s2 == s,
            _ => false,
        }
    } else {
        false
    }
}

pub fn ident_x(t: &Vec<Token>, p: usize) -> (r: Option<String>)
    ensures
        opt_str(r) == ident_at(tv(t), p as int),
        r is Some ==> p < t.len(),
{
    if p < t.len() {
        match &t[p] {
            Token::Word { text, kw } => match kw {
                Some(k) => if is_reserved(*k) {
                    None
                } else {
                    Some(text.clone())
                },
                None => Some(text.clone()),
            },
            _ => None,
        }
    } else {
        None
    }
}

pub fn bool_x(t: &Vec<Token>, p: usize) -> (r: Option<bool>)
    ensures
        r == bool_at(tv(t), p as int),
        r is Some ==> p < t.len(),
{
    if kw_x(t, p, Kw::True) {
        Some(true)
    } else if kw_x(t, p, Kw::False) {
        Some(false)
    } else {
        None
    }
}

pub fn string_x(t: &Vec<Token>, p: usize) -> (r: Option<String>)
    ensures
        opt_str(r) == string_at(tv(t), p as int),
        r is Some ==> p < t.len(),
{
    if p < t.len() {
        match &t[p] {
            Token::Str(s) => Some(s.clone()),
            _ => None,
        }
    } else {
        None
    }
}

pub fn number_x(t: &Vec<Token>, p: usize) -> (r: Option<String>)
    ensures
        opt_str(r) == number_at(tv(t), p as int),
        r is Some ==> p < t.len(),
{
    if p < t.len() {
        match &t[p] {
            Token::Number(s) => Some(s.clone()),
            _ => None,
        }
    } else {
        None
    }
}

pub fn has_char_x(s: &String, c: char) -> (r: bool)
    ensures
        r == has_char(s@, c),
{
    let v = str_chars(s.as_str());
    let mut i: usize = 0;
    while i < v.len()
        invariant
            v@ == s@,
            i <= v.len(),
            forall|j: int| 0 <= j < i ==> v@[j] != c,
        decreases v.len() - i,
    {
        if v[i] == c {
            return true;
        }
        i = i + 1;
    }
    false
}

proof fn lemma_decimal_prefix(s: Seq<char>, k: int)
    requires
        0 <= k < s.len(),
    ensures
        decimal_value(s.take(k + 1)) == decimal_value(s.take(k)) * 10 + (s[k] as int - '0' as int),
{
    assert(s.take(k + 1).drop_last() =~= s.take(k));
}

proof fn lemma_decimal_mono(s: Seq<char>, k: int)
    requires
        0 <= k <= s.len(),
        all_digits(s),
    ensures
        decimal_value(s.take(k)) <= decimal_value(s),
        decimal_value(s.take(k)) >= 0,
    decreases s.len() - k,
{
    if k < s.len() {
        lemma_decimal_prefix(s, k);
        assert(is_digit(s[k]));
        lemma_decimal_mono(s, k + 1);
    } else {
        assert(s.take(k) =~= s);
        lemma_decimal_nonneg(s);
    }
}

proof fn lemma_decimal_nonneg(s: Seq<char>)
    requires
        all_digits(s),
    ensures
        decimal_value(s) >= 0,
    decreases s.len(),
{
    if s.len() > 0 {
        assert(is_digit(s[s.len() - 1]));
        assert(all_digits(s.drop_last()));
        lemma_decimal_nonneg(s.drop_last());
    }
}

pub fn int_value_x(s: &String) -> (r: Option<i64>)
    ensures
        r == int_value(s@),
{
    let v = str_chars(s.as_str());
    if v.len() == 0 {
        return None;
    }
    let mut acc: i64 = 0;
    let mut i: usize = 0;
    while i < v.len()
        invariant
            v@ == s@,
            i <= v.len(),
            forall|j: int| 0 <= j < i ==> is_digit(#[trigger] v@[j]),
            acc as int == decimal_value(v@.take(i as int)),
            0 <= acc,
        decreases v.len() - i,
    {
        let c = v[i];
        if !('0' <= c && c <= '9') {
            assert(!all_digits(s@));
            return None;
        }
        let d = (c as u32 - '0' as u32) as i64;
        proof {
            lemma_decimal_prefix(v@, i as int);
        }
        if acc > (i64::MAX - d) / 10 {
            proof {
                assert(acc * 10 + d > i64::MAX) by (nonlinear_arith)
                    requires
                        acc > (i64::MAX - d) / 10,
                        0 <= d <= 9,
                ;
                if all_digits(s@) {
                    lemma_decimal_mono(v@, i as int + 1);
                }
            }
            return None;
        }
        assert(acc * 10 + d <= i64::MAX) by (nonlinear_arith)
            requires
                acc <= (i64::MAX - d) / 10,
                0 <= d <= 9,
                0 <= acc,
        ;
        acc = acc * 10 + d;
        i = i + 1;
    }
    assert(v@.take(v@.len() as int) =~= v@);
    assert(all_digits(s@));
    Some(acc)
}

pub fn number_lit_x(t: &Vec<Token>, p: usize) -> (r: Option<(IrLiteral, usize)>)
    ensures
        match r {
            Some((l, q)) => number_lit(tv(t), p as int) == Some((l@, q as int)) && p < q
                <= t.len(),
            None => number_lit(tv(t), p as int) is None,
        },
{
    match number_x(t, p) {
        Some(s) => if has_char_x(&s, '.') {
            Some((IrLiteral::Float(s), p + 1))
        } else {
            match int_value_x(&s) {
                Some(v) => Some((IrLiteral::Integer(v), p + 1)),
                None => None,
            }
        },
        None => None,
    }
}

pub fn int_lit_x(t: &Vec<Token>, p: usize) -> (r: Option<(i64, usize)>)
    ensures
        match r {
            Some((v, q)) => int_lit(tv(t), p as int) == Some((v, q as int)) && p < q <= t.len(),
            None => int_lit(tv(t), p as int) is None,
        },
{
    match number_x(t, p) {
        Some(s) => match int_value_x(&s) {
            Some(v) => Some((v, p + 1)),
            None => None,
        },
        None => None,
    }
}

pub fn agg_kind_x(k: Option<Kw>) -> (r: Option<AggregateType>)
    ensures
        r == agg_kind(k),
{
    match k {
        Some(Kw::AggMax) => Some(AggregateType::Max),
        Some(Kw::AggMin) => Some(AggregateType::Min),
        Some(Kw::AggAvg) => Some(AggregateType::Avg),
        Some(Kw::AggSum) => Some(AggregateType::Sum),
        Some(Kw::AggCount) => Some(AggregateType::Count),
        _ => None,
    }
}

pub fn data_type_x(k: Option<Kw>) -> (r: Option<DataType>)
    ensures
        r == data_type_of(k),
{
    match k {
        Some(Kw::TyInteger) | Some(Kw::TyI32) => Some(DataType::Integer),
        Some(Kw::TyBigInt) | Some(Kw::TyI64) => Some(DataType::BigInt),
        Some(Kw::TyFloat) | Some(Kw::TyF32) => Some(DataType::Float),
        Some(Kw::TyDouble) | Some(Kw::TyF64) => Some(DataType::Double),
        Some(Kw::TyString) => Some(DataType::String),
        Some(Kw::TyBoolean) | Some(Kw::TyBool) => Some(DataType::Boolean),
        Some(Kw::TyTimestamp) => Some(DataType::Timestamp),
        _ => None,
    }
}

pub fn comparison_x(t: &Vec<Token>, p: usize) -> (r: Option<ComparisonOp>)
    ensures
        r == comparison_at(tv(t), p as int),
        r is Some ==> p < t.len(),
{
    if sym_x(t, p, Sym::Gt) {
        Some(ComparisonOp::GreaterThan)
    } else if sym_x(t, p, Sym::Lt) {
        Some(ComparisonOp::LessThan)
    } else if sym_x(t, p, Sym::Eq) {
        Some(ComparisonOp::Equal)
    } else if sym_x(t, p, Sym::NotEq) {
        Some(ComparisonOp::NotEqual)
    } else if sym_x(t, p, Sym::Ge) {
        Some(ComparisonOp::GreaterThanEquals)
    } else if sym_x(t, p, Sym::Le) {
        Some(ComparisonOp::LessThanEquals)
    } else {
        None
    }
}

pub fn null_op_x(t: &Vec<Token>, p: usize) -> (r: Option<(NullOp, usize)>)
    ensures
        match r {
            Some((op, q)) => null_op_at(tv(t), p as int) == Some((op, q as int)) && p < q
                <= t.len(),
            None => null_op_at(tv(t), p as int) is None,
        },
{
    if kw_x(t, p, Kw::Is) && kw_x(t, p + 1, Kw::Null) {
        Some((NullOp::IsNull, p + 2))
    } else if kw_x(t, p, Kw::Is) && kw_x(t, p + 1, Kw::Not) && kw_x(t, p + 2, Kw::Null) {
        Some((NullOp::IsNotNull, p + 3))
    } else {
        None
    }
}

pub fn bin_op_x(t: &Vec<Token>, p: usize) -> (r: Option<BinaryOp>)
    ensures
        r == bin_op_at(tv(t), p as int),
        r is Some ==> p < t.len(),
{
    if kw_x(t, p, Kw::And) {
        Some(BinaryOp::And)
    } else if kw_x(t, p, Kw::Or) {
        Some(BinaryOp::Or)
    } else {
        None
    }
}

/// A one-character string.
pub fn char_string(c: char) -> (s: String)
    ensures
        s@ == seq![c],
{
    let mut s = String::new();
    push_char(&mut s, c);
    assert(s@ =~= seq![c]);
    s
}

pub fn arith_sym_x(t: &Vec<Token>, p: usize) -> (r: Option<String>)
    ensures
        opt_str(r) == arith_sym_at(tv(t), p as int),
        r is Some ==> p < t.len(),
{
    if sym_x(t, p, Sym::Plus) {
        Some(char_string('+'))
    } else if sym_x(t, p, Sym::Minus) {
        Some(char_string('-'))
    } else if sym_x(t, p, Sym::Star) {
        Some(char_string('*'))
    } else if sym_x(t, p, Sym::Slash) {
        Some(char_string('/'))
    } else if sym_x(t, p, Sym::Percent) {
        Some(char_string('%'))
    } else {
        None
    }
}

pub fn table_column_x(t: &Vec<Token>, p: usize) -> (r: Option<(ColumnRef, usize)>)
    ensures
        match r {
            Some((c, q)) => table_column(tv(t), p as int) == Some((c@, q as int)) && p < q
                <= t.len(),
            None => table_column(tv(t), p as int) is None,
        },
{
    if p >= t.len() || t.len() - p < 3 {
        return None;
    }
    match (ident_x(t, p), ident_x(t, p + 2)) {
        (Some(a), Some(b)) => if sym_x(t, p + 1, Sym::Dot) {
            Some((ColumnRef { table: Some(a), column: b }, p + 3))
        } else {
            None
        },
        _ => None,
    }
}

pub fn column_ref_x(t: &Vec<Token>, p: usize) -> (r: Option<(ColumnRef, usize)>)
    ensures
        match r {
            Some((c, q)) => column_ref(tv(t), p as int) == Some((c@, q as int)) && p < q
                <= t.len(),
            None => column_ref(tv(t), p as int) is None,
        },
{
    match table_column_x(t, p) {
        Some(r) => Some(r),
        None => match ident_x(t, p) {
            Some(n) => Some((ColumnRef { table: None, column: n }, p + 1)),
            None => None,
        },
    }
}

pub fn aggregate_x(t: &Vec<Token>, p: usize) -> (r: Option<(AggregateFunction, usize)>)
    ensures
        match r {
            Some((a, q)) => aggregate(tv(t), p as int) == Some((a@, q as int)) && p < q
                <= t.len(),
            None => aggregate(tv(t), p as int) is None,
        },
{
    match agg_kind_x(word_kw_x(t, p)) {
        Some(f) => if !sym_x(t, p + 1, Sym::LParen) {
            None
        } else {
            let arg = if sym_x(t, p + 2, Sym::Star) {
                let c = ColumnRef { table: None, column: char_string('*') };
                assert(c@ == star_column());
                Some((c, p + 3))
            } else {
                column_ref_x(t, p + 2)
            };
            match arg {
                Some((c, q)) => if sym_x(t, q, Sym::RParen) {
                    Some((AggregateFunction { function: f, column: c }, q + 1))
                } else {
                    None
                },
                None => None,
            }
        },
        None => None,
    }
}

pub fn alias_x(t: &Vec<Token>, p: usize) -> (r: Option<(String, usize)>)
    ensures
        match r {
            Some((a, q)) => alias_at(tv(t), p as int) == Some((a@, q as int)) && p < q <= t.len(),
            None => alias_at(tv(t), p as int) is None,
        },
{
    if kw_x(t, p, Kw::As) {
        match ident_x(t, p + 1) {
            Some(a) => Some((a, p + 2)),
            None => None,
        }
    } else {
        match ident_x(t, p) {
            Some(a) => Some((a, p + 1)),
            None => None,
        }
    }
}

pub fn join_pair_x(t: &Vec<Token>, p: usize) -> (r: Option<(JoinCondition, usize)>)
    ensures
        match r {
            Some((c, q)) => join_pair(tv(t), p as int) == Some((c@, q as int)) && p < q <= t.len(),
            None => join_pair(tv(t), p as int) is None,
        },
{
    match table_column_x(t, p) {
        Some((l, q)) => if sym_x(t, q, Sym::Eq) {
            match table_column_x(t, q + 1) {
                Some((r, s)) => Some((JoinCondition { left_col: l, right_col: r }, s)),
                None => None,
            }
        } else {
            None
        },
        None => None,
    }
}

pub fn join_pairs_x(t: &Vec<Token>, p: usize) -> (r: Option<(Vec<JoinCondition>, usize)>)
    ensures
        match r {
            Some((v, q)) => join_pairs(tv(t), p as int) == Some((joins_view(v@), q as int)) && p
                < q <= t.len(),
            None => join_pairs(tv(t), p as int) is None,
        },
{
    let (c, q0) = match join_pair_x(t, p) {
        Some(x) => x,
        None => {
            return None;
        },
    };
    let mut acc: Vec<JoinCondition> = Vec::new();
    proof {
        lemma_joins_view_push(acc@, c);
    }
    acc.push(c);
    assert(joins_view(acc@) =~= seq![c@]);
    let mut q = q0;
    loop
        invariant
            p < q <= t.len(),
            join_pairs_rest(tv(t), q as int, joins_view(acc@)) == join_pairs(tv(t), p as int),
        decreases t.len() - q,
    {
        if !kw_x(t, q, Kw::And) {
            return Some((acc, q));
        }
        match join_pair_x(t, q + 1) {
            Some((c2, r)) => {
                proof {
                    lemma_joins_view_push(acc@, c2);
                }
                acc.push(c2);
                q = r;
            },
            None => {
                return Some((acc, q));
            },
        }
    }
}

pub fn column_refs_x(t: &Vec<Token>, p: usize) -> (r: Option<(Vec<ColumnRef>, usize)>)
    ensures
        match r {
            Some((v, q)) => column_refs(tv(t), p as int) == Some((columns_view(v@), q as int))
                && p < q <= t.len(),
            None => column_refs(tv(t), p as int) is None,
        },
{
    let (c, q0) = match column_ref_x(t, p) {
        Some(x) => x,
        None => {
            return None;
        },
    };
    let mut acc: Vec<ColumnRef> = Vec::new();
    proof {
        lemma_columns_view_push(acc@, c);
    }
    acc.push(c);
    assert(columns_view(acc@) =~= seq![c@]);
    let mut q = q0;
    loop
        invariant
            p < q <= t.len(),
            column_refs_rest(tv(t), q as int, columns_view(acc@)) == column_refs(
                tv(t),
                p as int,
            ),
        decreases t.len() - q,
    {
        if !sym_x(t, q, Sym::Comma) {
            return Some((acc, q));
        }
        match column_ref_x(t, q + 1) {
            Some((c2, r)) => {
                proof {
                    lemma_columns_view_push(acc@, c2);
                }
                acc.push(c2);
                q = r;
            },
            None => {
                return Some((acc, q));
            },
        }
    }
}

pub fn order_item_x(t: &Vec<Token>, p: usize) -> (r: Option<(OrderByItem, usize)>)
    ensures
        match r {
            Some((c, q)) => order_item(tv(t), p as int) == Some((c@, q as int)) && p < q
                <= t.len(),
            None => order_item(tv(t), p as int) is None,
        },
{
    match column_ref_x(t, p) {
        Some((c, q)) => {
            let (dir, q2) = if kw_x(t, q, Kw::Asc) {
                (OrderDirection::Asc, q + 1)
            } else if kw_x(t, q, Kw::Desc) {
                (OrderDirection::Desc, q + 1)
            } else {
                (OrderDirection::Asc, q)
            };
            let (nulls, q3) = if kw_x(t, q2, Kw::Nulls) && kw_x(t, q2 + 1, Kw::First) {
                (Some(true), q2 + 2)
            } else if kw_x(t, q2, Kw::Nulls) && kw_x(t, q2 + 1, Kw::Last) {
                (Some(false), q2 + 2)
            } else {
                (None, q2)
            };
            Some((OrderByItem { column: c, direction: dir, nulls_first: nulls }, q3))
        },
        None => None,
    }
}

pub fn opt_order_x(t: &Vec<Token>, p: usize) -> (r: Option<(Option<Vec<OrderByItem>>, usize)>)
    requires
        p <= t.len(),
    ensures
        match r {
            Some((o, q)) => opt_order(tv(t), p as int) == Some(
                (
                    match o {
                        Some(v) => Some(order_items_view(v@)),
                        None => None,
                    },
                    q as int,
                ),
            ) && p <= q <= t.len(),
            None => opt_order(tv(t), p as int) is None,
        },
{
    if !(kw_x(t, p, Kw::Order) && kw_x(t, p + 1, Kw::By)) {
        return Some((None, p));
    }
    let (c, q0) = match order_item_x(t, p + 2) {
        Some(x) => x,
        None => {
            return None;
        },
    };
    let mut acc: Vec<OrderByItem> = Vec::new();
    proof {
        lemma_order_items_view_push(acc@, c);
    }
    acc.push(c);
    assert(order_items_view(acc@) =~= seq![c@]);
    let mut q = q0;
    loop
        invariant
            p < q <= t.len(),
            kw_at(tv(t), p as int, Kw::Order) && kw_at(tv(t), p + 1, Kw::By),
            order_item(tv(t), p + 2) matches Some((c0, q00)) && order_items_rest(
                tv(t),
                q as int,
                order_items_view(acc@),
            ) == order_items_rest(tv(t), q00, seq![c0]),
        decreases t.len() - q,
    {
        if !sym_x(t, q, Sym::Comma) {
            return Some((Some(acc), q));
        }
        match order_item_x(t, q + 1) {
            Some((c2, r)) => {
                proof {
                    lemma_order_items_view_push(acc@, c2);
                }
                acc.push(c2);
                q = r;
            },
            None => {
                return Some((Some(acc), q));
            },
        }
    }
}

pub fn opt_limit_x(t: &Vec<Token>, p: usize) -> (r: Option<(Option<(i64, Option<i64>)>, usize)>)
    requires
        p <= t.len(),
    ensures
        match r {
            Some((o, q)) => opt_limit(tv(t), p as int) == Some((o, q as int)) && p <= q <= t.len(),
            None => opt_limit(tv(t), p as int) is None,
        },
{
    if kw_x(t, p, Kw::Limit) {
        match int_lit_x(t, p + 1) {
            Some((n, q)) => if kw_x(t, q, Kw::Offset) {
                match int_lit_x(t, q + 1) {
                    Some((m, r)) => Some((Some((n, Some(m))), r)),
                    None => Some((Some((n, None)), q)),
                }
            } else {
                Some((Some((n, None)), q))
            },
            None => None,
        }
    } else {
        Some((None, p))
    }
}

} // verus!
