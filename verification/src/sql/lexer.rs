//! Lexical structure of the SQL dialect: characters to tokens.
use crate::text::{ascii_upper_range, ascii_upper_seq, chars_eq, string_from_chars, is_digit};
use vstd::prelude::*;

verus! {

/// Words with a meaning in the grammar. `True` and `False` are the lowercase
/// literals `true` and `false`; every other word is matched case-insensitively.
#[derive(Debug, Clone, Copy, PartialEq, Eq, Structural)]
pub enum Kw {
    Select,
    Distinct,
    From,
    Where,
    Group,
    By,
    Having,
    Order,
    Limit,
    Offset,
    Join,
    Inner,
    Left,
    Outer,
    On,
    As,
    And,
    Or,
    Not,
    In,
    Exists,
    Is,
    Null,
    Asc,
    Desc,
    Nulls,
    Create,
    Source,
    Sink,
    Insert,
    Into,
    With,
    AggMax,
    AggMin,
    AggAvg,
    AggSum,
    AggCount,
    TyInteger,
    TyI32,
    TyBigInt,
    TyI64,
    TyFloat,
    TyF32,
    TyDouble,
    TyF64,
    TyString,
    TyBoolean,
    TyBool,
    TyTimestamp,
    First,
    Last,
    True,
    False,
}

/// Reserved words cannot name a table, a column or an option.
pub open spec fn kw_reserved(k: Kw) -> bool {
    match k {
        Kw::AggMax | Kw::AggMin | Kw::AggAvg | Kw::AggSum | Kw::AggCount | Kw::TyInteger | Kw::TyI32 | Kw::TyBigInt | Kw::TyI64 | Kw::TyFloat | Kw::TyF32 | Kw::TyDouble | Kw::TyF64 | Kw::TyString | Kw::TyBoolean | Kw::TyBool | Kw::TyTimestamp | Kw::First | Kw::Last => false,
        _ => true,
    }
}

pub fn is_reserved(k: Kw) -> (r: bool)
    ensures
        r == kw_reserved(k),
{
    match k {
        Kw::AggMax | Kw::AggMin | Kw::AggAvg | Kw::AggSum | Kw::AggCount | Kw::TyInteger | Kw::TyI32 | Kw::TyBigInt | Kw::TyI64 | Kw::TyFloat | Kw::TyF32 | Kw::TyDouble | Kw::TyF64 | Kw::TyString | Kw::TyBoolean | Kw::TyBool | Kw::TyTimestamp | Kw::First | Kw::Last => false,
        _ => true,
    }
}

/// The keyword spelled by an upper-case word.
pub open spec fn upper_kw(u: Seq<char>) -> Option<Kw> {
    if u == seq!['S', 'E', 'L', 'E', 'C', 'T'] {
        Some(Kw::Select)
    } else if u == seq!['D', 'I', 'S', 'T', 'I', 'N', 'C', 'T'] {
        Some(Kw::Distinct)
    } else if u == seq!['F', 'R', 'O', 'M'] {
        Some(Kw::From)
    } else if u == seq!['W', 'H', 'E', 'R', 'E'] {
        Some(Kw::Where)
    } else if u == seq!['G', 'R', 'O', 'U', 'P'] {
        Some(Kw::Group)
    } else if u == seq!['B', 'Y'] {
        Some(Kw::By)
    } else if u == seq!['H', 'A', 'V', 'I', 'N', 'G'] {
        Some(Kw::Having)
    } else if u == seq!['O', 'R', 'D', 'E', 'R'] {
        Some(Kw::Order)
    } else if u == seq!['L', 'I', 'M', 'I', 'T'] {
        Some(Kw::Limit)
    } else if u == seq!['O', 'F', 'F', 'S', 'E', 'T'] {
        Some(Kw::Offset)
    } else if u == seq!['J', 'O', 'I', 'N'] {
        Some(Kw::Join)
    } else if u == seq!['I', 'N', 'N', 'E', 'R'] {
        Some(Kw::Inner)
    } else if u == seq!['L', 'E', 'F', 'T'] {
        Some(Kw::Left)
    } else if u == seq!['O', 'U', 'T', 'E', 'R'] {
        Some(Kw::Outer)
    } else if u == seq!['O', 'N'] {
        Some(Kw::On)
    } else if u == seq!['A', 'S'] {
        Some(Kw::As)
    } else if u == seq!['A', 'N', 'D'] {
        Some(Kw::And)
    } else if u == seq!['O', 'R'] {
        Some(Kw::Or)
    } else if u == seq!['N', 'O', 'T'] {
        Some(Kw::Not)
    } else if u == seq!['I', 'N'] {
        Some(Kw::In)
    } else if u == seq!['E', 'X', 'I', 'S', 'T', 'S'] {
        Some(Kw::Exists)
    } else if u == seq!['I', 'S'] {
        Some(Kw::Is)
    } else if u == seq!['N', 'U', 'L', 'L'] {
        Some(Kw::Null)
    } else if u == seq!['A', 'S', 'C'] {
        Some(Kw::Asc)
    } else if u == seq!['D', 'E', 'S', 'C'] {
        Some(Kw::Desc)
    } else if u == seq!['N', 'U', 'L', 'L', 'S'] {
        Some(Kw::Nulls)
    } else if u == seq!['C', 'R', 'E', 'A', 'T', 'E'] {
        Some(Kw::Create)
    } else if u == seq!['S', 'O', 'U', 'R', 'C', 'E'] {
        Some(Kw::Source)
    } else if u == seq!['S', 'I', 'N', 'K'] {
        Some(Kw::Sink)
    } else if u == seq!['I', 'N', 'S', 'E', 'R', 'T'] {
        Some(Kw::Insert)
    } else if u == seq!['I', 'N', 'T', 'O'] {
        Some(Kw::Into)
    } else if u == seq!['W', 'I', 'T', 'H'] {
        Some(Kw::With)
    } else if u == seq!['M', 'A', 'X'] {
        Some(Kw::AggMax)
    } else if u == seq!['M', 'I', 'N'] {
        Some(Kw::AggMin)
    } else if u == seq!['A', 'V', 'G'] {
        Some(Kw::AggAvg)
    } else if u == seq!['S', 'U', 'M'] {
        Some(Kw::AggSum)
    } else if u == seq!['C', 'O', 'U', 'N', 'T'] {
        Some(Kw::AggCount)
    } else if u == seq!['I', 'N', 'T', 'E', 'G', 'E', 'R'] {
        Some(Kw::TyInteger)
    } else if u == seq!['I', '3', '2'] {
        Some(Kw::TyI32)
    } else if u == seq!['B', 'I', 'G', 'I', 'N', 'T'] {
        Some(Kw::TyBigInt)
    } else if u == seq!['I', '6', '4'] {
        Some(Kw::TyI64)
    } else if u == seq!['F', 'L', 'O', 'A', 'T'] {
        Some(Kw::TyFloat)
    } else if u == seq!['F', '3', '2'] {
        Some(Kw::TyF32)
    } else if u == seq!['D', 'O', 'U', 'B', 'L', 'E'] {
        Some(Kw::TyDouble)
    } else if u == seq!['F', '6', '4'] {
        Some(Kw::TyF64)
    } else if u == seq!['S', 'T', 'R', 'I', 'N', 'G'] {
        Some(Kw::TyString)
    } else if u == seq!['B', 'O', 'O', 'L', 'E', 'A', 'N'] {
        Some(Kw::TyBoolean)
    } else if u == seq!['B', 'O', 'O', 'L'] {
        Some(Kw::TyBool)
    } else if u == seq!['T', 'I', 'M', 'E', 'S', 'T', 'A', 'M', 'P'] {
        Some(Kw::TyTimestamp)
    } else if u == seq!['F', 'I', 'R', 'S', 'T'] {
        Some(Kw::First)
    } else if u == seq!['L', 'A', 'S', 'T'] {
        Some(Kw::Last)
    } else {
        None
    }
}

fn upper_kw_of(u: &[char]) -> (r: Option<Kw>)
    ensures
        r == upper_kw(u@),
{
    if chars_eq(u, &['S', 'E', 'L', 'E', 'C', 'T']) {
        Some(Kw::Select)
    } else if chars_eq(u, &['D', 'I', 'S', 'T', 'I', 'N', 'C', 'T']) {
        Some(Kw::Distinct)
    } else if chars_eq(u, &['F', 'R', 'O', 'M']) {
        Some(Kw::From)
    } else if chars_eq(u, &['W', 'H', 'E', 'R', 'E']) {
        Some(Kw::Where)
    } else if chars_eq(u, &['G', 'R', 'O', 'U', 'P']) {
        Some(Kw::Group)
    } else if chars_eq(u, &['B', 'Y']) {
        Some(Kw::By)
    } else if chars_eq(u, &['H', 'A', 'V', 'I', 'N', 'G']) {
        Some(Kw::Having)
    } else if chars_eq(u, &['O', 'R', 'D', 'E', 'R']) {
        Some(Kw::Order)
    } else if chars_eq(u, &['L', 'I', 'M', 'I', 'T']) {
        Some(Kw::Limit)
    } else if chars_eq(u, &['O', 'F', 'F', 'S', 'E', 'T']) {
        Some(Kw::Offset)
    } else if chars_eq(u, &['J', 'O', 'I', 'N']) {
        Some(Kw::Join)
    } else if chars_eq(u, &['I', 'N', 'N', 'E', 'R']) {
        Some(Kw::Inner)
    } else if chars_eq(u, &['L', 'E', 'F', 'T']) {
        Some(Kw::Left)
    } else if chars_eq(u, &['O', 'U', 'T', 'E', 'R']) {
        Some(Kw::Outer)
    } else if chars_eq(u, &['O', 'N']) {
        Some(Kw::On)
    } else if chars_eq(u, &['A', 'S']) {
        Some(Kw::As)
    } else if chars_eq(u, &['A', 'N', 'D']) {
        Some(Kw::And)
    } else if chars_eq(u, &['O', 'R']) {
        Some(Kw::Or)
    } else if chars_eq(u, &['N', 'O', 'T']) {
        Some(Kw::Not)
    } else if chars_eq(u, &['I', 'N']) {
        Some(Kw::In)
    } else if chars_eq(u, &['E', 'X', 'I', 'S', 'T', 'S']) {
        Some(Kw::Exists)
    } else if chars_eq(u, &['I', 'S']) {
        Some(Kw::Is)
    } else if chars_eq(u, &['N', 'U', 'L', 'L']) {
        Some(Kw::Null)
    } else if chars_eq(u, &['A', 'S', 'C']) {
        Some(Kw::Asc)
    } else if chars_eq(u, &['D', 'E', 'S', 'C']) {
        Some(Kw::Desc)
    } else if chars_eq(u, &['N', 'U', 'L', 'L', 'S']) {
        Some(Kw::Nulls)
    } else if chars_eq(u, &['C', 'R', 'E', 'A', 'T', 'E']) {
        Some(Kw::Create)
    } else if chars_eq(u, &['S', 'O', 'U', 'R', 'C', 'E']) {
        Some(Kw::Source)
    } else if chars_eq(u, &['S', 'I', 'N', 'K']) {
        Some(Kw::Sink)
    } else if chars_eq(u, &['I', 'N', 'S', 'E', 'R', 'T']) {
        Some(Kw::Insert)
    } else if chars_eq(u, &['I', 'N', 'T', 'O']) {
        Some(Kw::Into)
    } else if chars_eq(u, &['W', 'I', 'T', 'H']) {
        Some(Kw::With)
    } else if chars_eq(u, &['M', 'A', 'X']) {
        Some(Kw::AggMax)
    } else if chars_eq(u, &['M', 'I', 'N']) {
        Some(Kw::AggMin)
    } else if chars_eq(u, &['A', 'V', 'G']) {
        Some(Kw::AggAvg)
    } else if chars_eq(u, &['S', 'U', 'M']) {
        Some(Kw::AggSum)
    } else if chars_eq(u, &['C', 'O', 'U', 'N', 'T']) {
        Some(Kw::AggCount)
    } else if chars_eq(u, &['I', 'N', 'T', 'E', 'G', 'E', 'R']) {
        Some(Kw::TyInteger)
    } else if chars_eq(u, &['I', '3', '2']) {
        Some(Kw::TyI32)
    } else if chars_eq(u, &['B', 'I', 'G', 'I', 'N', 'T']) {
        Some(Kw::TyBigInt)
    } else if chars_eq(u, &['I', '6', '4']) {
        Some(Kw::TyI64)
    } else if chars_eq(u, &['F', 'L', 'O', 'A', 'T']) {
        Some(Kw::TyFloat)
    } else if chars_eq(u, &['F', '3', '2']) {
        Some(Kw::TyF32)
    } else if chars_eq(u, &['D', 'O', 'U', 'B', 'L', 'E']) {
        Some(Kw::TyDouble)
    } else if chars_eq(u, &['F', '6', '4']) {
        Some(Kw::TyF64)
    } else if chars_eq(u, &['S', 'T', 'R', 'I', 'N', 'G']) {
        Some(Kw::TyString)
    } else if chars_eq(u, &['B', 'O', 'O', 'L', 'E', 'A', 'N']) {
        Some(Kw::TyBoolean)
    } else if chars_eq(u, &['B', 'O', 'O', 'L']) {
        Some(Kw::TyBool)
    } else if chars_eq(u, &['T', 'I', 'M', 'E', 'S', 'T', 'A', 'M', 'P']) {
        Some(Kw::TyTimestamp)
    } else if chars_eq(u, &['F', 'I', 'R', 'S', 'T']) {
        Some(Kw::First)
    } else if chars_eq(u, &['L', 'A', 'S', 'T']) {
        Some(Kw::Last)
    } else {
        None
    }
}

/// Punctuation and operator tokens.
#[derive(Debug, Clone, Copy, PartialEq, Eq, Structural)]
pub enum Sym {
    LParen,
    RParen,
    Comma,
    Semi,
    Dot,
    Star,
    Plus,
    Minus,
    Slash,
    Percent,
    Eq,
    /// `!=` or `<>`
    NotEq,
    Lt,
    Gt,
    Le,
    Ge,
}

/// A token: a word (with its keyword, if any), a number as written, the
/// contents of a single-quoted string, or a symbol.
#[derive(Debug, Clone, PartialEq)]
pub enum Token {
    Word { text: String, kw: Option<Kw> },
    Number(String),
    Str(String),
    Sym(Sym),
}

pub enum SpecToken {
    Word { text: Seq<char>, kw: Option<Kw> },
    Number(Seq<char>),
    Str(Seq<char>),
    Sym(Sym),
}

impl View for Token {
    type V = SpecToken;

    open spec fn view(&self) -> SpecToken {
        match self {
            Token::Word { text, kw } => SpecToken::Word { text: text@, kw: *kw },
            Token::Number(s) => SpecToken::Number(s@),
            Token::Str(s) => SpecToken::Str(s@),
            Token::Sym(s) => SpecToken::Sym(*s),
        }
    }
}

pub open spec fn tokens_view(v: Seq<Token>) -> Seq<SpecToken> {
    v.map_values(|t: Token| t@)
}

/// The keyword a word spells: the lowercase literals `true`/`false`, or a
/// keyword written in any mix of cases.
pub open spec fn word_kw(w: Seq<char>) -> Option<Kw> {
    if w == seq!['t', 'r', 'u', 'e'] {
        Some(Kw::True)
    } else if w == seq!['f', 'a', 'l', 's', 'e'] {
        Some(Kw::False)
    } else {
        upper_kw(ascii_upper_seq(w))
    }
}

fn word_kw_of(v: &Vec<char>, lo: usize, hi: usize) -> (r: Option<Kw>)
    requires
        lo <= hi <= v.len(),
    ensures
        r == word_kw(v@.subrange(lo as int, hi as int)),
{
    let u = ascii_upper_range(v, lo, hi);
    let w = v.as_slice();
    let mut exact: Vec<char> = Vec::new();
    let mut i = lo;
    while i < hi
        invariant
            lo <= i <= hi <= v.len(),
            w@ == v@,
            exact@ =~= v@.subrange(lo as int, i as int),
        decreases hi - i,
    {
        exact.push(w[i]);
        i = i + 1;
    }
    if chars_eq(exact.as_slice(), &['t', 'r', 'u', 'e']) {
        Some(Kw::True)
    } else if chars_eq(exact.as_slice(), &['f', 'a', 'l', 's', 'e']) {
        Some(Kw::False)
    } else {
        upper_kw_of(u.as_slice())
    }
}

pub open spec fn is_space(c: char) -> bool {
    c == ' ' || c == '\t' || c == '\n' || c == '\r'
}

pub open spec fn is_word_start(c: char) -> bool {
    ('a' <= c <= 'z') || ('A' <= c <= 'Z') || c == '_'
}

pub open spec fn is_word_char(c: char) -> bool {
    is_word_start(c) || is_digit(c)
}

/// End of the run of word characters starting at `i`.
pub open spec fn scan_word(s: Seq<char>, i: int) -> int
    decreases s.len() - i,
{
    if 0 <= i < s.len() && is_word_char(s[i]) {
        scan_word(s, i + 1)
    } else {
        i
    }
}

/// End of the run of digits starting at `i`.
pub open spec fn scan_digits(s: Seq<char>, i: int) -> int
    decreases s.len() - i,
{
    if 0 <= i < s.len() && is_digit(s[i]) {
        scan_digits(s, i + 1)
    } else {
        i
    }
}

/// Position of the first `'` at or after `i` (or the end of the input).
pub open spec fn scan_quote(s: Seq<char>, i: int) -> int
    decreases s.len() - i,
{
    if 0 <= i < s.len() && s[i] != '\'' {
        scan_quote(s, i + 1)
    } else {
        i
    }
}

/// Position of the first newline at or after `i` (or the end of the input).
pub open spec fn scan_line(s: Seq<char>, i: int) -> int
    decreases s.len() - i,
{
    if 0 <= i < s.len() && s[i] != '\n' {
        scan_line(s, i + 1)
    } else {
        i
    }
}

pub proof fn lemma_scan_word(s: Seq<char>, i: int)
    requires
        0 <= i <= s.len(),
    ensures
        i <= scan_word(s, i) <= s.len(),
    decreases s.len() - i,
{
    if i < s.len() && is_word_char(s[i]) {
        lemma_scan_word(s, i + 1);
    }
}

pub proof fn lemma_scan_digits(s: Seq<char>, i: int)
    requires
        0 <= i <= s.len(),
    ensures
        i <= scan_digits(s, i) <= s.len(),
    decreases s.len() - i,
{
    if i < s.len() && is_digit(s[i]) {
        lemma_scan_digits(s, i + 1);
    }
}

pub proof fn lemma_scan_quote(s: Seq<char>, i: int)
    requires
        0 <= i <= s.len(),
    ensures
        i <= scan_quote(s, i) <= s.len(),
        scan_quote(s, i) < s.len() ==> s[scan_quote(s, i)] == '\'',
    decreases s.len() - i,
{
    if i < s.len() && s[i] != '\'' {
        lemma_scan_quote(s, i + 1);
    }
}

pub proof fn lemma_scan_line(s: Seq<char>, i: int)
    requires
        0 <= i <= s.len(),
    ensures
        i <= scan_line(s, i) <= s.len(),
    decreases s.len() - i,
{
    if i < s.len() && s[i] != '\n' {
        lemma_scan_line(s, i + 1);
    }
}

/// End of the number starting at `i` (digits, then optionally `.` and digits).
pub open spec fn number_end(s: Seq<char>, i: int) -> int {
    let j = scan_digits(s, i);
    if j + 1 < s.len() && s[j] == '.' && is_digit(s[j + 1]) {
        scan_digits(s, j + 1)
    } else {
        j
    }
}

/// The symbol starting at `i` and its length, if any.
pub open spec fn symbol_at(s: Seq<char>, i: int) -> Option<(Sym, int)> {
    let c = s[i];
    let d = if i + 1 < s.len() { s[i + 1] } else { ' ' };
    if c == '<' && d == '=' {
        Some((Sym::Le, 2))
    } else if c == '>' && d == '=' {
        Some((Sym::Ge, 2))
    } else if c == '!' && d == '=' {
        Some((Sym::NotEq, 2))
    } else if c == '<' && d == '>' {
        Some((Sym::NotEq, 2))
    } else if c == '(' {
        Some((Sym::LParen, 1))
    } else if c == ')' {
        Some((Sym::RParen, 1))
    } else if c == ',' {
        Some((Sym::Comma, 1))
    } else if c == ';' {
        Some((Sym::Semi, 1))
    } else if c == '.' {
        Some((Sym::Dot, 1))
    } else if c == '*' {
        Some((Sym::Star, 1))
    } else if c == '+' {
        Some((Sym::Plus, 1))
    } else if c == '-' {
        Some((Sym::Minus, 1))
    } else if c == '/' {
        Some((Sym::Slash, 1))
    } else if c == '%' {
        Some((Sym::Percent, 1))
    } else if c == '=' {
        Some((Sym::Eq, 1))
    } else if c == '<' {
        Some((Sym::Lt, 1))
    } else if c == '>' {
        Some((Sym::Gt, 1))
    } else {
        None
    }
}

/// The tokens of `s[i..]`: whitespace and `--` line comments separate tokens;
/// any other character that starts no token, and an unterminated string, make
/// the input invalid.
pub open spec fn lex(s: Seq<char>, i: int) -> Option<Seq<SpecToken>>
    decreases s.len() - i,
{
    if i < 0 || i >= s.len() {
        Some(Seq::empty())
    } else {
        let c = s[i];
        if is_space(c) {
            lex(s, i + 1)
        } else if c == '-' && i + 1 < s.len() && s[i + 1] == '-' {
            let j = scan_line(s, i + 2);
            proof {
                lemma_scan_line(s, i + 2);
            }
            lex(s, j)
        } else if is_word_start(c) {
            let j = scan_word(s, i + 1);
            proof {
                lemma_scan_word(s, i + 1);
            }
            let w = s.subrange(i, j);
            match lex(s, j) {
                Some(rest) => Some(seq![SpecToken::Word { text: w, kw: word_kw(w) }] + rest),
                None => None,
            }
        } else if is_digit(c) {
            let j = number_end(s, i);
            proof {
                lemma_scan_digits(s, i + 1);
                assert(scan_digits(s, i) == scan_digits(s, i + 1));
                let k = scan_digits(s, i);
                if k + 1 < s.len() && s[k] == '.' && is_digit(s[k + 1]) {
                    lemma_scan_digits(s, k + 1);
                }
            }
            match lex(s, j) {
                Some(rest) => Some(seq![SpecToken::Number(s.subrange(i, j))] + rest),
                None => None,
            }
        } else if c == '\'' {
            let j = scan_quote(s, i + 1);
            proof {
                lemma_scan_quote(s, i + 1);
            }
            if j >= s.len() {
                None
            } else {
                match lex(s, j + 1) {
                    Some(rest) => Some(seq![SpecToken::Str(s.subrange(i + 1, j))] + rest),
                    None => None,
                }
            }
        } else {
            match symbol_at(s, i) {
                Some((sym, n)) => match lex(s, i + n) {
                    Some(rest) => Some(seq![SpecToken::Sym(sym)] + rest),
                    None => None,
                },
                None => None,
            }
        }
    }
}

pub open spec fn prepend(a: Seq<SpecToken>, o: Option<Seq<SpecToken>>) -> Option<Seq<SpecToken>> {
    match o {
        Some(r) => Some(a + r),
        None => None,
    }
}

fn symbol_of(v: &Vec<char>, i: usize) -> (r: Option<(Sym, usize)>)
    requires
        i < v.len(),
    ensures
        match r {
            Some((sym, n)) => symbol_at(v@, i as int) == Some((sym, n as int)),
            None => symbol_at(v@, i as int) is None,
        },
{
    let c = v[i];
    let d = if i + 1 < v.len() { v[i + 1] } else { ' ' };
    if c == '<' && d == '=' {
        Some((Sym::Le, 2))
    } else if c == '>' && d == '=' {
        Some((Sym::Ge, 2))
    } else if c == '!' && d == '=' {
        Some((Sym::NotEq, 2))
    } else if c == '<' && d == '>' {
        Some((Sym::NotEq, 2))
    } else if c == '(' {
        Some((Sym::LParen, 1))
    } else if c == ')' {
        Some((Sym::RParen, 1))
    } else if c == ',' {
        Some((Sym::Comma, 1))
    } else if c == ';' {
        Some((Sym::Semi, 1))
    } else if c == '.' {
        Some((Sym::Dot, 1))
    } else if c == '*' {
        Some((Sym::Star, 1))
    } else if c == '+' {
        Some((Sym::Plus, 1))
    } else if c == '-' {
        Some((Sym::Minus, 1))
    } else if c == '/' {
        Some((Sym::Slash, 1))
    } else if c == '%' {
        Some((Sym::Percent, 1))
    } else if c == '=' {
        Some((Sym::Eq, 1))
    } else if c == '<' {
        Some((Sym::Lt, 1))
    } else if c == '>' {
        Some((Sym::Gt, 1))
    } else {
        None
    }
}

fn scan_digits_exec(v: &Vec<char>, i: usize) -> (j: usize)
    requires
        i <= v.len(),
    ensures
        j as int == scan_digits(v@, i as int),
        i <= j <= v.len(),
        i < v.len() && is_digit(v@[i as int]) ==> j > i,
{
    let mut j = i;
    while j < v.len() && '0' <= v[j] && v[j] <= '9'
        invariant
            i <= j <= v.len(),
            scan_digits(v@, i as int) == scan_digits(v@, j as int),
        decreases v.len() - j,
    {
        j = j + 1;
    }
    j
}

/// Splits `v` into tokens.
pub fn tokenize(v: &Vec<char>) -> (r: Option<Vec<Token>>)
    ensures
        match r {
            Some(t) => lex(v@, 0) == Some(tokens_view(t@)),
            None => lex(v@, 0) is None,
        },
{
    let mut acc: Vec<Token> = Vec::new();
    let mut i: usize = 0;
    let n = v.len();
    assert(tokens_view(acc@) =~= Seq::<SpecToken>::empty());
    assert(prepend(Seq::empty(), lex(v@, 0)) == lex(v@, 0)) by {
        match lex(v@, 0) {
            Some(r) => {
                assert(Seq::<SpecToken>::empty() + r =~= r);
            },
            None => {},
        }
    }
    while i < n
        invariant
            n == v.len(),
            i <= n,
            lex(v@, 0) == prepend(tokens_view(acc@), lex(v@, i as int)),
        decreases n - i,
    {
        let ghost s = v@;
        let ghost before = tokens_view(acc@);
        let c = v[i];
        if c == ' ' || c == '\t' || c == '\n' || c == '\r' {
            i = i + 1;
        } else if c == '-' && i + 1 < n && v[i + 1] == '-' {
            let mut j = i + 2;
            while j < n && v[j] != '\n'
                invariant
                    i + 2 <= j <= n,
                    n == v.len(),
                    scan_line(v@, i + 2) == scan_line(v@, j as int),
                decreases n - j,
            {
                j = j + 1;
            }
            i = j;
        } else if ('a' <= c && c <= 'z') || ('A' <= c && c <= 'Z') || c == '_' {
            let mut j = i + 1;
            while j < n && (('a' <= v[j] && v[j] <= 'z') || ('A' <= v[j] && v[j] <= 'Z')
                || v[j] == '_' || ('0' <= v[j] && v[j] <= '9'))
                invariant
                    i + 1 <= j <= n,
                    n == v.len(),
                    scan_word(v@, i + 1) == scan_word(v@, j as int),
                decreases n - j,
            {
                j = j + 1;
            }
            let text = string_from_chars(v, i, j);
            let kw = word_kw_of(v, i, j);
            let tok = Token::Word { text, kw };
            acc.push(tok);
            proof {
                lemma_scan_word(s, i + 1);
                assert(tokens_view(acc@) =~= before.push(tok@));
                match lex(s, j as int) {
                    Some(r) => {
                        assert(before + (seq![tok@] + r) =~= tokens_view(acc@) + r);
                    },
                    None => {},
                }
            }
            i = j;
        } else if '0' <= c && c <= '9' {
            let k = scan_digits_exec(v, i);
            let j = if k < n && n - k > 1 && v[k] == '.' && '0' <= v[k + 1] && v[k + 1] <= '9' {
                scan_digits_exec(v, k + 1)
            } else {
                k
            };
            let tok = Token::Number(string_from_chars(v, i, j));
            acc.push(tok);
            proof {
                assert(tokens_view(acc@) =~= before.push(tok@));
                match lex(s, j as int) {
                    Some(r) => {
                        assert(before + (seq![tok@] + r) =~= tokens_view(acc@) + r);
                    },
                    None => {},
                }
            }
            i = j;
        } else if c == '\'' {
            let mut j = i + 1;
            while j < n && v[j] != '\''
                invariant
                    i + 1 <= j <= n,
                    n == v.len(),
                    scan_quote(v@, i + 1) == scan_quote(v@, j as int),
                decreases n - j,
            {
                j = j + 1;
            }
            if j >= n {
                return None;
            }
            let tok = Token::Str(string_from_chars(v, i + 1, j));
            acc.push(tok);
            proof {
                assert(tokens_view(acc@) =~= before.push(tok@));
                match lex(s, j + 1) {
                    Some(r) => {
                        assert(before + (seq![tok@] + r) =~= tokens_view(acc@) + r);
                    },
                    None => {},
                }
            }
            i = j + 1;
        } else {
            match symbol_of(v, i) {
                Some((sym, len)) => {
                    let tok = Token::Sym(sym);
                    acc.push(tok);
                    proof {
                        assert(tokens_view(acc@) =~= before.push(tok@));
                        match lex(s, i + len) {
                            Some(r) => {
                                assert(before + (seq![tok@] + r) =~= tokens_view(acc@) + r);
                            },
                            None => {},
                        }
                    }
                    i = i + len;
                },
                None => {
                    return None;
                },
            }
        }
    }
    assert(tokens_view(acc@) + Seq::<SpecToken>::empty() =~= tokens_view(acc@));
    Some(acc)
}

/// The comparison symbols: `<`, `>` and `=` alone are less than, greater
/// than and equal; `<=` and `>=` the two-character comparisons; `!=` and
/// `<>` not equal.
pub proof fn lemma_comparison_symbols(s: Seq<char>, i: int)
    requires
        0 <= i < s.len(),
    ensures
        ({
            let next = if i + 1 < s.len() { s[i + 1] } else { ' ' };
            &&& s[i] == '<' && next != '=' && next != '>' ==> symbol_at(s, i) == Some((Sym::Lt, 1int))
            &&& s[i] == '>' && next != '=' ==> symbol_at(s, i) == Some((Sym::Gt, 1int))
            &&& s[i] == '=' ==> symbol_at(s, i) == Some((Sym::Eq, 1int))
            &&& s[i] == '<' && next == '=' ==> symbol_at(s, i) == Some((Sym::Le, 2int))
            &&& s[i] == '>' && next == '=' ==> symbol_at(s, i) == Some((Sym::Ge, 2int))
            &&& s[i] == '!' && next == '=' ==> symbol_at(s, i) == Some((Sym::NotEq, 2int))
            &&& s[i] == '<' && next == '>' ==> symbol_at(s, i) == Some((Sym::NotEq, 2int))
        }),
{
}

proof fn lemma_scan_quote_first(s: Seq<char>, i: int)
    requires
        0 <= i <= s.len(),
    ensures
        forall|k: int| i <= k < scan_quote(s, i) ==> s[k] != '\'',
    decreases s.len() - i,
{
    if i < s.len() && s[i] != '\'' {
        lemma_scan_quote_first(s, i + 1);
    }
}

/// A string literal runs from a `'` to the next `'`: its token holds exactly
/// the characters between them, and the text goes on after the closing
/// quote; without a closing quote the text is not valid.
pub proof fn lemma_quoted_string(s: Seq<char>, i: int)
    requires
        0 <= i < s.len(),
        s[i] == '\'',
    ensures
        forall|j: int|
            i < j < s.len() && s[j] == '\'' && (forall|k: int| i < k < j ==> s[k] != '\'') ==> lex(
                s,
                i,
            ) == prepend(seq![SpecToken::Str(s.subrange(i + 1, j))], lex(s, j + 1)),
        (forall|k: int| i < k < s.len() ==> s[k] != '\'') ==> lex(s, i) is None,
{
    lemma_scan_quote(s, i + 1);
    lemma_scan_quote_first(s, i + 1);
    let j0 = scan_quote(s, i + 1);
    assert forall|j: int|
        i < j < s.len() && s[j] == '\'' && (forall|k: int| i < k < j ==> s[k] != '\'') implies lex(
            s,
            i,
        ) == prepend(seq![SpecToken::Str(s.subrange(i + 1, j))], lex(s, j + 1)) by {
        if j0 < j {
            assert(s[j0] == '\'');
        } else if j0 > j {
            assert(s[j] != '\'');
        }
    }
    if forall|k: int| i < k < s.len() ==> s[k] != '\'' {
        if j0 < s.len() {
            assert(s[j0] == '\'');
        }
    }
}

proof fn lemma_scan_word_run(s: Seq<char>, i: int, j: int)
    requires
        0 <= i <= j <= s.len(),
        forall|k: int| i <= k < j ==> is_word_char(#[trigger] s[k]),
        j == s.len() || !is_word_char(s[j]),
    ensures
        scan_word(s, i) == j,
    decreases j - i,
{
    if i < j {
        lemma_scan_word_run(s, i + 1, j);
    }
}

/// A word runs over letters, digits and `_` from a letter or `_`: its token
/// holds exactly those characters, with the keyword they spell, and the
/// text goes on after them.
pub proof fn lemma_word_token(s: Seq<char>, i: int, j: int)
    requires
        0 <= i < j <= s.len(),
        is_word_start(s[i]),
        forall|k: int| i <= k < j ==> is_word_char(#[trigger] s[k]),
        j == s.len() || !is_word_char(s[j]),
    ensures
        lex(s, i) == prepend(
            seq![SpecToken::Word { text: s.subrange(i, j), kw: word_kw(s.subrange(i, j)) }],
            lex(s, j),
        ),
{
    lemma_scan_word_run(s, i + 1, j);
    assert(!is_space(s[i]));
}

/// Clause keywords are recognised in any mix of cases.
#[verifier::rlimit(100)]
pub proof fn lemma_clause_spellings(w: Seq<char>)
    ensures
        ascii_upper_seq(w) == seq!['I', 'S'] ==> word_kw(w) == Some(Kw::Is),
        ascii_upper_seq(w) == seq!['N', 'U', 'L', 'L'] ==> word_kw(w) == Some(Kw::Null),
        ascii_upper_seq(w) == seq!['N', 'O', 'T'] ==> word_kw(w) == Some(Kw::Not),
        ascii_upper_seq(w) == seq!['A', 'N', 'D'] ==> word_kw(w) == Some(Kw::And),
        ascii_upper_seq(w) == seq!['O', 'R'] ==> word_kw(w) == Some(Kw::Or),
        ascii_upper_seq(w) == seq!['I', 'N', 'N', 'E', 'R'] ==> word_kw(w) == Some(Kw::Inner),
        ascii_upper_seq(w) == seq!['L', 'E', 'F', 'T'] ==> word_kw(w) == Some(Kw::Left),
        ascii_upper_seq(w) == seq!['O', 'U', 'T', 'E', 'R'] ==> word_kw(w) == Some(Kw::Outer),
        ascii_upper_seq(w) == seq!['J', 'O', 'I', 'N'] ==> word_kw(w) == Some(Kw::Join),
        ascii_upper_seq(w) == seq!['A', 'S', 'C'] ==> word_kw(w) == Some(Kw::Asc),
        ascii_upper_seq(w) == seq!['D', 'E', 'S', 'C'] ==> word_kw(w) == Some(Kw::Desc),
        ascii_upper_seq(w) == seq!['L', 'I', 'M', 'I', 'T'] ==> word_kw(w) == Some(Kw::Limit),
        ascii_upper_seq(w) == seq!['O', 'F', 'F', 'S', 'E', 'T'] ==> word_kw(w) == Some(Kw::Offset),
        ascii_upper_seq(w) == seq!['D', 'I', 'S', 'T', 'I', 'N', 'C', 'T'] ==> word_kw(w) == Some(Kw::Distinct),
        ascii_upper_seq(w) == seq!['E', 'X', 'I', 'S', 'T', 'S'] ==> word_kw(w) == Some(Kw::Exists),
        ascii_upper_seq(w) == seq!['I', 'N'] ==> word_kw(w) == Some(Kw::In),
        ascii_upper_seq(w) == seq!['N', 'U', 'L', 'L', 'S'] ==> word_kw(w) == Some(Kw::Nulls),
        ascii_upper_seq(w) == seq!['F', 'I', 'R', 'S', 'T'] ==> word_kw(w) == Some(Kw::First),
        ascii_upper_seq(w) == seq!['L', 'A', 'S', 'T'] ==> word_kw(w) == Some(Kw::Last),
        ascii_upper_seq(w) == seq!['W', 'H', 'E', 'R', 'E'] ==> word_kw(w) == Some(Kw::Where),
        ascii_upper_seq(w) == seq!['G', 'R', 'O', 'U', 'P'] ==> word_kw(w) == Some(Kw::Group),
        ascii_upper_seq(w) == seq!['H', 'A', 'V', 'I', 'N', 'G'] ==> word_kw(w) == Some(Kw::Having),
        ascii_upper_seq(w) == seq!['O', 'R', 'D', 'E', 'R'] ==> word_kw(w) == Some(Kw::Order),
        ascii_upper_seq(w) == seq!['S', 'E', 'L', 'E', 'C', 'T'] ==> word_kw(w) == Some(Kw::Select),
        ascii_upper_seq(w) == seq!['F', 'R', 'O', 'M'] ==> word_kw(w) == Some(Kw::From),
        ascii_upper_seq(w) == seq!['I', 'N', 'S', 'E', 'R', 'T'] ==> word_kw(w) == Some(Kw::Insert),
        ascii_upper_seq(w) == seq!['I', 'N', 'T', 'O'] ==> word_kw(w) == Some(Kw::Into),
        ascii_upper_seq(w) == seq!['C', 'R', 'E', 'A', 'T', 'E'] ==> word_kw(w) == Some(Kw::Create),
        ascii_upper_seq(w) == seq!['S', 'O', 'U', 'R', 'C', 'E'] ==> word_kw(w) == Some(Kw::Source),
        ascii_upper_seq(w) == seq!['S', 'I', 'N', 'K'] ==> word_kw(w) == Some(Kw::Sink),
        ascii_upper_seq(w) == seq!['W', 'I', 'T', 'H'] ==> word_kw(w) == Some(Kw::With),
        w == seq!['t', 'r', 'u', 'e'] ==> word_kw(w) == Some(Kw::True),
        w == seq!['f', 'a', 'l', 's', 'e'] ==> word_kw(w) == Some(Kw::False),
{
    let u = ascii_upper_seq(w);
    if w == seq!['t', 'r', 'u', 'e'] || w == seq!['f', 'a', 'l', 's', 'e'] {
    } else {
        assert(word_kw(w) == upper_kw(u));
        if u == seq!['I', 'S'] {
            assert(u.len() == 2 && u[0] == 'I' && u[1] == 'S');
        }
        if u == seq!['N', 'U', 'L', 'L'] {
            assert(u.len() == 4 && u[0] == 'N' && u[1] == 'U' && u[2] == 'L' && u[3] == 'L');
        }
        if u == seq!['N', 'O', 'T'] {
            assert(u.len() == 3 && u[0] == 'N' && u[1] == 'O' && u[2] == 'T');
        }
        if u == seq!['A', 'N', 'D'] {
            assert(u.len() == 3 && u[0] == 'A' && u[1] == 'N' && u[2] == 'D');
        }
        if u == seq!['O', 'R'] {
            assert(u.len() == 2 && u[0] == 'O' && u[1] == 'R');
        }
        if u == seq!['I', 'N', 'N', 'E', 'R'] {
            assert(u.len() == 5 && u[0] == 'I' && u[1] == 'N' && u[2] == 'N' && u[3] == 'E' && u[4] == 'R');
        }
        if u == seq!['L', 'E', 'F', 'T'] {
            assert(u.len() == 4 && u[0] == 'L' && u[1] == 'E' && u[2] == 'F' && u[3] == 'T');
        }
        if u == seq!['O', 'U', 'T', 'E', 'R'] {
            assert(u.len() == 5 && u[0] == 'O' && u[1] == 'U' && u[2] == 'T' && u[3] == 'E' && u[4] == 'R');
        }
        if u == seq!['J', 'O', 'I', 'N'] {
            assert(u.len() == 4 && u[0] == 'J' && u[1] == 'O' && u[2] == 'I' && u[3] == 'N');
        }
        if u == seq!['A', 'S', 'C'] {
            assert(u.len() == 3 && u[0] == 'A' && u[1] == 'S' && u[2] == 'C');
        }
        if u == seq!['D', 'E', 'S', 'C'] {
            assert(u.len() == 4 && u[0] == 'D' && u[1] == 'E' && u[2] == 'S' && u[3] == 'C');
        }
        if u == seq!['L', 'I', 'M', 'I', 'T'] {
            assert(u.len() == 5 && u[0] == 'L' && u[1] == 'I' && u[2] == 'M' && u[3] == 'I' && u[4] == 'T');
        }
        if u == seq!['O', 'F', 'F', 'S', 'E', 'T'] {
            assert(u.len() == 6 && u[0] == 'O' && u[1] == 'F' && u[2] == 'F' && u[3] == 'S' && u[4] == 'E' && u[5] == 'T');
        }
        if u == seq!['D', 'I', 'S', 'T', 'I', 'N', 'C', 'T'] {
            assert(u.len() == 8 && u[0] == 'D' && u[1] == 'I' && u[2] == 'S' && u[3] == 'T' && u[4] == 'I' && u[5] == 'N' && u[6] == 'C' && u[7] == 'T');
        }
        if u == seq!['E', 'X', 'I', 'S', 'T', 'S'] {
            assert(u.len() == 6 && u[0] == 'E' && u[1] == 'X' && u[2] == 'I' && u[3] == 'S' && u[4] == 'T' && u[5] == 'S');
        }
        if u == seq!['I', 'N'] {
            assert(u.len() == 2 && u[0] == 'I' && u[1] == 'N');
        }
        if u == seq!['N', 'U', 'L', 'L', 'S'] {
            assert(u.len() == 5 && u[0] == 'N' && u[1] == 'U' && u[2] == 'L' && u[3] == 'L' && u[4] == 'S');
        }
        if u == seq!['F', 'I', 'R', 'S', 'T'] {
            assert(u.len() == 5 && u[0] == 'F' && u[1] == 'I' && u[2] == 'R' && u[3] == 'S' && u[4] == 'T');
        }
        if u == seq!['L', 'A', 'S', 'T'] {
            assert(u.len() == 4 && u[0] == 'L' && u[1] == 'A' && u[2] == 'S' && u[3] == 'T');
        }
        if u == seq!['W', 'H', 'E', 'R', 'E'] {
            assert(u.len() == 5 && u[0] == 'W' && u[1] == 'H' && u[2] == 'E' && u[3] == 'R' && u[4] == 'E');
        }
        if u == seq!['G', 'R', 'O', 'U', 'P'] {
            assert(u.len() == 5 && u[0] == 'G' && u[1] == 'R' && u[2] == 'O' && u[3] == 'U' && u[4] == 'P');
        }
        if u == seq!['H', 'A', 'V', 'I', 'N', 'G'] {
            assert(u.len() == 6 && u[0] == 'H' && u[1] == 'A' && u[2] == 'V' && u[3] == 'I' && u[4] == 'N' && u[5] == 'G');
        }
        if u == seq!['O', 'R', 'D', 'E', 'R'] {
            assert(u.len() == 5 && u[0] == 'O' && u[1] == 'R' && u[2] == 'D' && u[3] == 'E' && u[4] == 'R');
        }
        if u == seq!['S', 'E', 'L', 'E', 'C', 'T'] {
            assert(u.len() == 6 && u[0] == 'S' && u[1] == 'E' && u[2] == 'L' && u[3] == 'E' && u[4] == 'C' && u[5] == 'T');
        }
        if u == seq!['F', 'R', 'O', 'M'] {
            assert(u.len() == 4 && u[0] == 'F' && u[1] == 'R' && u[2] == 'O' && u[3] == 'M');
        }
        if u == seq!['I', 'N', 'S', 'E', 'R', 'T'] {
            assert(u.len() == 6 && u[0] == 'I' && u[1] == 'N' && u[2] == 'S' && u[3] == 'E' && u[4] == 'R' && u[5] == 'T');
        }
        if u == seq!['I', 'N', 'T', 'O'] {
            assert(u.len() == 4 && u[0] == 'I' && u[1] == 'N' && u[2] == 'T' && u[3] == 'O');
        }
        if u == seq!['C', 'R', 'E', 'A', 'T', 'E'] {
            assert(u.len() == 6 && u[0] == 'C' && u[1] == 'R' && u[2] == 'E' && u[3] == 'A' && u[4] == 'T' && u[5] == 'E');
        }
        if u == seq!['S', 'O', 'U', 'R', 'C', 'E'] {
            assert(u.len() == 6 && u[0] == 'S' && u[1] == 'O' && u[2] == 'U' && u[3] == 'R' && u[4] == 'C' && u[5] == 'E');
        }
        if u == seq!['S', 'I', 'N', 'K'] {
            assert(u.len() == 4 && u[0] == 'S' && u[1] == 'I' && u[2] == 'N' && u[3] == 'K');
        }
        if u == seq!['W', 'I', 'T', 'H'] {
            assert(u.len() == 4 && u[0] == 'W' && u[1] == 'I' && u[2] == 'T' && u[3] == 'H');
        }
    }
}

} // verus!
