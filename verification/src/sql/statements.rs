//! Statements and whole programs: `CREATE SOURCE`, `CREATE SINK`,
//! `INSERT INTO ... SELECT` and the program they form.
use crate::ir::{
    fields_view, lemma_fields_view_push, lemma_options_view_index, lemma_options_view_push,
    lemma_pipelines_view_push, lemma_sinks_view_push, lemma_sources_view_push,
    lemma_strs_view_push, options_view, strs_view, ConnectorConfig, ConnectorOption, FieldDef,
    OptionValue, Pipeline, Program, SinkDef, SourceDef, SpecConnectorOption, SpecFieldDef,
    SpecOptionValue,
};
use crate::sql::grammar::{
    collect, connector_type_of, connector_word, definition, field_def, field_defs_rest,
    first_option, has_query, names_rest, opt_name_list, opt_with, option_pair,
    option_pairs_rest, option_value_at, spec_parse_sql, statement, statements, unknown_word,
    ParseError, SpecStatement,
};
use crate::sql::lexer::{Kw, Sym, Token};
use crate::sql::parser::select_body_x;
use crate::sql::tokens::{
    bool_x, data_type_x, ident_x, kw_x, number_x, string_x, sym_x, tv, word_kw_x,
};
use crate::sql::lexer::tokenize;
use crate::text::{str_chars, str_eq};
use vstd::prelude::*;

verus! {

/// A parsed statement; a bare query keeps no value.
pub enum Statement {
    Query,
    CreateSource(SourceDef),
    CreateSink(SinkDef),
    InsertInto(Pipeline),
}

impl View for Statement {
    type V = SpecStatement;

    open spec fn view(&self) -> SpecStatement {
        match self {
            Statement::Query => SpecStatement::Query,
            Statement::CreateSource(d) => SpecStatement::CreateSource(d@),
            Statement::CreateSink(d) => SpecStatement::CreateSink(d@),
            Statement::InsertInto(d) => SpecStatement::InsertInto(d@),
        }
    }
}

/// `name type`
pub fn field_def_x(t: &Vec<Token>, p: usize) -> (r: Option<(FieldDef, usize)>)
    requires
        p <= t.len(),
    ensures
        match r {
            Some((f, q)) => field_def(tv(t), p as int) == Some((f@, q as int)) && p < q <= t.len(),
            None => field_def(tv(t), p as int) is None,
        },
{
    let name = match ident_x(t, p) {
        Some(n) => n,
        None => {
            return None;
        },
    };
    match data_type_x(word_kw_x(t, p + 1)) {
        Some(d) => Some((FieldDef { name, data_type: d }, p + 2)),
        None => None,
    }
}

/// `field ("," field)*` after a first field.
fn field_defs_x(t: &Vec<Token>, p: usize) -> (r: Option<(Vec<FieldDef>, usize)>)
    requires
        p <= t.len(),
    ensures
        match r {
            Some((v, q)) => match field_def(tv(t), p as int) {
                Some((f, q0)) => field_defs_rest(tv(t), q0, seq![f]) == Some(
                    (fields_view(v@), q as int),
                ) && p < q <= t.len(),
                None => false,
            },
            None => field_def(tv(t), p as int) is None,
        },
{
    let (f, q0) = match field_def_x(t, p) {
        Some(x) => x,
        None => {
            return None;
        },
    };
    let mut acc: Vec<FieldDef> = Vec::new();
    proof {
        lemma_fields_view_push(acc@, f);
    }
    acc.push(f);
    assert(fields_view(acc@) =~= seq![f@]);
    let ghost target = field_defs_rest(tv(t), q0 as int, fields_view(acc@));
    let ghost first = fields_view(acc@)[0];
    assert(field_def(tv(t), p as int) == Some((first, q0 as int)));
    let mut q = q0;
    loop
        invariant
            p < q <= t.len(),
            field_def(tv(t), p as int) == Some((first, q0 as int)),
            target == field_defs_rest(tv(t), q0 as int, seq![first]),
            field_defs_rest(tv(t), q as int, fields_view(acc@)) == target,
        decreases t.len() - q,
    {
        if !sym_x(t, q, Sym::Comma) {
            return Some((acc, q));
        }
        match field_def_x(t, q + 1) {
            Some((f2, r)) => {
                proof {
                    lemma_fields_view_push(acc@, f2);
                }
                acc.push(f2);
                q = r;
            },
            None => {
                return Some((acc, q));
            },
        }
    }
}

/// `string | number | boolean | name`
fn option_value_x(t: &Vec<Token>, p: usize) -> (r: Option<OptionValue>)
    ensures
        match r {
            Some(v) => option_value_at(tv(t), p as int) == Some(v@),
            None => option_value_at(tv(t), p as int) is None,
        },
{
    if let Some(s) = string_x(t, p) {
        return Some(OptionValue::String(s));
    }
    if let Some(s) = number_x(t, p) {
        return Some(OptionValue::Number(s));
    }
    if let Some(b) = bool_x(t, p) {
        return Some(OptionValue::Boolean(b));
    }
    match ident_x(t, p) {
        Some(n) => Some(OptionValue::Variable(n)),
        None => None,
    }
}

/// `name "=" value`
fn option_pair_x(t: &Vec<Token>, p: usize) -> (r: Option<(ConnectorOption, usize)>)
    requires
        p <= t.len(),
    ensures
        match r {
            Some((o, q)) => option_pair(tv(t), p as int) == Some((o@, q as int)) && p < q
                <= t.len(),
            None => option_pair(tv(t), p as int) is None,
        },
{
    let key = match ident_x(t, p) {
        Some(k) => k,
        None => {
            return None;
        },
    };
    if !sym_x(t, p + 1, Sym::Eq) {
        return None;
    }
    match option_value_x(t, p + 2) {
        Some(v) => Some((ConnectorOption { key, value: v }, p + 3)),
        None => None,
    }
}

/// `WITH "(" option ("," option)* ")"`, if present.
fn opt_with_x(t: &Vec<Token>, p: usize) -> (r: Option<(Vec<ConnectorOption>, usize)>)
    requires
        p <= t.len(),
    ensures
        match r {
            Some((v, q)) => opt_with(tv(t), p as int) == Some((options_view(v@), q as int)) && p
                <= q <= t.len(),
            None => opt_with(tv(t), p as int) is None,
        },
{
    if !kw_x(t, p, Kw::With) {
        let v: Vec<ConnectorOption> = Vec::new();
        assert(options_view(v@) =~= Seq::<SpecConnectorOption>::empty());
        return Some((v, p));
    }
    if !sym_x(t, p + 1, Sym::LParen) {
        return None;
    }
    let (o, q0) = match option_pair_x(t, p + 2) {
        Some(x) => x,
        None => {
            return None;
        },
    };
    let mut acc: Vec<ConnectorOption> = Vec::new();
    proof {
        lemma_options_view_push(acc@, o);
    }
    acc.push(o);
    assert(options_view(acc@) =~= seq![o@]);
    let ghost target = option_pairs_rest(tv(t), q0 as int, options_view(acc@));
    let mut q = q0;
    loop
        invariant
            p < q <= t.len(),
            option_pairs_rest(tv(t), q as int, options_view(acc@)) == target,
            opt_with(tv(t), p as int) == match target {
                Some((opts, r)) => if crate::sql::grammar::sym_at(tv(t), r, Sym::RParen) {
                    Some((opts, r + 1))
                } else {
                    None
                },
                None => None,
            },
        decreases t.len() - q,
    {
        if sym_x(t, q, Sym::Comma) {
            if let Some((o2, r)) = option_pair_x(t, q + 1) {
                proof {
                    lemma_options_view_push(acc@, o2);
                }
                acc.push(o2);
                q = r;
                continue;
            }
        }
        if sym_x(t, q, Sym::RParen) {
            return Some((acc, q + 1));
        }
        return None;
    }
}

/// The connector type named by the options: the string value of the first
/// `connector` option, or `unknown`.
pub fn connector_type_x(opts: &Vec<ConnectorOption>) -> (r: String)
    ensures
        r@ == connector_type_of(options_view(opts@)),
{
    let ghost ov = options_view(opts@);
    proof {
        lemma_options_view_index(opts@);
        reveal_strlit("connector");
        reveal_strlit("unknown");
    }
    assert("connector"@ =~= connector_word());
    assert("unknown"@ =~= unknown_word());
    let mut i: usize = 0;
    while i < opts.len()
        invariant
            i <= opts.len(),
            ov == options_view(opts@),
            ov.len() == opts@.len(),
            "connector"@ == connector_word(),
            "unknown"@ == unknown_word(),
            forall|k: int| 0 <= k < opts@.len() ==> #[trigger] ov[k] == opts@[k]@,
            forall|j: int| 0 <= j < i ==> ov[j].key != connector_word(),
        decreases opts.len() - i,
    {
        let found = str_eq(opts[i].key.as_str(), "connector");
        assert(ov[i as int] == opts@[i as int]@);
        assert(found == (opts@[i as int].key@ == connector_word()));
        if found {
            assert(ov[i as int].key == connector_word());
            assert(first_option(ov, connector_word()) == Some(i as int)) by {
                let k = choose|k: int|
                    0 <= k < ov.len() && ov[k].key == connector_word() && forall|j: int|
                        0 <= j < k ==> ov[j].key != connector_word();
                assert(0 <= k < ov.len() && ov[k].key == connector_word() && forall|j: int|
                    0 <= j < k ==> ov[j].key != connector_word()) by {
                    assert(forall|j: int| 0 <= j < i ==> ov[j].key != connector_word());
                }
                if k < i {
                } else if k > i {
                    assert(ov[i as int].key != connector_word());
                }
            }
            return match &opts[i].value {
                OptionValue::String(s) => s.clone(),
                _ => "unknown".to_owned(),
            };
        }
        i = i + 1;
    }
    assert(first_option(ov, connector_word()) is None);
    "unknown".to_owned()
}

/// `name "(" field ("," field)* ")" with?`
fn definition_x(t: &Vec<Token>, p: usize) -> (r: Option<
    (String, Vec<FieldDef>, Vec<ConnectorOption>, usize),
>)
    requires
        p <= t.len(),
    ensures
        match r {
            Some((n, f, o, q)) => definition(tv(t), p as int) == Some(
                ((n@, fields_view(f@), options_view(o@)), q as int),
            ) && p < q <= t.len(),
            None => definition(tv(t), p as int) is None,
        },
{
    let name = match ident_x(t, p) {
        Some(n) => n,
        None => {
            return None;
        },
    };
    if !sym_x(t, p + 1, Sym::LParen) {
        return None;
    }
    let (fields, r) = match field_defs_x(t, p + 2) {
        Some(x) => x,
        None => {
            return None;
        },
    };
    if !sym_x(t, r, Sym::RParen) {
        return None;
    }
    match opt_with_x(t, r + 1) {
        Some((opts, s)) => Some((name, fields, opts, s)),
        None => None,
    }
}

/// `("(" name ("," name)* ")")?`
fn opt_name_list_x(t: &Vec<Token>, p: usize) -> (r: Option<(Vec<String>, usize)>)
    requires
        p <= t.len(),
    ensures
        match r {
            Some((v, q)) => opt_name_list(tv(t), p as int) == Some((strs_view(v@), q as int))
                && p <= q <= t.len(),
            None => opt_name_list(tv(t), p as int) is None,
        },
{
    if !sym_x(t, p, Sym::LParen) {
        let v: Vec<String> = Vec::new();
        assert(strs_view(v@) =~= Seq::<Seq<char>>::empty());
        return Some((v, p));
    }
    let n = match ident_x(t, p + 1) {
        Some(n) => n,
        None => {
            return None;
        },
    };
    let mut acc: Vec<String> = Vec::new();
    proof {
        lemma_strs_view_push(acc@, n);
    }
    acc.push(n);
    assert(strs_view(acc@) =~= seq![n@]);
    let ghost target = names_rest(tv(t), p + 2, strs_view(acc@));
    let mut q = p + 2;
    loop
        invariant
            p < q <= t.len(),
            names_rest(tv(t), q as int, strs_view(acc@)) == target,
            opt_name_list(tv(t), p as int) == match target {
                Some((names, r)) => if crate::sql::grammar::sym_at(tv(t), r, Sym::RParen) {
                    Some((names, r + 1))
                } else {
                    None
                },
                None => None,
            },
        decreases t.len() - q,
    {
        if sym_x(t, q, Sym::Comma) {
            if let Some(n2) = ident_x(t, q + 1) {
                proof {
                    lemma_strs_view_push(acc@, n2);
                }
                acc.push(n2);
                q = q + 2;
                continue;
            }
        }
        if sym_x(t, q, Sym::RParen) {
            return Some((acc, q + 1));
        }
        return None;
    }
}

/// One statement.
pub fn statement_x(t: &Vec<Token>, p: usize) -> (r: Option<(Statement, usize)>)
    requires
        p <= t.len(),
    ensures
        match r {
            Some((s, q)) => statement(tv(t), p as int) == Some((s@, q as int)) && p < q
                <= t.len(),
            None => statement(tv(t), p as int) is None,
        },
{
    if kw_x(t, p, Kw::Select) {
        return match select_body_x(t, p) {
            Some((_, q)) => Some((Statement::Query, q)),
            None => None,
        };
    }
    if kw_x(t, p, Kw::Create) && kw_x(t, p + 1, Kw::Source) {
        return match definition_x(t, p + 2) {
            Some((name, fields, opts, q)) => {
                let ct = connector_type_x(&opts);
                Some(
                    (
                        Statement::CreateSource(
                            SourceDef {
                                name,
                                schema: fields,
                                connector: ConnectorConfig { connector_type: ct, options: opts },
                            },
                        ),
                        q,
                    ),
                )
            },
            None => None,
        };
    }
    if kw_x(t, p, Kw::Create) && kw_x(t, p + 1, Kw::Sink) {
        return match definition_x(t, p + 2) {
            Some((name, fields, opts, q)) => {
                let ct = connector_type_x(&opts);
                Some(
                    (
                        Statement::CreateSink(
                            SinkDef {
                                name,
                                schema: fields,
                                connector: ConnectorConfig { connector_type: ct, options: opts },
                            },
                        ),
                        q,
                    ),
                )
            },
            None => None,
        };
    }
    if kw_x(t, p, Kw::Insert) && kw_x(t, p + 1, Kw::Into) {
        let sink = match ident_x(t, p + 2) {
            Some(n) => n,
            None => {
                return None;
            },
        };
        let (cols, q) = match opt_name_list_x(t, p + 3) {
            Some(x) => x,
            None => {
                return None;
            },
        };
        return match select_body_x(t, q) {
            Some((plan, r)) => Some(
                (Statement::InsertInto(Pipeline { sink_name: sink, sink_columns: cols, plan }), r),
            ),
            None => None,
        };
    }
    None
}

/// The program of a token sequence (see `statements`, `has_query`, `collect`).
fn program_x(t: &Vec<Token>) -> (r: Result<Program, ParseError>)
    ensures
        match statements(tv(t), 0, Seq::empty()) {
            None => r == Err::<Program, ParseError>(ParseError::Syntax),
            Some(stmts) => if has_query(stmts) {
                r == Err::<Program, ParseError>(ParseError::StandaloneQuery)
            } else {
                r matches Ok(prog) && prog@ == collect(stmts)
            },
        },
{
    let mut prog = Program::new();
    let mut saw_query = false;
    let ghost mut acc: Seq<SpecStatement> = Seq::empty();
    let ghost target = statements(tv(t), 0, Seq::empty());
    proof {
        assert(prog.sources@ =~= Seq::<SourceDef>::empty());
        assert(prog.sinks@ =~= Seq::<SinkDef>::empty());
        assert(prog.pipelines@ =~= Seq::<Pipeline>::empty());
    }
    let mut p: usize = 0;
    while p < t.len()
        invariant
            p <= t.len(),
            statements(tv(t), p as int, acc) == target,
            target == statements(tv(t), 0, Seq::empty()),
            prog@ == collect(acc),
            saw_query == has_query(acc),
        decreases t.len() - p,
    {
        let (s, q) = match statement_x(t, p) {
            Some(x) => x,
            None => {
                return Err(ParseError::Syntax);
            },
        };
        let next = if sym_x(t, q, Sym::Semi) {
            q + 1
        } else if q == t.len() {
            q
        } else {
            return Err(ParseError::Syntax);
        };
        let ghost old_acc = acc;
        proof {
            acc = acc.push(s@);
            assert(acc.drop_last() =~= old_acc);
            assert(acc.last() == s@);
        }
        match s {
            Statement::Query => {
                saw_query = true;
                assert(has_query(acc)) by {
                    assert(acc[acc.len() - 1] is Query);
                }
            },
            Statement::CreateSource(d) => {
                proof {
                    lemma_sources_view_push(prog.sources@, d);
                }
                prog.add_source(d);
                proof {
                    lemma_has_query_push(old_acc, acc.last());
                }
            },
            Statement::CreateSink(d) => {
                proof {
                    lemma_sinks_view_push(prog.sinks@, d);
                }
                prog.add_sink(d);
                proof {
                    lemma_has_query_push(old_acc, acc.last());
                }
            },
            Statement::InsertInto(d) => {
                proof {
                    lemma_pipelines_view_push(prog.pipelines@, d);
                }
                prog.add_pipeline(d);
                proof {
                    lemma_has_query_push(old_acc, acc.last());
                }
            },
        }
        p = next;
    }
    if saw_query {
        Err(ParseError::StandaloneQuery)
    } else {
        Ok(prog)
    }
}

/// Appending a statement that is not a query keeps `has_query`.
proof fn lemma_has_query_push(s: Seq<SpecStatement>, x: SpecStatement)
    requires
        !(x is Query),
    ensures
        has_query(s.push(x)) == has_query(s),
{
    if has_query(s) {
        let i = choose|i: int| 0 <= i < s.len() && s[i] is Query;
        assert(s.push(x)[i] is Query);
    }
    if has_query(s.push(x)) {
        let i = choose|i: int| 0 <= i < s.push(x).len() && s.push(x)[i] is Query;
        assert(i < s.len());
        assert(s[i] is Query);
    }
}

/// Parses a program: source and sink definitions and `INSERT INTO` pipelines,
/// separated by `;`.
///
/// Fails with `Syntax` exactly when the text is not a program of the grammar,
/// and otherwise with `StandaloneQuery` exactly when one of its statements is
/// a bare `SELECT`. On success the program holds the definitions and
/// pipelines in the order they were written.
pub fn parse_sql(input: &str) -> (r: Result<Program, ParseError>)
    ensures
        match spec_parse_sql(input@) {
            Ok(prog) => r matches Ok(p) && p@ == prog,
            Err(e) => r == Err::<Program, ParseError>(e),
        },
{
    let chars = str_chars(input);
    match tokenize(&chars) {
        Some(t) => program_x(&t),
        None => Err(ParseError::Syntax),
    }
}

/// The SQL parser of the dialect.
pub struct SqlParser;

impl SqlParser {
    /// Parses a program; the same as `parse_sql`.
    pub fn parse(input: &str) -> (r: Result<Program, ParseError>)
        ensures
            match spec_parse_sql(input@) {
                Ok(prog) => r matches Ok(p) && p@ == prog,
                Err(e) => r == Err::<Program, ParseError>(e),
            },
    {
        parse_sql(input)
    }
}

} // verus!
