//! The column names each plan node produces.
use crate::ir::{
    same_node, share_plan, AggregateType, ColumnRef, IrPlan, Program, ProjectionColumn,
    SpecColumnRef, SpecFieldDef, SpecIrPlan, SpecProjectionColumn, SpecSourceDef, sources_view,
    strs_view, lemma_strs_view_push,
};
use crate::text::{nat_text, push_text, str_eq, usize_text};
use std::sync::Arc;
use vstd::prelude::*;

verus! {

/// The field names of a schema.
pub open spec fn field_names(fields: Seq<SpecFieldDef>) -> Seq<Seq<char>> {
    fields.map_values(|f: SpecFieldDef| f.name)
}

/// Each source's name and column names, in program order.
pub open spec fn source_columns(sources: Seq<SpecSourceDef>) -> Seq<(Seq<char>, Seq<Seq<char>>)> {
    sources.map_values(|s: SpecSourceDef| (s.name, field_names(s.schema)))
}

/// The columns of the last source named `name`: a later definition of a
/// name replaces an earlier one.
pub open spec fn columns_of(srcs: Seq<(Seq<char>, Seq<Seq<char>>)>, name: Seq<char>) -> Option<
    Seq<Seq<char>>,
>
    decreases srcs.len(),
{
    if srcs.len() == 0 {
        None
    } else if srcs.last().0 == name {
        Some(srcs.last().1)
    } else {
        columns_of(srcs.drop_last(), name)
    }
}

/// `prefix` followed by the decimal text of `i`.
pub open spec fn numbered(prefix: Seq<char>, i: int) -> Seq<char> {
    prefix + nat_text(i as nat)
}

/// The name of the `i`-th projected column: its alias, else the column's or
/// vector's name, else a name made of its kind and position.
pub open spec fn projection_name(p: SpecProjectionColumn, i: int) -> Seq<char> {
    match p {
        SpecProjectionColumn::Column(c, a) => match a {
            Some(x) => x,
            None => c.column,
        },
        SpecProjectionColumn::Aggregate(_, a) => match a {
            Some(x) => x,
            None => numbered(seq!['a', 'g', 'g', '_'], i),
        },
        SpecProjectionColumn::ComplexValue(_, a) => match a {
            Some(x) => x,
            None => numbered(seq!['e', 'x', 'p', 'r', '_'], i),
        },
        SpecProjectionColumn::StringLiteral(_, a) => match a {
            Some(x) => x,
            None => numbered(seq!['l', 'i', 't', 'e', 'r', 'a', 'l', '_'], i),
        },
        SpecProjectionColumn::Subquery(_, a) => match a {
            Some(x) => x,
            None => numbered(seq!['s', 'u', 'b', 'q', 'u', 'e', 'r', 'y', '_'], i),
        },
        SpecProjectionColumn::SubqueryVec(n, a) => match a {
            Some(x) => x,
            None => n,
        },
    }
}

/// The name of an aggregate kind as its variant is written.
pub open spec fn aggregate_variant(a: AggregateType) -> Seq<char> {
    match a {
        AggregateType::Max => seq!['M', 'a', 'x'],
        AggregateType::Min => seq!['M', 'i', 'n'],
        AggregateType::Avg => seq!['A', 'v', 'g'],
        AggregateType::Count => seq!['C', 'o', 'u', 'n', 't'],
        AggregateType::Sum => seq!['S', 'u', 'm'],
    }
}

/// The name of the `i`-th column a grouping computes: an aggregate's alias,
/// else `Kind_i`; any other column is `col_i`.
pub open spec fn group_column_name(p: SpecProjectionColumn, i: int) -> Seq<char> {
    match p {
        SpecProjectionColumn::Aggregate(g, a) => match a {
            Some(x) => x,
            None => numbered(aggregate_variant(g.function) + seq!['_'], i),
        },
        _ => numbered(seq!['c', 'o', 'l', '_'], i),
    }
}

/// The column names a plan produces over sources with the given columns:
/// a source its columns (none when unknown); a filter, limit, distinct,
/// ordering or flat map those of its input; a projection one per projected
/// column; a join the left side's then the right side's; a grouping its
/// keys' columns then one per computed column.
pub open spec fn schema_of(srcs: Seq<(Seq<char>, Seq<Seq<char>>)>, plan: SpecIrPlan) -> Seq<
    Seq<char>,
>
    decreases plan,
{
    match plan {
        SpecIrPlan::Source { source_name, .. } => match columns_of(srcs, source_name) {
            Some(c) => c,
            None => Seq::empty(),
        },
        SpecIrPlan::Filter { input, .. } => schema_of(srcs, *input),
        SpecIrPlan::Limit { input, .. } => schema_of(srcs, *input),
        SpecIrPlan::Distinct { input } => schema_of(srcs, *input),
        SpecIrPlan::OrderBy { input, .. } => schema_of(srcs, *input),
        SpecIrPlan::FlatMap { input, .. } => schema_of(srcs, *input),
        SpecIrPlan::Mapping { projections, .. } => Seq::new(
            projections.len(),
            |i: int| projection_name(projections[i], i),
        ),
        SpecIrPlan::Join { left, right, .. } => schema_of(srcs, *left) + schema_of(srcs, *right),
        SpecIrPlan::GroupBy { keys, aggregations, .. } => keys.map_values(
            |k: SpecColumnRef| k.column,
        ) + Seq::new(aggregations.len(), |i: int| group_column_name(aggregations[i], i)),
    }
}

/// Tracks column positions and schemas throughout query execution
#[derive(Debug, Clone)]
pub struct SchemaTracker {
    /// Each source's name and column names, in program order.
    source_schemas: Vec<(String, Vec<String>)>,
    /// Schemas already computed, by plan node.
    node_schemas: Vec<(Arc<IrPlan>, Vec<String>)>,
}

impl View for SchemaTracker {
    type V = Seq<(Seq<char>, Seq<Seq<char>>)>;

    /// The sources' names and column names.
    closed spec fn view(&self) -> Seq<(Seq<char>, Seq<Seq<char>>)> {
        self.source_schemas@.map_values(|e: (String, Vec<String>)| (e.0@, strs_view(e.1@)))
    }
}

impl SchemaTracker {
    /// Every schema kept is the schema of its node.
    pub closed spec fn wf(&self) -> bool {
        forall|k: int|
            0 <= k < self.node_schemas.len() ==> strs_view((#[trigger] self.node_schemas@[k]).1@)
                == schema_of(self@, self.node_schemas@[k].0@)
    }

    /// A tracker of the program's sources.
    pub fn new(program: &Program) -> (t: Self)
        ensures
            t.wf(),
            t@ == source_columns(sources_view(program.sources@)),
    {
        let mut source_schemas: Vec<(String, Vec<String>)> = Vec::new();
        let mut i: usize = 0;
        proof {
            crate::ir::lemma_sources_view_index(program.sources@);
        }
        while i < program.sources.len()
            invariant
                i <= program.sources.len(),
                sources_view(program.sources@).len() == program.sources.len(),
                forall|k: int| 0 <= k < program.sources.len() ==> #[trigger] sources_view(program.sources@)[k] == program.sources@[k]@,
                source_schemas.len() == i,
                forall|k: int|
                    0 <= k < i ==> (#[trigger] source_schemas@[k]).0@ == program.sources@[k].name@
                        && strs_view(source_schemas@[k].1@) == field_names(
                        sources_view(program.sources@)[k].schema,
                    ),
            decreases program.sources.len() - i,
        {
            let source = &program.sources[i];
            let names = schema_names(&source.schema);
            source_schemas.push((source.name.clone(), names));
            i = i + 1;
        }
        let t = SchemaTracker { source_schemas, node_schemas: Vec::new() };
        assert(t@ =~= source_columns(sources_view(program.sources@)));
        t
    }

    /// Get the output schema (column names) for a plan node
    pub fn get_schema(&mut self, plan: &Arc<IrPlan>) -> (r: Vec<String>)
        requires
            old(self).wf(),
        ensures
            final(self).wf(),
            final(self)@ == old(self)@,
            strs_view(r@) == schema_of(old(self)@, plan@),
        decreases **plan, 1nat,
    {
        let mut k: usize = 0;
        while k < self.node_schemas.len()
            invariant
                self.wf(),
                k <= self.node_schemas.len(),
            decreases self.node_schemas.len() - k,
        {
            if same_node(&self.node_schemas[k].0, plan) {
                return copy_strings(&self.node_schemas[k].1);
            }
            k = k + 1;
        }
        let schema = self.compute_schema(plan);
        let ghost sv = self@;
        self.node_schemas.push((share_plan(plan), copy_strings(&schema)));
        assert(self@ == sv);
        proof {
            assert forall|k2: int| 0 <= k2 < self.node_schemas.len() implies strs_view(
                (#[trigger] self.node_schemas@[k2]).1@,
            ) == schema_of(self@, self.node_schemas@[k2].0@) by {}
        }
        schema
    }

    fn compute_schema(&mut self, plan: &Arc<IrPlan>) -> (r: Vec<String>)
        requires
            old(self).wf(),
        ensures
            final(self).wf(),
            final(self)@ == old(self)@,
            strs_view(r@) == schema_of(old(self)@, plan@),
        decreases **plan, 0nat,
    {
        match &**plan {
            IrPlan::Source { source_name, .. } => {
                match self.get_source_columns(source_name.as_str()) {
                    Some(cols) => cols,
                    None => {
                        let v: Vec<String> = Vec::new();
                        assert(strs_view(v@) =~= Seq::<Seq<char>>::empty());
                        v
                    },
                }
            },
            IrPlan::Filter { input, .. } => self.get_schema(input),
            IrPlan::Limit { input, .. } => self.get_schema(input),
            IrPlan::Distinct { input } => self.get_schema(input),
            IrPlan::Mapping { input, projections } => {
                let mut out: Vec<String> = Vec::new();
                let mut i: usize = 0;
                while i < projections.len()
                    invariant
                        i <= projections.len(),
                        strs_view(out@) =~= Seq::new(
                            i as nat,
                            |j: int| projection_name(crate::ir::projection_view(projections@[j]), j),
                        ),
                    decreases projections.len() - i,
                {
                    let name = projection_name_x(&projections[i], i);
                    proof {
                        lemma_strs_view_push(out@, name);
                    }
                    out.push(name);
                    i = i + 1;
                }
                proof {
                    crate::ir::lemma_projections_view_index(projections@);
                }
                out
            },
            IrPlan::Join { left, right, .. } => {
                let mut schema = self.get_schema(left);
                let more = self.get_schema(right);
                append_strings(&mut schema, &more);
                schema
            },
            IrPlan::GroupBy { keys, aggregations, .. } => {
                let mut out: Vec<String> = Vec::new();
                let mut i: usize = 0;
                proof {
                    crate::ir::lemma_columns_view_index(keys@);
                }
                while i < keys.len()
                    invariant
                        i <= keys.len(),
                        crate::ir::columns_view(keys@).len() == keys.len(),
                        forall|j: int| 0 <= j < keys.len() ==> #[trigger] crate::ir::columns_view(keys@)[j] == keys@[j]@,
                        strs_view(out@) =~= crate::ir::columns_view(keys@).take(i as int).map_values(
                            |k: SpecColumnRef| k.column,
                        ),
                    decreases keys.len() - i,
                {
                    let c = keys[i].column.clone();
                    proof {
                        lemma_strs_view_push(out@, c);
                    }
                    out.push(c);
                    i = i + 1;
                }
                let ghost key_part = strs_view(out@);
                let mut j: usize = 0;
                while j < aggregations.len()
                    invariant
                        j <= aggregations.len(),
                        strs_view(out@) =~= key_part + Seq::new(
                            j as nat,
                            |m: int| group_column_name(crate::ir::projection_view(aggregations@[m]), m),
                        ),
                    decreases aggregations.len() - j,
                {
                    let name = group_column_name_x(&aggregations[j], j);
                    proof {
                        lemma_strs_view_push(out@, name);
                    }
                    out.push(name);
                    j = j + 1;
                }
                proof {
                    crate::ir::lemma_projections_view_index(aggregations@);
                    assert(crate::ir::columns_view(keys@).take(keys.len() as int) =~= crate::ir::columns_view(keys@));
                }
                out
            },
            IrPlan::OrderBy { input, .. } => self.get_schema(input),
            IrPlan::FlatMap { input, .. } => self.get_schema(input),
        }
    }

    /// Get the column position for a column reference: the first column
    /// named like it, else, when it names a table, the first column named
    /// `table.column`; `None` if there is neither.
    pub fn get_column_position(&mut self, plan: &Arc<IrPlan>, col_ref: &ColumnRef) -> (r: Option<
        usize,
    >)
        requires
            old(self).wf(),
        ensures
            final(self).wf(),
            final(self)@ == old(self)@,
            r == position_of(schema_of(old(self)@, plan@), col_ref@),
    {
        let schema = self.get_schema(plan);
        proof {
            crate::ir::lemma_strs_view_index(schema@);
        }
        match first_index(&schema, col_ref.column.as_str()) {
            Some(i) => Some(i),
            None => match &col_ref.table {
                Some(table) => {
                    let mut qualified = String::new();
                    push_text(&mut qualified, table.as_str());
                    proof {
                        reveal_strlit(".");
                    }
                    push_text(&mut qualified, ".");
                    push_text(&mut qualified, col_ref.column.as_str());
                    assert(qualified@ =~= table@ + seq!['.'] + col_ref.column@);
                    first_index(&schema, qualified.as_str())
                },
                None => None,
            },
        }
    }

    /// Get all column names for a source
    pub fn get_source_columns(&self, source_name: &str) -> (r: Option<Vec<String>>)
        ensures
            match r {
                Some(v) => columns_of(self@, source_name@) == Some(strs_view(v@)),
                None => columns_of(self@, source_name@) is None,
            },
    {
        let mut k = self.source_schemas.len();
        assert(self@.take(k as int) =~= self@);
        while k > 0
            invariant
                k <= self.source_schemas.len(),
                columns_of(self@, source_name@) == columns_of(self@.take(k as int), source_name@),
            decreases k,
        {
            assert(self@.take(k as int).drop_last() =~= self@.take(k - 1));
            if str_eq(self.source_schemas[k - 1].0.as_str(), source_name) {
                return Some(copy_strings(&self.source_schemas[k - 1].1));
            }
            k = k - 1;
        }
        None
    }
}

/// The first position of `x` in `s`.
pub open spec fn first_of(s: Seq<Seq<char>>, x: Seq<char>) -> Option<usize> {
    if s.contains(x) {
        Some(choose|i: usize| i < s.len() && s[i as int] == x && forall|j: int| 0 <= j < i ==> s[j] != x)
    } else {
        None
    }
}

/// Where a column reference points in a schema: the first column with its
/// name, else, with a table, the first column named `table.column`.
pub open spec fn position_of(s: Seq<Seq<char>>, c: SpecColumnRef) -> Option<usize> {
    match first_of(s, c.column) {
        Some(i) => Some(i),
        None => match c.table {
            Some(t) => first_of(s, t + seq!['.'] + c.column),
            None => None,
        },
    }
}

/// Filtering, limiting, removing duplicates, ordering and flat-mapping pass
/// rows through: each keeps its input's columns.
pub proof fn lemma_pass_through_keeps_schema(
    srcs: Seq<(Seq<char>, Seq<Seq<char>>)>,
    input: SpecIrPlan,
    predicate: crate::ir::SpecFilterClause,
    limit: i64,
    offset: Option<i64>,
    items: Seq<crate::ir::SpecOrderByItem>,
    projection: SpecProjectionColumn,
)
    ensures
        schema_of(srcs, SpecIrPlan::Filter { input: Box::new(input), predicate }) == schema_of(
            srcs,
            input,
        ),
        schema_of(srcs, SpecIrPlan::Limit { input: Box::new(input), limit, offset }) == schema_of(
            srcs,
            input,
        ),
        schema_of(srcs, SpecIrPlan::Distinct { input: Box::new(input) }) == schema_of(srcs, input),
        schema_of(srcs, SpecIrPlan::OrderBy { input: Box::new(input), items }) == schema_of(
            srcs,
            input,
        ),
        schema_of(srcs, SpecIrPlan::FlatMap { input: Box::new(input), projection }) == schema_of(
            srcs,
            input,
        ),
{
}

/// A join's columns are its left side's followed by its right side's.
pub proof fn lemma_join_concatenates_schemas(
    srcs: Seq<(Seq<char>, Seq<Seq<char>>)>,
    left: SpecIrPlan,
    right: SpecIrPlan,
    condition: Seq<crate::ir::SpecJoinCondition>,
    join_type: crate::ir::JoinType,
)
    ensures
        schema_of(
            srcs,
            SpecIrPlan::Join { left: Box::new(left), right: Box::new(right), condition, join_type },
        ) == schema_of(srcs, left) + schema_of(srcs, right),
        schema_of(
            srcs,
            SpecIrPlan::Join { left: Box::new(left), right: Box::new(right), condition, join_type },
        ).len() == schema_of(srcs, left).len() + schema_of(srcs, right).len(),
{
}

/// A position found for a column reference holds a column with its name,
/// or its `table.column` name, and no earlier column has that name; when no
/// position is found, no column has the name.
pub proof fn lemma_position_names_the_column(s: Seq<Seq<char>>, c: SpecColumnRef)
    requires
        s.len() <= usize::MAX,
    ensures
        match position_of(s, c) {
            Some(i) => i < s.len() && (s[i as int] == c.column || (c.table matches Some(t) && s[i as int]
                == t + seq!['.'] + c.column && !s.contains(c.column))),
            None => !s.contains(c.column),
        },
{
    if s.contains(c.column) {
        let k = choose|k: int| 0 <= k < s.len() && s[k] == c.column;
        lemma_first_exists(s, c.column, k);
    } else if c.table is Some {
        let q = c.table->0 + seq!['.'] + c.column;
        if s.contains(q) {
            let k = choose|k: int| 0 <= k < s.len() && s[k] == q;
            lemma_first_exists(s, q, k);
        }
    }
}

/// When `x` occurs in `s`, `first_of` finds its first occurrence.
proof fn lemma_first_exists(s: Seq<Seq<char>>, x: Seq<char>, k: int)
    requires
        s.len() <= usize::MAX,
        0 <= k < s.len(),
        s[k] == x,
    ensures
        first_of(s, x) matches Some(i) && i < s.len() && s[i as int] == x && forall|j: int|
            0 <= j < i ==> s[j] != x,
    decreases k,
{
    if exists|j: int| 0 <= j < k && s[j] == x {
        let j = choose|j: int| 0 <= j < k && s[j] == x;
        lemma_first_exists(s, x, j);
    } else {
        assert(s.contains(x));
        assert(k < s.len() && s[k] == x && forall|j: int| 0 <= j < k ==> s[j] != x);
        assert((k as usize) as int == k);
        assert(exists|i: usize| i < s.len() && s[i as int] == x && forall|j: int| 0 <= j < i ==> s[j] != x);
    }
}

fn first_index(v: &Vec<String>, x: &str) -> (r: Option<usize>)
    ensures
        r == first_of(strs_view(v@), x@),
{
    proof {
        crate::ir::lemma_strs_view_index(v@);
    }
    let mut i: usize = 0;
    while i < v.len()
        invariant
            i <= v.len(),
            strs_view(v@).len() == v.len(),
            forall|k: int| 0 <= k < v.len() ==> #[trigger] strs_view(v@)[k] == v@[k]@,
            forall|j: int| 0 <= j < i ==> strs_view(v@)[j] != x@,
        decreases v.len() - i,
    {
        if str_eq(v[i].as_str(), x) {
            proof {
                let s = strs_view(v@);
                assert(s[i as int] == x@);
                assert(s.contains(x@));
                let c = choose|c: usize|
                    c < s.len() && s[c as int] == x@ && forall|j: int| 0 <= j < c ==> s[j] != x@;
                assert(s[i as int] == x@ && forall|j: int| 0 <= j < i ==> s[j] != x@);
                assert(c == i) by {
                    if c < i {
                    } else if c > i {
                        assert(s[i as int] != x@);
                    }
                }
            }
            return Some(i);
        }
        i = i + 1;
    }
    None
}

/// The names of a schema's fields.
fn schema_names(fields: &Vec<crate::ir::FieldDef>) -> (r: Vec<String>)
    ensures
        strs_view(r@) == field_names(crate::ir::fields_view(fields@)),
{
    proof {
        crate::ir::lemma_fields_view_index(fields@);
    }
    let mut r: Vec<String> = Vec::new();
    let mut i: usize = 0;
    while i < fields.len()
        invariant
            i <= fields.len(),
            crate::ir::fields_view(fields@).len() == fields.len(),
            forall|k: int| 0 <= k < fields.len() ==> #[trigger] crate::ir::fields_view(fields@)[k] == fields@[k]@,
            strs_view(r@) =~= field_names(crate::ir::fields_view(fields@).take(i as int)),
        decreases fields.len() - i,
    {
        let name = fields[i].name.clone();
        proof {
            lemma_strs_view_push(r@, name);
        }
        r.push(name);
        i = i + 1;
    }
    assert(crate::ir::fields_view(fields@).take(fields.len() as int) =~= crate::ir::fields_view(fields@));
    r
}

fn copy_strings(v: &Vec<String>) -> (r: Vec<String>)
    ensures
        strs_view(r@) == strs_view(v@),
{
    let mut r: Vec<String> = Vec::new();
    let mut i: usize = 0;
    while i < v.len()
        invariant
            i <= v.len(),
            strs_view(r@) == strs_view(v@.take(i as int)),
        decreases v.len() - i,
    {
        let s = v[i].clone();
        proof {
            lemma_strs_view_push(r@, s);
            lemma_strs_view_push(v@.take(i as int), v@[i as int]);
            assert(v@.take(i + 1) =~= v@.take(i as int).push(v@[i as int]));
        }
        r.push(s);
        i = i + 1;
    }
    assert(v@.take(v.len() as int) =~= v@);
    r
}

fn append_strings(a: &mut Vec<String>, b: &Vec<String>)
    ensures
        strs_view(final(a)@) == strs_view(old(a)@) + strs_view(b@),
{
    let mut i: usize = 0;
    while i < b.len()
        invariant
            i <= b.len(),
            strs_view(a@) == strs_view(old(a)@) + strs_view(b@.take(i as int)),
        decreases b.len() - i,
    {
        let s = b[i].clone();
        proof {
            lemma_strs_view_push(a@, s);
            lemma_strs_view_push(b@.take(i as int), b@[i as int]);
            assert(b@.take(i + 1) =~= b@.take(i as int).push(b@[i as int]));
        }
        a.push(s);
        i = i + 1;
        assert(strs_view(a@) =~= strs_view(old(a)@) + strs_view(b@.take(i as int)));
    }
    assert(b@.take(b.len() as int) =~= b@);
}

fn numbered_x(prefix: &str, i: usize) -> (r: String)
    ensures
        r@ == numbered(prefix@, i as int),
{
    let mut s = String::new();
    push_text(&mut s, prefix);
    let t = usize_text(i);
    push_text(&mut s, t.as_str());
    s
}

fn projection_name_x(p: &ProjectionColumn, i: usize) -> (r: String)
    ensures
        r@ == projection_name(crate::ir::projection_view(*p), i as int),
{
    proof {
        reveal_strlit("agg_");
        reveal_strlit("expr_");
        reveal_strlit("literal_");
        reveal_strlit("subquery_");
    }
    match p {
        ProjectionColumn::Column(c, alias) => match alias {
            Some(x) => x.clone(),
            None => c.column.clone(),
        },
        ProjectionColumn::Aggregate(_, alias) => match alias {
            Some(x) => x.clone(),
            None => numbered_x("agg_", i),
        },
        ProjectionColumn::ComplexValue(_, alias) => match alias {
            Some(x) => x.clone(),
            None => numbered_x("expr_", i),
        },
        ProjectionColumn::StringLiteral(_, alias) => match alias {
            Some(x) => x.clone(),
            None => numbered_x("literal_", i),
        },
        ProjectionColumn::Subquery(_, alias) => match alias {
            Some(x) => x.clone(),
            None => numbered_x("subquery_", i),
        },
        ProjectionColumn::SubqueryVec(name, alias) => match alias {
            Some(x) => x.clone(),
            None => name.clone(),
        },
    }
}

fn group_column_name_x(p: &ProjectionColumn, i: usize) -> (r: String)
    ensures
        r@ == group_column_name(crate::ir::projection_view(*p), i as int),
{
    proof {
        reveal_strlit("Max_");
        reveal_strlit("Min_");
        reveal_strlit("Avg_");
        reveal_strlit("Count_");
        reveal_strlit("Sum_");
        reveal_strlit("col_");
    }
    match p {
        ProjectionColumn::Aggregate(g, alias) => match alias {
            Some(x) => x.clone(),
            None => {
                let r = match g.function {
                    AggregateType::Max => numbered_x("Max_", i),
                    AggregateType::Min => numbered_x("Min_", i),
                    AggregateType::Avg => numbered_x("Avg_", i),
                    AggregateType::Count => numbered_x("Count_", i),
                    AggregateType::Sum => numbered_x("Sum_", i),
                };
                assert(r@ =~= group_column_name(crate::ir::projection_view(*p), i as int));
                r
            },
        },
        _ => numbered_x("col_", i),
    }
}

/// A grouping's columns are its keys' column names, in order, followed by
/// one column per computed value, named by its alias when it is an
/// aggregate with one.
pub proof fn lemma_group_schema(
    srcs: Seq<(Seq<char>, Seq<Seq<char>>)>,
    input: SpecIrPlan,
    keys: Seq<SpecColumnRef>,
    aggregations: Seq<SpecProjectionColumn>,
    having: Option<crate::ir::SpecGroupClause>,
)
    ensures
        ({
            let s = schema_of(
                srcs,
                SpecIrPlan::GroupBy { input: Box::new(input), keys, aggregations, having },
            );
            &&& s.len() == keys.len() + aggregations.len()
            &&& forall|i: int| 0 <= i < keys.len() ==> s[i] == (#[trigger] keys[i]).column
            &&& forall|i: int|
                0 <= i < aggregations.len() && (#[trigger] aggregations[i]) is Aggregate
                    && aggregations[i]->Aggregate_1 is Some ==> s[keys.len() + i]
                    == aggregations[i]->Aggregate_1->0
        }),
{
    let s = schema_of(
        srcs,
        SpecIrPlan::GroupBy { input: Box::new(input), keys, aggregations, having },
    );
    let kp = keys.map_values(|k: SpecColumnRef| k.column);
    let ap = Seq::new(aggregations.len(), |i: int| group_column_name(aggregations[i], i));
    assert(s == kp + ap);
    assert forall|i: int| 0 <= i < keys.len() implies s[i] == (#[trigger] keys[i]).column by {
        assert(s[i] == kp[i]);
    }
    assert forall|i: int|
        0 <= i < aggregations.len() && (#[trigger] aggregations[i]) is Aggregate
            && aggregations[i]->Aggregate_1 is Some implies s[keys.len() + i]
            == aggregations[i]->Aggregate_1->0 by {
        assert(s[keys.len() + i] == ap[i]);
    }
}

/// A projection has one column per projected value, in order: a value with
/// an alias is named by it, and a plain column without one by its name.
pub proof fn lemma_projection_schema(
    srcs: Seq<(Seq<char>, Seq<Seq<char>>)>,
    input: SpecIrPlan,
    projections: Seq<SpecProjectionColumn>,
)
    ensures
        ({
            let s = schema_of(srcs, SpecIrPlan::Mapping { input: Box::new(input), projections });
            &&& s.len() == projections.len()
            &&& forall|i: int|
                0 <= i < projections.len() && (#[trigger] projections[i]) is Column
                    && projections[i]->Column_1 is None ==> s[i] == projections[i]->Column_0.column
            &&& forall|i: int|
                0 <= i < projections.len() && (#[trigger] projections[i]) is Column
                    && projections[i]->Column_1 is Some ==> s[i] == projections[i]->Column_1->0
            &&& forall|i: int|
                0 <= i < projections.len() && (#[trigger] projections[i]) is Aggregate
                    && projections[i]->Aggregate_1 is Some ==> s[i] == projections[i]->Aggregate_1->0
        }),
{
}

/// A source's columns are those of the last source with its name, and it
/// has none when no source has that name.
pub proof fn lemma_source_schema(
    srcs: Seq<(Seq<char>, Seq<Seq<char>>)>,
    name: Seq<char>,
    alias: Option<Seq<char>>,
)
    ensures
        forall|k: int|
            0 <= k < srcs.len() && (#[trigger] srcs[k]).0 == name && (forall|j: int|
                k < j < srcs.len() ==> srcs[j].0 != name) ==> schema_of(
                srcs,
                SpecIrPlan::Source { source_name: name, alias },
            ) == srcs[k].1,
        (forall|k: int| 0 <= k < srcs.len() ==> (#[trigger] srcs[k]).0 != name) ==> schema_of(
            srcs,
            SpecIrPlan::Source { source_name: name, alias },
        ) == Seq::<Seq<char>>::empty(),
    decreases srcs.len(),
{
    if srcs.len() > 0 {
        let rest = srcs.drop_last();
        lemma_source_schema(rest, name, alias);
        assert forall|k: int|
            0 <= k < srcs.len() && (#[trigger] srcs[k]).0 == name && (forall|j: int|
                k < j < srcs.len() ==> srcs[j].0 != name) implies schema_of(
                srcs,
                SpecIrPlan::Source { source_name: name, alias },
            ) == srcs[k].1 by {
            if k < srcs.len() - 1 {
                assert(srcs[srcs.len() - 1].0 != name);
                assert(rest[k] == srcs[k]);
                assert forall|j: int| k < j < rest.len() implies rest[j].0 != name by {
                    assert(rest[j] == srcs[j]);
                }
                assert(schema_of(rest, SpecIrPlan::Source { source_name: name, alias }) == rest[k].1);
            }
        }
        if forall|k: int| 0 <= k < srcs.len() ==> (#[trigger] srcs[k]).0 != name {
            assert(srcs[srcs.len() - 1].0 != name);
            assert forall|k: int| 0 <= k < rest.len() implies (#[trigger] rest[k]).0 != name by {
                assert(rest[k] == srcs[k]);
            }
        }
    }
}

} // verus!
