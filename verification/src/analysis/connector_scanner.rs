//! The connector types a program uses.
use crate::ir::{Program, SinkDef, SourceDef, SpecSinkDef, SpecSourceDef, sinks_view, sources_view};
use crate::text::str_eq;
use vstd::prelude::*;

verus! {

/// A set of connector type names, kept in the order they were first added.
#[derive(Debug, PartialEq)]
pub struct ConnectorSet {
    names: Vec<String>,
}

/// `s` with `x` added at the end unless it is already there.
pub open spec fn add_name(s: Seq<Seq<char>>, x: Seq<char>) -> Seq<Seq<char>> {
    if s.contains(x) {
        s
    } else {
        s.push(x)
    }
}

/// `s` with the names of `xs` added one after the other.
pub open spec fn add_names(s: Seq<Seq<char>>, xs: Seq<Seq<char>>) -> Seq<Seq<char>>
    decreases xs.len(),
{
    if xs.len() == 0 {
        s
    } else {
        add_name(add_names(s, xs.drop_last()), xs.last())
    }
}

/// The connector types of the sources, then of the sinks, in program order.
pub open spec fn program_connectors(sources: Seq<SpecSourceDef>, sinks: Seq<SpecSinkDef>) -> Seq<
    Seq<char>,
> {
    sources.map_values(|s: SpecSourceDef| s.connector.connector_type) + sinks.map_values(
        |s: SpecSinkDef| s.connector.connector_type,
    )
}

impl View for ConnectorSet {
    type V = Seq<Seq<char>>;

    /// The names, in the order they were first added.
    closed spec fn view(&self) -> Seq<Seq<char>> {
        self.names@.map_values(|s: String| s@)
    }
}

impl ConnectorSet {
    /// No name occurs twice.
    #[verifier::type_invariant]
    closed spec fn inv(&self) -> bool {
        self@.no_duplicates()
    }

    /// The empty set.
    pub fn new() -> (s: Self)
        ensures
            s@.len() == 0,
            s@.no_duplicates(),
    {
        let s = ConnectorSet { names: Vec::new() };
        assert(s@ =~= Seq::<Seq<char>>::empty());
        s
    }

    /// Adds a name; returns whether it was not there yet.
    pub fn insert(&mut self, name: String) -> (added: bool)
        ensures
            final(self)@ == add_name(old(self)@, name@),
            added == !old(self)@.contains(name@),
            final(self)@.no_duplicates(),
    {
        proof {
            use_type_invariant(&*self);
        }
        if self.contains(name.as_str()) {
            false
        } else {
            proof {
                assert(!self@.contains(name@));
            }
            let mut names: Vec<String> = Vec::new();
            std::mem::swap(&mut names, &mut self.names);
            let ghost before = names@;
            names.push(name);
            proof {
                assert(names@.map_values(|s: String| s@) =~= before.map_values(|s: String| s@).push(name@));
            }
            self.names = names;
            assert(self@ =~= old(self)@.push(name@));
            true
        }
    }

    /// The number of names.
    pub fn len(&self) -> (n: usize)
        ensures
            n == self@.len(),
            self@.no_duplicates(),
    {
        proof {
            use_type_invariant(self);
        }
        self.names.len()
    }

    /// Whether the set holds `name`.
    pub fn contains(&self, name: &str) -> (r: bool)
        ensures
            r == self@.contains(name@),
            self@.no_duplicates(),
    {
        proof {
            use_type_invariant(self);
        }
        let mut i: usize = 0;
        while i < self.names.len()
            invariant
                i <= self.names.len(),
                self@.no_duplicates(),
                forall|j: int| 0 <= j < i ==> self@[j] != name@,
            decreases self.names.len() - i,
        {
            if str_eq(self.names[i].as_str(), name) {
                assert(self@[i as int] == name@);
                return true;
            }
            i = i + 1;
        }
        false
    }
}

/// Adding names keeps a list free of repeats, and holds exactly the names
/// that were there or were added.
pub proof fn lemma_add_names(s: Seq<Seq<char>>, xs: Seq<Seq<char>>)
    ensures
        s.no_duplicates() ==> add_names(s, xs).no_duplicates(),
        forall|x: Seq<char>| #[trigger] add_names(s, xs).contains(x) <==> (s.contains(x) || xs.contains(x)),
    decreases xs.len(),
{
    if xs.len() > 0 {
        let p = add_names(s, xs.drop_last());
        lemma_add_names(s, xs.drop_last());
        let y = xs.last();
        assert forall|x: Seq<char>| #[trigger] add_names(s, xs).contains(x) <==> (s.contains(x) || xs.contains(x)) by {
            assert(xs.contains(x) <==> (xs.drop_last().contains(x) || x == y)) by {
                if xs.contains(x) {
                    let k = choose|k: int| 0 <= k < xs.len() && xs[k] == x;
                    if k < xs.len() - 1 {
                        assert(xs.drop_last()[k] == x);
                    }
                }
                if xs.drop_last().contains(x) {
                    let k = choose|k: int| 0 <= k < xs.drop_last().len() && xs.drop_last()[k] == x;
                    assert(xs[k] == x);
                }
                if x == y {
                    assert(xs[xs.len() - 1] == x);
                }
            }
            if !p.contains(y) {
                assert(p.push(y).contains(x) <==> (p.contains(x) || x == y)) by {
                    if p.push(y).contains(x) {
                        let k = choose|k: int| 0 <= k < p.push(y).len() && p.push(y)[k] == x;
                        if k < p.len() {
                            assert(p[k] == x);
                        }
                    }
                    if p.contains(x) {
                        let k = choose|k: int| 0 <= k < p.len() && p[k] == x;
                        assert(p.push(y)[k] == x);
                    }
                    if x == y {
                        assert(p.push(y)[p.len() as int] == x);
                    }
                }
            }
        }
        if s.no_duplicates() && !p.contains(y) {
            assert forall|a: int, b: int| 0 <= a < p.push(y).len() && 0 <= b < p.push(y).len() && a != b implies p.push(y)[a] != p.push(y)[b] by {
                if a < p.len() && b < p.len() {
                } else if a < p.len() {
                    assert(p.contains(p[a]));
                } else if b < p.len() {
                    assert(p.contains(p[b]));
                }
            }
        }
    }
}

/// Scans a program for all connector types used
pub struct ConnectorScanner {
    connector_types: ConnectorSet,
}

impl View for ConnectorScanner {
    type V = Seq<Seq<char>>;

    /// The connector types found so far.
    closed spec fn view(&self) -> Seq<Seq<char>> {
        self.connector_types@
    }
}

impl ConnectorScanner {
    /// A scanner that has found nothing yet.
    pub fn new() -> (s: Self)
        ensures
            s@.len() == 0,
    {
        Self { connector_types: ConnectorSet::new() }
    }

    /// Scan a program and collect all unique connector types: those of the
    /// sources, then those of the sinks, each once, after those found by
    /// earlier scans. Returns all connector types found so far.
    pub fn scan_program(&mut self, program: &Program) -> (r: ConnectorSet)
        ensures
            final(self)@ == add_names(
                old(self)@,
                program_connectors(sources_view(program.sources@), sinks_view(program.sinks@)),
            ),
            r@ == final(self)@,
    {
        let ghost start = self@;
        let ghost srcs = sources_view(program.sources@).map_values(
            |s: SpecSourceDef| s.connector.connector_type,
        );
        let ghost snks = sinks_view(program.sinks@).map_values(
            |s: SpecSinkDef| s.connector.connector_type,
        );
        proof {
            crate::ir::lemma_sources_view_index(program.sources@);
            crate::ir::lemma_sinks_view_index(program.sinks@);
        }
        let mut i: usize = 0;
        while i < program.sources.len()
            invariant
                i <= program.sources.len(),
                srcs.len() == program.sources.len(),
                forall|k: int| 0 <= k < program.sources.len() ==> #[trigger] srcs[k] == program.sources@[k].connector.connector_type@,
                self@ == add_names(start, srcs.take(i as int)),
            decreases program.sources.len() - i,
        {
            self.scan_source(&program.sources[i]);
            assert(srcs.take(i + 1).drop_last() =~= srcs.take(i as int));
            i = i + 1;
        }
        assert(srcs.take(program.sources.len() as int) =~= srcs);
        let mut j: usize = 0;
        while j < program.sinks.len()
            invariant
                j <= program.sinks.len(),
                snks.len() == program.sinks.len(),
                forall|k: int| 0 <= k < program.sinks.len() ==> #[trigger] snks[k] == program.sinks@[k].connector.connector_type@,
                self@ == add_names(start, srcs + snks.take(j as int)),
            decreases program.sinks.len() - j,
        {
            self.scan_sink(&program.sinks[j]);
            assert((srcs + snks.take(j + 1)).drop_last() =~= srcs + snks.take(j as int));
            j = j + 1;
        }
        assert(snks.take(program.sinks.len() as int) =~= snks);
        self.connector_types.clone()
    }

    /// Scan a source definition for connector type
    fn scan_source(&mut self, source: &SourceDef)
        ensures
            final(self)@ == add_name(old(self)@, source.connector.connector_type@),
    {
        self.connector_types.insert(source.connector.connector_type.clone());
    }

    /// Scan a sink definition for connector type
    fn scan_sink(&mut self, sink: &SinkDef)
        ensures
            final(self)@ == add_name(old(self)@, sink.connector.connector_type@),
    {
        self.connector_types.insert(sink.connector.connector_type.clone());
    }

    /// Get all detected connector types
    pub fn connector_types(&self) -> (r: &ConnectorSet)
        ensures
            r@ == self@,
    {
        &self.connector_types
    }
}

impl Default for ConnectorScanner {
    /// A scanner that has found nothing yet.
    fn default() -> (s: Self)
        ensures
            s@.len() == 0,
    {
        Self::new()
    }
}

impl Clone for ConnectorSet {
    /// A set with the same names.
    fn clone(&self) -> (r: Self)
        ensures
            r@ == self@,
    {
        proof {
            use_type_invariant(self);
        }
        ConnectorSet { names: copy_names(&self.names) }
    }
}

fn copy_names(v: &Vec<String>) -> (r: Vec<String>)
    ensures
        r@.map_values(|s: String| s@) == v@.map_values(|s: String| s@),
{
    let mut r: Vec<String> = Vec::new();
    let mut i: usize = 0;
    while i < v.len()
        invariant
            i <= v.len(),
            r@.len() == i,
            forall|k: int| 0 <= k < i ==> (#[trigger] r@[k])@ == v@[k]@,
        decreases v.len() - i,
    {
        r.push(v[i].clone());
        i = i + 1;
    }
    assert(r@.map_values(|s: String| s@) =~= v@.map_values(|s: String| s@));
    r
}

/// The connector types of a program are those of its sources, in order,
/// followed by those of its sinks.
pub proof fn lemma_program_connectors(sources: Seq<SpecSourceDef>, sinks: Seq<SpecSinkDef>)
    ensures
        program_connectors(sources, sinks).len() == sources.len() + sinks.len(),
        forall|i: int|
            0 <= i < sources.len() ==> #[trigger] program_connectors(sources, sinks)[i]
                == sources[i].connector.connector_type,
        forall|i: int|
            0 <= i < sinks.len() ==> #[trigger] program_connectors(sources, sinks)[sources.len() + i]
                == sinks[i].connector.connector_type,
{
}

} // verus!
