//! Unique variable names for generated code.
use crate::text::{is_digit, lemma_nat_text_digits, nat_text, push_text, str_eq, usize_text};
use vstd::prelude::*;

verus! {

/// `prefix_n`
pub open spec fn numbered_name(prefix: Seq<char>, n: nat) -> Seq<char> {
    prefix + seq!['_'] + nat_text(n)
}

/// The counter of `p`: the value of its last entry, or zero.
pub open spec fn count_of(s: Seq<(String, usize)>, p: Seq<char>) -> nat
    decreases s.len(),
{
    if s.len() == 0 {
        0
    } else if s.last().0@ == p {
        s.last().1 as nat
    } else {
        count_of(s.drop_last(), p)
    }
}

/// Generates unique variable names for code generation
pub struct NameGenerator {
    counters: Vec<(String, usize)>,
}

impl NameGenerator {
    /// How many names with prefix `p` were generated since the start or the
    /// last reset.
    pub closed spec fn count(&self, p: Seq<char>) -> nat {
        count_of(self.counters@, p)
    }

    /// The names generated since the start or the last reset.
    pub open spec fn issued(&self) -> Set<Seq<char>> {
        Set::new(|s: Seq<char>| exists|p: Seq<char>, i: nat| i < self.count(p) && s == numbered_name(p, i))
    }

    /// A generator that has issued no name.
    pub fn new() -> (g: Self)
        ensures
            forall|p: Seq<char>| g.count(p) == 0,
    {
        Self { counters: Vec::new() }
    }

    /// Generate a unique name with a given prefix
    /// Examples: "source" -> "source_0", "source_1", etc.
    ///
    /// The name was not issued before: names of one prefix differ in their
    /// number, and the prefix is what stands before the last `_`.
    pub fn generate(&mut self, prefix: &str) -> (name: String)
        requires
            old(self).count(prefix@) < usize::MAX,
        ensures
            name@ == numbered_name(prefix@, old(self).count(prefix@)),
            final(self).count(prefix@) == old(self).count(prefix@) + 1,
            forall|q: Seq<char>| q != prefix@ ==> final(self).count(q) == old(self).count(q),
            !old(self).issued().contains(name@),
            final(self).issued() == old(self).issued().insert(name@),
    {
        let ghost old_counters = self.counters@;
        let counter: usize;
        match last_index_of(&self.counters, prefix) {
            None => {
                proof {
                    lemma_count_of_absent(old_counters, prefix@);
                }
                counter = 0;
                self.counters.push((prefix.to_owned(), 1));
                proof {
                    assert(self.counters@.drop_last() =~= old_counters);
                }
            },
            Some(k) => {
                counter = self.counters[k].1;
                let key = self.counters[k].0.clone();
                proof {
                    lemma_count_of_update(old_counters, k as int, prefix@, (counter + 1) as usize);
                }
                self.counters.set(k, (key, counter + 1));
                assert(self.counters@ == old_counters.update(k as int, (old_counters[k as int].0, (counter + 1) as usize)));
            },
        }
        let mut name = String::new();
        push_text(&mut name, prefix);
        proof {
            reveal_strlit("_");
        }
        push_text(&mut name, "_");
        let digits = usize_text(counter);
        push_text(&mut name, digits.as_str());
        proof {
            assert(name@ =~= numbered_name(prefix@, counter as nat));
            assert(!old(self).issued().contains(name@)) by {
                if old(self).issued().contains(name@) {
                    let (p, i) = choose|p: Seq<char>, i: nat|
                        i < old(self).count(p) && name@ == numbered_name(p, i);
                    lemma_numbered_name_injective(p, i, prefix@, counter as nat);
                }
            }
            assert forall|s: Seq<char>| final(self).issued().contains(s) <==> old(self).issued().insert(name@).contains(s) by {
                if final(self).issued().contains(s) {
                    let (p, i) = choose|p: Seq<char>, i: nat|
                        i < final(self).count(p) && s == numbered_name(p, i);
                    if p != prefix@ || i < counter {
                        assert(old(self).issued().contains(s));
                    }
                }
                if old(self).issued().contains(s) {
                    let (p, i) = choose|p: Seq<char>, i: nat|
                        i < old(self).count(p) && s == numbered_name(p, i);
                    assert(i < final(self).count(p));
                }
                if s == name@ {
                    assert(counter < final(self).count(prefix@));
                }
            }
            assert(final(self).issued() =~= old(self).issued().insert(name@));
        }
        name
    }

    /// Generate a unique subquery result variable name
    pub fn subquery_result(&mut self, id: usize) -> (name: String)
        ensures
            name@ == seq!['s', 'u', 'b', 'q', 'u', 'e', 'r', 'y', '_'] + nat_text(id as nat)
                + seq!['_', 'r', 'e', 's', 'u', 'l', 't'],
            *final(self) == *old(self),
    {
        let mut name = String::new();
        proof {
            reveal_strlit("subquery_");
            reveal_strlit("_result");
        }
        push_text(&mut name, "subquery_");
        let digits = usize_text(id);
        push_text(&mut name, digits.as_str());
        push_text(&mut name, "_result");
        assert(name@ =~= seq!['s', 'u', 'b', 'q', 'u', 'e', 'r', 'y', '_'] + nat_text(id as nat)
            + seq!['_', 'r', 'e', 's', 'u', 'l', 't']);
        name
    }

    /// Generate a unique subquery data variable name
    pub fn subquery_data(&mut self, id: usize) -> (name: String)
        ensures
            name@ == seq!['s', 'u', 'b', 'q', 'u', 'e', 'r', 'y', '_'] + nat_text(id as nat)
                + seq!['_', 'd', 'a', 't', 'a'],
            *final(self) == *old(self),
    {
        let mut name = String::new();
        proof {
            reveal_strlit("subquery_");
            reveal_strlit("_data");
        }
        push_text(&mut name, "subquery_");
        let digits = usize_text(id);
        push_text(&mut name, digits.as_str());
        push_text(&mut name, "_data");
        assert(name@ =~= seq!['s', 'u', 'b', 'q', 'u', 'e', 'r', 'y', '_'] + nat_text(id as nat)
            + seq!['_', 'd', 'a', 't', 'a']);
        name
    }

    /// Generate a unique source variable name
    pub fn source(&mut self, source_name: &str) -> (name: String)
        ensures
            name@ == source_name@ + seq!['_', 's', 'o', 'u', 'r', 'c', 'e'],
            *final(self) == *old(self),
    {
        let mut name = String::new();
        proof {
            reveal_strlit("_source");
        }
        push_text(&mut name, source_name);
        push_text(&mut name, "_source");
        assert(name@ =~= source_name@ + seq!['_', 's', 'o', 'u', 'r', 'c', 'e']);
        name
    }

    /// Generate a unique sink variable name
    pub fn sink(&mut self, sink_name: &str) -> (name: String)
        ensures
            name@ == sink_name@ + seq!['_', 's', 'i', 'n', 'k'],
            *final(self) == *old(self),
    {
        let mut name = String::new();
        proof {
            reveal_strlit("_sink");
        }
        push_text(&mut name, sink_name);
        push_text(&mut name, "_sink");
        assert(name@ =~= sink_name@ + seq!['_', 's', 'i', 'n', 'k']);
        name
    }

    /// Generate a unique pipeline variable name
    pub fn pipeline(&mut self) -> (name: String)
        requires
            old(self).count("pipeline"@) < usize::MAX,
        ensures
            name@ == numbered_name("pipeline"@, old(self).count("pipeline"@)),
            final(self).count("pipeline"@) == old(self).count("pipeline"@) + 1,
            forall|q: Seq<char>| q != "pipeline"@ ==> final(self).count(q) == old(self).count(q),
            !old(self).issued().contains(name@),
            final(self).issued() == old(self).issued().insert(name@),
    {
        self.generate("pipeline")
    }

    /// Generate a unique temporary variable name
    pub fn temp(&mut self) -> (name: String)
        requires
            old(self).count("temp"@) < usize::MAX,
        ensures
            name@ == numbered_name("temp"@, old(self).count("temp"@)),
            final(self).count("temp"@) == old(self).count("temp"@) + 1,
            forall|q: Seq<char>| q != "temp"@ ==> final(self).count(q) == old(self).count(q),
            !old(self).issued().contains(name@),
            final(self).issued() == old(self).issued().insert(name@),
    {
        self.generate("temp")
    }

    /// Reset all counters
    pub fn reset(&mut self)
        ensures
            forall|p: Seq<char>| final(self).count(p) == 0,
    {
        self.counters.clear();
    }
}

impl Default for NameGenerator {
    /// A generator that has issued no name.
    fn default() -> (g: Self)
        ensures
            forall|p: Seq<char>| g.count(p) == 0,
    {
        Self::new()
    }
}

proof fn lemma_count_of_update(s: Seq<(String, usize)>, k: int, p: Seq<char>, v: usize)
    requires
        0 <= k < s.len(),
        s[k].0@ == p,
        forall|j: int| k < j < s.len() ==> s[j].0@ != p,
    ensures
        forall|q: Seq<char>| #[trigger] count_of(s.update(k, (s[k].0, v)), q) == if q == p {
            v as nat
        } else {
            count_of(s, q)
        },
        count_of(s, p) == s[k].1,
    decreases s.len(),
{
    let t = s.update(k, (s[k].0, v));
    if k < s.len() - 1 {
        assert(t.drop_last() =~= s.drop_last().update(k, (s[k].0, v)));
        lemma_count_of_update(s.drop_last(), k, p, v);
        assert(s.drop_last()[k] == s[k]);
        assert(t.last() == s.last());
        assert forall|q: Seq<char>| #[trigger] count_of(t, q) == if q == p {
            v as nat
        } else {
            count_of(s, q)
        } by {
            assert(count_of(s.drop_last().update(k, (s[k].0, v)), q) == if q == p {
                v as nat
            } else {
                count_of(s.drop_last(), q)
            });
        }
    } else {
        assert(t.drop_last() =~= s.drop_last());
        assert(t.last() == (s[k].0, v));
        assert forall|q: Seq<char>| #[trigger] count_of(t, q) == if q == p {
            v as nat
        } else {
            count_of(s, q)
        } by {}
    }
}

proof fn lemma_count_of_absent(s: Seq<(String, usize)>, p: Seq<char>)
    requires
        forall|j: int| 0 <= j < s.len() ==> s[j].0@ != p,
    ensures
        count_of(s, p) == 0,
    decreases s.len(),
{
    if s.len() > 0 {
        lemma_count_of_absent(s.drop_last(), p);
    }
}

/// The last entry of `v` with key `p`.
fn last_index_of(v: &Vec<(String, usize)>, p: &str) -> (r: Option<usize>)
    ensures
        match r {
            Some(k) => k < v.len() && v@[k as int].0@ == p@ && forall|j: int|
                k < j < v.len() ==> v@[j].0@ != p@,
            None => forall|j: int| 0 <= j < v.len() ==> v@[j].0@ != p@,
        },
{
    let mut k = v.len();
    while k > 0
        invariant
            k <= v.len(),
            forall|j: int| k <= j < v.len() ==> v@[j].0@ != p@,
        decreases k,
    {
        if str_eq(v[k - 1].0.as_str(), p) {
            return Some(k - 1);
        }
        k = k - 1;
    }
    None
}

/// The decimal text of a number determines the number.
proof fn lemma_nat_text_injective(a: nat, b: nat)
    requires
        nat_text(a) == nat_text(b),
    ensures
        a == b,
    decreases a + b,
{
    lemma_nat_text_digits(a);
    lemma_nat_text_digits(b);
    if a < 10 && b < 10 {
        assert(nat_text(a)[0] == crate::text::digit_char(a));
        assert(nat_text(b)[0] == crate::text::digit_char(b));
    } else if a >= 10 && b >= 10 {
        let ta = nat_text(a / 10);
        let tb = nat_text(b / 10);
        assert(nat_text(a) == ta.push(crate::text::digit_char(a % 10)));
        assert(nat_text(b) == tb.push(crate::text::digit_char(b % 10)));
        assert(ta =~= nat_text(a).drop_last());
        assert(tb =~= nat_text(b).drop_last());
        lemma_nat_text_injective(a / 10, b / 10);
        assert(nat_text(a).last() == crate::text::digit_char(a % 10));
        assert(nat_text(b).last() == crate::text::digit_char(b % 10));
        assert(a % 10 == b % 10);
    } else if a >= 10 {
        lemma_nat_text_digits(a / 10);
        assert(nat_text(a) == nat_text(a / 10).push(crate::text::digit_char(a % 10)));
    } else {
        lemma_nat_text_digits(b / 10);
        assert(nat_text(b) == nat_text(b / 10).push(crate::text::digit_char(b % 10)));
    }
}

/// Names of the form `prefix_n` determine their prefix and number: the
/// number's digits hold no `_`, so the prefix is what stands before the last
/// `_`.
pub proof fn lemma_numbered_name_injective(p: Seq<char>, i: nat, q: Seq<char>, j: nat)
    requires
        numbered_name(p, i) == numbered_name(q, j),
    ensures
        p == q,
        i == j,
{
    lemma_nat_text_digits(i);
    lemma_nat_text_digits(j);
    let ti = nat_text(i);
    let tj = nat_text(j);
    let a1 = p + seq!['_'] + ti;
    let a2 = q + seq!['_'] + tj;
    assert(a1 == a2);
    assert(a1.len() == p.len() + 1 + ti.len());
    assert(a2.len() == q.len() + 1 + tj.len());
    if p.len() < q.len() {
        let m = q.len() as int;
        assert(a2[m] == '_');
        assert(a1[m] == ti[m - p.len() - 1]);
        assert(is_digit(ti[m - p.len() - 1]));
        assert(false);
    } else if q.len() < p.len() {
        let m = p.len() as int;
        assert(a1[m] == '_');
        assert(a2[m] == tj[m - q.len() - 1]);
        assert(is_digit(tj[m - q.len() - 1]));
        assert(false);
    } else {
        assert(p =~= a1.subrange(0, p.len() as int));
        assert(q =~= a2.subrange(0, q.len() as int));
        assert(ti =~= a1.subrange(p.len() + 1int, a1.len() as int));
        assert(tj =~= a2.subrange(q.len() + 1int, a2.len() as int));
        lemma_nat_text_injective(i, j);
    }
}

/// A generated name is its prefix, `_`, and a numeral whose value is the
/// name's number.
pub proof fn lemma_numbered_name_parts(prefix: Seq<char>, n: nat)
    ensures
        numbered_name(prefix, n).subrange(0, prefix.len() + 1int) == prefix + seq!['_'],
        crate::sql::grammar::all_digits(
            numbered_name(prefix, n).subrange(prefix.len() + 1int, numbered_name(prefix, n).len() as int),
        ),
        crate::sql::grammar::decimal_value(
            numbered_name(prefix, n).subrange(prefix.len() + 1int, numbered_name(prefix, n).len() as int),
        ) == n,
{
    crate::sql::grammar::lemma_decimal_round_trip(n);
    let m = numbered_name(prefix, n);
    assert(m.subrange(0, prefix.len() + 1int) =~= prefix + seq!['_']);
    assert(m.subrange(prefix.len() + 1int, m.len() as int) =~= nat_text(n));
}

} // verus!
