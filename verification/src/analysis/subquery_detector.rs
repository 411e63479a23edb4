//! Finding the subqueries of a program's pipelines.
use crate::ir::{
    same_node, share_plan, ExistsCondition, FilterClause, FilterConditionType, InCondition,
    IrPlan, Pipeline, Program, SpecExistsCondition, SpecFilterClause, SpecInCondition,
    SpecIrPlan, SpecConditionType, SpecPipeline, filter_condition_view, filter_view,
    pipelines_view,
};
use std::sync::Arc;
use vstd::prelude::*;

verus! {

broadcast use {vstd::seq_lib::lemma_seq_contains_after_push, vstd::seq_lib::lemma_seq_concat_contains_all_elements};

/// Information about a detected subquery
#[derive(Debug, Clone)]
pub struct SubqueryInfo {
    /// Unique identifier for this subquery
    pub id: usize,
    /// The IR plan for this subquery
    pub plan: Arc<IrPlan>,
    /// Context where this subquery appears
    pub context: SubqueryContext,
    /// IDs of subqueries this one depends on (read as a set)
    pub dependencies: Vec<usize>,
}

/// Context where a subquery appears
#[derive(Debug, Clone, PartialEq, Eq, Structural)]
pub enum SubqueryContext {
    /// Subquery in WHERE clause (IN, EXISTS, etc.)
    WhereClause,
    /// Subquery in FROM clause (derived table)
    FromClause,
    /// Subquery in SELECT clause (scalar subquery)
    SelectClause,
    /// Subquery in HAVING clause
    HavingClause,
}

// ---------------------------------------------------------------------------
// Where subqueries occur
// ---------------------------------------------------------------------------

/// The subqueries of `IN` and `EXISTS` conditions of a filter, left to right.
pub open spec fn filter_subqueries(f: SpecFilterClause) -> Seq<SpecIrPlan>
    decreases f,
{
    match f {
        SpecFilterClause::Base(c) => match c {
            SpecConditionType::In(SpecInCondition::Subquery { subquery, .. }) => seq![*subquery],
            SpecConditionType::Exists(SpecExistsCondition::Subquery { subquery, .. }) => seq![
                *subquery,
            ],
            _ => Seq::empty(),
        },
        SpecFilterClause::Expression { left, right, .. } => filter_subqueries(*left)
            + filter_subqueries(*right),
    }
}

/// The filter subqueries of a plan: those of its inputs first, then those
/// of its own filter; the left side of a join before the right. Subqueries
/// inside other subqueries or in projections are not visited.
pub open spec fn plan_subqueries(p: SpecIrPlan) -> Seq<SpecIrPlan>
    decreases p,
{
    match p {
        SpecIrPlan::Source { .. } => Seq::empty(),
        SpecIrPlan::Filter { input, predicate } => plan_subqueries(*input) + filter_subqueries(
            predicate,
        ),
        SpecIrPlan::Mapping { input, .. } => plan_subqueries(*input),
        SpecIrPlan::FlatMap { input, .. } => plan_subqueries(*input),
        SpecIrPlan::GroupBy { input, .. } => plan_subqueries(*input),
        SpecIrPlan::Join { left, right, .. } => plan_subqueries(*left) + plan_subqueries(*right),
        SpecIrPlan::OrderBy { input, .. } => plan_subqueries(*input),
        SpecIrPlan::Limit { input, .. } => plan_subqueries(*input),
        SpecIrPlan::Distinct { input } => plan_subqueries(*input),
    }
}

/// The filter subqueries of the pipelines, pipeline by pipeline.
pub open spec fn pipelines_subqueries(ps: Seq<SpecPipeline>) -> Seq<SpecIrPlan>
    decreases ps.len(),
{
    if ps.len() == 0 {
        Seq::empty()
    } else {
        pipelines_subqueries(ps.drop_last()) + plan_subqueries(ps.last().plan)
    }
}

/// The subqueries recorded so far are numbered from zero in the order they
/// were found, were found in a `WHERE` clause, and each depends only on
/// subqueries found before it, none twice.
pub open spec fn well_numbered(found: Seq<SubqueryInfo>) -> bool {
    forall|k: int|
        0 <= k < found.len() ==> {
            &&& (#[trigger] found[k]).id == k
            &&& found[k].context == SubqueryContext::WhereClause
            &&& found[k].dependencies@.no_duplicates()
            &&& forall|j: int| 0 <= j < found[k].dependencies.len() ==> found[k].dependencies@[j] < k
        }
}

/// `a` and `b` record the same subquery: the same id, plan, context and
/// dependencies.
pub open spec fn same_info(a: SubqueryInfo, b: SubqueryInfo) -> bool {
    &&& a.id == b.id
    &&& a.plan == b.plan
    &&& a.context == b.context
    &&& a.dependencies@ == b.dependencies@
}

/// From `before` to `after`, the subqueries found grew by subqueries that
/// occur in `occ`, at most one per occurrence, keeping those found before;
/// and every occurrence is found, by value.
pub open spec fn grows_by(
    before: Seq<SubqueryInfo>,
    after: Seq<SubqueryInfo>,
    occ: Seq<SpecIrPlan>,
) -> bool {
    &&& before.len() <= after.len() <= before.len() + occ.len()
    &&& forall|k: int| 0 <= k < before.len() ==> #[trigger] after[k] == before[k]
    &&& forall|k: int| before.len() <= k < after.len() ==> occ.contains((#[trigger] after[k]).plan@)
    &&& forall|o: SpecIrPlan|
        occ.contains(o) ==> exists|k: int| 0 <= k < after.len() && (#[trigger] after[k]).plan@ == o
}

/// From `before` to `after`, the occurrences `occ` were taken in order:
/// each occurrence either added one entry with its plan at the end, or added
/// nothing, there being an entry with its plan already.
pub open spec fn found_in_order(
    before: Seq<SubqueryInfo>,
    after: Seq<SubqueryInfo>,
    occ: Seq<SpecIrPlan>,
) -> bool
    decreases occ.len(),
{
    if occ.len() == 0 {
        after == before
    } else {
        ||| found_in_order(before, after, occ.drop_last()) && exists|k: int|
            0 <= k < after.len() && (#[trigger] after[k]).plan@ == occ.last()
        ||| after.len() > 0 && after.last().plan@ == occ.last() && found_in_order(
            before,
            after.drop_last(),
            occ.drop_last(),
        )
    }
}

proof fn lemma_in_order_then(
    s0: Seq<SubqueryInfo>,
    s1: Seq<SubqueryInfo>,
    s2: Seq<SubqueryInfo>,
    a: Seq<SpecIrPlan>,
    b: Seq<SpecIrPlan>,
)
    requires
        found_in_order(s0, s1, a),
        found_in_order(s1, s2, b),
    ensures
        found_in_order(s0, s2, a + b),
    decreases b.len(),
{
    if b.len() == 0 {
        assert(a + b =~= a);
    } else {
        assert((a + b).drop_last() =~= a + b.drop_last());
        assert((a + b).last() == b.last());
        if found_in_order(s1, s2, b.drop_last()) && exists|k: int|
            0 <= k < s2.len() && (#[trigger] s2[k]).plan@ == b.last() {
            lemma_in_order_then(s0, s1, s2, a, b.drop_last());
        } else {
            lemma_in_order_then(s0, s1, s2.drop_last(), a, b.drop_last());
        }
    }
}

proof fn lemma_grows_then(
    s0: Seq<SubqueryInfo>,
    s1: Seq<SubqueryInfo>,
    s2: Seq<SubqueryInfo>,
    a: Seq<SpecIrPlan>,
    b: Seq<SpecIrPlan>,
)
    requires
        grows_by(s0, s1, a),
        grows_by(s1, s2, b),
    ensures
        grows_by(s0, s2, a + b),
{
    assert forall|o: SpecIrPlan| (a + b).contains(o) implies exists|k: int|
        0 <= k < s2.len() && (#[trigger] s2[k]).plan@ == o by {
        if a.contains(o) {
            let k = choose|k: int| 0 <= k < s1.len() && (#[trigger] s1[k]).plan@ == o;
            assert(s2[k] == s1[k]);
        }
    }
    assert forall|k: int| s0.len() <= k < s2.len() implies (a + b).contains((#[trigger] s2[k]).plan@) by {
        if k < s1.len() {
            assert(s2[k] == s1[k]);
            assert(a.contains(s1[k].plan@));
        }
    }
}

/// Detector for finding and extracting subqueries from an IR tree
pub struct SubqueryDetector {
    next_id: usize,
    subqueries: Vec<SubqueryInfo>,
    /// The plan node of each subquery found, by position.
    plan_nodes: Vec<Arc<IrPlan>>,
}

impl SubqueryDetector {
    /// The detector's records agree: one plan node per subquery found, the
    /// subqueries numbered in order, each depending only on earlier ones
    /// that occur in its plan's filters.
    pub closed spec fn wf(&self) -> bool {
        &&& self.next_id == self.subqueries.len()
        &&& self.plan_nodes.len() == self.subqueries.len()
        &&& forall|k: int|
            0 <= k < self.plan_nodes.len() ==> *#[trigger] self.plan_nodes@[k]
                == *self.subqueries@[k].plan
        &&& well_numbered(self.subqueries@)
        &&& forall|k: int, j: int|
            0 <= k < self.subqueries.len() && 0 <= j < self.subqueries@[k].dependencies.len()
                ==> plan_subqueries(self.subqueries@[k].plan@).contains(
                self.subqueries@[#[trigger] self.subqueries@[k].dependencies@[j] as int].plan@,
            )
    }

    /// The subqueries found so far, in the order they were found.
    pub closed spec fn found(&self) -> Seq<SubqueryInfo> {
        self.subqueries@
    }

    /// A detector that has found nothing yet.
    pub fn new() -> (d: Self)
        ensures
            d.wf(),
            d.found().len() == 0,
    {
        Self { next_id: 0, subqueries: Vec::new(), plan_nodes: Vec::new() }
    }

    /// Detect all subqueries in a program: those of the filters of each
    /// pipeline's plan (see `plan_subqueries`), each plan node once, after
    /// those found by earlier calls. Returns all subqueries found so far.
    ///
    /// Every subquery of the program is found, by value, and the new entries
    /// come in the order the subqueries occur: a plan's inputs before its
    /// filter's own conditions, a join's left side before its right, the
    /// left side of `AND` / `OR` before the right. An occurrence adds no entry
    /// only when an entry with an equal plan is there already. Whether it
    /// adds one then, and which earlier subqueries a new entry records as
    /// dependencies, rests on whether plan nodes are shared, which is not
    /// stated: each dependency is an earlier entry whose plan occurs in the
    /// filters of the new one.
    pub fn detect_in_program(&mut self, program: &Program) -> (r: Vec<SubqueryInfo>)
        requires
            old(self).wf(),
        ensures
            final(self).wf(),
            grows_by(
                old(self).found(),
                final(self).found(),
                pipelines_subqueries(pipelines_view(program.pipelines@)),
            ),
            found_in_order(
                old(self).found(),
                final(self).found(),
                pipelines_subqueries(pipelines_view(program.pipelines@)),
            ),
            r@.len() == final(self).found().len(),
            forall|k: int| 0 <= k < r@.len() ==> same_info(#[trigger] r@[k], final(self).found()[k]),
            well_numbered(r@),
            forall|k: int, j: int|
                0 <= k < r@.len() && 0 <= j < r@[k].dependencies.len() ==> plan_subqueries(
                    r@[k].plan@,
                ).contains(r@[#[trigger] r@[k].dependencies@[j] as int].plan@),
    {
        let ghost start = self.found();
        let mut i: usize = 0;
        proof {
            assert(pipelines_view(program.pipelines@.take(0)) =~= Seq::<SpecPipeline>::empty());
        }
        while i < program.pipelines.len()
            invariant
                self.wf(),
                i <= program.pipelines.len(),
                grows_by(start, self.found(), pipelines_subqueries(pipelines_view(program.pipelines@.take(i as int)))),
                found_in_order(start, self.found(), pipelines_subqueries(pipelines_view(program.pipelines@.take(i as int)))),
            decreases program.pipelines.len() - i,
        {
            let ghost before_i = pipelines_view(program.pipelines@.take(i as int));
            let ghost mid = self.found();
            proof {
                assert(program.pipelines@.take(i + 1) =~= program.pipelines@.take(i as int).push(
                    program.pipelines@[i as int],
                ));
                crate::ir::lemma_pipelines_view_push(
                    program.pipelines@.take(i as int),
                    program.pipelines@[i as int],
                );
                let after = pipelines_view(program.pipelines@.take(i + 1));
                assert(after.drop_last() =~= before_i);
                assert(pipelines_subqueries(after) == pipelines_subqueries(before_i)
                    + plan_subqueries(program.pipelines@[i as int]@.plan));
            }
            self.detect_in_pipeline(&program.pipelines[i]);
            proof {
                lemma_grows_then(start, mid, self.found(), pipelines_subqueries(before_i), plan_subqueries(program.pipelines@[i as int]@.plan));
                lemma_in_order_then(start, mid, self.found(), pipelines_subqueries(before_i), plan_subqueries(program.pipelines@[i as int]@.plan));
            }
            i = i + 1;
        }
        proof {
            assert(program.pipelines@.take(program.pipelines.len() as int) =~= program.pipelines@);
        }
        let r = self.copy_found();
        proof {
            assert forall|k: int, j: int|
                0 <= k < r@.len() && 0 <= j < r@[k].dependencies.len() implies plan_subqueries(
                    r@[k].plan@,
                ).contains(r@[#[trigger] r@[k].dependencies@[j] as int].plan@) by {
                assert(same_info(r@[k], self.found()[k]));
                let d = r@[k].dependencies@[j] as int;
                assert(self.found()[k].dependencies@[j] < k);
                assert(same_info(r@[d], self.found()[d]));
            }
            assert forall|k: int| 0 <= k < r@.len() implies {
                &&& (#[trigger] r@[k]).id == k
                &&& r@[k].context == SubqueryContext::WhereClause
                &&& r@[k].dependencies@.no_duplicates()
                &&& forall|j: int| 0 <= j < r@[k].dependencies.len() ==> r@[k].dependencies@[j] < k
            } by {
                assert(same_info(r@[k], self.found()[k]));
            }
        }
        r
    }

    /// A copy of the subqueries found so far.
    fn copy_found(&self) -> (r: Vec<SubqueryInfo>)
        requires
            self.wf(),
        ensures
            r@.len() == self.found().len(),
            forall|k: int| 0 <= k < r@.len() ==> same_info(#[trigger] r@[k], self.found()[k]),
    {
        let mut r: Vec<SubqueryInfo> = Vec::new();
        let mut k: usize = 0;
        while k < self.subqueries.len()
            invariant
                k <= self.subqueries.len(),
                r@.len() == k,
                forall|a: int| 0 <= a < k ==> same_info(#[trigger] r@[a], self.subqueries@[a]),
            decreases self.subqueries.len() - k,
        {
            let s = &self.subqueries[k];
            r.push(
                SubqueryInfo {
                    id: s.id,
                    plan: share_plan(&s.plan),
                    context: copy_context(&s.context),
                    dependencies: copy_ids(&s.dependencies),
                },
            );
            k = k + 1;
        }
        r
    }

    /// Detect subqueries in a pipeline
    fn detect_in_pipeline(&mut self, pipeline: &Pipeline)
        requires
            old(self).wf(),
        ensures
            final(self).wf(),
            grows_by(old(self).found(), final(self).found(), plan_subqueries(pipeline@.plan)),
            found_in_order(old(self).found(), final(self).found(), plan_subqueries(pipeline@.plan)),
    {
        self.detect_in_plan(&pipeline.plan, SubqueryContext::FromClause);
    }

    /// Recursively detect subqueries in an IR plan
    fn detect_in_plan(&mut self, plan: &Arc<IrPlan>, context: SubqueryContext)
        requires
            old(self).wf(),
        ensures
            final(self).wf(),
            grows_by(old(self).found(), final(self).found(), plan_subqueries(plan@)),
            found_in_order(old(self).found(), final(self).found(), plan_subqueries(plan@)),
        decreases **plan,
    {
        let ghost s0 = self.found();
        match &**plan {
            IrPlan::Source { .. } => {
                assert(plan_subqueries(plan@) =~= Seq::<SpecIrPlan>::empty());
                assert(self.found() =~= s0);
            },
            IrPlan::Filter { input, predicate } => {
                self.detect_in_plan(input, copy_context(&context));
                let ghost s1 = self.found();
                self.detect_in_filter(predicate);
                proof {
                    lemma_grows_then(s0, s1, self.found(), plan_subqueries(input@), filter_subqueries(filter_view(*predicate)));
                    lemma_in_order_then(s0, s1, self.found(), plan_subqueries(input@), filter_subqueries(filter_view(*predicate)));
                }
            },
            IrPlan::Mapping { input, .. } => {
                self.detect_in_plan(input, context);
            },
            IrPlan::FlatMap { input, .. } => {
                self.detect_in_plan(input, context);
            },
            IrPlan::GroupBy { input, .. } => {
                self.detect_in_plan(input, context);
            },
            IrPlan::Join { left, right, .. } => {
                self.detect_in_plan(left, copy_context(&context));
                let ghost s1 = self.found();
                self.detect_in_plan(right, context);
                proof {
                    lemma_grows_then(s0, s1, self.found(), plan_subqueries(left@), plan_subqueries(right@));
                    lemma_in_order_then(s0, s1, self.found(), plan_subqueries(left@), plan_subqueries(right@));
                }
            },
            IrPlan::OrderBy { input, .. } => {
                self.detect_in_plan(input, context);
            },
            IrPlan::Limit { input, .. } => {
                self.detect_in_plan(input, context);
            },
            IrPlan::Distinct { input } => {
                self.detect_in_plan(input, context);
            },
        }
    }

    /// Detect subqueries in a filter clause
    fn detect_in_filter(&mut self, filter: &FilterClause)
        requires
            old(self).wf(),
        ensures
            final(self).wf(),
            grows_by(old(self).found(), final(self).found(), filter_subqueries(filter_view(*filter))),
            found_in_order(old(self).found(), final(self).found(), filter_subqueries(filter_view(*filter))),
        decreases *filter,
    {
        let ghost s0 = self.found();
        match filter {
            FilterClause::Base(cond_type) => {
                match cond_type {
                    FilterConditionType::In(InCondition::Subquery { subquery, .. }) => {
                        proof {
                            let fv = filter_view(*filter);
                            assert(fv == SpecFilterClause::Base(filter_condition_view(*cond_type)));
                            match filter_condition_view(*cond_type) {
                                SpecConditionType::In(SpecInCondition::Subquery { subquery: sq, .. }) => {
                                    assert(*sq == subquery@);
                                },
                                _ => { assert(false); },
                            }
                            assert(filter_subqueries(fv) =~= seq![subquery@]);
                        }
                        let id = self.register_subquery(share_plan(subquery), SubqueryContext::WhereClause);
                        assert(self.found()[id as int].plan@ == subquery@);
                        proof {
                            let fs = filter_subqueries(filter_view(*filter));
                            assert(fs.drop_last() =~= Seq::<SpecIrPlan>::empty());
                            assert(fs.last() == subquery@);
                            assert(found_in_order(s0, s0, fs.drop_last()));
                            if self.found().len() == s0.len() {
                                assert(self.found() =~= s0);
                                assert(self.found()[id as int].plan@ == fs.last());
                            } else {
                                assert(self.found().drop_last() =~= s0);
                            }
                            assert(found_in_order(s0, self.found(), fs));
                        }
                    },
                    FilterConditionType::Exists(ExistsCondition::Subquery { subquery, .. }) => {
                        proof {
                            let fv = filter_view(*filter);
                            assert(fv == SpecFilterClause::Base(filter_condition_view(*cond_type)));
                            match filter_condition_view(*cond_type) {
                                SpecConditionType::Exists(SpecExistsCondition::Subquery { subquery: sq, .. }) => {
                                    assert(*sq == subquery@);
                                },
                                _ => { assert(false); },
                            }
                            assert(filter_subqueries(fv) =~= seq![subquery@]);
                        }
                        let id = self.register_subquery(share_plan(subquery), SubqueryContext::WhereClause);
                        assert(self.found()[id as int].plan@ == subquery@);
                        proof {
                            let fs = filter_subqueries(filter_view(*filter));
                            assert(fs.drop_last() =~= Seq::<SpecIrPlan>::empty());
                            assert(fs.last() == subquery@);
                            assert(found_in_order(s0, s0, fs.drop_last()));
                            if self.found().len() == s0.len() {
                                assert(self.found() =~= s0);
                                assert(self.found()[id as int].plan@ == fs.last());
                            } else {
                                assert(self.found().drop_last() =~= s0);
                            }
                            assert(found_in_order(s0, self.found(), fs));
                        }
                    },
                    _ => {
                        assert(filter_subqueries(filter_view(*filter)) =~= Seq::<SpecIrPlan>::empty());
                        assert(self.found() =~= s0);
                    },
                }
            },
            FilterClause::Expression { left, right, .. } => {
                self.detect_in_filter(left);
                let ghost s1 = self.found();
                self.detect_in_filter(right);
                proof {
                    lemma_grows_then(s0, s1, self.found(), filter_subqueries(filter_view(**left)), filter_subqueries(filter_view(**right)));
                    lemma_in_order_then(s0, s1, self.found(), filter_subqueries(filter_view(**left)), filter_subqueries(filter_view(**right)));
                }
            },
        }
    }

    /// Register a new subquery and return its ID
    /// If the subquery was already registered, return existing ID
    fn register_subquery(&mut self, plan: Arc<IrPlan>, context: SubqueryContext) -> (id: usize)
        requires
            old(self).wf(),
        ensures
            final(self).wf(),
            id < final(self).found().len(),
            *final(self).found()[id as int].plan == *plan,
            final(self).found().len() == old(self).found().len() || (final(self).found().len()
                == old(self).found().len() + 1 && *final(self).found()[old(self).found().len() as int].plan
                == *plan),
            forall|k: int|
                0 <= k < old(self).found().len() ==> #[trigger] final(self).found()[k] == old(
                    self,
                ).found()[k],
    {
        let mut k: usize = 0;
        while k < self.plan_nodes.len()
            invariant
                self.wf(),
                k <= self.plan_nodes.len(),
            decreases self.plan_nodes.len() - k,
        {
            if same_node(&self.plan_nodes[k], &plan) {
                return k;
            }
            k = k + 1;
        }
        let id = self.next_id;
        let dependencies = self.find_dependencies(&plan);
        let ghost old_subs = self.subqueries@;
        let node = share_plan(&plan);
        let info = SubqueryInfo { id, plan, context: SubqueryContext::WhereClause, dependencies };
        self.subqueries.push(info);
        self.plan_nodes.push(node);
        self.next_id = self.subqueries.len();
        proof {
            assert forall|k2: int|
                0 <= k2 < self.subqueries.len() implies (#[trigger] self.subqueries@[k2]).id == k2
                && self.subqueries@[k2].context == SubqueryContext::WhereClause
                && self.subqueries@[k2].dependencies@.no_duplicates() && forall|j: int|
                0 <= j < self.subqueries@[k2].dependencies.len()
                    ==> self.subqueries@[k2].dependencies@[j] < k2 by {
                if k2 < old_subs.len() {
                    assert(self.subqueries@[k2] == old_subs[k2]);
                } else {
                    assert forall|j: int| 0 <= j < self.subqueries@[k2].dependencies.len()
                        implies self.subqueries@[k2].dependencies@[j] < k2 by {
                        assert(self.subqueries@[k2].dependencies@.contains(self.subqueries@[k2].dependencies@[j]));
                    }
                }
            }
            assert forall|k2: int, j: int|
                0 <= k2 < self.subqueries.len() && 0 <= j < self.subqueries@[k2].dependencies.len()
                    implies plan_subqueries(self.subqueries@[k2].plan@).contains(
                    self.subqueries@[#[trigger] self.subqueries@[k2].dependencies@[j] as int].plan@,
                ) by {
                let d = self.subqueries@[k2].dependencies@[j];
                if k2 < old_subs.len() {
                    assert(self.subqueries@[k2] == old_subs[k2]);
                    assert(d < k2);
                    assert(self.subqueries@[d as int] == old_subs[d as int]);
                } else {
                    assert(self.subqueries@[k2].dependencies@.contains(d));
                    assert(self.subqueries@[d as int] == old_subs[d as int]);
                }
            }
        }
        id
    }

    /// Find all subquery IDs that this plan depends on: the subqueries
    /// already found whose node occurs in one of the plan's filters.
    fn find_dependencies(&self, plan: &Arc<IrPlan>) -> (deps: Vec<usize>)
        requires
            self.wf(),
        ensures
            deps@.no_duplicates(),
            forall|x: usize| #[trigger] deps@.contains(x) ==> x < self.found().len()
                && plan_subqueries(plan@).contains(self.found()[x as int].plan@),
        decreases **plan,
    {
        let mut deps: Vec<usize> = Vec::new();
        match &**plan {
            IrPlan::Source { .. } => {},
            IrPlan::Filter { input, predicate } => {
                let d = self.find_dependencies(input);
                self.add_all(&mut deps, &d);
                self.find_dependencies_in_filter(predicate, &mut deps);
            },
            IrPlan::Mapping { input, .. } => {
                let d = self.find_dependencies(input);
                self.add_all(&mut deps, &d);
            },
            IrPlan::FlatMap { input, .. } => {
                let d = self.find_dependencies(input);
                self.add_all(&mut deps, &d);
            },
            IrPlan::GroupBy { input, .. } => {
                let d = self.find_dependencies(input);
                self.add_all(&mut deps, &d);
            },
            IrPlan::Join { left, right, .. } => {
                let d = self.find_dependencies(left);
                self.add_all(&mut deps, &d);
                let d2 = self.find_dependencies(right);
                self.add_all(&mut deps, &d2);
            },
            IrPlan::OrderBy { input, .. } => {
                let d = self.find_dependencies(input);
                self.add_all(&mut deps, &d);
            },
            IrPlan::Limit { input, .. } => {
                let d = self.find_dependencies(input);
                self.add_all(&mut deps, &d);
            },
            IrPlan::Distinct { input } => {
                let d = self.find_dependencies(input);
                self.add_all(&mut deps, &d);
            },
        }
        deps
    }

    /// Adds to `deps` the ids of `more` it does not hold yet.
    fn add_all(&self, deps: &mut Vec<usize>, more: &Vec<usize>)
        requires
            old(deps)@.no_duplicates(),
        ensures
            final(deps)@.no_duplicates(),
            forall|x: usize| #[trigger] final(deps)@.contains(x) <==> (old(deps)@.contains(x)
                || more@.contains(x)),
    {
        let mut i: usize = 0;
        while i < more.len()
            invariant
                i <= more.len(),
                deps@.no_duplicates(),
                forall|x: usize| #[trigger] deps@.contains(x) <==> (old(deps)@.contains(x)
                    || more@.take(i as int).contains(x)),
            decreases more.len() - i,
        {
            let x = more[i];
            if !crate::analysis::dependency_graph::contains_id(deps, x) {
                deps.push(x);
            }
            proof {
                assert(more@.take(i + 1) =~= more@.take(i as int).push(x));
            }
            i = i + 1;
        }
        assert(more@.take(more.len() as int) =~= more@);
    }

    /// Find subquery dependencies in a filter clause
    fn find_dependencies_in_filter(&self, filter: &FilterClause, deps: &mut Vec<usize>)
        requires
            self.wf(),
            old(deps)@.no_duplicates(),
        ensures
            final(deps)@.no_duplicates(),
            forall|x: usize| #[trigger] final(deps)@.contains(x) ==> old(deps)@.contains(x) || (x
                < self.found().len() && filter_subqueries(filter_view(*filter)).contains(
                self.found()[x as int].plan@,
            )),
            forall|x: usize| #[trigger] old(deps)@.contains(x) ==> final(deps)@.contains(x),
        decreases *filter,
    {
        match filter {
            FilterClause::Base(cond_type) => {
                match cond_type {
                    FilterConditionType::In(InCondition::Subquery { subquery, .. }) => {
                        proof {
                            let fv = filter_view(*filter);
                            assert(fv == SpecFilterClause::Base(filter_condition_view(*cond_type)));
                            match filter_condition_view(*cond_type) {
                                SpecConditionType::In(SpecInCondition::Subquery { subquery: sq, .. }) => {
                                    assert(*sq == subquery@);
                                },
                                _ => { assert(false); },
                            }
                            assert(filter_subqueries(fv) =~= seq![subquery@]);
                        }
                        if let Some(id) = self.node_id(subquery) {
                            if !crate::analysis::dependency_graph::contains_id(deps, id) {
                                deps.push(id);
                            }
                        }
                    },
                    FilterConditionType::Exists(ExistsCondition::Subquery { subquery, .. }) => {
                        proof {
                            let fv = filter_view(*filter);
                            assert(fv == SpecFilterClause::Base(filter_condition_view(*cond_type)));
                            match filter_condition_view(*cond_type) {
                                SpecConditionType::Exists(SpecExistsCondition::Subquery { subquery: sq, .. }) => {
                                    assert(*sq == subquery@);
                                },
                                _ => { assert(false); },
                            }
                            assert(filter_subqueries(fv) =~= seq![subquery@]);
                        }
                        if let Some(id) = self.node_id(subquery) {
                            if !crate::analysis::dependency_graph::contains_id(deps, id) {
                                deps.push(id);
                            }
                        }
                    },
                    _ => {},
                }
            },
            FilterClause::Expression { left, right, .. } => {
                self.find_dependencies_in_filter(left, deps);
                self.find_dependencies_in_filter(right, deps);
            },
        }
    }

    /// The id of the subquery found at this plan node, if any.
    fn node_id(&self, plan: &Arc<IrPlan>) -> (r: Option<usize>)
        requires
            self.wf(),
        ensures
            r matches Some(id) ==> id < self.found().len() && *self.found()[id as int].plan == **plan,
    {
        let mut k: usize = 0;
        while k < self.plan_nodes.len()
            invariant
                self.wf(),
                k <= self.plan_nodes.len(),
            decreases self.plan_nodes.len() - k,
        {
            if same_node(&self.plan_nodes[k], plan) {
                return Some(k);
            }
            k = k + 1;
        }
        None
    }
}

impl Default for SubqueryDetector {
    /// A detector that has found nothing yet.
    fn default() -> (d: Self)
        ensures
            d.wf(),
            d.found().len() == 0,
    {
        Self::new()
    }
}

fn copy_context(c: &SubqueryContext) -> (r: SubqueryContext)
    ensures
        r == *c,
{
    match c {
        SubqueryContext::WhereClause => SubqueryContext::WhereClause,
        SubqueryContext::FromClause => SubqueryContext::FromClause,
        SubqueryContext::SelectClause => SubqueryContext::SelectClause,
        SubqueryContext::HavingClause => SubqueryContext::HavingClause,
    }
}

fn copy_ids(v: &Vec<usize>) -> (r: Vec<usize>)
    ensures
        r@ == v@,
{
    let mut r: Vec<usize> = Vec::new();
    let mut i: usize = 0;
    while i < v.len()
        invariant
            i <= v.len(),
            r@ == v@.take(i as int),
        decreases v.len() - i,
    {
        r.push(v[i]);
        i = i + 1;
        assert(r@ =~= v@.take(i as int));
    }
    assert(r@ =~= v@);
    r
}

} // verus!
