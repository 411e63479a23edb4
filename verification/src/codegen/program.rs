//! The whole generated program: imports, record types, source streams, and
//! one operator chain per pipeline ending in its sink.
use crate::analysis::connector_scanner::{add_names, program_connectors, ConnectorScanner};
use crate::codegen::imports::{generate_imports, import_lines};
use crate::codegen::plan::{is_plan_code, is_run_list, pipelines_code, pipelines_runs, PlanCode, SubqueryExec};
use crate::codegen::sinks::{generate_sink_operation, generate_sinks, is_sink_operation, is_sink_struct, SinkOperation};
use crate::codegen::sources::{generate_sources, is_source_init, is_source_struct, RecordType, SourceInit};
use crate::ir::{sinks_view, sources_view, Pipeline, Program, SinkDef};
use crate::text::str_eq;
use vstd::prelude::*;

verus! {

/// The code of one pipeline: its operator chain and how its records leave.
#[derive(Debug)]
pub struct PipelineCode {
    pub chain: PlanCode,
    pub sink: SinkOperation,
}

/// The code of a whole program, in the order it is emitted.
#[derive(Debug)]
pub struct ProgramCode {
    /// The `use` lines.
    pub imports: Vec<String>,
    /// The record type of each source.
    pub source_structs: Vec<RecordType>,
    /// The record type of each sink.
    pub sink_structs: Vec<RecordType>,
    /// How each source is read.
    pub source_inits: Vec<SourceInit>,
    /// The subqueries run before the pipelines, in the order they run.
    pub subqueries: Vec<SubqueryExec>,
    /// The code of each pipeline.
    pub pipelines: Vec<PipelineCode>,
}

/// The position of the first sink named `name`, if there is one.
pub open spec fn first_sink(sinks: Seq<SinkDef>, name: Seq<char>) -> Option<int> {
    if exists|i: int| 0 <= i < sinks.len() && #[trigger] sinks[i].name@ == name {
        Some(
            choose|i: int|
                0 <= i < sinks.len() && #[trigger] sinks[i].name@ == name && forall|j: int|
                    0 <= j < i ==> sinks[j].name@ != name,
        )
    } else {
        None
    }
}

/// `c` is the code of pipeline `p`, whose subqueries are numbered from
/// `base` on: the operator chain of its plan, then the
/// operation of the first sink with its sink's name; records of a pipeline
/// whose sink is not defined are printed.
pub open spec fn is_pipeline_code(c: PipelineCode, p: Pipeline, sinks: Seq<SinkDef>, base: int) -> bool {
    &&& is_plan_code(c.chain, p.plan@, base)
    &&& match first_sink(sinks, p.sink_name@) {
        Some(i) => is_sink_operation(c.sink, sinks[i]),
        None => c.sink is Print,
    }
}

/// The sink operation of the first sink named `name`, else printing.
fn sink_operation_for(sinks: &Vec<SinkDef>, name: &str) -> (r: SinkOperation)
    ensures
        match first_sink(sinks@, name@) {
            Some(i) => is_sink_operation(r, sinks@[i]),
            None => r is Print,
        },
{
    let mut i: usize = 0;
    while i < sinks.len()
        invariant
            i <= sinks.len(),
            forall|j: int| 0 <= j < i ==> sinks@[j].name@ != name@,
        decreases sinks.len() - i,
    {
        if str_eq(sinks[i].name.as_str(), name) {
            assert(first_sink(sinks@, name@) == Some(i as int)) by {
                assert(sinks@[i as int].name@ == name@);
                let k = choose|k: int|
                    0 <= k < sinks@.len() && #[trigger] sinks@[k].name@ == name@ && forall|j: int|
                        0 <= j < k ==> sinks@[j].name@ != name@;
                if k > i {
                    assert(sinks@[i as int].name@ != name@);
                }
            }
            return generate_sink_operation(&sinks[i]);
        }
        i = i + 1;
    }
    SinkOperation::Print
}

/// Generate Renoir code from a Program IR: the imports its connectors need,
/// the record types of its sources and sinks, how each source is read, the
/// runs of the subqueries its filters test, and the code of each pipeline,
/// in program order; each pipeline numbers its subqueries after those of
/// the pipelines before it.
pub fn generate_program_with_context(program: &Program) -> (r: ProgramCode)
    ensures
        r.imports@.map_values(|s: String| s@) == import_lines(
            add_names(
                Seq::empty(),
                program_connectors(sources_view(program.sources@), sinks_view(program.sinks@)),
            ),
        ),
        r.source_structs@.len() == program.sources@.len(),
        r.source_inits@.len() == program.sources@.len(),
        forall|i: int|
            0 <= i < program.sources@.len() ==> is_source_struct(
                #[trigger] r.source_structs@[i],
                program.sources@[i],
            ),
        forall|i: int|
            0 <= i < program.sources@.len() ==> is_source_init(
                #[trigger] r.source_inits@[i],
                program.sources@[i],
            ),
        r.sink_structs@.len() == program.sinks@.len(),
        forall|i: int|
            0 <= i < program.sinks@.len() ==> is_sink_struct(
                #[trigger] r.sink_structs@[i],
                program.sinks@[i],
            ),
        r.subqueries@.len() == pipelines_runs(program.pipelines@).len(),
        is_run_list(r.subqueries@, 0, pipelines_runs(program.pipelines@)),
        r.pipelines@.len() == program.pipelines@.len(),
        forall|i: int|
            0 <= i < program.pipelines@.len() ==> is_pipeline_code(
                #[trigger] r.pipelines@[i],
                program.pipelines@[i],
                program.sinks@,
                pipelines_runs(program.pipelines@.take(i)).len() as int,
            ),
{
    let mut scanner = ConnectorScanner::new();
    assert(scanner@ =~= Seq::<Seq<char>>::empty());
    let connectors = scanner.scan_program(program);
    let imports = generate_imports(&connectors);
    let (source_structs, source_inits) = generate_sources(program.sources.as_slice());
    let sink_structs = generate_sinks(program.sinks.as_slice());
    let (mut chains, subqueries) = pipelines_code(program.pipelines.as_slice());
    let mut pipelines: Vec<PipelineCode> = Vec::new();
    let n = program.pipelines.len();
    let mut i: usize = 0;
    while i < n
        invariant
            n == program.pipelines@.len(),
            i <= n,
            chains@.len() == n - i,
            forall|k: int|
                0 <= k < n - i ==> is_plan_code(
                    #[trigger] chains@[k],
                    program.pipelines@[i + k].plan@,
                    pipelines_runs(program.pipelines@.take(i + k)).len() as int,
                ),
            pipelines@.len() == i,
            forall|k: int|
                0 <= k < i ==> is_pipeline_code(
                    #[trigger] pipelines@[k],
                    program.pipelines@[k],
                    program.sinks@,
                    pipelines_runs(program.pipelines@.take(k)).len() as int,
                ),
        decreases n - i,
    {
        let p = &program.pipelines[i];
        let ghost c0 = chains@;
        let chain = chains.remove(0);
        proof {
            assert forall|k: int| 0 <= k < n - (i + 1) implies is_plan_code(
                #[trigger] chains@[k],
                program.pipelines@[i + 1 + k].plan@,
                pipelines_runs(program.pipelines@.take(i + 1 + k)).len() as int,
            ) by {
                assert(chains@[k] == c0[k + 1]);
            }
        }
        let sink = sink_operation_for(&program.sinks, p.sink_name.as_str());
        pipelines.push(PipelineCode { chain, sink });
        i = i + 1;
    }
    ProgramCode { imports, source_structs, sink_structs, source_inits, subqueries, pipelines }
}

} // verus!
