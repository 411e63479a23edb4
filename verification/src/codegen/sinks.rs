//! The record types and output operations of sinks.
use crate::codegen::options::{capitalize, capitalized, get_option_value, option_string};
use crate::codegen::sources::{fields_text, record_fields, record_type, string_or, RecordType};
use crate::ir::{fields_view, options_view, SinkDef};
use crate::text::str_eq;
use vstd::prelude::*;

verus! {

/// How a pipeline's records leave the program.
#[derive(Debug)]
pub enum SinkOperation {
    /// Written to a CSV file.
    Csv { path: String },
    /// Sent, as their debug text, to a Kafka topic.
    Kafka { brokers: String, topic: String },
    /// Printed, one per line.
    Print,
}

/// `r` is the record type of a sink: its name capitalized, one field per
/// schema field with its Rust type.
pub open spec fn is_sink_struct(r: RecordType, sink: SinkDef) -> bool {
    &&& r.name@ == capitalized(sink.name@)
    &&& fields_text(r.fields@) == record_fields(fields_view(sink.schema@))
}

/// `r` is how records reach a sink: a CSV file (`path`, else `output.csv`)
/// for `csv`, a Kafka topic (`brokers` and `topic`, else `localhost:9092`
/// and `output`) for `kafka`, printing for other connector types.
pub open spec fn is_sink_operation(r: SinkOperation, sink: SinkDef) -> bool {
    let opts = options_view(sink.connector.options@);
    match r {
        SinkOperation::Csv { path } => sink.connector.connector_type@ == "csv"@ && path@ == string_or(
            option_string(opts, "path"@),
            "output.csv"@,
        ),
        SinkOperation::Kafka { brokers, topic } => sink.connector.connector_type@ == "kafka"@
            && sink.connector.connector_type@ != "csv"@ && brokers@ == string_or(
            option_string(opts, "brokers"@),
            "localhost:9092"@,
        ) && topic@ == string_or(option_string(opts, "topic"@), "output"@),
        SinkOperation::Print => sink.connector.connector_type@ != "csv"@
            && sink.connector.connector_type@ != "kafka"@,
    }
}

/// Generate sink definition code: the record type of each sink.
pub fn generate_sinks(sinks: &[SinkDef]) -> (r: Vec<RecordType>)
    ensures
        r@.len() == sinks@.len(),
        forall|i: int| 0 <= i < sinks@.len() ==> is_sink_struct(#[trigger] r@[i], sinks@[i]),
{
    let mut structs: Vec<RecordType> = Vec::new();
    let mut i: usize = 0;
    while i < sinks.len()
        invariant
            i <= sinks.len(),
            structs@.len() == i,
            forall|k: int| 0 <= k < i ==> is_sink_struct(#[trigger] structs@[k], sinks@[k]),
        decreases sinks.len() - i,
    {
        structs.push(generate_sink_struct(&sinks[i]));
        i = i + 1;
    }
    structs
}

/// Generate a struct definition for a sink
pub fn generate_sink_struct(sink: &SinkDef) -> (r: RecordType)
    ensures
        is_sink_struct(r, *sink),
{
    record_type(capitalize(sink.name.as_str()), &sink.schema)
}

/// Generate sink terminal operation code
/// This is called from pipeline generation to add the sink operation
pub fn generate_sink_operation(sink: &SinkDef) -> (r: SinkOperation)
    ensures
        is_sink_operation(r, *sink),
{
    if str_eq(sink.connector.connector_type.as_str(), "csv") {
        generate_csv_sink(sink)
    } else if str_eq(sink.connector.connector_type.as_str(), "kafka") {
        generate_kafka_sink(sink)
    } else {
        SinkOperation::Print
    }
}

/// Generate CSV sink operation
fn generate_csv_sink(sink: &SinkDef) -> (r: SinkOperation)
    requires
        sink.connector.connector_type@ == "csv"@,
    ensures
        is_sink_operation(r, *sink),
{
    let path = match get_option_value(sink.connector.options.as_slice(), "path") {
        Some(v) => v,
        None => "output.csv".to_owned(),
    };
    SinkOperation::Csv { path }
}

/// Generate Kafka sink operation
fn generate_kafka_sink(sink: &SinkDef) -> (r: SinkOperation)
    requires
        sink.connector.connector_type@ == "kafka"@,
        sink.connector.connector_type@ != "csv"@,
    ensures
        is_sink_operation(r, *sink),
{
    let opts = sink.connector.options.as_slice();
    let brokers = match get_option_value(opts, "brokers") {
        Some(v) => v,
        None => "localhost:9092".to_owned(),
    };
    let topic = match get_option_value(opts, "topic") {
        Some(v) => v,
        None => "output".to_owned(),
    };
    SinkOperation::Kafka { brokers, topic }
}

/// How records leave a sink, whatever its other options: a CSV sink writes
/// to its `path` option's value when it is given as a string, else to
/// `output.csv`; a Kafka sink sends to its `brokers` and `topic` options'
/// values, else to `localhost:9092` and `output`; a sink of any other
/// connector type prints its records.
pub proof fn lemma_sink_operation(r: SinkOperation, sink: SinkDef)
    requires
        is_sink_operation(r, sink),
    ensures
        ({
            let opts = options_view(sink.connector.options@);
            let ty = sink.connector.connector_type@;
            &&& ty == "csv"@ ==> r is Csv && r->path@ == match option_string(opts, "path"@) {
                Some(v) => v,
                None => "output.csv"@,
            }
            &&& ty == "kafka"@ ==> r is Kafka && r->brokers@ == match option_string(
                opts,
                "brokers"@,
            ) {
                Some(v) => v,
                None => "localhost:9092"@,
            } && r->topic@ == match option_string(opts, "topic"@) {
                Some(v) => v,
                None => "output"@,
            }
            &&& ty != "csv"@ && ty != "kafka"@ ==> r is Print
        }),
{
    reveal_strlit("csv");
    reveal_strlit("kafka");
    assert(("csv"@).len() == 3 && ("kafka"@).len() == 5);
    match r {
        SinkOperation::Csv { .. } => {},
        SinkOperation::Kafka { .. } => {},
        SinkOperation::Print => {},
    }
}

} // verus!
