use renoir_sql::analysis::connector_scanner::ConnectorSet;
use renoir_sql::codegen::imports::generate_imports;
use renoir_sql::codegen::options::{capitalize, get_option_value, rust_type};
use renoir_sql::codegen::plan::{generate_ir_plan, Operand, PlanCode, PredicateCode, ProjectionCode};
use renoir_sql::codegen::sinks::{generate_sink_operation, generate_sink_struct, SinkOperation};
use renoir_sql::codegen::sources::{
    generate_csv_source, generate_kafka_source, generate_source_init, generate_sources, trim_kind,
    CsvCall, SourceStream, TerminatorCode, TrimCode,
};
use renoir_sql::codegen::program::generate_program_with_context;
use renoir_sql::connectors::registry::ConnectorRegistry;
use renoir_sql::ir::{Pipeline, Program};
use renoir_sql::ir::{
    ColumnRef, ComparisonOp, ComplexField, Condition, ConnectorConfig, ConnectorOption, DataType,
    FieldDef, FilterClause, FilterConditionType, IrLiteral, IrPlan, OptionValue, ProjectionColumn,
    SinkDef, SourceDef,
};
use renoir_sql::utils::naming::NameGenerator;
use std::sync::Arc;

fn opt(key: &str, value: &str) -> ConnectorOption {
    ConnectorOption { key: key.to_string(), value: OptionValue::String(value.to_string()) }
}

fn source_with(name: &str, connector: &str, options: Vec<ConnectorOption>) -> SourceDef {
    SourceDef {
        name: name.to_string(),
        schema: vec![
            FieldDef { name: "id".to_string(), data_type: DataType::BigInt },
            FieldDef { name: "score".to_string(), data_type: DataType::Double },
        ],
        connector: ConnectorConfig { connector_type: connector.to_string(), options },
    }
}

fn set_of(names: &[&str]) -> ConnectorSet {
    let mut s = ConnectorSet::new();
    for n in names {
        s.insert(n.to_string());
    }
    s
}

// ----- imports -----

#[test]
fn test_generate_no_imports() {
    let connectors = ConnectorSet::new();
    let imports = generate_imports(&connectors);
    let imports_str = imports.join("\n");

    assert!(imports_str.is_empty() || imports_str.trim().is_empty());
}

#[test]
fn test_generate_csv_imports() {
    let connectors = set_of(&["csv"]);

    let imports = generate_imports(&connectors);
    let imports_str = imports.join("\n");

    assert!(imports_str.contains("serde"));
    assert!(imports_str.contains("Deserialize"));
    assert!(imports_str.contains("Serialize"));
}

#[test]
fn test_generate_kafka_imports() {
    let connectors = set_of(&["kafka"]);

    let imports = generate_imports(&connectors);
    let imports_str = imports.join("\n");

    assert!(imports_str.contains("serde"));
    assert!(imports_str.contains("rdkafka"));
}

#[test]
fn imports_test_deduplication() {
    let connectors = set_of(&["csv", "kafka"]);

    let imports = generate_imports(&connectors);
    let imports_str = imports.join("\n");

    let serde_count = imports_str.matches("use serde").count();
    assert_eq!(serde_count, 1);
}

#[test]
fn imports_come_in_fixed_order() {
    let imports = generate_imports(&set_of(&["kafka", "csv", "iter"]));
    assert_eq!(
        imports,
        vec![
            "use serde::{Deserialize, Serialize};",
            "use renoir::operator::source::CsvSource;",
            "use rdkafka::ClientConfig;",
        ]
    );
    assert_eq!(generate_imports(&set_of(&["parquet"])), vec!["use serde::{Deserialize, Serialize};"]);
}

// ----- plans -----

#[test]
fn test_generate_source() {
    let plan = Arc::new(IrPlan::Source { source_name: "users".to_string(), alias: None });

    let code = generate_ir_plan(&plan);

    assert!(matches!(&code, PlanCode::Stream(v) if v == "users_source"));
}

#[test]
fn test_generate_limit() {
    let source = Arc::new(IrPlan::Source { source_name: "users".to_string(), alias: None });
    let plan = Arc::new(IrPlan::Limit { input: source, limit: 10, offset: None });

    let code = generate_ir_plan(&plan);

    match code {
        PlanCode::Limit(input, limit, offset) => {
            assert_eq!(limit, 10);
            assert_eq!(offset, None);
            assert!(matches!(*input, PlanCode::Stream(ref v) if v == "users_source"));
        }
        _ => panic!("expected a limit"),
    }
}

#[test]
fn filter_and_projection_code() {
    let cond = Condition {
        left_field: ComplexField {
            column_ref: Some(ColumnRef { table: Some("u".to_string()), column: "age".to_string() }),
            literal: None,
            aggregate: None,
            nested_expr: None,
            subquery: None,
            subquery_vec: None,
        },
        operator: ComparisonOp::GreaterThan,
        right_field: ComplexField {
            column_ref: None,
            literal: Some(IrLiteral::Integer(18)),
            aggregate: None,
            nested_expr: None,
            subquery: None,
            subquery_vec: None,
        },
    };
    let filter = Arc::new(IrPlan::Filter {
        input: Arc::new(IrPlan::Source { source_name: "users".to_string(), alias: None }),
        predicate: FilterClause::Base(FilterConditionType::Comparison(cond)),
    });
    let plan = Arc::new(IrPlan::Mapping {
        input: filter,
        projections: vec![ProjectionColumn::Column(ColumnRef { table: None, column: "name".to_string() }, None)],
    });
    match generate_ir_plan(&plan) {
        PlanCode::Project(input, ProjectionCode::Field(n)) => {
            assert_eq!(n, "name");
            match *input {
                PlanCode::Filter(_, PredicateCode::Compare(Operand::Field(f), op, Operand::Int(v))) => {
                    assert_eq!(f, "age");
                    assert_eq!(op, ComparisonOp::GreaterThan);
                    assert_eq!(v, 18);
                }
                other => panic!("unexpected {:?}", other),
            }
        }
        other => panic!("unexpected {:?}", other),
    }
}

// ----- sources and sinks -----

#[test]
fn csv_source_reads_options() {
    let source = source_with(
        "data",
        "csv",
        vec![
            opt("path", "data.csv"),
            opt("delimiter", ";"),
            opt("has_headers", "false"),
            opt("quote", "'"),
            opt("terminator", "CRLF"),
            opt("trim", "ALL"),
        ],
    );
    let code = generate_csv_source(&source);
    assert_eq!(code.path, "data.csv");
    assert_eq!(
        code.calls,
        vec![
            CsvCall::HasHeaders(false),
            CsvCall::Delimiter(59),
            CsvCall::Quote(39),
            CsvCall::Terminator(TerminatorCode::Crlf),
            CsvCall::Trim(TrimCode::All),
        ]
    );
}

#[test]
fn csv_source_defaults() {
    let code = generate_csv_source(&source_with("d", "csv", vec![opt("trim", "sideways")]));
    assert_eq!(code.path, "data.csv");
    assert!(code.calls.is_empty());
}

#[test]
fn kafka_source_defaults_and_options() {
    let k = generate_kafka_source(&source_with("e", "kafka", vec![opt("topic", "input_events")]));
    assert_eq!(k.brokers, "localhost:9092");
    assert_eq!(k.topic, "input_events");
    assert_eq!(k.group_id, "consumer_group");
}

#[test]
fn source_init_and_struct() {
    let mut names = NameGenerator::new();
    let init = generate_source_init(&source_with("users", "parquet", vec![]), &mut names);
    assert_eq!(init.var_name, "users_source");
    assert_eq!(init.struct_name, "Users");
    assert!(matches!(init.stream, SourceStream::Unknown));
    let (structs, inits) = generate_sources(&[source_with("events", "kafka", vec![])]);
    assert_eq!(structs.len(), 1);
    assert_eq!(structs[0].name, "Events");
    assert_eq!(structs[0].fields, vec![("id".to_string(), "i64"), ("score".to_string(), "f64")]);
    assert!(matches!(inits[0].stream, SourceStream::Kafka(_)));
}

#[test]
fn sink_operations_by_connector() {
    let csv = SinkDef {
        name: "output".to_string(),
        schema: vec![FieldDef { name: "n".to_string(), data_type: DataType::Boolean }],
        connector: ConnectorConfig { connector_type: "csv".to_string(), options: vec![] },
    };
    assert!(matches!(generate_sink_operation(&csv), SinkOperation::Csv { path } if path == "output.csv"));
    let st = generate_sink_struct(&csv);
    assert_eq!(st.name, "Output");
    assert_eq!(st.fields, vec![("n".to_string(), "bool")]);
    let kafka = SinkDef {
        name: "k".to_string(),
        schema: vec![],
        connector: ConnectorConfig { connector_type: "kafka".to_string(), options: vec![opt("brokers", "b:1")] },
    };
    assert!(matches!(generate_sink_operation(&kafka),
        SinkOperation::Kafka { brokers, topic } if brokers == "b:1" && topic == "output"));
    let other = SinkDef {
        name: "p".to_string(),
        schema: vec![],
        connector: ConnectorConfig { connector_type: "postgres".to_string(), options: vec![] },
    };
    assert!(matches!(generate_sink_operation(&other), SinkOperation::Print));
}

// ----- options -----

#[test]
fn option_lookup_takes_first_string_value() {
    let opts = vec![
        ConnectorOption { key: "n".to_string(), value: OptionValue::Number("3".to_string()) },
        opt("path", "a.csv"),
        opt("path", "b.csv"),
    ];
    assert_eq!(get_option_value(&opts, "path"), Some("a.csv".to_string()));
    assert_eq!(get_option_value(&opts, "n"), None);
    assert_eq!(get_option_value(&opts, "missing"), None);
}

#[test]
fn capitalize_upper_cases_first_character() {
    assert_eq!(capitalize("users"), "Users");
    assert_eq!(capitalize("ßx"), "SSx");
    assert_eq!(capitalize(""), "");
    assert_eq!(rust_type(&DataType::Timestamp), "i64");
}

#[test]
fn trim_kind_reads_lowered_names() {
    assert_eq!(trim_kind("headers"), Some(TrimCode::Headers));
    assert_eq!(trim_kind("fields"), Some(TrimCode::Fields));
    assert_eq!(trim_kind("ALL"), None);
}

// ----- registry -----

#[test]
fn test_registry_has_defaults() {
    let registry = ConnectorRegistry::new();

    assert!(registry.has("csv"));
    assert!(registry.has("kafka"));
    assert!(registry.has("parquet"));
    assert!(registry.has("file"));
    assert!(registry.has("iter"));
}

#[test]
fn test_get_connector_meta() {
    let registry = ConnectorRegistry::new();

    let csv = registry.get("csv").unwrap();
    assert_eq!(csv.name, "csv");
    assert!(csv.requires_serde);

    let kafka = registry.get("kafka").unwrap();
    assert_eq!(kafka.name, "kafka");
    assert!(kafka.requires_serde);
    assert!(!kafka.imports.is_empty());
}

#[test]
fn test_unknown_connector() {
    let registry = ConnectorRegistry::new();

    assert!(!registry.has("unknown"));
    assert!(registry.get("unknown").is_none());
}

#[test]
fn registry_lists_types_in_order() {
    let registry = ConnectorRegistry::new();
    assert_eq!(registry.all_types(), vec!["csv", "kafka", "parquet", "file", "iter"]);
    assert!(!registry.get("parquet").unwrap().requires_serde);
}

// ----- naming -----

#[test]
fn test_generate_unique_names() {
    let mut name_gen = NameGenerator::new();

    assert_eq!(name_gen.generate("var"), "var_0");
    assert_eq!(name_gen.generate("var"), "var_1");
    assert_eq!(name_gen.generate("var"), "var_2");
}

#[test]
fn test_different_prefixes() {
    let mut name_gen = NameGenerator::new();

    assert_eq!(name_gen.generate("foo"), "foo_0");
    assert_eq!(name_gen.generate("bar"), "bar_0");
    assert_eq!(name_gen.generate("foo"), "foo_1");
    assert_eq!(name_gen.generate("bar"), "bar_1");
}

#[test]
fn test_subquery_names() {
    let mut name_gen = NameGenerator::new();

    assert_eq!(name_gen.subquery_result(0), "subquery_0_result");
    assert_eq!(name_gen.subquery_data(0), "subquery_0_data");
    assert_eq!(name_gen.subquery_result(5), "subquery_5_result");
}

#[test]
fn test_source_sink_names() {
    let mut name_gen = NameGenerator::new();

    assert_eq!(name_gen.source("users"), "users_source");
    assert_eq!(name_gen.sink("output"), "output_sink");
}

#[test]
fn test_reset() {
    let mut name_gen = NameGenerator::new();

    assert_eq!(name_gen.generate("var"), "var_0");
    assert_eq!(name_gen.generate("var"), "var_1");

    name_gen.reset();

    assert_eq!(name_gen.generate("var"), "var_0");
}

#[test]
fn generated_names_never_repeat() {
    let mut g = NameGenerator::new();
    let mut seen: Vec<String> = Vec::new();
    for p in ["a", "a_1", "a", "a_1", "pipeline", "temp"] {
        let n = g.generate(p);
        assert!(!seen.contains(&n));
        seen.push(n);
    }
    assert_eq!(g.pipeline(), "pipeline_1");
    assert_eq!(g.temp(), "temp_1");
    assert_eq!(g.subquery_result(123), "subquery_123_result");
}

#[test]
fn defaults_match_new() {
    let registry = ConnectorRegistry::default();
    assert_eq!(registry.all_types(), ConnectorRegistry::new().all_types());
    let mut g = NameGenerator::default();
    assert_eq!(g.generate("x"), "x_0");
}

#[test]
fn pipeline_and_temp_share_the_generate_counters() {
    let mut g = NameGenerator::new();
    assert_eq!(g.pipeline(), "pipeline_0");
    assert_eq!(g.generate("pipeline"), "pipeline_1");
    assert_eq!(g.pipeline(), "pipeline_2");
    let mut h = NameGenerator::new();
    assert_eq!(h.temp(), "temp_0");
    assert_eq!(h.temp(), "temp_1");
    assert_eq!(h.pipeline(), "pipeline_0");
}

#[test]
fn whole_program_code() {
    let program = Program {
        sources: vec![source_with("users", "csv", vec![opt("path", "users.csv")])],
        sinks: vec![SinkDef {
            name: "output".to_string(),
            schema: vec![FieldDef { name: "id".to_string(), data_type: DataType::BigInt }],
            connector: ConnectorConfig {
                connector_type: "csv".to_string(),
                options: vec![opt("path", "output.csv")],
            },
        }],
        pipelines: vec![
            Pipeline {
                sink_name: "output".to_string(),
                sink_columns: vec!["id".to_string()],
                plan: Arc::new(IrPlan::Limit {
                    input: Arc::new(IrPlan::Source { source_name: "users".to_string(), alias: None }),
                    limit: 100,
                    offset: Some(50),
                }),
            },
            Pipeline {
                sink_name: "nowhere".to_string(),
                sink_columns: vec![],
                plan: Arc::new(IrPlan::Source { source_name: "users".to_string(), alias: None }),
            },
        ],
    };
    let code = generate_program_with_context(&program);
    assert_eq!(
        code.imports,
        vec!["use serde::{Deserialize, Serialize};", "use renoir::operator::source::CsvSource;"]
    );
    assert_eq!(code.source_structs[0].name, "Users");
    assert_eq!(code.sink_structs[0].name, "Output");
    assert!(matches!(&code.source_inits[0].stream, SourceStream::Csv(c) if c.path == "users.csv"));
    assert_eq!(code.pipelines.len(), 2);
    assert!(matches!(code.pipelines[0].chain, PlanCode::Limit(_, 100, Some(50))));
    assert!(matches!(&code.pipelines[0].sink, SinkOperation::Csv { path } if path == "output.csv"));
    assert!(matches!(code.pipelines[1].sink, SinkOperation::Print));
}
