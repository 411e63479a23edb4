//! The imports generated code needs.
use crate::analysis::connector_scanner::ConnectorSet;
use vstd::prelude::*;

verus! {

pub open spec fn serde_import() -> Seq<char> {
    "use serde::{Deserialize, Serialize};"@
}

pub open spec fn csv_import() -> Seq<char> {
    "use renoir::operator::source::CsvSource;"@
}

pub open spec fn kafka_client_import() -> Seq<char> {
    "use rdkafka::ClientConfig;"@
}

/// The import lines for a set of connector types: serde for CSV, Kafka or
/// Parquet; the CSV source type for CSV; the Kafka client configuration for
/// Kafka; each at most once, in that order.
pub open spec fn import_lines(types: Seq<Seq<char>>) -> Seq<Seq<char>> {
    let serde = types.contains("csv"@) || types.contains("kafka"@) || types.contains("parquet"@);
    (if serde {
        seq![serde_import()]
    } else {
        Seq::empty()
    }) + (if types.contains("csv"@) {
        seq![csv_import()]
    } else {
        Seq::empty()
    }) + (if types.contains("kafka"@) {
        seq![kafka_client_import()]
    } else {
        Seq::empty()
    })
}

/// Generate import statements based on connector types
/// This function deduplicates imports and only generates what's needed
pub fn generate_imports(connector_types: &ConnectorSet) -> (r: Vec<String>)
    ensures
        r@.map_values(|s: String| s@) == import_lines(connector_types@),
{
    let has_csv = connector_types.contains("csv");
    let has_kafka = connector_types.contains("kafka");
    let has_parquet = connector_types.contains("parquet");
    let has_serde = has_csv || has_kafka || has_parquet;
    let mut imports: Vec<String> = Vec::new();
    if has_serde {
        imports.push("use serde::{Deserialize, Serialize};".to_owned());
    }
    if has_csv {
        imports.push("use renoir::operator::source::CsvSource;".to_owned());
    }
    if has_kafka {
        imports.push("use rdkafka::ClientConfig;".to_owned());
    }
    assert(imports@.map_values(|s: String| s@) =~= import_lines(connector_types@));
    imports
}

/// The imports needed by a set of connector types: serde's traits exactly
/// when CSV, Kafka or Parquet is among them, the CSV source type exactly
/// when CSV is, the Kafka client configuration exactly when Kafka is, each
/// at most once and serde's first.
pub proof fn lemma_import_lines(types: Seq<Seq<char>>)
    ensures
        import_lines(types).contains("use serde::{Deserialize, Serialize};"@) <==> (types.contains(
            "csv"@,
        ) || types.contains("kafka"@) || types.contains("parquet"@)),
        import_lines(types).contains("use renoir::operator::source::CsvSource;"@)
            <==> types.contains("csv"@),
        import_lines(types).contains("use rdkafka::ClientConfig;"@) <==> types.contains("kafka"@),
        import_lines(types).no_duplicates(),
        import_lines(types).len() > 0 ==> import_lines(types)[0] == "use serde::{Deserialize, Serialize};"@,
{
    reveal_strlit("use serde::{Deserialize, Serialize};");
    reveal_strlit("use renoir::operator::source::CsvSource;");
    reveal_strlit("use rdkafka::ClientConfig;");
    let a = "use serde::{Deserialize, Serialize};"@;
    let b = "use renoir::operator::source::CsvSource;"@;
    let c = "use rdkafka::ClientConfig;"@;
    assert(a.len() != b.len() && b.len() != c.len() && a.len() != c.len());
    let l = import_lines(types);
    assert(l.contains(a) <==> (types.contains("csv"@) || types.contains("kafka"@) || types.contains("parquet"@))) by {
        if l.contains(a) {
            let k = choose|k: int| 0 <= k < l.len() && l[k] == a;
        }
        if types.contains("csv"@) || types.contains("kafka"@) || types.contains("parquet"@) {
            assert(l[0] == a);
        }
    }
    assert(l.contains(b) <==> types.contains("csv"@)) by {
        if l.contains(b) {
            let k = choose|k: int| 0 <= k < l.len() && l[k] == b;
        }
        if types.contains("csv"@) {
            let s = if types.contains("csv"@) || types.contains("kafka"@) || types.contains("parquet"@) { 1int } else { 0int };
            assert(l[s] == b);
        }
    }
    assert(l.contains(c) <==> types.contains("kafka"@)) by {
        if l.contains(c) {
            let k = choose|k: int| 0 <= k < l.len() && l[k] == c;
        }
        if types.contains("kafka"@) {
            assert(l[l.len() - 1] == c);
        }
    }
}

} // verus!
