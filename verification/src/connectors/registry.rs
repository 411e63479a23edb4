//! The registry of connector types and what generated code needs for each.
use crate::text::str_eq;
use vstd::prelude::*;

verus! {

/// Metadata for a connector type
#[derive(Debug, Clone)]
pub struct ConnectorMeta {
    /// Name of the connector (e.g., "csv", "kafka")
    pub name: String,
    /// Import paths needed for this connector
    pub imports: Vec<&'static str>,
    /// Whether this connector requires serde traits
    pub requires_serde: bool,
}

/// The import the Kafka connector needs.
pub open spec fn kafka_import() -> Seq<char> {
    "renoir::kafka::{Message, KafkaSourceExt, KafkaSinkExt, ClientConfig}"@
}

/// What the registry holds for a connector type: whether it needs serde
/// and its imports. CSV and Kafka need serde, Kafka one import; Parquet,
/// file and iterator connectors need neither; other types are unknown.
pub open spec fn registered(name: Seq<char>) -> Option<(bool, Seq<Seq<char>>)> {
    if name == "csv"@ {
        Some((true, Seq::empty()))
    } else if name == "kafka"@ {
        Some((true, seq![kafka_import()]))
    } else if name == "parquet"@ {
        Some((false, Seq::empty()))
    } else if name == "file"@ {
        Some((false, Seq::empty()))
    } else if name == "iter"@ {
        Some((false, Seq::empty()))
    } else {
        None
    }
}

/// The registered connector types, in the order they are registered.
pub open spec fn registered_types() -> Seq<Seq<char>> {
    seq!["csv"@, "kafka"@, "parquet"@, "file"@, "iter"@]
}

/// The imports of a connector, as text.
pub open spec fn imports_view(m: ConnectorMeta) -> Seq<Seq<char>> {
    m.imports@.map_values(|s: &str| s@)
}

/// Registry of all available connectors
pub struct ConnectorRegistry {
    connectors: Vec<ConnectorMeta>,
}

impl View for ConnectorRegistry {
    type V = Seq<Seq<char>>;

    /// The names of the registered connectors, in registration order.
    closed spec fn view(&self) -> Seq<Seq<char>> {
        self.connectors@.map_values(|m: ConnectorMeta| m.name@)
    }
}

impl ConnectorRegistry {
    #[verifier::type_invariant]
    closed spec fn inv(&self) -> bool {
        &&& self.connectors.len() == registered_types().len()
        &&& forall|k: int|
            0 <= k < self.connectors.len() ==> {
                &&& (#[trigger] self.connectors@[k]).name@ == registered_types()[k]
                &&& registered(registered_types()[k]) == Some(
                    (self.connectors@[k].requires_serde, imports_view(self.connectors@[k])),
                )
            }
    }

    /// Create a new connector registry with default connectors
    pub fn new() -> (r: Self)
        ensures
            r@ == registered_types(),
    {
        let mut connectors: Vec<ConnectorMeta> = Vec::new();
        Self::register_csv(&mut connectors);
        let ghost c0 = connectors@[0];
        Self::register_kafka(&mut connectors);
        let ghost c1 = connectors@[1];
        Self::register_parquet(&mut connectors);
        let ghost c2 = connectors@[2];
        Self::register_file(&mut connectors);
        let ghost c3 = connectors@[3];
        Self::register_iter(&mut connectors);
        assert(connectors@[0] == c0 && connectors@[1] == c1 && connectors@[2] == c2 && connectors@[3] == c3);
        proof {
            reveal_strlit("csv");
            reveal_strlit("kafka");
            reveal_strlit("parquet");
            reveal_strlit("file");
            reveal_strlit("iter");
        }
        assert(imports_view(connectors@[1]) =~= seq![kafka_import()]);
        assert(imports_view(connectors@[0]) =~= Seq::<Seq<char>>::empty());
        assert(imports_view(connectors@[2]) =~= Seq::<Seq<char>>::empty());
        assert(imports_view(connectors@[3]) =~= Seq::<Seq<char>>::empty());
        assert(imports_view(connectors@[4]) =~= Seq::<Seq<char>>::empty());
        assert(registered_types()[0] == "csv"@);
        assert(registered_types()[1] == "kafka"@);
        assert(registered_types()[2] == "parquet"@);
        assert(registered_types()[3] == "file"@);
        assert(registered_types()[4] == "iter"@);
        let r = ConnectorRegistry { connectors };
        assert(r@ =~= registered_types());
        r
    }

    /// Register CSV connector
    fn register_csv(connectors: &mut Vec<ConnectorMeta>)
        ensures
            final(connectors)@.len() == old(connectors)@.len() + 1,
            forall|k: int| 0 <= k < old(connectors)@.len() ==> final(connectors)@[k] == old(connectors)@[k],
            final(connectors)@.last().name@ == "csv"@,
            final(connectors)@.last().imports@.len() == 0,
            final(connectors)@.last().requires_serde,
    {
        connectors.push(
            ConnectorMeta {
                name: "csv".to_owned(),
                imports: Vec::new(),
                // CSV uses serde for deserialization
                requires_serde: true,
            },
        );
    }

    /// Register Kafka connector
    fn register_kafka(connectors: &mut Vec<ConnectorMeta>)
        ensures
            final(connectors)@.len() == old(connectors)@.len() + 1,
            forall|k: int| 0 <= k < old(connectors)@.len() ==> final(connectors)@[k] == old(connectors)@[k],
            final(connectors)@.last().name@ == "kafka"@,
            final(connectors)@.last().imports@.len() == 1,
            final(connectors)@.last().imports@[0]@ == kafka_import(),
            final(connectors)@.last().requires_serde,
    {
        let mut imports: Vec<&'static str> = Vec::new();
        imports.push("renoir::kafka::{Message, KafkaSourceExt, KafkaSinkExt, ClientConfig}");
        connectors.push(
            ConnectorMeta { name: "kafka".to_owned(), imports, requires_serde: true },
        );
    }

    /// Register Parquet connector
    fn register_parquet(connectors: &mut Vec<ConnectorMeta>)
        ensures
            final(connectors)@.len() == old(connectors)@.len() + 1,
            forall|k: int| 0 <= k < old(connectors)@.len() ==> final(connectors)@[k] == old(connectors)@[k],
            final(connectors)@.last().name@ == "parquet"@,
            final(connectors)@.last().imports@.len() == 0,
            !final(connectors)@.last().requires_serde,
    {
        connectors.push(
            ConnectorMeta { name: "parquet".to_owned(), imports: Vec::new(), requires_serde: false },
        );
    }

    /// Register file connector (for text files)
    fn register_file(connectors: &mut Vec<ConnectorMeta>)
        ensures
            final(connectors)@.len() == old(connectors)@.len() + 1,
            forall|k: int| 0 <= k < old(connectors)@.len() ==> final(connectors)@[k] == old(connectors)@[k],
            final(connectors)@.last().name@ == "file"@,
            final(connectors)@.last().imports@.len() == 0,
            !final(connectors)@.last().requires_serde,
    {
        connectors.push(
            ConnectorMeta { name: "file".to_owned(), imports: Vec::new(), requires_serde: false },
        );
    }

    /// Register iterator connector (for in-memory data)
    fn register_iter(connectors: &mut Vec<ConnectorMeta>)
        ensures
            final(connectors)@.len() == old(connectors)@.len() + 1,
            forall|k: int| 0 <= k < old(connectors)@.len() ==> final(connectors)@[k] == old(connectors)@[k],
            final(connectors)@.last().name@ == "iter"@,
            final(connectors)@.last().imports@.len() == 0,
            !final(connectors)@.last().requires_serde,
    {
        connectors.push(
            ConnectorMeta { name: "iter".to_owned(), imports: Vec::new(), requires_serde: false },
        );
    }

    /// Get metadata for a connector type
    pub fn get(&self, connector_type: &str) -> (r: Option<&ConnectorMeta>)
        ensures
            match r {
                Some(m) => m.name@ == connector_type@ && registered(connector_type@) == Some(
                    (m.requires_serde, imports_view(*m)),
                ),
                None => registered(connector_type@) is None,
            },
    {
        proof {
            use_type_invariant(self);
            reveal_strlit("csv");
            reveal_strlit("kafka");
            reveal_strlit("parquet");
            reveal_strlit("file");
            reveal_strlit("iter");
        }
        let mut k: usize = 0;
        while k < self.connectors.len()
            invariant
                self.inv(),
                k <= self.connectors.len(),
                forall|j: int| 0 <= j < k ==> registered_types()[j] != connector_type@,
            decreases self.connectors.len() - k,
        {
            if str_eq(self.connectors[k].name.as_str(), connector_type) {
                return Some(&self.connectors[k]);
            }
            k = k + 1;
        }
        None
    }

    /// Check if a connector type is registered
    pub fn has(&self, connector_type: &str) -> (r: bool)
        ensures
            r == registered(connector_type@) is Some,
    {
        self.get(connector_type).is_some()
    }

    /// Get all registered connector types
    pub fn all_types(&self) -> (r: Vec<String>)
        ensures
            r@.map_values(|s: String| s@) == registered_types(),
    {
        proof {
            use_type_invariant(self);
        }
        let mut r: Vec<String> = Vec::new();
        let mut k: usize = 0;
        while k < self.connectors.len()
            invariant
                self.inv(),
                k <= self.connectors.len(),
                r@.len() == k,
                forall|j: int| 0 <= j < k ==> (#[trigger] r@[j])@ == registered_types()[j],
            decreases self.connectors.len() - k,
        {
            r.push(self.connectors[k].name.clone());
            k = k + 1;
        }
        assert(r@.map_values(|s: String| s@) =~= registered_types());
        r
    }
}

impl Default for ConnectorRegistry {
    /// The registry of the default connectors.
    fn default() -> (r: Self)
        ensures
            r@ == registered_types(),
    {
        Self::new()
    }
}

/// The registered connector types are CSV, Kafka, Parquet, file and
/// iterator, and no other; CSV and Kafka need serde and the others do not;
/// only Kafka needs an import.
pub proof fn lemma_registered(name: Seq<char>)
    ensures
        registered(name) is Some <==> (name == "csv"@ || name == "kafka"@ || name == "parquet"@
            || name == "file"@ || name == "iter"@),
        registered(name) is Some ==> (registered(name).unwrap().0 <==> (name == "csv"@ || name
            == "kafka"@)),
        registered(name) is Some ==> (registered(name).unwrap().1.len() > 0 <==> name == "kafka"@),
        registered_types().to_set() == set!["csv"@, "kafka"@, "parquet"@, "file"@, "iter"@],
{
    reveal_strlit("csv");
    reveal_strlit("kafka");
    reveal_strlit("parquet");
    reveal_strlit("file");
    reveal_strlit("iter");
    assert(("kafka"@).len() == 5 && ("csv"@).len() == 3);
    if name == "kafka"@ {
        assert(name != "csv"@);
        assert(registered(name) == Some((true, seq![kafka_import()])));
        assert(seq![kafka_import()].len() == 1);
    }
    let t = registered_types();
    assert(t.to_set() =~= set!["csv"@, "kafka"@, "parquet"@, "file"@, "iter"@]) by {
        assert(t[0] == "csv"@ && t[1] == "kafka"@ && t[2] == "parquet"@ && t[3] == "file"@ && t[4]
            == "iter"@);
    }
}

} // verus!
