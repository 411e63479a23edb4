# renoir_sql

A streaming SQL dialect for the Renoir dataflow framework, verified with Verus.

SQL text such as

```sql
CREATE SOURCE users (id i64, name String) WITH (connector = 'csv', path = 'users.csv');
CREATE SINK output (id i64, name String) WITH (connector = 'csv', path = 'output.csv');
INSERT INTO output (id, name) SELECT id, name FROM users WHERE id > 100;
```

is parsed into an intermediate representation (sources, sinks, and one plan
tree per pipeline), analysed, and turned into the pieces of a Renoir program.

## Layout

- `src/ir.rs`: the intermediate representation and its mathematical model.
- `src/builder.rs`: builders for programs, plans, filters and fields.
- `src/display.rs`, `src/text.rs`: the text of columns, aggregates and fields.
- `src/sql/`: the lexer, the grammar (as spec functions) and the parser,
  proved to return exactly what the grammar gives.
- `src/analysis/`: connector scanning, subquery detection, dependency graphs
  (topological order and execution levels) and schema tracking.
- `src/connectors/`, `src/utils/`: the connector registry and name generation.
- `src/codegen/`: what generated code is made of, as plain values.
- `app/`: rendering of those values as Rust tokens with `quote`, and the
  front end of the `sql!` macro.
- `tests/`: the test suite.

## Collections

Sets and maps are held in vectors, each with an invariant stating what a
set or map would have given:

- `ConnectorSet` keeps connector names once each, in the order first seen;
  with `String` keys, `std`'s hashed sets give the verifier nothing to prove
  membership from.
- `SubqueryInfo::dependencies` keeps each id once. `std`'s `HashSet<usize>`
  would do, but subquery records are copied, and cloning such a set has no
  specification to carry its contents over.
- `SchemaTracker` remembers schemas per plan node by holding the node itself
  and comparing nodes by identity (`Arc::ptr_eq`), where an address-keyed map
  would have nothing to state about its keys.
- `DependencyGraph` keeps node ids, dependency lists and dependent positions
  in vectors indexed by node position, so that the in-degree counts of
  Kahn's algorithm are a vector over the same positions and the proofs
  speak of positions. A `HashMap<usize, _>` keyed by id was not used.
