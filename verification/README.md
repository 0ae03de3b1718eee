# neurograph

The engine of NeuroGraph, a graph of a code base built for pull-request
analysis, written in Verus: every function of the library carries a contract
that Verus proves.

## Layout

- `src/schema.rs`: node ids (hex SHA-256 of `"{language}::{fqn}"`), graph
  versions, nodes, signatures, edges and their confidence rules, confidence
  configuration, snapshots and subgraph summaries.
- `src/validator.rs`: the calibrated-range and deprecated-target checks that
  every edge write passes.
- `src/graph.rs`: the graph engine, its invariant (`graph_consistent`), and
  its operations: upserts, edge writes, deprecation, overlay deletion,
  rename detection and application, node detail and subgraph queries.
- `src/rename.rs`: rename evidence and its weighted confidence.
- `src/errors.rs`, `src/json.rs`: schema errors, tool-call errors and their
  JSON payloads.
- `src/parser.rs`, `src/scanner.rs`, `src/project.rs`: the line-oriented
  Python scanner and the linking of a project's files into nodes and edge
  drafts.
- `src/digest.rs`, `src/text.rs`: hashing, hex and character helpers.
- `src/laws.rs`: properties that span several operations.
- `app/`: the Python extension (PyO3), JSON conversion of the engine's types,
  and the directory walk that feeds the scanner.

## Conventions

Confidences are integers in parts per million (`CONFIDENCE_SCALE`,
1 000 000 = 1.0); the JSON layer in `app/` converts them to and from
fractions.
