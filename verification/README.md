# tordex

The content-processing core of the Tordex intelligence platform, written in
Verus: every function under `src/` carries a contract that Verus proves.

- `src/tdxl/`: the TDXL query language. Lexer, parser, lowering to the
  knowledge IR (KIR), the compiler and dataflow optimisation passes, and
  code generation to register-machine instructions.
- `src/search/`: documents, the search index and the query algebra, with
  its laws (ranking, intersection, union, negation, filtering).
- `src/temporal/`: the temporal graph: intervals, states, snapshots,
  histories, differences between snapshots, evolution counts and the
  frequency predictor.
- `src/parser.rs`, `src/analysis.rs`, `src/repo_intel.rs`,
  `src/language.rs`: source analysis for repository intelligence, with
  call graphs and control-flow graphs.
- `src/processors/`: the content processors (binary, containers, HTML,
  Markdown, network captures, images, video, office, PDF, and more), each
  from bytes to observations, and the processing fabric's routing.
- `src/sources/`: source descriptors and their validation.
- `src/json.rs`, `src/text.rs`: JSON through `serde_json`, and the text
  helpers that the rest builds on.

`app/` is the program around the library: the command line, the JSON wire
format, the floating-point analytics, and the services that hold the
processors behind locks.
