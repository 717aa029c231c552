# Cubineer

Cubineer optimizes CUDA kernels: sessions of a coding agent write candidates, an evaluator scores
them on a GPU or against a scenario, and a search decides which candidate to build on next.

`src/` is the library. Everything in it is verified: what a run, an evaluation and a batch of
sessions do next is a function of their state and of what came of the work before, and its contract
says exactly which. The trees of Python sources, regular expressions, CSV tables, digests and the
quoting of strings come from other crates; `src/outside.rs` and `src/text.rs` say what is relied on.

`app/` is the program around it: the command line, files, processes, the database, the app server,
and all that is computed with floating point numbers. The library knows a floating point number by
its place in their order (`src/number.rs`).

`tests/` run the library.

| module | what it holds |
| --- | --- |
| `search` | the tree of candidates and the two strategies that choose a parent |
| `controller`, `roles`, `cli`, `startup` | a run from its arguments to its end |
| `session`, `children`, `context`, `table` | batches of sessions |
| `memory` | what is remembered from batch to batch |
| `worker`, `gpu`, `gpu_profile`, `gpu_binary`, `simulated`, `identity`, `scripts` | evaluations |
| `profilers`, `analyzers`, `analysis`, `recommend` | reading profiles |
| `dataset`, `models`, `prompts`, `feedback`, `template` | tasks, answers and what sessions are told |
| `json`, `fields`, `number`, `numeral`, `readable`, `written`, `pointer` | documents |
| `text`, `pieces`, `lines`, `words`, `sorted`, `ranking`, `paths`, `outside` | texts and lists |
