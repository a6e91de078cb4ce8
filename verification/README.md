# ntree

Source-code analysis results with machine-checked contracts: cyclomatic
complexity and unreachable code of control-flow graphs, filtered result sets
and their JSONL and Mermaid exports, symbol search by substring or anchored
regular expression, workspace grouping and statistics, interprocedural
reachability from program entry points, incremental re-analysis decisions,
the following of external Python library calls into the libraries'
source, with the certificates met on the way, and the order in which the
places an installed Python library may lie are searched.

Layout:

- `src/` — the library, verified with Verus. Every public function states
  what it returns in its `ensures`; the laws of the library are public proof
  functions (`lemma_entry_never_unreachable`, `lemma_entry_points_reachable`,
  `lemma_recomputed_records_unchanged`, `lemma_configure_commutes`,
  `lemma_certs_from_calls_extend`, ...).
- `tests/` — tests of the library on concrete values.
- `app/` — the file-system and environment side: checking paths, reading
  files, discovering workspace files, checking which of the library's
  candidate places exists, turning parsed trees into the plain trees the
  library reads, JSON output.

What reading and parsing a file yields is handed to the library as plain
values (`FileAnalysis`, `LibrarySource`, `SyntaxNode`); everything decided from
them is computed and proved in `src/`.
