//! Source-code analysis results: control-flow reachability and complexity,
//! filtered result sets, symbol search, workspace grouping, interprocedural
//! reachability, incremental re-analysis, and the following of external
//! library calls into the libraries' source.
pub mod advanced_sets;
pub mod analysis_result;
pub mod call_text;
pub mod certs;
pub mod complexity;
pub mod data_flow_sets;
pub mod deep_call;
pub mod error;
pub mod extractors;
pub mod graph;
pub mod incremental;
pub mod interprocedural;
pub mod json;
pub mod locate;
pub mod models;
pub mod options;
pub mod result_sets;
pub mod runner;
pub mod source_code;
pub mod symbols;
pub mod syntax;
pub mod text;
pub mod workspace;
