//! Result sets over an analysis for call-graph statistics, entry points,
//! incremental runs and external libraries.
use vstd::prelude::*;
use crate::analysis_result::AnalysisResult;
use crate::models::{CallEdge, CallKind, FunctionSpan};
use crate::text::{contains_seq, copy_str, str_contains};
use crate::complexity::string_views;

verus! {

/// Call graph statistics.
#[derive(Debug, Clone)]
pub struct CallGraphStats {
    pub total_functions: usize,
    pub total_call_sites: usize,
    pub direct_calls: usize,
    pub virtual_calls: usize,
    pub unresolved_calls: usize,
}

/// Analysis performance metrics.
#[derive(Debug, Clone)]
pub struct AnalysisMetrics {
    pub total_functions: usize,
    pub cached_functions: usize,
    pub recomputed_functions: usize,
    pub analysis_time_ms: u64,
}

/// External function call information.
#[derive(Debug, Clone)]
pub struct ExternalCall {
    pub function_name: String,
    pub library: String,
    pub call_site: String,
    pub caller_function: String,
}

/// Security analysis results.
#[derive(Debug, Clone)]
pub struct SecurityAnalysis {
    pub taint_sources: Vec<String>,
    pub taint_sinks: Vec<String>,
    pub potential_vulnerabilities: Vec<String>,
}

/// The number of call edges resolved as `kind`.
pub open spec fn count_kind(edges: Seq<CallEdge>, kind: CallKind) -> nat
    decreases edges.len(),
{
    if edges.len() == 0 {
        0
    } else {
        count_kind(edges.drop_last(), kind) + if edges.last().kind == kind {
            1nat
        } else {
            0nat
        }
    }
}

proof fn lemma_count_kind_bound(edges: Seq<CallEdge>, kind: CallKind)
    ensures
        count_kind(edges, kind) <= edges.len(),
    decreases edges.len(),
{
    if edges.len() > 0 {
        lemma_count_kind_bound(edges.drop_last(), kind);
    }
}

fn count_calls(edges: &[CallEdge], kind: CallKind) -> (n: usize)
    ensures
        n == count_kind(edges@, kind),
{
    let mut n: usize = 0;
    let mut i: usize = 0;
    while i < edges.len()
        invariant
            i <= edges@.len(),
            n == count_kind(edges@.take(i as int), kind),
        decreases edges.len() - i,
    {
        assert(edges@.take(i + 1).drop_last() == edges@.take(i as int));
        proof {
            lemma_count_kind_bound(edges@.take(i as int), kind);
        }
        if edges[i].kind == kind {
            n = n + 1;
        }
        i = i + 1;
    }
    assert(edges@.take(edges@.len() as int) == edges@);
    n
}

/// A function whose name mentions `main` or `test`.
pub open spec fn looks_like_entry(f: FunctionSpan) -> bool {
    contains_seq(f.function@, "main"@) || contains_seq(f.function@, "test"@)
}

/// The names of the functions among `fs` that look like entry points, in order.
pub open spec fn entry_like_names(fs: Seq<FunctionSpan>) -> Seq<Seq<char>>
    decreases fs.len(),
{
    if fs.len() == 0 {
        Seq::empty()
    } else {
        let d = entry_like_names(fs.drop_last());
        if looks_like_entry(fs.last()) {
            d.push(fs.last().function@)
        } else {
            d
        }
    }
}

/// Result set for interprocedural analysis.
pub struct InterproceduralResultSet<'a> {
    pub analysis: &'a AnalysisResult,
}

impl<'a> InterproceduralResultSet<'a> {
    pub fn new(analysis: &'a AnalysisResult) -> (r: Self)
        ensures
            *r.analysis == *analysis,
    {
        InterproceduralResultSet { analysis }
    }

    /// Unreachable functions: this set does not compute them and has none.
    pub fn unreachable_functions(&self) -> (r: Vec<String>)
        ensures
            r@.len() == 0,
    {
        Vec::new()
    }

    /// Call graph statistics: functions are the symbols, and call sites are
    /// counted by how they were resolved.
    pub fn call_stats(&self) -> (s: CallGraphStats)
        ensures
            s.total_functions == self.analysis.symbol_store.symbols@.len(),
            s.total_call_sites == self.analysis.call_graph.edges@.len(),
            s.direct_calls == count_kind(self.analysis.call_graph.edges@, CallKind::Direct),
            s.virtual_calls == count_kind(self.analysis.call_graph.edges@, CallKind::Virtual),
            s.unresolved_calls == count_kind(self.analysis.call_graph.edges@, CallKind::Unresolved),
    {
        let edges = self.analysis.call_graph.get_all_call_edges();
        CallGraphStats {
            total_functions: self.analysis.symbol_count(),
            total_call_sites: edges.len(),
            direct_calls: count_calls(edges, CallKind::Direct),
            virtual_calls: count_calls(edges, CallKind::Virtual),
            unresolved_calls: count_calls(edges, CallKind::Unresolved),
        }
    }

    /// The functions whose names mention `main` or `test`, in order.
    pub fn entry_points(&self) -> (r: Vec<String>)
        ensures
            string_views(r@) == entry_like_names(self.analysis.function_data@),
    {
        let fs = &self.analysis.function_data;
        let mut r: Vec<String> = Vec::new();
        let mut i: usize = 0;
        while i < fs.len()
            invariant
                i <= fs@.len(),
                string_views(r@) == entry_like_names(fs@.take(i as int)),
            decreases fs.len() - i,
        {
            assert(fs@.take(i + 1).drop_last() == fs@.take(i as int));
            assert(fs@.take(i + 1).last() == fs@[i as int]);
            let name = fs[i].function.as_str();
            if str_contains(name, "main") || str_contains(name, "test") {
                let ghost before = string_views(r@);
                r.push(copy_str(name));
                assert(string_views(r@) == before.push(fs@[i as int].function@));
            }
            i = i + 1;
        }
        assert(fs@.take(fs@.len() as int) == fs@);
        r
    }
}

/// Result set for incremental analysis.
pub struct IncrementalResultSet<'a> {
    pub analysis: &'a AnalysisResult,
}

impl<'a> IncrementalResultSet<'a> {
    pub fn new(analysis: &'a AnalysisResult) -> (r: Self)
        ensures
            *r.analysis == *analysis,
    {
        IncrementalResultSet { analysis }
    }

    /// Whether the results come from an incremental run: an analysis result
    /// does not record that, so this is never the case.
    pub fn is_incremental(&self) -> (b: bool)
        ensures
            !b,
    {
        false
    }

    /// The functions that a change to `function_name` would make stale: no
    /// dependency is recorded, so there are none.
    pub fn dependency_impact(&self, function_name: &str) -> (r: Vec<String>)
        ensures
            r@.len() == 0,
    {
        Vec::new()
    }

    /// Performance metrics: the symbols counted as functions, nothing cached,
    /// recomputed or timed.
    pub fn performance_metrics(&self) -> (m: AnalysisMetrics)
        ensures
            m.total_functions == self.analysis.symbol_store.symbols@.len(),
            m.cached_functions == 0,
            m.recomputed_functions == 0,
            m.analysis_time_ms == 0,
    {
        AnalysisMetrics {
            total_functions: self.analysis.symbol_count(),
            cached_functions: 0,
            recomputed_functions: 0,
            analysis_time_ms: 0,
        }
    }
}

/// Result set for external library analysis.
pub struct ExternalLibraryResultSet<'a> {
    pub analysis: &'a AnalysisResult,
}

impl<'a> ExternalLibraryResultSet<'a> {
    pub fn new(analysis: &'a AnalysisResult) -> (r: Self)
        ensures
            *r.analysis == *analysis,
    {
        ExternalLibraryResultSet { analysis }
    }

    /// External function calls: this set does not collect them and has none.
    pub fn external_calls(&self) -> (r: Vec<ExternalCall>)
        ensures
            r@.len() == 0,
    {
        Vec::new()
    }

    /// Taint sources, sinks and vulnerabilities: none are collected.
    pub fn security_analysis(&self) -> (s: SecurityAnalysis)
        ensures
            s.taint_sources@.len() == 0,
            s.taint_sinks@.len() == 0,
            s.potential_vulnerabilities@.len() == 0,
    {
        SecurityAnalysis {
            taint_sources: Vec::new(),
            taint_sinks: Vec::new(),
            potential_vulnerabilities: Vec::new(),
        }
    }

    /// Libraries referenced by the code: none are collected.
    pub fn referenced_libraries(&self) -> (r: Vec<String>)
        ensures
            r@.len() == 0,
    {
        Vec::new()
    }
}

} // verus!
