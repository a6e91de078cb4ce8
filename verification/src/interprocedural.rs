//! Interprocedural control flow over a workspace: one graph per function,
//! summary edges for resolved calls between them, program entry points, what
//! each entry point reaches, and how exceptions flow back to callers.
use vstd::prelude::*;
use crate::analysis_result::{records_of, AnalysisResult, FileAnalysis};
use crate::complexity::string_views;
use crate::deep_call::{first_from, first_occurrences, lemma_first_from};
use crate::error::NTreeError;
use crate::graph::{edges_within, reachable, reachable_from};
use crate::models::{CallEdge, CfgEdge, CfgNode, ControlFlowGraph, FunctionSpan, TopLevelSymbol};
use crate::options::{default_options, AnalysisOptions};
use crate::symbols::{symbol_ids, symbol_name_starts, symbol_named, SymbolStore};
use crate::text::{concat2, copy_str, starts_with};
use crate::workspace::total_size_of;

verus! {

// ---------------------------------------------------------------------------
// Options
// ---------------------------------------------------------------------------

/// Which parts of the interprocedural analysis run.
#[derive(Debug, Clone)]
pub struct InterproceduralOptions {
    /// Enable summary edge generation
    pub summary_edges: bool,
    /// Enable reachability analysis
    pub reachability_analysis: bool,
    /// Enable exceptional control flow analysis
    pub exceptional_control_flow: bool,
    /// Auto-detect entry points (main, test functions, etc.)
    pub auto_detect_entries: bool,
    /// Manual entry point symbols
    pub manual_entry_points: Vec<String>,
}

/// Every part enabled, no manual entry point.
pub open spec fn all_parts(o: InterproceduralOptions) -> bool {
    &&& o.summary_edges
    &&& o.reachability_analysis
    &&& o.exceptional_control_flow
    &&& o.auto_detect_entries
    &&& o.manual_entry_points@.len() == 0
}

/// The two options ask for the same analysis.
pub open spec fn same_options(a: InterproceduralOptions, b: InterproceduralOptions) -> bool {
    &&& a.summary_edges == b.summary_edges
    &&& a.reachability_analysis == b.reachability_analysis
    &&& a.exceptional_control_flow == b.exceptional_control_flow
    &&& a.auto_detect_entries == b.auto_detect_entries
    &&& a.manual_entry_points@ == b.manual_entry_points@
}

impl Default for InterproceduralOptions {
    fn default() -> (o: InterproceduralOptions)
        ensures
            all_parts(o),
    {
        InterproceduralOptions {
            summary_edges: true,
            reachability_analysis: true,
            exceptional_control_flow: true,
            auto_detect_entries: true,
            manual_entry_points: Vec::new(),
        }
    }
}

impl InterproceduralOptions {
    /// Create options with all features enabled.
    pub fn all_enabled() -> (o: InterproceduralOptions)
        ensures
            all_parts(o),
    {
        InterproceduralOptions::default()
    }

    /// Create options with only summary edges.
    pub fn summary_only() -> (o: InterproceduralOptions)
        ensures
            o.summary_edges,
            !o.reachability_analysis,
            !o.exceptional_control_flow,
            !o.auto_detect_entries,
            o.manual_entry_points@.len() == 0,
    {
        InterproceduralOptions {
            summary_edges: true,
            reachability_analysis: false,
            exceptional_control_flow: false,
            auto_detect_entries: false,
            manual_entry_points: Vec::new(),
        }
    }

    /// A copy of these options.
    pub fn duplicate(&self) -> (o: InterproceduralOptions)
        ensures
            same_options(o, *self),
    {
        let names = self.manual_entry_points.clone();
        assert(names@ =~= self.manual_entry_points@) by {
            assert forall|i: int| 0 <= i < names@.len() implies names@[i] == self.manual_entry_points@[i] by {
                assert(vstd::pervasive::cloned::<String>(self.manual_entry_points@[i], names@[i]));
            }
        }
        InterproceduralOptions {
            summary_edges: self.summary_edges,
            reachability_analysis: self.reachability_analysis,
            exceptional_control_flow: self.exceptional_control_flow,
            auto_detect_entries: self.auto_detect_entries,
            manual_entry_points: names,
        }
    }

    /// Add a manual entry point.
    pub fn with_entry_point(self, entry_symbol: String) -> (o: InterproceduralOptions)
        ensures
            o.manual_entry_points@ == self.manual_entry_points@.push(entry_symbol),
            o.summary_edges == self.summary_edges,
            o.reachability_analysis == self.reachability_analysis,
            o.exceptional_control_flow == self.exceptional_control_flow,
            o.auto_detect_entries == self.auto_detect_entries,
    {
        let mut o = self;
        o.manual_entry_points.push(entry_symbol);
        o
    }
}

// ---------------------------------------------------------------------------
// What the analysis finds
// ---------------------------------------------------------------------------

/// A program entry point and why it is one.
#[derive(Debug, Clone)]
pub struct EntryPoint {
    pub symbol: String,
    pub reason: String,
}

/// A resolved call from one analysed function to another.
#[derive(Debug, Clone)]
pub struct InterproceduralEdge {
    pub caller: String,
    pub callee: String,
    /// The position of the call among the call graph's edges.
    pub call_site: usize,
}

/// What is known of a call site that joins two analysed functions.
#[derive(Debug, Clone)]
pub struct CallSiteSummary {
    pub call_site: usize,
    pub caller: String,
    pub callee: String,
    pub callee_expr_text: String,
}

/// Which entry points reach a function.
#[derive(Debug, Clone)]
pub struct ReachabilityInfo {
    pub symbol: String,
    pub reachable: bool,
    pub reached_from: Vec<String>,
}

/// An exception raised in `from` reaching its caller `to`.
#[derive(Debug, Clone)]
pub struct ExceptionalEdge {
    pub from: String,
    pub to: String,
}

/// The exit node of a function's graph.
#[derive(Debug, Clone)]
pub struct FunctionExit {
    pub symbol: String,
    pub exit_node: usize,
}

/// Results from interprocedural control flow analysis.
#[derive(Debug)]
pub struct InterproceduralResult {
    /// The graph of each analysed function, by symbol
    pub function_cfgs: Vec<(String, ControlFlowGraph)>,
    /// Summary edges between the functions
    pub interprocedural_edges: Vec<InterproceduralEdge>,
    /// Program entry points
    pub entry_points: Vec<EntryPoint>,
    /// Reachability of each function, in the order of `function_cfgs`
    pub reachability: Vec<ReachabilityInfo>,
    /// Call site summaries
    pub call_sites: Vec<CallSiteSummary>,
    /// Exceptional control flow edges
    pub exceptional_edges: Vec<ExceptionalEdge>,
    /// Function exit information
    pub function_exits: Vec<FunctionExit>,
}

/// Statistics for interprocedural analysis.
#[derive(Debug, Clone)]
pub struct InterproceduralStats {
    pub total_functions: usize,
    pub total_call_sites: usize,
    pub total_interprocedural_edges: usize,
    pub unreachable_functions: usize,
    pub exceptional_edges: usize,
    pub entry_points: usize,
}

// ---------------------------------------------------------------------------
// Functions and their graphs
// ---------------------------------------------------------------------------

/// The graph that stands for a function whose body is not rebuilt: an entry
/// node, an exit node and one edge between them.
pub open spec fn is_placeholder_cfg(g: ControlFlowGraph, function_name: Seq<char>) -> bool {
    &&& g.nodes@.len() == 2
    &&& g.nodes@[0].id == 0 && g.nodes@[0].label@ == "entry: "@ + function_name
    &&& g.nodes@[1].id == 1 && g.nodes@[1].label@ == "exit: "@ + function_name
    &&& g.edges@.len() == 1
    &&& g.edges@[0].from == 0 && g.edges@[0].to == 1 && g.edges@[0].kind@ == "flow"@
}

/// The two-node graph that stands for a function.
pub fn create_placeholder_cfg(function_name: &str) -> (g: ControlFlowGraph)
    ensures
        is_placeholder_cfg(g, function_name@),
{
    let entry = CfgNode { id: 0, label: concat2("entry: ", function_name) };
    let exit = CfgNode { id: 1, label: concat2("exit: ", function_name) };
    let edge = CfgEdge { from: 0, to: 1, kind: copy_str("flow") };
    ControlFlowGraph { nodes: vec![entry, exit], edges: vec![edge] }
}

/// The id of the first symbol called `name`.
pub open spec fn symbol_of(symbols: Seq<TopLevelSymbol>, name: Seq<char>) -> Option<Seq<char>> {
    match first_from(symbols, symbol_named(name), 0) {
        Some(i) => Some(symbols[i].id@),
        None => None,
    }
}

/// The symbols of the functions found, each once, in the order found; a
/// function without a symbol is left out.
pub open spec fn function_symbols(symbols: Seq<TopLevelSymbol>, spans: Seq<FunctionSpan>) -> Seq<(Seq<char>, Seq<char>)>
    decreases spans.len(),
{
    if spans.len() == 0 {
        Seq::empty()
    } else {
        let d = function_symbols(symbols, spans.drop_last());
        match symbol_of(symbols, spans.last().function@) {
            Some(id) => if d.map_values(|p: (Seq<char>, Seq<char>)| p.0).contains(id) {
                d
            } else {
                d.push((id, spans.last().function@))
            },
            None => d,
        }
    }
}

/// The symbol ids of `fs`.
pub open spec fn ids_of(fs: Seq<(Seq<char>, Seq<char>)>) -> Seq<Seq<char>> {
    fs.map_values(|p: (Seq<char>, Seq<char>)| p.0)
}

// ---------------------------------------------------------------------------
// Summary edges and entry points
// ---------------------------------------------------------------------------

/// The calls among `edges` that join two of the functions `fns`: caller,
/// callee and the call's position.
pub open spec fn summary_edges(fns: Seq<Seq<char>>, edges: Seq<CallEdge>) -> Seq<(Seq<char>, Seq<char>, int)>
    decreases edges.len(),
{
    if edges.len() == 0 {
        Seq::empty()
    } else {
        let rest = summary_edges(fns, edges.drop_last());
        let e = edges.last();
        match e.callee {
            Some(c) => if fns.contains(e.caller@) && fns.contains(c@) {
                rest.push((e.caller@, c@, edges.len() - 1))
            } else {
                rest
            },
            None => rest,
        }
    }
}

/// The symbols among `ids` that have a graph, each with `reason`.
pub open spec fn entries_for(ids: Seq<Seq<char>>, fns: Seq<Seq<char>>, reason: Seq<char>) -> Seq<(Seq<char>, Seq<char>)>
    decreases ids.len(),
{
    if ids.len() == 0 {
        Seq::empty()
    } else {
        let r = entries_for(ids.drop_last(), fns, reason);
        if fns.contains(ids.last()) {
            r.push((ids.last(), reason))
        } else {
            r
        }
    }
}

/// The name prefixes of the entry points found on their own, in the order searched.
pub open spec fn entry_patterns() -> Seq<Seq<char>> {
    seq!["main"@, "test_"@, "bench_"@]
}

/// Why a function with the `k`-th prefix is an entry point.
pub open spec fn entry_reasons() -> Seq<Seq<char>> {
    seq!["Main function"@, "Test function"@, "Benchmark function"@]
}

/// The entry points found with the prefixes from the `k`-th on.
pub open spec fn auto_entries_from(symbols: Seq<TopLevelSymbol>, fns: Seq<Seq<char>>, k: int) -> Seq<(Seq<char>, Seq<char>)>
    decreases 3 - k,
{
    if k < 0 || k >= 3 {
        Seq::empty()
    } else {
        entries_for(
            symbol_ids(symbols.filter(symbol_name_starts(entry_patterns()[k]))),
            fns,
            entry_reasons()[k],
        ) + auto_entries_from(symbols, fns, k + 1)
    }
}

/// The message when an entry point names a function without a graph.
pub open spec fn missing_cfg_message(id: Seq<char>) -> Seq<char> {
    "Function CFG not found: "@ + id
}

/// The entry points named by hand; names without a symbol are skipped, and a
/// symbol without a graph is an error, given as its message.
pub open spec fn manual_entries(symbols: Seq<TopLevelSymbol>, fns: Seq<Seq<char>>, names: Seq<Seq<char>>) -> Result<Seq<(Seq<char>, Seq<char>)>, Seq<char>>
    decreases names.len(),
{
    if names.len() == 0 {
        Ok(Seq::empty())
    } else {
        match manual_entries(symbols, fns, names.drop_last()) {
            Err(m) => Err(m),
            Ok(r) => match symbol_of(symbols, names.last()) {
                None => Ok(r),
                Some(id) => if fns.contains(id) {
                    Ok(r.push((id, "Manual entry point: "@ + names.last())))
                } else {
                    Err(missing_cfg_message(id))
                },
            },
        }
    }
}

// ---------------------------------------------------------------------------
// Reachability
// ---------------------------------------------------------------------------

/// Equal to `x`.
pub open spec fn equals(x: Seq<char>) -> spec_fn(Seq<char>) -> bool {
    |y: Seq<char>| y == x
}

/// The position of `id` among `fns`.
pub open spec fn index_in(fns: Seq<Seq<char>>, id: Seq<char>) -> int {
    match first_from(fns, equals(id), 0) {
        Some(i) => i,
        None => 0,
    }
}

/// The summary edges as edges between positions of `fns`.
pub open spec fn index_edges(fns: Seq<Seq<char>>, se: Seq<(Seq<char>, Seq<char>, int)>) -> Seq<(usize, usize)> {
    se.map_values(|e: (Seq<char>, Seq<char>, int)| (index_in(fns, e.0) as usize, index_in(fns, e.1) as usize))
}

/// The entry points among `entries` from which the `v`-th function is reached.
pub open spec fn reaching(
    entries: Seq<Seq<char>>,
    fns: Seq<Seq<char>>,
    se: Seq<(Seq<char>, Seq<char>, int)>,
    v: int,
) -> Seq<Seq<char>>
    decreases entries.len(),
{
    if entries.len() == 0 {
        Seq::empty()
    } else {
        let r = reaching(entries.drop_last(), fns, se, v);
        if reachable(index_edges(fns, se), index_in(fns, entries.last()), v) {
            r.push(entries.last())
        } else {
            r
        }
    }
}

/// Every summary edge joins two of `fns`, at a position of `edges`.
pub proof fn lemma_summary_edges_within(fns: Seq<Seq<char>>, edges: Seq<CallEdge>)
    ensures
        forall|k: int|
            0 <= k < summary_edges(fns, edges).len() ==> fns.contains(
                #[trigger] summary_edges(fns, edges)[k].0,
            ) && fns.contains(summary_edges(fns, edges)[k].1) && 0 <= summary_edges(fns, edges)[k].2
                < edges.len(),
    decreases edges.len(),
{
    if edges.len() > 0 {
        lemma_summary_edges_within(fns, edges.drop_last());
        let rest = summary_edges(fns, edges.drop_last());
        let r = summary_edges(fns, edges);
        assert forall|k: int| 0 <= k < r.len() implies fns.contains(#[trigger] r[k].0) && fns.contains(
            r[k].1,
        ) && 0 <= r[k].2 < edges.len() by {
            if k < rest.len() {
                assert(r[k] == rest[k]);
            }
        }
    }
}

/// Every entry point found on its own has a graph.
pub proof fn lemma_entries_for_within(ids: Seq<Seq<char>>, fns: Seq<Seq<char>>, reason: Seq<char>)
    ensures
        forall|k: int|
            0 <= k < entries_for(ids, fns, reason).len() ==> fns.contains(
                #[trigger] entries_for(ids, fns, reason)[k].0,
            ),
    decreases ids.len(),
{
    if ids.len() > 0 {
        lemma_entries_for_within(ids.drop_last(), fns, reason);
        let rest = entries_for(ids.drop_last(), fns, reason);
        let r = entries_for(ids, fns, reason);
        assert forall|k: int| 0 <= k < r.len() implies fns.contains(#[trigger] r[k].0) by {
            if k < rest.len() {
                assert(r[k] == rest[k]);
            }
        }
    }
}

pub proof fn lemma_auto_entries_within(symbols: Seq<TopLevelSymbol>, fns: Seq<Seq<char>>, k: int)
    ensures
        forall|j: int|
            0 <= j < auto_entries_from(symbols, fns, k).len() ==> fns.contains(
                #[trigger] auto_entries_from(symbols, fns, k)[j].0,
            ),
    decreases 3 - k,
{
    if 0 <= k < 3 {
        let ids = symbol_ids(symbols.filter(symbol_name_starts(entry_patterns()[k])));
        lemma_entries_for_within(ids, fns, entry_reasons()[k]);
        lemma_auto_entries_within(symbols, fns, k + 1);
        let a = entries_for(ids, fns, entry_reasons()[k]);
        let b = auto_entries_from(symbols, fns, k + 1);
        assert forall|j: int| 0 <= j < (a + b).len() implies fns.contains(#[trigger] (a + b)[j].0) by {
            if j < a.len() {
                assert((a + b)[j] == a[j]);
            } else {
                assert((a + b)[j] == b[j - a.len()]);
            }
        }
    }
}

proof fn lemma_entries_for_contains(ids: Seq<Seq<char>>, fns: Seq<Seq<char>>, reason: Seq<char>, x: Seq<char>)
    requires
        ids.contains(x),
        fns.contains(x),
    ensures
        entries_for(ids, fns, reason).contains((x, reason)),
    decreases ids.len(),
{
    let r = entries_for(ids.drop_last(), fns, reason);
    if ids.last() == x {
        assert(entries_for(ids, fns, reason) == r.push((x, reason)));
        assert(entries_for(ids, fns, reason)[r.len() as int] == (x, reason));
    } else {
        let j = choose|j: int| 0 <= j < ids.len() && ids[j] == x;
        assert(ids.drop_last()[j] == x);
        lemma_entries_for_contains(ids.drop_last(), fns, reason, x);
        let k = choose|k: int| 0 <= k < r.len() && r[k] == (x, reason);
        if fns.contains(ids.last()) {
            assert(entries_for(ids, fns, reason)[k] == (x, reason));
        }
    }
}

/// The `i`-th symbol, when its name starts with `prefix` and its function has
/// a graph, is found among the entries for `prefix`.
proof fn lemma_found_by_prefix(symbols: Seq<TopLevelSymbol>, fns: Seq<Seq<char>>, prefix: Seq<char>, reason: Seq<char>, i: int)
    requires
        0 <= i < symbols.len(),
        starts_with(symbols[i].name@, prefix),
        fns.contains(symbols[i].id@),
    ensures
        entries_for(symbol_ids(symbols.filter(symbol_name_starts(prefix))), fns, reason).contains(
            (symbols[i].id@, reason),
        ),
{
    let f = symbols.filter(symbol_name_starts(prefix));
    symbols.lemma_filter_contains(symbol_name_starts(prefix), i);
    let j = choose|j: int| 0 <= j < f.len() && f[j] == symbols[i];
    assert(symbol_ids(f)[j] == symbols[i].id@);
    lemma_entries_for_contains(symbol_ids(f), fns, reason, symbols[i].id@);
}

/// Entry points are found on their own: with auto-detection on, every
/// function that has a graph and whose symbol's name starts with `main`,
/// `test_` or `bench_` is an entry point, with the reason `Main function`,
/// `Test function` or `Benchmark function` that its prefix gives.
pub proof fn lemma_auto_detected_entry_points(
    r: Result<InterproceduralResult, NTreeError>,
    ar: AnalysisResult,
    o: InterproceduralOptions,
    i: int,
)
    requires
        interprocedural_outcome(r, ar, o),
        r is Ok,
        o.auto_detect_entries,
        0 <= i < ar.symbol_store.symbols@.len(),
        ids_of(function_symbols(ar.symbol_store.symbols@, ar.function_data@)).contains(
            ar.symbol_store.symbols@[i].id@,
        ),
    ensures
        ({
            let s = ar.symbol_store.symbols@[i];
            let entries = entry_views(r->Ok_0.entry_points@);
            &&& starts_with(s.name@, "main"@) ==> entries.contains((s.id@, "Main function"@))
            &&& starts_with(s.name@, "test_"@) ==> entries.contains((s.id@, "Test function"@))
            &&& starts_with(s.name@, "bench_"@) ==> entries.contains((s.id@, "Benchmark function"@))
        }),
{
    let symbols = ar.symbol_store.symbols@;
    let s = symbols[i];
    let fns = ids_of(function_symbols(symbols, ar.function_data@));
    let manual = manual_entries(symbols, fns, string_views(o.manual_entry_points@))->Ok_0;
    let res = r->Ok_0;
    let e0 = entries_for(symbol_ids(symbols.filter(symbol_name_starts(entry_patterns()[0]))), fns, entry_reasons()[0]);
    let e1 = entries_for(symbol_ids(symbols.filter(symbol_name_starts(entry_patterns()[1]))), fns, entry_reasons()[1]);
    let e2 = entries_for(symbol_ids(symbols.filter(symbol_name_starts(entry_patterns()[2]))), fns, entry_reasons()[2]);
    assert(auto_entries_from(symbols, fns, 3) == Seq::<(Seq<char>, Seq<char>)>::empty());
    assert(auto_entries_from(symbols, fns, 2) == e2 + auto_entries_from(symbols, fns, 3));
    assert(auto_entries_from(symbols, fns, 1) == e1 + auto_entries_from(symbols, fns, 2));
    assert(auto_entries_from(symbols, fns, 0) == e0 + auto_entries_from(symbols, fns, 1));
    let auto = auto_entries_from(symbols, fns, 0);
    assert(auto =~= e0 + (e1 + (e2 + Seq::<(Seq<char>, Seq<char>)>::empty())));
    let entries = entry_views(res.entry_points@);
    assert(entries == auto + manual);
    if starts_with(s.name@, "main"@) {
        lemma_found_by_prefix(symbols, fns, "main"@, "Main function"@, i);
        let k = choose|k: int| 0 <= k < e0.len() && e0[k] == (s.id@, "Main function"@);
        assert(entries[k] == (s.id@, "Main function"@));
    }
    if starts_with(s.name@, "test_"@) {
        lemma_found_by_prefix(symbols, fns, "test_"@, "Test function"@, i);
        let k = choose|k: int| 0 <= k < e1.len() && e1[k] == (s.id@, "Test function"@);
        assert(entries[e0.len() + k] == (s.id@, "Test function"@));
    }
    if starts_with(s.name@, "bench_"@) {
        lemma_found_by_prefix(symbols, fns, "bench_"@, "Benchmark function"@, i);
        let k = choose|k: int| 0 <= k < e2.len() && e2[k] == (s.id@, "Benchmark function"@);
        assert(entries[e0.len() + e1.len() + k] == (s.id@, "Benchmark function"@));
    }
}

/// Every entry point named by hand that is accepted has a graph.
pub proof fn lemma_manual_entries_within(symbols: Seq<TopLevelSymbol>, fns: Seq<Seq<char>>, names: Seq<Seq<char>>)
    ensures
        manual_entries(symbols, fns, names) matches Ok(r) ==> forall|k: int|
            0 <= k < r.len() ==> fns.contains(#[trigger] r[k].0),
    decreases names.len(),
{
    if names.len() > 0 {
        lemma_manual_entries_within(symbols, fns, names.drop_last());
        if let Ok(r) = manual_entries(symbols, fns, names) {
            if let Ok(rest) = manual_entries(symbols, fns, names.drop_last()) {
                assert forall|k: int| 0 <= k < r.len() implies fns.contains(#[trigger] r[k].0) by {
                    if k < rest.len() {
                        assert(r[k] == rest[k]);
                    }
                }
            }
        }
    }
}

/// The pairs of strings `v` holds.
pub open spec fn pair_views(v: Seq<(String, String)>) -> Seq<(Seq<char>, Seq<char>)> {
    v.map_values(|p: (String, String)| (p.0@, p.1@))
}

/// The symbols of the functions found, as `function_symbols` states them.
fn collect_functions(store: &SymbolStore, spans: &Vec<FunctionSpan>) -> (fs: Vec<(String, String)>)
    ensures
        pair_views(fs@) == function_symbols(store.symbols@, spans@),
{
    let mut fs: Vec<(String, String)> = Vec::new();
    let mut ids: Vec<String> = Vec::new();
    let mut i: usize = 0;
    while i < spans.len()
        invariant
            i <= spans@.len(),
            pair_views(fs@) == function_symbols(store.symbols@, spans@.take(i as int)),
            string_views(ids@) == ids_of(pair_views(fs@)),
        decreases spans.len() - i,
    {
        assert(spans@.take(i + 1).drop_last() == spans@.take(i as int));
        assert(spans@.take(i + 1).last() == spans@[i as int]);
        let name = spans[i].function.as_str();
        match store.find_by_name(name) {
            Ok(id) => {
                let id_chars = crate::text::chars_of(id.as_str());
                if !crate::certs::holds_entry(&ids, &id_chars) {
                    let ghost f0 = pair_views(fs@);
                    let ghost i0 = string_views(ids@);
                    ids.push(copy_str(id.as_str()));
                    fs.push((id, copy_str(name)));
                    assert(pair_views(fs@) == f0.push((id_chars@, name@)));
                    assert(string_views(ids@) == i0.push(id_chars@));
                    assert(ids_of(pair_views(fs@)) == ids_of(f0).push(id_chars@));
                }
            },
            Err(_) => {},
        }
        i = i + 1;
    }
    assert(spans@.take(spans@.len() as int) == spans@);
    fs
}

/// The summary edge `e` is the `k`-th of `se`.
pub open spec fn edge_is(e: InterproceduralEdge, s: (Seq<char>, Seq<char>, int)) -> bool {
    e.caller@ == s.0 && e.callee@ == s.1 && e.call_site == s.2
}

/// The call site summary of the summary edge `s` among `edges`.
pub open spec fn site_is(c: CallSiteSummary, s: (Seq<char>, Seq<char>, int), edges: Seq<CallEdge>) -> bool {
    &&& c.call_site == s.2
    &&& c.caller@ == s.0
    &&& c.callee@ == s.1
    &&& c.callee_expr_text@ == edges[s.2].callee_expr_text@
}

/// The summary edges between the functions `ids` and their call sites, as
/// `summary_edges` states them.
fn collect_summary_edges(ids: &Vec<String>, edges: &[CallEdge]) -> (r: (Vec<InterproceduralEdge>, Vec<CallSiteSummary>))
    ensures
        r.0@.len() == summary_edges(string_views(ids@), edges@).len(),
        r.1@.len() == summary_edges(string_views(ids@), edges@).len(),
        forall|k: int|
            0 <= k < r.0@.len() ==> edge_is(#[trigger] r.0@[k], summary_edges(string_views(ids@), edges@)[k]),
        forall|k: int|
            0 <= k < r.1@.len() ==> site_is(
                #[trigger] r.1@[k],
                summary_edges(string_views(ids@), edges@)[k],
                edges@,
            ),
{
    let ghost fns = string_views(ids@);
    let mut se: Vec<InterproceduralEdge> = Vec::new();
    let mut sites: Vec<CallSiteSummary> = Vec::new();
    let mut i: usize = 0;
    while i < edges.len()
        invariant
            i <= edges@.len(),
            fns == string_views(ids@),
            se@.len() == summary_edges(fns, edges@.take(i as int)).len(),
            sites@.len() == se@.len(),
            forall|k: int|
                0 <= k < se@.len() ==> edge_is(#[trigger] se@[k], summary_edges(fns, edges@.take(i as int))[k]),
            forall|k: int|
                0 <= k < sites@.len() ==> site_is(
                    #[trigger] sites@[k],
                    summary_edges(fns, edges@.take(i as int))[k],
                    edges@,
                ),
        decreases edges.len() - i,
    {
        proof {
            lemma_summary_edges_within(fns, edges@.take(i as int));
        }
        let ghost before = summary_edges(fns, edges@.take(i as int));
        assert(edges@.take(i + 1).drop_last() == edges@.take(i as int));
        assert(edges@.take(i + 1).last() == edges@[i as int]);
        let e = &edges[i];
        match &e.callee {
            Some(c) => {
                let caller = crate::text::chars_of(e.caller.as_str());
                let callee = crate::text::chars_of(c.as_str());
                if crate::certs::holds_entry(ids, &caller) && crate::certs::holds_entry(ids, &callee) {
                    se.push(InterproceduralEdge { caller: copy_str(e.caller.as_str()), callee: copy_str(c.as_str()), call_site: i });
                    sites.push(CallSiteSummary {
                        call_site: i,
                        caller: copy_str(e.caller.as_str()),
                        callee: copy_str(c.as_str()),
                        callee_expr_text: copy_str(e.callee_expr_text.as_str()),
                    });
                    proof {
                        let after = summary_edges(fns, edges@.take(i + 1));
                        assert(after == before.push((caller@, callee@, i as int)));
                        assert forall|k: int| 0 <= k < se@.len() implies edge_is(#[trigger] se@[k], after[k]) by {
                            if k < before.len() {
                                assert(after[k] == before[k]);
                            }
                        }
                        assert forall|k: int| 0 <= k < sites@.len() implies site_is(#[trigger] sites@[k], after[k], edges@) by {
                            if k < before.len() {
                                assert(after[k] == before[k]);
                            }
                        }
                    }
                }
            },
            None => {},
        }
        i = i + 1;
    }
    assert(edges@.take(edges@.len() as int) == edges@);
    (se, sites)
}

/// The entry points of `v`, as pairs of symbol and reason.
pub open spec fn entry_views(v: Seq<EntryPoint>) -> Seq<(Seq<char>, Seq<char>)> {
    v.map_values(|e: EntryPoint| (e.symbol@, e.reason@))
}

fn entry_pattern_exec(k: usize) -> (r: (&'static str, &'static str))
    requires
        k < 3,
    ensures
        r.0@ == entry_patterns()[k as int],
        r.1@ == entry_reasons()[k as int],
{
    if k == 0 {
        ("main", "Main function")
    } else if k == 1 {
        ("test_", "Test function")
    } else {
        ("bench_", "Benchmark function")
    }
}

/// Adds the entry points found on their own, as `auto_entries_from` states them.
fn add_auto_detected_entries(entries: &mut Vec<EntryPoint>, ids: &Vec<String>, store: &SymbolStore)
    ensures
        entry_views(final(entries)@) == entry_views(old(entries)@) + auto_entries_from(
            store.symbols@,
            string_views(ids@),
            0,
        ),
{
    let ghost fns = string_views(ids@);
    let ghost e0 = entry_views(entries@);
    let mut k: usize = 0;
    assert(e0 + auto_entries_from(store.symbols@, fns, 0) == e0 + auto_entries_from(store.symbols@, fns, 0));
    assert(entry_views(entries@) + auto_entries_from(store.symbols@, fns, 0) =~= e0 + auto_entries_from(store.symbols@, fns, 0));
    while k < 3
        invariant
            k <= 3,
            fns == string_views(ids@),
            entry_views(entries@) + auto_entries_from(store.symbols@, fns, k as int) == e0
                + auto_entries_from(store.symbols@, fns, 0),
        decreases 3 - k,
    {
        let (pattern, reason) = entry_pattern_exec(k);
        let found = match store.find_symbols_matching(pattern) {
            Ok(v) => v,
            Err(_) => Vec::new(),
        };
        let ghost found_ids = symbol_ids(store.symbols@.filter(symbol_name_starts(pattern@)));
        assert(string_views(found@) == found_ids);
        let ghost start = entry_views(entries@);
        let mut j: usize = 0;
        while j < found.len()
            invariant
                j <= found@.len(),
                fns == string_views(ids@),
                string_views(found@) == found_ids,
                reason@ == entry_reasons()[k as int],
                entry_views(entries@) == start + entries_for(found_ids.take(j as int), fns, reason@),
            decreases found.len() - j,
        {
            assert(found_ids.take(j + 1).drop_last() == found_ids.take(j as int));
            assert(found_ids.take(j + 1).last() == found@[j as int]@);
            let id = crate::text::chars_of(found[j].as_str());
            if crate::certs::holds_entry(ids, &id) {
                let ghost before = entry_views(entries@);
                entries.push(EntryPoint { symbol: copy_str(found[j].as_str()), reason: copy_str(reason) });
                assert(entry_views(entries@) == before.push((id@, reason@)));
            }
            j = j + 1;
        }
        assert(found_ids.take(found@.len() as int) == found_ids);
        assert(auto_entries_from(store.symbols@, fns, k as int) == entries_for(found_ids, fns, reason@)
            + auto_entries_from(store.symbols@, fns, k + 1));
        assert(entry_views(entries@) + auto_entries_from(store.symbols@, fns, k + 1) =~= start + auto_entries_from(store.symbols@, fns, k as int));
        k = k + 1;
    }
    assert(auto_entries_from(store.symbols@, fns, 3) == Seq::<(Seq<char>, Seq<char>)>::empty());
    assert(entry_views(entries@) =~= entry_views(entries@) + auto_entries_from(store.symbols@, fns, 3));
}

/// Adds the entry points named by hand, as `manual_entries` states them; the
/// first name whose symbol has no graph stops with an error.
fn add_manual_entries(entries: &mut Vec<EntryPoint>, ids: &Vec<String>, store: &SymbolStore, names: &Vec<String>) -> (r: Result<(), NTreeError>)
    ensures
        match manual_entries(store.symbols@, string_views(ids@), string_views(names@)) {
            Ok(m) => r is Ok && entry_views(final(entries)@) == entry_views(old(entries)@) + m,
            Err(msg) => r matches Err(NTreeError::InvalidInput(e)) && e@ == msg,
        },
{
    let ghost fns = string_views(ids@);
    let ghost ns = string_views(names@);
    let ghost e0 = entry_views(entries@);
    let mut i: usize = 0;
    assert(e0 + Seq::<(Seq<char>, Seq<char>)>::empty() == e0);
    while i < names.len()
        invariant
            i <= names@.len(),
            fns == string_views(ids@),
            ns == string_views(names@),
            manual_entries(store.symbols@, fns, ns.take(i as int)) matches Ok(m) && entry_views(entries@)
                == e0 + m,
        decreases names.len() - i,
    {
        assert(ns.take(i + 1).drop_last() == ns.take(i as int));
        assert(ns.take(i + 1).last() == names@[i as int]@);
        let ghost m0 = manual_entries(store.symbols@, fns, ns.take(i as int))->Ok_0;
        match store.find_by_name(names[i].as_str()) {
            Ok(id) => {
                let id_chars = crate::text::chars_of(id.as_str());
                if crate::certs::holds_entry(ids, &id_chars) {
                    let ghost before = entry_views(entries@);
                    entries.push(EntryPoint { symbol: id, reason: concat2("Manual entry point: ", names[i].as_str()) });
                    assert(entry_views(entries@) == before.push((id_chars@, "Manual entry point: "@ + names@[i as int]@)));
                    assert(e0 + m0.push((id_chars@, "Manual entry point: "@ + names@[i as int]@)) == (e0 + m0).push((id_chars@, "Manual entry point: "@ + names@[i as int]@)));
                } else {
                    proof {
                        lemma_prefix_error(store.symbols@, fns, ns, i as int + 1);
                    }
                    return Err(NTreeError::InvalidInput(concat2("Function CFG not found: ", id.as_str())));
                }
            },
            Err(_) => {},
        }
        i = i + 1;
    }
    assert(ns.take(names@.len() as int) == ns);
    Ok(())
}

/// An error for the first names stays the error for all of them.
pub proof fn lemma_prefix_error(symbols: Seq<TopLevelSymbol>, fns: Seq<Seq<char>>, names: Seq<Seq<char>>, i: int)
    requires
        0 <= i <= names.len(),
        manual_entries(symbols, fns, names.take(i)) is Err,
    ensures
        manual_entries(symbols, fns, names) == manual_entries(symbols, fns, names.take(i)),
    decreases names.len() - i,
{
    if i < names.len() {
        assert(names.take(i + 1).drop_last() == names.take(i));
        lemma_prefix_error(symbols, fns, names, i + 1);
    } else {
        assert(names.take(i) == names);
    }
}

/// The position of `id`, which `ids` holds, as `index_in` states it.
fn index_of(ids: &Vec<String>, id: &[char]) -> (r: usize)
    requires
        string_views(ids@).contains(id@),
    ensures
        r == index_in(string_views(ids@), id@),
        r < ids@.len(),
{
    let ghost fns = string_views(ids@);
    let ghost p = equals(id@);
    proof {
        lemma_first_from(fns, p, 0);
        let w = choose|w: int| 0 <= w < fns.len() && fns[w] == id@;
        assert(p(fns[w]));
    }
    let mut i: usize = 0;
    while i < ids.len()
        invariant
            i <= ids@.len(),
            fns == string_views(ids@),
            p == equals(id@),
            forall|j: int| 0 <= j < i ==> !p(fns[j]),
            first_from(fns, p, 0) matches Some(k) && i <= k < fns.len() && p(fns[k]) && forall|j: int|
                0 <= j < k ==> !p(fns[j]),
        decreases ids.len() - i,
    {
        let c = crate::text::chars_of(ids[i].as_str());
        if crate::text::chars_eq(&c, id) {
            assert(p(fns[i as int]));
            return i;
        }
        i = i + 1;
    }
    0
}

/// The reachability of each function from the entry points `entries` over
/// the summary edges `se`.
pub open spec fn reachability_is(
    r: Seq<ReachabilityInfo>,
    fns: Seq<Seq<char>>,
    se: Seq<(Seq<char>, Seq<char>, int)>,
    entries: Seq<Seq<char>>,
) -> bool {
    &&& r.len() == fns.len()
    &&& forall|v: int|
        0 <= v < r.len() ==> {
            &&& (#[trigger] r[v]).symbol@ == fns[v]
            &&& string_views(r[v].reached_from@) == reaching(first_occurrences(entries), fns, se, v)
            &&& r[v].reachable == (r[v].reached_from@.len() > 0)
        }
}

fn distinct_symbols(entries: &Vec<EntryPoint>) -> (r: Vec<String>)
    ensures
        string_views(r@) == first_occurrences(entry_views(entries@).map_values(|p: (Seq<char>, Seq<char>)| p.0)),
{
    let ghost syms = entry_views(entries@).map_values(|p: (Seq<char>, Seq<char>)| p.0);
    let mut r: Vec<String> = Vec::new();
    let mut i: usize = 0;
    while i < entries.len()
        invariant
            i <= entries@.len(),
            syms == entry_views(entries@).map_values(|p: (Seq<char>, Seq<char>)| p.0),
            string_views(r@) == first_occurrences(syms.take(i as int)),
        decreases entries.len() - i,
    {
        assert(syms.take(i + 1).drop_last() == syms.take(i as int));
        assert(syms.take(i + 1).last() == entries@[i as int].symbol@);
        let c = crate::text::chars_of(entries[i].symbol.as_str());
        if !crate::certs::holds_entry(&r, &c) {
            let ghost before = string_views(r@);
            r.push(copy_str(entries[i].symbol.as_str()));
            assert(string_views(r@) == before.push(c@));
        }
        i = i + 1;
    }
    assert(syms.take(entries@.len() as int) == syms);
    r
}

/// The summary edges as edges between positions of `ids`.
fn index_summary_edges(ids: &Vec<String>, se: &Vec<InterproceduralEdge>) -> (idx: Vec<(usize, usize)>)
    requires
        forall|k: int| 0 <= k < se@.len() ==> string_views(ids@).contains(#[trigger] se@[k].caller@)
            && string_views(ids@).contains(se@[k].callee@),
    ensures
        idx@ == index_edges(
            string_views(ids@),
            se@.map_values(|e: InterproceduralEdge| (e.caller@, e.callee@, e.call_site as int)),
        ),
        edges_within(idx@, ids@.len() as int),
{
    let ghost fns = string_views(ids@);
    let ghost sev = se@.map_values(|e: InterproceduralEdge| (e.caller@, e.callee@, e.call_site as int));
    let mut idx: Vec<(usize, usize)> = Vec::new();
    let mut k: usize = 0;
    while k < se.len()
        invariant
            k <= se@.len(),
            fns == string_views(ids@),
            sev == se@.map_values(|e: InterproceduralEdge| (e.caller@, e.callee@, e.call_site as int)),
            forall|j: int| 0 <= j < se@.len() ==> string_views(ids@).contains(#[trigger] se@[j].caller@)
                && string_views(ids@).contains(se@[j].callee@),
            idx@ == index_edges(fns, sev).take(k as int),
            forall|j: int| 0 <= j < idx@.len() ==> (#[trigger] idx@[j]).0 < ids@.len() && idx@[j].1 < ids@.len(),
        decreases se.len() - k,
    {
        let a = index_of(ids, &crate::text::chars_of(se[k].caller.as_str()));
        let b = index_of(ids, &crate::text::chars_of(se[k].callee.as_str()));
        idx.push((a, b));
        assert(index_edges(fns, sev).take(k + 1) == index_edges(fns, sev).take(k as int).push((a, b)));
        k = k + 1;
    }
    assert(index_edges(fns, sev).take(se@.len() as int) == index_edges(fns, sev));
    idx
}

/// Whether each function is reached from the entry points, over the summary edges.
fn compute_reachability(ids: &Vec<String>, se: &Vec<InterproceduralEdge>, entries: &Vec<EntryPoint>) -> (r: Vec<ReachabilityInfo>)
    requires
        forall|k: int| 0 <= k < se@.len() ==> string_views(ids@).contains(#[trigger] se@[k].caller@)
            && string_views(ids@).contains(se@[k].callee@),
        forall|k: int| 0 <= k < entries@.len() ==> string_views(ids@).contains(#[trigger] entries@[k].symbol@),
    ensures
        reachability_is(
            r@,
            string_views(ids@),
            se@.map_values(|e: InterproceduralEdge| (e.caller@, e.callee@, e.call_site as int)),
            entry_views(entries@).map_values(|p: (Seq<char>, Seq<char>)| p.0),
        ),
{
    let ghost fns = string_views(ids@);
    let ghost sev = se@.map_values(|e: InterproceduralEdge| (e.caller@, e.callee@, e.call_site as int));
    let ghost syms = entry_views(entries@).map_values(|p: (Seq<char>, Seq<char>)| p.0);
    let n = ids.len();
    let idx = index_summary_edges(ids, se);
    let ents = distinct_symbols(entries);
    let ghost es = first_occurrences(syms);
    proof {
        lemma_first_occurrences_within(syms, fns);
    }
    let mut seen: Vec<Vec<bool>> = Vec::new();
    let mut j: usize = 0;
    while j < ents.len()
        invariant
            j <= ents@.len(),
            n == ids@.len(),
            fns == string_views(ids@),
            string_views(ents@) == es,
            forall|x: int| 0 <= x < es.len() ==> fns.contains(#[trigger] es[x]),
            idx@ == index_edges(fns, sev),
            edges_within(idx@, n as int),
            seen@.len() == j,
            forall|x: int|
                0 <= x < j ==> (#[trigger] seen@[x])@.len() == n && forall|v: int|
                    0 <= v < n ==> (seen@[x]@[v] <==> reachable(idx@, index_in(fns, es[x]), v)),
        decreases ents.len() - j,
    {
        assert(es[j as int] == ents@[j as int]@);
        assert(fns.contains(es[j as int]));
        let e = index_of(ids, &crate::text::chars_of(ents[j].as_str()));
        let s = reachable_from(n, &idx, e);
        seen.push(s);
        j = j + 1;
    }
    let mut r: Vec<ReachabilityInfo> = Vec::new();
    let mut v: usize = 0;
    while v < n
        invariant
            v <= n,
            n == ids@.len(),
            fns == string_views(ids@),
            string_views(ents@) == es,
            idx@ == index_edges(fns, sev),
            seen@.len() == ents@.len(),
            forall|x: int|
                0 <= x < ents@.len() ==> (#[trigger] seen@[x])@.len() == n && forall|w: int|
                    0 <= w < n ==> (seen@[x]@[w] <==> reachable(idx@, index_in(fns, es[x]), w)),
            r@.len() == v,
            forall|w: int|
                0 <= w < v ==> {
                    &&& (#[trigger] r@[w]).symbol@ == fns[w]
                    &&& string_views(r@[w].reached_from@) == reaching(es, fns, sev, w)
                    &&& r@[w].reachable == (r@[w].reached_from@.len() > 0)
                },
        decreases n - v,
    {
        let mut from: Vec<String> = Vec::new();
        let mut x: usize = 0;
        while x < ents.len()
            invariant
                x <= ents@.len(),
                v < n,
                string_views(ents@) == es,
                idx@ == index_edges(fns, sev),
                seen@.len() == ents@.len(),
                forall|y: int|
                    0 <= y < ents@.len() ==> (#[trigger] seen@[y])@.len() == n && forall|w: int|
                        0 <= w < n ==> (seen@[y]@[w] <==> reachable(idx@, index_in(fns, es[y]), w)),
                string_views(from@) == reaching(es.take(x as int), fns, sev, v as int),
            decreases ents.len() - x,
        {
            assert(es.take(x + 1).drop_last() == es.take(x as int));
            assert(es.take(x + 1).last() == es[x as int]);
            let ghost before = string_views(from@);
            if seen[x][v] {
                from.push(copy_str(ents[x].as_str()));
                assert(string_views(from@) == before.push(es[x as int]));
            }
            x = x + 1;
        }
        assert(es.take(ents@.len() as int) == es);
        let reachable_now = from.len() > 0;
        r.push(ReachabilityInfo { symbol: copy_str(ids[v].as_str()), reachable: reachable_now, reached_from: from });
        v = v + 1;
    }
    r
}

/// Every element of `first_occurrences(s)` comes from `s`.
pub proof fn lemma_first_occurrences_within(s: Seq<Seq<char>>, fns: Seq<Seq<char>>)
    requires
        forall|k: int| 0 <= k < s.len() ==> fns.contains(#[trigger] s[k]),
    ensures
        forall|k: int| 0 <= k < first_occurrences(s).len() ==> fns.contains(#[trigger] first_occurrences(s)[k]),
    decreases s.len(),
{
    if s.len() > 0 {
        lemma_first_occurrences_within(s.drop_last(), fns);
        let d = first_occurrences(s.drop_last());
        let r = first_occurrences(s);
        assert forall|k: int| 0 <= k < r.len() implies fns.contains(#[trigger] r[k]) by {
            if k < d.len() {
                assert(r[k] == d[k]);
            } else {
                assert(r[k] == s.last());
                assert(s.last() == s[s.len() - 1]);
            }
        }
    }
}

// ---------------------------------------------------------------------------
// Building the interprocedural graph
// ---------------------------------------------------------------------------

/// `res` is the interprocedural graph of the functions `fs` (symbol and name),
/// with summary edges `se` among the calls `edges`, entry points `entries`,
/// and the parts that `o` enables.
pub open spec fn interprocedural_result(
    res: InterproceduralResult,
    fs: Seq<(Seq<char>, Seq<char>)>,
    se: Seq<(Seq<char>, Seq<char>, int)>,
    entries: Seq<(Seq<char>, Seq<char>)>,
    edges: Seq<CallEdge>,
    o: InterproceduralOptions,
) -> bool {
    let fns = ids_of(fs);
    &&& res.function_cfgs@.len() == fs.len()
    &&& forall|k: int|
        0 <= k < fs.len() ==> (#[trigger] res.function_cfgs@[k]).0@ == fs[k].0 && is_placeholder_cfg(
            res.function_cfgs@[k].1,
            fs[k].1,
        )
    &&& res.function_exits@.len() == fs.len()
    &&& forall|k: int|
        0 <= k < fs.len() ==> (#[trigger] res.function_exits@[k]).symbol@ == fs[k].0
            && res.function_exits@[k].exit_node == 1
    &&& res.interprocedural_edges@.len() == se.len()
    &&& forall|k: int| 0 <= k < se.len() ==> edge_is(#[trigger] res.interprocedural_edges@[k], se[k])
    &&& res.call_sites@.len() == se.len()
    &&& forall|k: int| 0 <= k < se.len() ==> site_is(#[trigger] res.call_sites@[k], se[k], edges)
    &&& entry_views(res.entry_points@) == entries
    &&& if o.reachability_analysis {
        reachability_is(res.reachability@, fns, se, entries.map_values(|p: (Seq<char>, Seq<char>)| p.0))
    } else {
        res.reachability@.len() == 0
    }
    &&& if o.exceptional_control_flow {
        &&& res.exceptional_edges@.len() == se.len()
        &&& forall|k: int|
            0 <= k < se.len() ==> (#[trigger] res.exceptional_edges@[k]).from@ == se[k].1
                && res.exceptional_edges@[k].to@ == se[k].0
    } else {
        res.exceptional_edges@.len() == 0
    }
}

/// The symbols that the reachability table holds, in order.
pub open spec fn reachability_symbols(r: Seq<ReachabilityInfo>) -> Seq<Seq<char>> {
    r.map_values(|i: ReachabilityInfo| i.symbol@)
}

/// The symbols that the graphs are kept under, in order.
pub open spec fn cfg_symbols(c: Seq<(String, ControlFlowGraph)>) -> Seq<Seq<char>> {
    c.map_values(|p: (String, ControlFlowGraph)| p.0@)
}

/// The symbols that the exits are kept under, in order.
pub open spec fn exit_symbols(e: Seq<FunctionExit>) -> Seq<Seq<char>> {
    e.map_values(|x: FunctionExit| x.symbol@)
}

/// The call sites that the summaries are kept under, in order.
pub open spec fn call_site_ids(c: Seq<CallSiteSummary>) -> Seq<usize> {
    c.map_values(|x: CallSiteSummary| x.call_site)
}

/// Each entry is kept once in the tables of `res` that are keyed: each
/// function's graph, exit and reachability under its symbol, each call
/// site's summary under its position.
pub open spec fn keys_unique(res: InterproceduralResult) -> bool {
    &&& cfg_symbols(res.function_cfgs@).no_duplicates()
    &&& exit_symbols(res.function_exits@).no_duplicates()
    &&& reachability_symbols(res.reachability@).no_duplicates()
    &&& call_site_ids(res.call_sites@).no_duplicates()
}

/// The summary edges come in the order of their calls, each call at most once.
pub proof fn lemma_summary_positions_increase(fns: Seq<Seq<char>>, edges: Seq<CallEdge>)
    ensures
        forall|i: int, j: int|
            0 <= i < j < summary_edges(fns, edges).len() ==> #[trigger] summary_edges(fns, edges)[i].2
                < #[trigger] summary_edges(fns, edges)[j].2,
    decreases edges.len(),
{
    if edges.len() > 0 {
        lemma_summary_positions_increase(fns, edges.drop_last());
        lemma_summary_edges_within(fns, edges.drop_last());
        let rest = summary_edges(fns, edges.drop_last());
        let r = summary_edges(fns, edges);
        assert forall|i: int, j: int| 0 <= i < j < r.len() implies #[trigger] r[i].2 < #[trigger] r[j].2 by {
            if j < rest.len() {
                assert(r[i] == rest[i] && r[j] == rest[j]);
            } else {
                assert(r[i] == rest[i]);
                assert(r[j].2 == edges.len() - 1);
                assert(fns.contains(rest[i].0));
                assert(rest[i].2 < edges.len() - 1);
            }
        }
    }
}

/// The functions found are kept each under their own symbol, once.
pub proof fn lemma_function_symbols_unique(symbols: Seq<TopLevelSymbol>, spans: Seq<FunctionSpan>)
    ensures
        ids_of(function_symbols(symbols, spans)).no_duplicates(),
    decreases spans.len(),
{
    if spans.len() > 0 {
        lemma_function_symbols_unique(symbols, spans.drop_last());
        let d = function_symbols(symbols, spans.drop_last());
        match symbol_of(symbols, spans.last().function@) {
            Some(id) => {
                if !ids_of(d).contains(id) {
                    let x = (id, spans.last().function@);
                    assert(ids_of(d.push(x)) =~= ids_of(d).push(id));
                    assert forall|i: int, j: int| 0 <= i < j < ids_of(d).push(id).len() implies
                        ids_of(d).push(id)[i] != ids_of(d).push(id)[j] by {
                        if j == ids_of(d).len() {
                            assert(ids_of(d).contains(ids_of(d)[i]));
                        }
                    }
                }
            },
            None => {},
        }
    }
}

/// A result built for functions kept once each holds each once in its tables.
pub proof fn lemma_result_keys_unique(
    res: InterproceduralResult,
    fs: Seq<(Seq<char>, Seq<char>)>,
    se: Seq<(Seq<char>, Seq<char>, int)>,
    entries: Seq<(Seq<char>, Seq<char>)>,
    edges: Seq<CallEdge>,
    o: InterproceduralOptions,
)
    requires
        interprocedural_result(res, fs, se, entries, edges, o),
        ids_of(fs).no_duplicates(),
        forall|i: int, j: int| 0 <= i < j < se.len() ==> #[trigger] se[i].2 < #[trigger] se[j].2,
    ensures
        keys_unique(res),
{
    assert forall|i: int, j: int| 0 <= i < j < res.call_sites@.len() implies
        call_site_ids(res.call_sites@)[i] != call_site_ids(res.call_sites@)[j] by {
        assert(site_is(res.call_sites@[i], se[i], edges));
        assert(site_is(res.call_sites@[j], se[j], edges));
    }
    assert(cfg_symbols(res.function_cfgs@) =~= ids_of(fs));
    assert(exit_symbols(res.function_exits@) =~= ids_of(fs));
    if o.reachability_analysis {
        assert(reachability_symbols(res.reachability@) =~= ids_of(fs));
    } else {
        assert(reachability_symbols(res.reachability@) =~= Seq::<Seq<char>>::empty());
    }
}

/// What the interprocedural analysis of the workspace result `ar` with
/// options `o` gives: the functions that have a symbol, each with its graph;
/// the summary edges when enabled; the entry points found by name prefix when
/// enabled, then those named by hand, where a named one without a graph is
/// an error; reachability and exceptional edges when enabled.
pub open spec fn interprocedural_outcome(r: Result<InterproceduralResult, NTreeError>, ar: AnalysisResult, o: InterproceduralOptions) -> bool {
    let symbols = ar.symbol_store.symbols@;
    let fs = function_symbols(symbols, ar.function_data@);
    let fns = ids_of(fs);
    let se = if o.summary_edges {
        summary_edges(fns, ar.call_graph.edges@)
    } else {
        Seq::empty()
    };
    let auto = if o.auto_detect_entries {
        auto_entries_from(symbols, fns, 0)
    } else {
        Seq::empty()
    };
    match manual_entries(symbols, fns, string_views(o.manual_entry_points@)) {
        Err(m) => r matches Err(NTreeError::InvalidInput(e)) && e@ == m,
        Ok(manual) => r matches Ok(res) && interprocedural_result(
            res,
            fs,
            se,
            auto + manual,
            ar.call_graph.edges@,
            o,
        ) && keys_unique(res),
    }
}

/// Builds the interprocedural graph of a workspace's analysis result.
pub fn build_interprocedural_cfg(workspace_result: &AnalysisResult, options: &InterproceduralOptions) -> (r: Result<InterproceduralResult, NTreeError>)
    ensures
        interprocedural_outcome(r, *workspace_result, *options),
{
    let store = &workspace_result.symbol_store;
    let fs = collect_functions(store, &workspace_result.function_data);
    let ghost fsv = pair_views(fs@);
    let mut ids: Vec<String> = Vec::new();
    let mut function_cfgs: Vec<(String, ControlFlowGraph)> = Vec::new();
    let mut function_exits: Vec<FunctionExit> = Vec::new();
    let mut i: usize = 0;
    while i < fs.len()
        invariant
            i <= fs@.len(),
            fsv == pair_views(fs@),
            string_views(ids@) == ids_of(fsv).take(i as int),
            function_cfgs@.len() == i,
            function_exits@.len() == i,
            forall|k: int|
                0 <= k < i ==> (#[trigger] function_cfgs@[k]).0@ == fsv[k].0 && is_placeholder_cfg(
                    function_cfgs@[k].1,
                    fsv[k].1,
                ),
            forall|k: int|
                0 <= k < i ==> (#[trigger] function_exits@[k]).symbol@ == fsv[k].0
                    && function_exits@[k].exit_node == 1,
        decreases fs.len() - i,
    {
        let ghost before = string_views(ids@);
        ids.push(copy_str(fs[i].0.as_str()));
        assert(string_views(ids@) == before.push(fs@[i as int].0@));
        assert(ids_of(fsv).take(i + 1) == ids_of(fsv).take(i as int).push(fsv[i as int].0));
        function_cfgs.push((copy_str(fs[i].0.as_str()), create_placeholder_cfg(fs[i].1.as_str())));
        function_exits.push(FunctionExit { symbol: copy_str(fs[i].0.as_str()), exit_node: 1 });
        i = i + 1;
    }
    assert(ids_of(fsv).take(fs@.len() as int) == ids_of(fsv));
    let ghost fns = ids_of(fsv);
    let edges = workspace_result.call_graph.get_all_call_edges();
    let (interprocedural_edges, call_sites) = if options.summary_edges {
        collect_summary_edges(&ids, edges)
    } else {
        (Vec::new(), Vec::new())
    };
    let ghost se = if options.summary_edges {
        summary_edges(fns, edges@)
    } else {
        Seq::empty()
    };
    let mut entry_points: Vec<EntryPoint> = Vec::new();
    if options.auto_detect_entries {
        add_auto_detected_entries(&mut entry_points, &ids, store);
    }
    let ghost auto = entry_views(entry_points@);
    match add_manual_entries(&mut entry_points, &ids, store, &options.manual_entry_points) {
        Ok(()) => {},
        Err(e) => return Err(e),
    }
    proof {
        assert(auto =~= if options.auto_detect_entries {
            auto_entries_from(store.symbols@, fns, 0)
        } else {
            Seq::<(Seq<char>, Seq<char>)>::empty()
        });
        lemma_summary_edges_within(fns, edges@);
        lemma_auto_entries_within(store.symbols@, fns, 0);
        lemma_manual_entries_within(store.symbols@, fns, string_views(options.manual_entry_points@));
        let all = entry_views(entry_points@);
        assert(all.len() == entry_points@.len());
        let m = manual_entries(store.symbols@, fns, string_views(options.manual_entry_points@))->Ok_0;
        assert(all == auto + m);
        assert forall|k: int| 0 <= k < entry_points@.len() implies fns.contains(#[trigger] entry_points@[k].symbol@) by {
            assert(all[k] == (entry_points@[k].symbol@, entry_points@[k].reason@));
            if k < auto.len() {
                assert(all[k] == auto[k]);
                if options.auto_detect_entries {
                    assert(auto[k] == auto_entries_from(store.symbols@, fns, 0)[k]);
                    assert(fns.contains(auto_entries_from(store.symbols@, fns, 0)[k].0));
                }
                assert(fns.contains(auto[k].0));
            } else {
                assert(all[k] == m[k - auto.len()]);
                assert(fns.contains(m[k - auto.len()].0));
            }
            assert(entry_points@[k].symbol@ == all[k].0);
        }
        assert forall|k: int| 0 <= k < interprocedural_edges@.len() implies fns.contains(#[trigger] interprocedural_edges@[k].caller@)
            && fns.contains(interprocedural_edges@[k].callee@) by {
            assert(edge_is(interprocedural_edges@[k], se[k]));
            assert(se[k] == summary_edges(fns, edges@)[k]);
        }
    }
    let reachability = if options.reachability_analysis {
        compute_reachability(&ids, &interprocedural_edges, &entry_points)
    } else {
        Vec::new()
    };
    proof {
        if options.reachability_analysis {
            let sev = interprocedural_edges@.map_values(|e: InterproceduralEdge| (e.caller@, e.callee@, e.call_site as int));
            assert(sev =~= se) by {
                assert forall|k: int| 0 <= k < se.len() implies sev[k] == se[k] by {
                    assert(edge_is(interprocedural_edges@[k], se[k]));
                }
            }
            assert(entry_views(entry_points@).map_values(|p: (Seq<char>, Seq<char>)| p.0) =~= entry_views(entry_points@).map_values(|p: (Seq<char>, Seq<char>)| p.0));
        }
    }
    let mut exceptional_edges: Vec<ExceptionalEdge> = Vec::new();
    if options.exceptional_control_flow {
        let mut k: usize = 0;
        while k < interprocedural_edges.len()
            invariant
                k <= interprocedural_edges@.len(),
                interprocedural_edges@.len() == se.len(),
                forall|j: int| 0 <= j < se.len() ==> edge_is(#[trigger] interprocedural_edges@[j], se[j]),
                exceptional_edges@.len() == k,
                forall|j: int|
                    0 <= j < k ==> (#[trigger] exceptional_edges@[j]).from@ == se[j].1
                        && exceptional_edges@[j].to@ == se[j].0,
            decreases interprocedural_edges.len() - k,
        {
            assert(edge_is(interprocedural_edges@[k as int], se[k as int]));
            exceptional_edges.push(ExceptionalEdge {
                from: copy_str(interprocedural_edges[k].callee.as_str()),
                to: copy_str(interprocedural_edges[k].caller.as_str()),
            });
            k = k + 1;
        }
    }
    let res = InterproceduralResult {
        function_cfgs,
        interprocedural_edges,
        entry_points,
        reachability,
        call_sites,
        exceptional_edges,
        function_exits,
    };
    proof {
        lemma_function_symbols_unique(store.symbols@, workspace_result.function_data@);
        let m = manual_entries(store.symbols@, fns, string_views(options.manual_entry_points@))->Ok_0;
        let auto = if options.auto_detect_entries {
            auto_entries_from(store.symbols@, fns, 0)
        } else {
            Seq::<(Seq<char>, Seq<char>)>::empty()
        };
        lemma_summary_positions_increase(fns, edges@);
        lemma_result_keys_unique(res, fsv, se, auto + m, edges@, *options);
    }
    Ok(res)
}

/// The analyses that the interprocedural analysis runs on a workspace:
/// control-flow graphs and the defaults, no complexity or basic blocks.
pub open spec fn interprocedural_analysis_options() -> AnalysisOptions {
    AnalysisOptions {
        cfg_generation: true,
        complexity_analysis: false,
        basic_blocks: false,
        workspace_search: true,
        ..default_options()
    }
}

/// What analysing the workspace `files` and then building its
/// interprocedural graph with `o` gives.
pub open spec fn workspace_interprocedural(r: Result<InterproceduralResult, NTreeError>, files: Seq<FileAnalysis>, o: InterproceduralOptions) -> bool {
    &&& crate::analysis_result::workspace_symbol_error(files) ==> (r matches Err(e)
        && crate::analysis_result::first_symbol_error(files, e))
    &&& !crate::analysis_result::workspace_symbol_error(files) ==> exists|ar: AnalysisResult|
        crate::analysis_result::workspace_result(ar, files, interprocedural_analysis_options())
            && #[trigger] interprocedural_outcome(r, ar, o)
}

/// Perform interprocedural control flow analysis on a workspace, given what
/// reading and parsing its files yielded.
pub fn analyze_interprocedural_cfg(files: Vec<FileAnalysis>, options: InterproceduralOptions) -> (r: Result<InterproceduralResult, NTreeError>)
    requires
        total_size_of(records_of(files@)) <= u64::MAX,
    ensures
        workspace_interprocedural(r, files@, options),
{
    let analysis_opts = AnalysisOptions {
        cfg_generation: true,
        complexity_analysis: false,
        basic_blocks: false,
        workspace_search: true,
        ..AnalysisOptions::default()
    };
    let ghost fs = files@;
    match AnalysisResult::from_source_code(analysis_opts, true, files) {
        Ok(ar) => {
            let r = build_interprocedural_cfg(&ar, &options);
            assert(interprocedural_outcome(r, ar, options));
            r
        },
        Err(e) => Err(e),
    }
}

/// Generate summary edges only (minimal interprocedural analysis).
pub fn generate_summary_edges(files: Vec<FileAnalysis>) -> (r: Result<Vec<InterproceduralEdge>, NTreeError>)
    requires
        total_size_of(records_of(files@)) <= u64::MAX,
    ensures
        exists|ir: Result<InterproceduralResult, NTreeError>, o: InterproceduralOptions|
            #[trigger] workspace_interprocedural(ir, files@, o) && o.summary_edges
                && !o.reachability_analysis && !o.exceptional_control_flow && !o.auto_detect_entries
                && o.manual_entry_points@.len() == 0 && match ir {
                Ok(res) => r matches Ok(v) && v@ == res.interprocedural_edges@,
                Err(e) => r == Err::<Vec<InterproceduralEdge>, NTreeError>(e),
            },
{
    let options = InterproceduralOptions::summary_only();
    let ghost o = options;
    let ir = analyze_interprocedural_cfg(files, options);
    let ghost irg = ir;
    match ir {
        Ok(res) => Ok(res.interprocedural_edges),
        Err(e) => Err(e),
    }
}

/// Compute reachability from entry points.
pub fn compute_program_reachability(files: Vec<FileAnalysis>) -> (r: Result<Vec<ReachabilityInfo>, NTreeError>)
    requires
        total_size_of(records_of(files@)) <= u64::MAX,
    ensures
        exists|ir: Result<InterproceduralResult, NTreeError>, o: InterproceduralOptions|
            #[trigger] workspace_interprocedural(ir, files@, o) && all_parts(o) && match ir {
                Ok(res) => r matches Ok(v) && v@ == res.reachability@,
                Err(e) => r == Err::<Vec<ReachabilityInfo>, NTreeError>(e),
            },
{
    let options = InterproceduralOptions::all_enabled();
    let ir = analyze_interprocedural_cfg(files, options);
    match ir {
        Ok(res) => Ok(res.reachability),
        Err(e) => Err(e),
    }
}

/// Analyze exceptional control flow across functions.
pub fn analyze_exceptional_control_flow(files: Vec<FileAnalysis>) -> (r: Result<Vec<ExceptionalEdge>, NTreeError>)
    requires
        total_size_of(records_of(files@)) <= u64::MAX,
    ensures
        exists|ir: Result<InterproceduralResult, NTreeError>, o: InterproceduralOptions|
            #[trigger] workspace_interprocedural(ir, files@, o) && all_parts(o) && match ir {
                Ok(res) => r matches Ok(v) && v@ == res.exceptional_edges@,
                Err(e) => r == Err::<Vec<ExceptionalEdge>, NTreeError>(e),
            },
{
    let options = InterproceduralOptions { summary_edges: true, exceptional_control_flow: true, ..InterproceduralOptions::default() };
    let ir = analyze_interprocedural_cfg(files, options);
    match ir {
        Ok(res) => Ok(res.exceptional_edges),
        Err(e) => Err(e),
    }
}

// ---------------------------------------------------------------------------
// Reading the result
// ---------------------------------------------------------------------------

/// The symbols of the functions that no entry point reaches, in order.
pub open spec fn unreachable_symbols(r: Seq<ReachabilityInfo>) -> Seq<Seq<char>>
    decreases r.len(),
{
    if r.len() == 0 {
        Seq::empty()
    } else {
        let d = unreachable_symbols(r.drop_last());
        if !r.last().reachable {
            d.push(r.last().symbol@)
        } else {
            d
        }
    }
}

/// The symbols of the functions that `entry` reaches, in order.
pub open spec fn reached_by(r: Seq<ReachabilityInfo>, entry: Seq<char>) -> Seq<Seq<char>>
    decreases r.len(),
{
    if r.len() == 0 {
        Seq::empty()
    } else {
        let d = reached_by(r.drop_last(), entry);
        if string_views(r.last().reached_from@).contains(entry) {
            d.push(r.last().symbol@)
        } else {
            d
        }
    }
}

/// The unreachable functions are among the table's functions, no more of
/// them than it holds, and each once where the table holds each once.
pub proof fn lemma_unreachable_symbols_within(r: Seq<ReachabilityInfo>)
    ensures
        unreachable_symbols(r).len() <= r.len(),
        forall|x: Seq<char>| unreachable_symbols(r).contains(x) ==> reachability_symbols(r).contains(x),
        reachability_symbols(r).no_duplicates() ==> unreachable_symbols(r).no_duplicates(),
    decreases r.len(),
{
    if r.len() > 0 {
        let p = r.drop_last();
        lemma_unreachable_symbols_within(p);
        lemma_symbols_prefix(r);
        let d = unreachable_symbols(p);
        if !r.last().reachable {
            let x = r.last().symbol@;
            assert(reachability_symbols(r)[r.len() - 1] == x);
            assert forall|y: Seq<char>| unreachable_symbols(r).contains(y) implies reachability_symbols(r).contains(y) by {
                if y != x {
                    assert(d.contains(y));
                    let k = choose|k: int| 0 <= k < reachability_symbols(p).len() && reachability_symbols(p)[k] == y;
                    assert(reachability_symbols(r)[k] == y);
                }
            }
            if reachability_symbols(r).no_duplicates() {
                assert(reachability_symbols(p).no_duplicates()) by {
                    assert forall|i: int, j: int| 0 <= i < j < reachability_symbols(p).len() implies
                        reachability_symbols(p)[i] != reachability_symbols(p)[j] by {
                        assert(reachability_symbols(r)[i] == reachability_symbols(p)[i]);
                        assert(reachability_symbols(r)[j] == reachability_symbols(p)[j]);
                    }
                }
                assert(!d.contains(x)) by {
                    if d.contains(x) {
                        let k = choose|k: int| 0 <= k < reachability_symbols(p).len() && reachability_symbols(p)[k] == x;
                        assert(reachability_symbols(r)[k] == x);
                    }
                }
                assert forall|i: int, j: int| 0 <= i < j < d.push(x).len() implies d.push(x)[i] != d.push(x)[j] by {
                    if j == d.len() {
                        assert(d.contains(d[i]));
                    }
                }
            }
        } else {
            assert forall|y: Seq<char>| unreachable_symbols(r).contains(y) implies reachability_symbols(r).contains(y) by {
                let k = choose|k: int| 0 <= k < reachability_symbols(p).len() && reachability_symbols(p)[k] == y;
                assert(reachability_symbols(r)[k] == y);
            }
            if reachability_symbols(r).no_duplicates() {
                assert forall|i: int, j: int| 0 <= i < j < reachability_symbols(p).len() implies
                    reachability_symbols(p)[i] != reachability_symbols(p)[j] by {
                    assert(reachability_symbols(r)[i] == reachability_symbols(p)[i]);
                    assert(reachability_symbols(r)[j] == reachability_symbols(p)[j]);
                }
            }
        }
    }
}

/// The functions that an entry point reaches are among the table's
/// functions, no more of them than it holds, and each once where the table
/// holds each once.
pub proof fn lemma_reached_by_within(r: Seq<ReachabilityInfo>, entry: Seq<char>)
    ensures
        reached_by(r, entry).len() <= r.len(),
        forall|x: Seq<char>| reached_by(r, entry).contains(x) ==> reachability_symbols(r).contains(x),
        reachability_symbols(r).no_duplicates() ==> reached_by(r, entry).no_duplicates(),
    decreases r.len(),
{
    if r.len() > 0 {
        let p = r.drop_last();
        lemma_reached_by_within(p, entry);
        lemma_symbols_prefix(r);
        let d = reached_by(p, entry);
        let x = r.last().symbol@;
        assert(reachability_symbols(r)[r.len() - 1] == x);
        assert forall|y: Seq<char>| reached_by(r, entry).contains(y) implies reachability_symbols(r).contains(y) by {
            if d.contains(y) {
                assert(reachability_symbols(p).contains(y));
                let k = choose|k: int| 0 <= k < reachability_symbols(p).len() && reachability_symbols(p)[k] == y;
                assert(reachability_symbols(r)[k] == y);
            } else {
                assert(y == x);
                assert(reachability_symbols(r)[r.len() - 1] == y);
            }
        }
        if reachability_symbols(r).no_duplicates() {
            assert forall|i: int, j: int| 0 <= i < j < reachability_symbols(p).len() implies
                reachability_symbols(p)[i] != reachability_symbols(p)[j] by {
                assert(reachability_symbols(r)[i] == reachability_symbols(p)[i]);
                assert(reachability_symbols(r)[j] == reachability_symbols(p)[j]);
            }
            assert(!d.contains(x)) by {
                if d.contains(x) {
                    assert(reachability_symbols(p).contains(x));
                    let k = choose|k: int| 0 <= k < reachability_symbols(p).len() && reachability_symbols(p)[k] == x;
                    assert(reachability_symbols(r)[k] == x);
                }
            }
            assert forall|i: int, j: int| 0 <= i < j < d.push(x).len() implies d.push(x)[i] != d.push(x)[j] by {
                if j == d.len() {
                    assert(d.contains(d[i]));
                }
            }
        }
    }
}

proof fn lemma_symbols_prefix(r: Seq<ReachabilityInfo>)
    requires
        r.len() > 0,
    ensures
        reachability_symbols(r).len() == r.len(),
        forall|k: int| 0 <= k < r.len() - 1 ==> #[trigger] reachability_symbols(r)[k] == reachability_symbols(r.drop_last())[k],
        reachability_symbols(r.drop_last()).len() == r.len() - 1,
{
}

impl InterproceduralResult {
    /// Get summary edges (call and return edges).
    pub fn get_summary_edges(&self) -> (r: Vec<&InterproceduralEdge>)
        ensures
            crate::result_sets::deref_all(r@) == self.interprocedural_edges@,
    {
        let mut r: Vec<&InterproceduralEdge> = Vec::new();
        let mut i: usize = 0;
        while i < self.interprocedural_edges.len()
            invariant
                i <= self.interprocedural_edges@.len(),
                r@.len() == i,
                forall|j: int| 0 <= j < i ==> *#[trigger] r@[j] == self.interprocedural_edges@[j],
            decreases self.interprocedural_edges.len() - i,
        {
            r.push(&self.interprocedural_edges[i]);
            i = i + 1;
        }
        assert(crate::result_sets::deref_all(r@) =~= self.interprocedural_edges@);
        r
    }

    /// Get unreachable functions: those of the reachability table, which
    /// holds each function once, that no entry point reaches, in table order.
    pub fn get_unreachable_functions(&self) -> (r: Vec<String>)
        requires
            reachability_symbols(self.reachability@).no_duplicates(),
        ensures
            string_views(r@) == unreachable_symbols(self.reachability@),
            r@.len() <= self.reachability@.len(),
            forall|x: Seq<char>| string_views(r@).contains(x) ==> reachability_symbols(self.reachability@).contains(x),
            string_views(r@).no_duplicates(),
    {
        proof {
            lemma_unreachable_symbols_within(self.reachability@);
        }
        self.unreachable_list()
    }

    fn unreachable_list(&self) -> (r: Vec<String>)
        ensures
            string_views(r@) == unreachable_symbols(self.reachability@),
    {
        let mut r: Vec<String> = Vec::new();
        let mut i: usize = 0;
        while i < self.reachability.len()
            invariant
                i <= self.reachability@.len(),
                string_views(r@) == unreachable_symbols(self.reachability@.take(i as int)),
            decreases self.reachability.len() - i,
        {
            assert(self.reachability@.take(i + 1).drop_last() == self.reachability@.take(i as int));
            if !self.reachability[i].reachable {
                let ghost before = string_views(r@);
                r.push(copy_str(self.reachability[i].symbol.as_str()));
                assert(string_views(r@) == before.push(self.reachability@[i as int].symbol@));
            }
            i = i + 1;
        }
        assert(self.reachability@.take(self.reachability@.len() as int) == self.reachability@);
        r
    }

    /// Get reachable functions from a specific entry point: those of the
    /// reachability table, which holds each function once, that `entry_sym`
    /// reaches, in table order.
    pub fn get_functions_reachable_from(&self, entry_sym: String) -> (r: Vec<String>)
        requires
            reachability_symbols(self.reachability@).no_duplicates(),
        ensures
            string_views(r@) == reached_by(self.reachability@, entry_sym@),
            r@.len() <= self.reachability@.len(),
            forall|x: Seq<char>| string_views(r@).contains(x) ==> reachability_symbols(self.reachability@).contains(x),
            string_views(r@).no_duplicates(),
    {
        proof {
            lemma_reached_by_within(self.reachability@, entry_sym@);
        }
        let entry = crate::text::chars_of(entry_sym.as_str());
        let mut r: Vec<String> = Vec::new();
        let mut i: usize = 0;
        while i < self.reachability.len()
            invariant
                i <= self.reachability@.len(),
                entry@ == entry_sym@,
                string_views(r@) == reached_by(self.reachability@.take(i as int), entry_sym@),
            decreases self.reachability.len() - i,
        {
            assert(self.reachability@.take(i + 1).drop_last() == self.reachability@.take(i as int));
            if crate::certs::holds_entry(&self.reachability[i].reached_from, &entry) {
                let ghost before = string_views(r@);
                r.push(copy_str(self.reachability[i].symbol.as_str()));
                assert(string_views(r@) == before.push(self.reachability@[i as int].symbol@));
            }
            i = i + 1;
        }
        assert(self.reachability@.take(self.reachability@.len() as int) == self.reachability@);
        r
    }

    /// Get call graph statistics.
    pub fn get_call_graph_stats(&self) -> (s: InterproceduralStats)
        ensures
            s.total_functions == self.function_cfgs@.len(),
            s.total_call_sites == self.call_sites@.len(),
            s.total_interprocedural_edges == self.interprocedural_edges@.len(),
            s.unreachable_functions == unreachable_symbols(self.reachability@).len(),
            s.exceptional_edges == self.exceptional_edges@.len(),
            s.entry_points == self.entry_points@.len(),
    {
        let unreachable = self.unreachable_list();
        InterproceduralStats {
            total_functions: self.function_cfgs.len(),
            total_call_sites: self.call_sites.len(),
            total_interprocedural_edges: self.interprocedural_edges.len(),
            unreachable_functions: unreachable.len(),
            exceptional_edges: self.exceptional_edges.len(),
            entry_points: self.entry_points.len(),
        }
    }
}

// ---------------------------------------------------------------------------
// Laws
// ---------------------------------------------------------------------------

/// Every element of `s` stays in `first_occurrences(s)`.
pub proof fn lemma_first_occurrences_keeps(s: Seq<Seq<char>>, x: Seq<char>)
    requires
        s.contains(x),
    ensures
        first_occurrences(s).contains(x),
    decreases s.len(),
{
    let d = first_occurrences(s.drop_last());
    if s.last() == x {
        if !d.contains(x) {
            assert(first_occurrences(s) == d.push(x));
            assert(first_occurrences(s)[d.len() as int] == x);
        }
    } else {
        let k = choose|k: int| 0 <= k < s.len() && s[k] == x;
        assert(s.drop_last()[k] == x);
        lemma_first_occurrences_keeps(s.drop_last(), x);
        let j = choose|j: int| 0 <= j < d.len() && d[j] == x;
        if !d.contains(s.last()) {
            assert(first_occurrences(s)[j] == x);
        }
    }
}

/// An entry point among `entries` that reaches the `v`-th function is listed
/// among those that reach it.
pub proof fn lemma_reaching_keeps(
    entries: Seq<Seq<char>>,
    fns: Seq<Seq<char>>,
    se: Seq<(Seq<char>, Seq<char>, int)>,
    v: int,
    x: Seq<char>,
)
    requires
        entries.contains(x),
        reachable(index_edges(fns, se), index_in(fns, x), v),
    ensures
        reaching(entries, fns, se, v).contains(x),
    decreases entries.len(),
{
    let d = reaching(entries.drop_last(), fns, se, v);
    if entries.last() == x {
        assert(reaching(entries, fns, se, v) == d.push(x));
        assert(reaching(entries, fns, se, v)[d.len() as int] == x);
    } else {
        let k = choose|k: int| 0 <= k < entries.len() && entries[k] == x;
        assert(entries.drop_last()[k] == x);
        lemma_reaching_keeps(entries.drop_last(), fns, se, v, x);
        let j = choose|j: int| 0 <= j < d.len() && d[j] == x;
        let r = reaching(entries, fns, se, v);
        assert(r[j] == x);
    }
}

/// An entry point is reachable: when reachability is computed, the function of
/// every entry point is reported reachable, reached from itself.
pub proof fn lemma_entry_points_reachable(
    res: InterproceduralResult,
    fs: Seq<(Seq<char>, Seq<char>)>,
    se: Seq<(Seq<char>, Seq<char>, int)>,
    entries: Seq<(Seq<char>, Seq<char>)>,
    edges: Seq<CallEdge>,
    o: InterproceduralOptions,
    k: int,
)
    requires
        interprocedural_result(res, fs, se, entries, edges, o),
        o.reachability_analysis,
        0 <= k < entries.len(),
        ids_of(fs).contains(entries[k].0),
    ensures
        ({
            let v = index_in(ids_of(fs), entries[k].0);
            &&& 0 <= v < res.reachability@.len()
            &&& res.reachability@[v].symbol@ == entries[k].0
            &&& res.reachability@[v].reachable
            &&& string_views(res.reachability@[v].reached_from@).contains(entries[k].0)
        }),
{
    let fns = ids_of(fs);
    let x = entries[k].0;
    let p = equals(x);
    lemma_first_from(fns, p, 0);
    let w = choose|w: int| 0 <= w < fns.len() && fns[w] == x;
    assert(p(fns[w]));
    let v = index_in(fns, x);
    assert(fns[v] == x);
    let syms = entries.map_values(|e: (Seq<char>, Seq<char>)| e.0);
    assert(syms[k] == x);
    lemma_first_occurrences_keeps(syms, x);
    crate::graph::lemma_reachable_refl(index_edges(fns, se), v);
    lemma_reaching_keeps(first_occurrences(syms), fns, se, v, x);
    let rf = reaching(first_occurrences(syms), fns, se, v);
    let j = choose|j: int| 0 <= j < rf.len() && rf[j] == x;
    assert(res.reachability@[v].reached_from@.len() == rf.len());
}

/// The entry points of a successful analysis all have a graph.
pub proof fn lemma_entry_points_have_graphs(r: Result<InterproceduralResult, NTreeError>, ar: AnalysisResult, o: InterproceduralOptions)
    requires
        interprocedural_outcome(r, ar, o),
        r is Ok,
    ensures
        forall|k: int|
            0 <= k < r->Ok_0.entry_points@.len() ==> ids_of(
                function_symbols(ar.symbol_store.symbols@, ar.function_data@),
            ).contains(#[trigger] r->Ok_0.entry_points@[k].symbol@),
{
    let symbols = ar.symbol_store.symbols@;
    let fns = ids_of(function_symbols(symbols, ar.function_data@));
    let res = r->Ok_0;
    lemma_auto_entries_within(symbols, fns, 0);
    lemma_manual_entries_within(symbols, fns, string_views(o.manual_entry_points@));
    let auto = if o.auto_detect_entries {
        auto_entries_from(symbols, fns, 0)
    } else {
        Seq::empty()
    };
    let m = manual_entries(symbols, fns, string_views(o.manual_entry_points@))->Ok_0;
    let all = entry_views(res.entry_points@);
    assert(all == auto + m);
    assert forall|k: int| 0 <= k < res.entry_points@.len() implies fns.contains(#[trigger] res.entry_points@[k].symbol@) by {
        assert(all[k].0 == res.entry_points@[k].symbol@);
        if k < auto.len() {
            assert(all[k] == auto[k]);
            assert(fns.contains(auto[k].0));
        } else {
            assert(all[k] == m[k - auto.len()]);
            assert(fns.contains(m[k - auto.len()].0));
        }
    }
}

/// Options that ask for the same analysis give the same outcome.
pub proof fn lemma_same_options(
    r: Result<InterproceduralResult, NTreeError>,
    files: Seq<FileAnalysis>,
    a: InterproceduralOptions,
    b: InterproceduralOptions,
)
    requires
        same_options(a, b),
        workspace_interprocedural(r, files, a),
    ensures
        workspace_interprocedural(r, files, b),
{
    if !crate::analysis_result::workspace_symbol_error(files) {
        let ar = choose|ar: AnalysisResult|
            crate::analysis_result::workspace_result(ar, files, interprocedural_analysis_options())
                && #[trigger] interprocedural_outcome(r, ar, a);
        assert(interprocedural_outcome(r, ar, b));
    }
}

} // verus!
