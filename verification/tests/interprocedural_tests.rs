use ntree::advanced_sets::{ExternalLibraryResultSet, IncrementalResultSet, InterproceduralResultSet};
use ntree::analysis_result::{AnalysisResult, FileAnalysis};
use ntree::error::NTreeError;
use ntree::incremental::{IncrementalAnalysisOptions, IncrementalAnalyzer, InvalidationEngine};
use ntree::interprocedural::{
    analyze_interprocedural_cfg, build_interprocedural_cfg, compute_program_reachability, create_placeholder_cfg,
    generate_summary_edges, InterproceduralOptions,
};
use ntree::models::{CallEdge, CallKind, FileRecord, FunctionSpan, TopLevelSymbol};
use ntree::options::AnalysisOptions;

const F: &str = "app/main.py";

fn symbol(name: &str) -> TopLevelSymbol {
    TopLevelSymbol::new(F.to_string(), name.to_string(), "function".to_string(), format!("{}::{}", F, name), "1:1".to_string())
}

fn analysis(names: &[&str], extra_symbols: &[&str], calls: &[(&str, &str, CallKind)]) -> AnalysisResult {
    let mut symbols: Vec<TopLevelSymbol> = names.iter().map(|n| symbol(n)).collect();
    symbols.extend(extra_symbols.iter().map(|n| symbol(n)));
    let file = FileAnalysis {
        record: FileRecord { path: F.to_string(), language: "python".to_string(), size: 1, content_hash: "h".to_string() },
        functions: Ok(names.iter().map(|n| FunctionSpan { function: n.to_string(), span: "1:1".to_string() }).collect()),
        cfgs: Ok(vec![]),
        cfg_irs: Ok(vec![]),
        basic_blocks: Ok(vec![]),
        data_flow: Ok(vec![]),
        lifecycles: Ok(vec![]),
        symbols: Ok(symbols),
        call_edges: vec![],
    };
    let mut r = AnalysisResult::from_single_file(file, AnalysisOptions::minimal()).unwrap();
    for (caller, callee, kind) in calls {
        r.call_graph.add_call_edge(CallEdge {
            caller: format!("{}::{}", F, caller),
            callee_expr_text: format!("{}()", callee),
            callee: Some(format!("{}::{}", F, callee)),
            kind: *kind,
        });
    }
    r
}

fn sample() -> AnalysisResult {
    analysis(
        &["main", "helper", "test_x", "orphan"],
        &[],
        &[("main", "helper", CallKind::Direct), ("test_x", "helper", CallKind::Virtual)],
    )
}

fn id(n: &str) -> String {
    format!("{}::{}", F, n)
}

#[test]
fn entry_points_reach_their_callees() {
    let r = build_interprocedural_cfg(&sample(), &InterproceduralOptions::all_enabled()).unwrap();
    assert_eq!(r.function_cfgs.len(), 4);
    assert_eq!(r.entry_points.len(), 2);
    assert_eq!(r.entry_points[0].symbol, id("main"));
    assert_eq!(r.entry_points[0].reason, "Main function");
    assert_eq!(r.entry_points[1].reason, "Test function");
    assert_eq!(r.get_unreachable_functions(), vec![id("orphan")]);
    assert_eq!(r.get_functions_reachable_from(id("main")), vec![id("main"), id("helper")]);
    assert_eq!(r.get_functions_reachable_from(id("test_x")), vec![id("helper"), id("test_x")]);
    for e in &r.entry_points {
        let info = r.reachability.iter().find(|i| i.symbol == e.symbol).unwrap();
        assert!(info.reachable);
    }
}

#[test]
fn summary_edges_and_exceptional_edges() {
    let r = build_interprocedural_cfg(&sample(), &InterproceduralOptions::all_enabled()).unwrap();
    let edges = r.get_summary_edges();
    assert_eq!(edges.len(), 2);
    assert_eq!(edges[1].caller, id("test_x"));
    assert_eq!(edges[1].call_site, 1);
    assert_eq!(r.exceptional_edges[0].from, id("helper"));
    assert_eq!(r.exceptional_edges[0].to, id("main"));
    assert_eq!(r.call_sites[0].callee_expr_text, "helper()");
    let s = r.get_call_graph_stats();
    assert_eq!(
        (s.total_functions, s.total_call_sites, s.total_interprocedural_edges, s.unreachable_functions, s.exceptional_edges, s.entry_points),
        (4, 2, 2, 1, 2, 2)
    );
}

#[test]
fn placeholder_graphs_have_an_entry_and_an_exit() {
    let g = create_placeholder_cfg("helper");
    assert_eq!(g.nodes.len(), 2);
    assert_eq!(g.nodes[0].label, "entry: helper");
    assert_eq!(g.nodes[1].label, "exit: helper");
    assert_eq!((g.edges[0].from, g.edges[0].to), (0, 1));
    let r = build_interprocedural_cfg(&sample(), &InterproceduralOptions::summary_only()).unwrap();
    assert_eq!(r.function_cfgs[1].1.nodes[0].label, "entry: helper");
    assert!(r.entry_points.is_empty());
    assert!(r.reachability.is_empty());
    assert!(r.exceptional_edges.is_empty());
    assert_eq!(r.function_exits[3].exit_node, 1);
}

#[test]
fn manual_entry_points() {
    let o = InterproceduralOptions::summary_only().with_entry_point("orphan".to_string()).with_entry_point("ghost".to_string());
    let r = build_interprocedural_cfg(&sample(), &o).unwrap();
    assert_eq!(r.entry_points.len(), 1);
    assert_eq!(r.entry_points[0].reason, "Manual entry point: orphan");
    let with_symbol_only = analysis(&["main"], &["lonely"], &[]);
    let o2 = InterproceduralOptions::summary_only().with_entry_point("lonely".to_string());
    match build_interprocedural_cfg(&with_symbol_only, &o2) {
        Err(NTreeError::InvalidInput(m)) => assert_eq!(m, format!("Function CFG not found: {}", id("lonely"))),
        _ => panic!("expected an error"),
    }
}

#[test]
fn workspace_interprocedural_analysis_has_no_functions() {
    let file = FileAnalysis {
        record: FileRecord { path: F.to_string(), language: "python".to_string(), size: 1, content_hash: "h".to_string() },
        functions: Ok(vec![FunctionSpan { function: "main".to_string(), span: "1:1".to_string() }]),
        cfgs: Ok(vec![]),
        cfg_irs: Ok(vec![]),
        basic_blocks: Ok(vec![]),
        data_flow: Ok(vec![]),
        lifecycles: Ok(vec![]),
        symbols: Ok(vec![symbol("main")]),
        call_edges: vec![],
    };
    let r = analyze_interprocedural_cfg(vec![file], InterproceduralOptions::all_enabled()).unwrap();
    assert!(r.function_cfgs.is_empty());
    assert!(r.entry_points.is_empty());
    assert!(generate_summary_edges(vec![]).unwrap().is_empty());
    assert!(compute_program_reachability(vec![]).unwrap().is_empty());
}

#[test]
fn call_statistics_count_resolution_kinds() {
    let a = sample();
    let set = InterproceduralResultSet::new(&a);
    let s = set.call_stats();
    assert_eq!((s.total_functions, s.total_call_sites, s.direct_calls, s.virtual_calls, s.unresolved_calls), (4, 2, 1, 1, 0));
    assert_eq!(set.entry_points(), vec!["main".to_string(), "test_x".to_string()]);
    assert!(set.unreachable_functions().is_empty());
    let inc = IncrementalResultSet::new(&a);
    assert!(!inc.is_incremental());
    assert!(inc.dependency_impact("main").is_empty());
    assert_eq!(inc.performance_metrics().total_functions, 4);
    let ext = ExternalLibraryResultSet::new(&a);
    assert!(ext.external_calls().is_empty());
    assert!(ext.referenced_libraries().is_empty());
    assert!(ext.security_analysis().taint_sources.is_empty());
}

fn rec(path: &str, hash: &str) -> FileRecord {
    FileRecord { path: path.to_string(), language: "python".to_string(), size: 1, content_hash: hash.to_string() }
}

#[test]
fn invalidation_finds_new_and_changed_files() {
    let mut e = InvalidationEngine::new();
    e.mark_file_processed("a.py".to_string(), "1".to_string());
    e.mark_file_processed("b.py".to_string(), "2".to_string());
    e.mark_file_processed("a.py".to_string(), "3".to_string());
    let changed = e.process_file_changes(&vec![rec("a.py", "3"), rec("b.py", "9"), rec("c.py", "1")]);
    assert_eq!(changed.changed_files, vec!["b.py".to_string(), "c.py".to_string()]);
    assert!(changed.needs_work());
    assert_eq!(changed.get_stats().changed_files, 2);
    assert_eq!(e.get_cache_stats().cached_files, 2);
}

#[test]
fn unchanged_files_are_a_cache_hit() {
    let mut a = IncrementalAnalyzer::new();
    let r = a.analyze_incremental(&vec![], vec![], IncrementalAnalysisOptions::default()).unwrap();
    assert!(r.cache_hit);
    assert!(!r.was_recomputed());
    assert!(r.interprocedural_result.is_none());
    assert_eq!(r.get_performance_metrics().files_changed, 0);
}

#[test]
fn recomputation_marks_files_processed() {
    let mut a = IncrementalAnalyzer::new();
    a.enable_rta();
    let records = vec![rec("a.py", "1"), rec("b.py", "2")];
    let mut o = IncrementalAnalysisOptions::default();
    o.full_recompute = true;
    let r = a.analyze_incremental(&records, vec![], o).unwrap();
    assert!(r.was_recomputed());
    assert!(r.interprocedural_result.is_some());
    assert_eq!(r.invalidation_stats.changed_files, 2);
    assert_eq!(a.get_cache_stats().cached_files, 2);
    let again = a.analyze_incremental(&records, vec![], IncrementalAnalysisOptions::default()).unwrap();
    assert!(again.cache_hit);
    assert_eq!(a.get_library_stats().total_libraries, 0);
    assert_eq!(a.get_dependency_stats().dependencies, 0);
}

#[test]
fn partial_recomputation_is_not_available() {
    let mut a = IncrementalAnalyzer::new();
    let r = a.analyze_incremental(&vec![rec("a.py", "1")], vec![], IncrementalAnalysisOptions::default());
    match r {
        Err(NTreeError::InvalidInput(m)) => assert_eq!(m, "Incremental analysis not yet implemented"),
        _ => panic!("expected an error"),
    }
    assert_eq!(a.get_cache_stats().cached_files, 0);
}

#[test]
fn functions_listed_twice_are_kept_once() {
    let r = build_interprocedural_cfg(
        &analysis(&["main", "helper", "main", "helper"], &[], &[("main", "helper", CallKind::Direct)]),
        &InterproceduralOptions::all_enabled(),
    )
    .unwrap();
    let symbols: Vec<&str> = r.reachability.iter().map(|i| i.symbol.as_str()).collect();
    assert_eq!(symbols, vec![id("main").as_str(), id("helper").as_str()]);
    assert_eq!(r.function_cfgs.len(), 2);
    assert_eq!(r.function_exits.len(), 2);
    assert_eq!(r.get_functions_reachable_from(id("main")), vec![id("main"), id("helper")]);
    assert!(r.get_unreachable_functions().is_empty());
}
