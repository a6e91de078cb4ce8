use ntree::analysis_result::{AnalysisResult, FileAnalysis};
use ntree::runner::AnalysisRunner;
use ntree::error::NTreeError;
use ntree::extractors::{ExportEdge, ImportEdge};
use ntree::models::{CallEdge, CallKind, CfgIrEdge, CfgIrNode, CfgResult, FileRecord, FunctionCfgIr, FunctionSpan, TopLevelSymbol};
use ntree::options::AnalysisOptions;
use ntree::source_code::SourceCode;
use ntree::symbols::SymbolStore;
use ntree::workspace::{group_by_language, SupportedLanguage, WorkspaceMethods};

fn record(path: &str, language: &str, size: u64) -> FileRecord {
    FileRecord { path: path.to_string(), language: language.to_string(), size, content_hash: format!("h-{}", path) }
}

fn symbol(file: &str, name: &str) -> TopLevelSymbol {
    TopLevelSymbol::new(file.to_string(), name.to_string(), "function".to_string(), format!("{}::{}", file, name), "1:1".to_string())
}

fn graph(name: &str) -> FunctionCfgIr {
    FunctionCfgIr {
        function_name: name.to_string(),
        source_file: None,
        nodes: vec![
            CfgIrNode { id: "N1".to_string(), label: "ENTRY".to_string() },
            CfgIrNode { id: "N2".to_string(), label: "EXIT".to_string() },
        ],
        edges: vec![CfgIrEdge { from: 0, to: 1, kind: "next".to_string() }],
        entry: 0,
    }
}

fn file(path: &str, language: &str, size: u64, names: &[&str]) -> FileAnalysis {
    FileAnalysis {
        record: record(path, language, size),
        functions: Ok(names.iter().map(|n| FunctionSpan { function: n.to_string(), span: "1:1".to_string() }).collect()),
        cfgs: Ok(names
            .iter()
            .map(|n| CfgResult { function_name: n.to_string(), mermaid: format!("graph TD\n    {}", n), jsonl: format!("{{\"func\":\"{}\"}}", n) })
            .collect()),
        cfg_irs: Ok(names.iter().map(|n| graph(n)).collect()),
        basic_blocks: Ok(vec![]),
        data_flow: Ok(vec![]),
        lifecycles: Ok(vec![]),
        symbols: Ok(names.iter().map(|n| symbol(path, n)).collect()),
        call_edges: vec![],
    }
}

fn call(caller: &str, text: &str) -> CallEdge {
    CallEdge { caller: caller.to_string(), callee_expr_text: text.to_string(), callee: None, kind: CallKind::Unresolved }
}

#[test]
fn missing_path_is_a_parse_error() {
    match SourceCode::new("nowhere.rs", false, false) {
        Err(NTreeError::ParseError(m)) => assert_eq!(m, "Path does not exist: nowhere.rs"),
        _ => panic!("expected an error"),
    }
}

#[test]
fn presets_enable_what_they_say() {
    let minimal = AnalysisOptions::minimal();
    assert!(minimal.complexity_analysis && minimal.cfg_generation);
    assert!(!minimal.basic_blocks && !minimal.loop_analysis && !minimal.data_flow_analysis);
    assert!(minimal.has_any_enabled());
    assert!(!AnalysisOptions::none().has_any_enabled());
    assert!(AnalysisOptions::default().has_any_enabled());
    let s = SourceCode::new("src/lib.rs", true, false).unwrap().minimal();
    assert_eq!(*s.options(), AnalysisOptions::minimal());
}

#[test]
fn nothing_enabled_is_refused() {
    let s = SourceCode::new("src/lib.rs", true, false).unwrap().none();
    match s.analyze(vec![file("src/lib.rs", "rust", 10, &["main"])], &vec![]) {
        Err(NTreeError::ParseError(m)) => assert_eq!(m, "No analyses enabled. Configure at least one analysis type."),
        _ => panic!("expected an error"),
    }
}

#[test]
fn builder_settings_are_kept() {
    let s = SourceCode::new("src", true, true)
        .unwrap()
        .with_complexity_analysis(false)
        .with_basic_blocks(false)
        .with_deep_external_call_tracking(true);
    assert!(s.is_workspace());
    assert_eq!(s.path(), "src");
    assert!(!s.options().complexity_analysis);
    assert!(!s.options().basic_blocks);
    assert!(s.options().cfg_generation);
    let w = SourceCode::new("src/lib.rs", true, false).unwrap().search_workspace(true);
    assert!(w.is_workspace() && w.options().workspace_search);
}

#[test]
fn single_file_analysis_collects_each_enabled_result() {
    let s = SourceCode::new("src/main.rs", true, false).unwrap().with_basic_blocks(false);
    let r = s.analyze(vec![file("src/main.rs", "rust", 10, &["main", "calculate"])], &vec![]).unwrap();
    assert!(!r.is_workspace_mode());
    assert_eq!(r.functions().len(), 2);
    assert_eq!(r.functions().find_by_name("main").unwrap().span, "1:1");
    assert_eq!(r.cfgs().for_function("calculate").unwrap().mermaid, "graph TD\n    calculate");
    assert_eq!(r.complexity().len(), 2);
    assert_eq!(r.complexity().all()[0].cyclomatic, 1);
    assert_eq!(r.symbol_count(), 2);
    assert!(r.files_by_language().is_none());
    assert!(r.workspace_stats().is_none());
    assert!(r.deep_call_tracker.is_none());
    assert_eq!(r.cfgs().to_mermaid(), "graph TD\n    main\n\ngraph TD\n    calculate");
}

#[test]
fn single_file_failures_come_in_analysis_order() {
    let mut f = file("src/main.rs", "rust", 10, &["main"]);
    f.cfgs = Err(NTreeError::ParseError("cfg".to_string()));
    f.symbols = Err(NTreeError::IoError("symbols".to_string()));
    match AnalysisResult::from_single_file(f, AnalysisOptions::default()) {
        Err(NTreeError::ParseError(m)) => assert_eq!(m, "cfg"),
        _ => panic!("expected the graph error"),
    }
    let mut g = file("src/main.rs", "rust", 10, &["main"]);
    g.symbols = Err(NTreeError::IoError("symbols".to_string()));
    match AnalysisResult::from_single_file(g, AnalysisOptions::default()) {
        Err(NTreeError::IoError(m)) => assert_eq!(m, "symbols"),
        _ => panic!("expected the symbol error"),
    }
}

#[test]
fn workspace_groups_files_by_language_and_counts_them() {
    let files = vec![
        file("src/a.rs", "rust", 100, &["a"]),
        file("app/b.py", "python", 50, &["b"]),
        file("src/c.rs", "rust", 25, &["c"]),
    ];
    let s = SourceCode::new("ws", true, true).unwrap();
    let r = s.analyze(files, &vec![]).unwrap();
    assert!(r.is_workspace_mode());
    let groups = r.files_by_language().unwrap();
    assert_eq!(groups.len(), 2);
    assert_eq!(groups[0].0, "rust");
    assert_eq!(groups[0].1.len(), 2);
    assert_eq!(groups[1].0, "python");
    let stats = r.workspace_stats().unwrap();
    assert_eq!(stats.total_files, 3);
    assert_eq!(stats.total_size, 175);
    assert_eq!(stats.languages, 2);
    assert_eq!(r.symbol_count(), 3);
    assert_eq!(r.functions().len(), 0);
    assert_eq!(r.cfgs().len(), 3);
}

#[test]
fn workspace_keeps_python_call_edges_only() {
    let mut py = file("app/b.py", "python", 50, &["b"]);
    py.call_edges = vec![call("b", "requests.get(url)")];
    let mut rs = file("src/a.rs", "rust", 10, &["a"]);
    rs.call_edges = vec![call("a", "Vec::new()")];
    let r = AnalysisResult::from_workspace(vec![rs, py], AnalysisOptions::default()).unwrap();
    assert_eq!(r.call_graph.get_all_call_edges().len(), 1);
    assert_eq!(r.call_graph.edges[0].callee_expr_text, "requests.get(url)");
}

#[test]
fn workspace_fails_on_the_first_symbol_error() {
    let mut bad = file("src/bad.rs", "rust", 1, &["x"]);
    bad.symbols = Err(NTreeError::IoError("unreadable".to_string()));
    let mut worse = file("src/worse.rs", "rust", 1, &["y"]);
    worse.symbols = Err(NTreeError::IoError("second".to_string()));
    match AnalysisResult::from_workspace(vec![file("src/ok.rs", "rust", 1, &["z"]), bad, worse], AnalysisOptions::default()) {
        Err(NTreeError::IoError(m)) => assert_eq!(m, "unreadable"),
        _ => panic!("expected the first symbol error"),
    }
}

#[test]
fn populating_a_workspace_stops_at_the_first_symbol_error() {
    let mut bad = file("src/bad.rs", "rust", 1, &["x"]);
    bad.symbols = Err(NTreeError::ParseError("broken".to_string()));
    let files = vec![file("src/ok.rs", "rust", 1, &["z", "w"]), bad];
    let mut store = SymbolStore::new();
    let r = WorkspaceMethods::populate_workspace_data(&files, &AnalysisOptions::default(), &mut store);
    assert!(r.is_err());
    assert_eq!(store.get_all_symbols().len(), 2);
    let good = vec![file("src/ok.rs", "rust", 1, &["z"]), file("lib/m.py", "python", 2, &["m"])];
    let mut store2 = SymbolStore::new();
    let (records, groups) = WorkspaceMethods::populate_workspace_data(&good, &AnalysisOptions::default(), &mut store2).unwrap();
    assert_eq!(records.len(), 2);
    assert_eq!(groups.len(), 2);
    assert_eq!(store2.get_all_symbols().len(), 2);
}

#[test]
fn languages_are_detected_by_extension() {
    assert!(matches!(SupportedLanguage::from_path("a/b.py"), Ok(SupportedLanguage::Python)));
    assert!(matches!(SupportedLanguage::from_path("x.hpp"), Ok(SupportedLanguage::Cpp)));
    assert!(matches!(SupportedLanguage::from_path("x.mjs"), Ok(SupportedLanguage::JavaScript)));
    assert!(matches!(SupportedLanguage::from_path("x.h"), Ok(SupportedLanguage::C)));
    match SupportedLanguage::from_path("docs/README") {
        Err(NTreeError::InvalidInput(m)) => assert_eq!(m, "No file extension: docs/README"),
        _ => panic!("expected an error"),
    }
    match SupportedLanguage::from_path("notes.txt") {
        Err(NTreeError::InvalidInput(m)) => assert_eq!(m, "Unsupported file extension: txt"),
        _ => panic!("expected an error"),
    }
    assert!(matches!(SupportedLanguage::from_path(".py"), Err(NTreeError::InvalidInput(_))));
}

#[test]
fn grouping_keeps_first_appearance_order() {
    let recs = vec![record("a.py", "python", 1), record("b.rs", "rust", 1), record("c.py", "python", 1)];
    let groups = group_by_language(&recs);
    assert_eq!(groups.len(), 2);
    assert_eq!(groups[0].0, "python");
    assert_eq!(groups[0].1.iter().map(|r| r.path.as_str()).collect::<Vec<_>>(), vec!["a.py", "c.py"]);
    let stats = WorkspaceMethods::get_workspace_stats(&recs);
    assert_eq!(stats.languages, 2);
}

#[test]
fn exported_jsonl_lists_graphs_blocks_and_complexity() {
    let s = SourceCode::new("src/main.rs", true, false).unwrap();
    let r = s.analyze(vec![file("src/main.rs", "rust", 10, &["main"])], &vec![]).unwrap();
    let out = r.to_jsonl().unwrap();
    assert_eq!(out, "{\"func\":\"main\"}\n{\"function\":\"main\",\"cyclomatic\":1,\"unreachable\":[]}\n");
}

#[test]
fn data_sets_collect_records_symbols_and_dependencies() {
    let r = AnalysisResult::from_workspace(
        vec![file("src/a.py", "python", 3, &["a"]), file("src/b.py", "python", 4, &["b"])],
        AnalysisOptions::default(),
    )
    .unwrap();
    let deps = vec![
        Ok((vec![ImportEdge { file: "src/a.py".to_string(), module: "os".to_string() }], vec![])),
        Err(NTreeError::ParseError("skip".to_string())),
    ];
    let d = r.export_dataset(deps).unwrap();
    assert_eq!(d.files.len(), 2);
    assert_eq!(d.symbols.len(), 2);
    assert_eq!(d.imports.len(), 1);
    assert_eq!(d.imports[0].module, "os");
    assert!(d.exports.is_empty());
    let stats = r
        .dataset_stats(vec![Ok((vec![], vec![ExportEdge { file: "src/a.py".to_string(), name: "a".to_string() }])), Ok((vec![], vec![]))])
        .unwrap();
    assert_eq!((stats.files, stats.symbols, stats.imports, stats.exports), (2, 2, 0, 1));
}

#[test]
fn errors_display_with_their_kind() {
    assert_eq!(NTreeError::IoError("x".to_string()).to_string(), "IO Error: x");
    assert_eq!(NTreeError::ParseError("y".to_string()).to_string(), "Parse Error: y");
    assert_eq!(NTreeError::InvalidInput("z".to_string()).to_string(), "Invalid Input: z");
}

fn flow(name: &str) -> ntree::models::DataFlowGraph {
    ntree::models::DataFlowGraph { function_name: name.to_string(), edges: Vec::new() }
}

fn lifecycle(name: &str, function: &str) -> ntree::models::VariableLifecycle {
    ntree::models::VariableLifecycle {
        name: name.to_string(),
        function: function.to_string(),
        definitions: 1,
        mutations: 0,
        uses: 1,
        live_at_exit: false,
    }
}

fn parse_error_text(e: &NTreeError) -> String {
    match e {
        NTreeError::ParseError(m) => m.clone(),
        other => panic!("unexpected error {:?}", other),
    }
}

#[test]
fn data_flow_runs_stop_at_the_first_error() {
    let gen_err = AnalysisRunner::run_data_flow_analysis(Err(NTreeError::ParseError("no cfg".to_string())));
    assert_eq!(parse_error_text(&gen_err.unwrap_err()), "no cfg");
    let ok = AnalysisRunner::run_data_flow_analysis(Ok(vec![Ok(flow("a")), Ok(flow("b"))])).unwrap();
    assert_eq!(ok.iter().map(|g| g.function_name.as_str()).collect::<Vec<_>>(), vec!["a", "b"]);
    let first = AnalysisRunner::run_data_flow_analysis(Ok(vec![
        Ok(flow("a")),
        Err(NTreeError::ParseError("first".to_string())),
        Err(NTreeError::ParseError("second".to_string())),
    ]));
    assert_eq!(parse_error_text(&first.unwrap_err()), "first");
    assert!(AnalysisRunner::run_data_flow_analysis(Ok(Vec::new())).unwrap().is_empty());
}

#[test]
fn lifecycle_runs_combine_functions_in_order() {
    let set = AnalysisRunner::run_variable_lifecycle_analysis(Ok(vec![
        Ok(vec![lifecycle("x", "f"), lifecycle("y", "f")]),
        Ok(Vec::new()),
        Ok(vec![lifecycle("z", "g")]),
    ]))
    .unwrap();
    assert_eq!(set.lifecycles.iter().map(|l| l.name.as_str()).collect::<Vec<_>>(), vec!["x", "y", "z"]);
    let err = AnalysisRunner::run_variable_lifecycle_analysis(Ok(vec![
        Ok(vec![lifecycle("x", "f")]),
        Err(NTreeError::ParseError("lifecycle".to_string())),
    ]));
    assert_eq!(parse_error_text(&err.unwrap_err()), "lifecycle");
    let gen_err = AnalysisRunner::run_variable_lifecycle_analysis(Err(NTreeError::ParseError("no cfg".to_string())));
    assert_eq!(parse_error_text(&gen_err.unwrap_err()), "no cfg");
}

#[test]
fn builder_switches_commute_and_the_last_one_wins() {
    let s = SourceCode::new("/work", true, false).unwrap();
    let a = s.clone().with_complexity_analysis(false).with_cfg_generation(false);
    let b = s.clone().with_cfg_generation(false).with_complexity_analysis(false);
    assert_eq!(*a.options(), *b.options());
    assert_eq!(a.path(), b.path());
    assert_eq!(a.is_workspace(), b.is_workspace());
    let twice = s.clone().with_cfg_generation(true).with_cfg_generation(false);
    assert_eq!(*twice.options(), *s.clone().with_cfg_generation(false).options());
    assert!(!twice.options().cfg_generation);
    assert!(twice.options().complexity_analysis);
}

#[test]
fn workspace_search_switches_workspace_mode() {
    let s = SourceCode::new("/work", true, false).unwrap();
    assert!(!s.is_workspace() && !s.options().workspace_search);
    let on = s.search_workspace(true);
    assert!(on.is_workspace() && on.options().workspace_search);
    let still = on.clone().minimal();
    assert!(still.is_workspace() && !still.options().workspace_search);
    let off = on.search_workspace(false);
    assert!(!off.is_workspace() && !off.options().workspace_search);
}
