use ntree::complexity::{run_complexity_on, ComplexityAnalyzer};
use ntree::error::NTreeError;
use ntree::graph::reachable_from;
use ntree::models::{CfgIrEdge, CfgIrNode, ComplexityResult, FunctionCfgIr};
use ntree::result_sets::ComplexityResultSet;
use ntree::runner::AnalysisRunner;

fn node(id: &str) -> CfgIrNode {
    CfgIrNode { id: id.to_string(), label: id.to_string() }
}

fn edge(from: usize, to: usize) -> CfgIrEdge {
    CfgIrEdge { from, to, kind: "next".to_string() }
}

fn ir(name: &str, n: usize, edges: &[(usize, usize)], entry: usize) -> FunctionCfgIr {
    FunctionCfgIr {
        function_name: name.to_string(),
        source_file: None,
        nodes: (1..=n).map(|i| node(&format!("N{}", i))).collect(),
        edges: edges.iter().map(|&(a, b)| edge(a, b)).collect(),
        entry,
    }
}

#[test]
fn diamond_has_complexity_two_and_no_dead_code() {
    let g = ir("diamond", 4, &[(0, 1), (0, 2), (1, 3), (2, 3)], 0);
    let r = ComplexityAnalyzer::new().analyze(&g).unwrap();
    assert_eq!(r.function, "diamond");
    assert_eq!(r.cyclomatic, 2);
    assert!(r.unreachable.is_empty());
}

#[test]
fn straight_line_has_complexity_one() {
    let g = ir("line", 3, &[(0, 1), (1, 2)], 0);
    let r = ComplexityAnalyzer::new().analyze(&g).unwrap();
    assert_eq!(r.cyclomatic, 1);
}

#[test]
fn unreachable_nodes_are_listed_in_node_order() {
    // N1 -> N2 -> N3 ... N6 -> N8, N7 and N9 only reached from each other.
    let g = ir(
        "check",
        9,
        &[(0, 1), (1, 2), (2, 3), (3, 4), (4, 5), (5, 7), (1, 3), (2, 4), (6, 8), (8, 6)],
        0,
    );
    let r = ComplexityAnalyzer::new().analyze(&g).unwrap();
    assert_eq!(r.cyclomatic, 3);
    assert_eq!(r.unreachable, vec!["N7".to_string(), "N9".to_string()]);
}

#[test]
fn entry_node_is_never_unreachable() {
    let g = ir("lonely", 3, &[(1, 2)], 2);
    let r = ComplexityAnalyzer::new().analyze(&g).unwrap();
    assert!(!r.unreachable.contains(&"N3".to_string()));
    assert_eq!(r.unreachable, vec!["N1".to_string(), "N2".to_string()]);
}

#[test]
fn entry_outside_the_graph_is_refused() {
    let g = ir("bad", 2, &[(0, 1)], 5);
    assert!(ComplexityAnalyzer::new().analyze(&g).is_err());
}

#[test]
fn edge_to_missing_node_is_refused() {
    let g = ir("bad", 2, &[(0, 7)], 0);
    assert!(ComplexityAnalyzer::new().analyze(&g).is_err());
}

#[test]
fn negative_complexity_is_refused() {
    let g = ir("sparse", 4, &[], 0);
    assert!(ComplexityAnalyzer::new().analyze(&g).is_err());
}

#[test]
fn reachability_follows_edges_from_the_entry() {
    let seen = reachable_from(5, &vec![(0, 1), (1, 2), (3, 4)], 0);
    assert_eq!(seen, vec![true, true, true, false, false]);
}

#[test]
fn running_on_all_graphs_keeps_their_order() {
    let irs = vec![ir("a", 2, &[(0, 1)], 0), ir("b", 4, &[(0, 1), (0, 2), (1, 3), (2, 3)], 0)];
    let rs = run_complexity_on(&irs).unwrap();
    assert_eq!(rs.len(), 2);
    assert_eq!(rs[0].function, "a");
    assert_eq!(rs[0].cyclomatic, 1);
    assert_eq!(rs[1].cyclomatic, 2);
}

#[test]
fn one_malformed_graph_fails_the_run() {
    let irs = vec![ir("a", 2, &[(0, 1)], 0), ir("b", 2, &[(0, 9)], 0)];
    match run_complexity_on(&irs) {
        Err(NTreeError::ParseError(m)) => assert!(m.starts_with("Complexity analysis failed: ")),
        other => panic!("unexpected {:?}", other),
    }
}

#[test]
fn runner_passes_generation_errors_through() {
    let r = AnalysisRunner::run_complexity_analysis(Err(NTreeError::IoError("gone".to_string())));
    match r {
        Err(NTreeError::IoError(m)) => assert_eq!(m, "gone"),
        other => panic!("unexpected {:?}", other),
    }
    let ok = AnalysisRunner::run_complexity_analysis(Ok(vec![ir("f", 2, &[(0, 1)], 0)])).unwrap();
    assert_eq!(ok[0].cyclomatic, 1);
}

#[test]
fn runner_passes_generated_results_through() {
    assert!(AnalysisRunner::run_cfg_generation(Ok(vec![])).unwrap().is_empty());
    assert!(AnalysisRunner::run_basic_block_generation(Err(NTreeError::ParseError("x".to_string()))).is_err());
    assert!(AnalysisRunner::run_function_extraction(Ok(vec![])).unwrap().is_empty());
}

fn result(name: &str, c: u32, unreachable: &[&str]) -> ComplexityResult {
    ComplexityResult {
        function: name.to_string(),
        cyclomatic: c,
        unreachable: unreachable.iter().map(|s| s.to_string()).collect(),
    }
}

#[test]
fn complexity_jsonl_matches_the_documented_format() {
    let data = vec![result("calculate", 3, &["N7", "N9"]), result("process", 1, &[])];
    let set = ComplexityResultSet { data: &data };
    let out = set.to_jsonl().unwrap();
    assert_eq!(
        out,
        "{\"function\":\"calculate\",\"cyclomatic\":3,\"unreachable\":[\"N7\",\"N9\"]}\n{\"function\":\"process\",\"cyclomatic\":1,\"unreachable\":[]}\n"
    );
}

#[test]
fn json_strings_are_escaped() {
    let data = vec![result("say \"hi\"", 10, &[])];
    let set = ComplexityResultSet { data: &data };
    assert_eq!(
        set.to_jsonl().unwrap(),
        "{\"function\":\"say \\\"hi\\\"\",\"cyclomatic\":10,\"unreachable\":[]}\n"
    );
}

#[test]
fn complexity_filters_keep_order_and_threshold() {
    let data = vec![result("a", 7, &[]), result("test_b", 2, &["N3"]), result("c", 5, &[])];
    let high: Vec<&str> = ComplexityResultSet { data: &data }
        .filter_by_complexity(5)
        .iter()
        .map(|r| r.function.as_str())
        .collect();
    assert_eq!(high, vec!["a", "c"]);
    let named = ComplexityResultSet { data: &data }.filter_by_name("test_");
    assert_eq!(named.len(), 1);
    let dead = ComplexityResultSet { data: &data }.with_unreachable_code();
    assert_eq!(dead[0].function, "test_b");
    let set = ComplexityResultSet { data: &data };
    assert_eq!(set.len(), 3);
    assert!(!set.is_empty());
}

#[test]
fn control_characters_and_backslashes_are_escaped() {
    let data = vec![result("a\\b\n\t\u{1}\u{1f}\u{7f}é", 1, &["\r\u{8}\u{c}"])];
    let set = ComplexityResultSet { data: &data };
    assert_eq!(
        set.to_jsonl().unwrap(),
        "{\"function\":\"a\\\\b\\n\\t\\u0001\\u001f\u{7f}é\",\"cyclomatic\":1,\"unreachable\":[\"\\r\\b\\f\"]}\n"
    );
}
