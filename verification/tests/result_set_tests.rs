use ntree::data_flow_sets::{
    CrossFileVariableResultSet, DataFlowResultSet, DecisionTreeResultSet, DecisionTreeSet, DefUseChainResultSet,
    DefUseChainSet, VariableLifecycleResultSet, VariableLifecycleSet,
};
use ntree::models::{
    BasicBlockResult, CfgResult, CrossFileVariable, DataDependency, DataFlowGraph, DecisionPath, DecisionTree,
    DefUseChain, FunctionSpan, VariableLifecycle,
};
use ntree::result_sets::{BasicBlockResultSet, CfgResultSet, FunctionResultSet};

fn lifecycle(name: &str, mutations: usize, uses: usize, live: bool) -> VariableLifecycle {
    VariableLifecycle { name: name.to_string(), function: "f".to_string(), definitions: 1, mutations, uses, live_at_exit: live }
}

#[test]
fn lifecycle_queries() {
    let mut set = VariableLifecycleSet::new();
    set.add_lifecycle(lifecycle("x", 2, 1, true));
    set.add_lifecycle(lifecycle("y", 0, 0, false));
    set.add_lifecycle(lifecycle("x", 0, 3, false));
    assert_eq!(set.get("x").unwrap().mutations, 2);
    assert!(set.get("z").is_none());
    let rs = VariableLifecycleResultSet::new(&set);
    assert_eq!(rs.all().len(), 3);
    assert_eq!(rs.mutated_variables().len(), 1);
    assert_eq!(rs.unused_variables()[0].name, "y");
    assert_eq!(rs.live_variables().len(), 1);
    assert_eq!(rs.for_variable("x").unwrap().uses, 1);
    assert!(set.lifecycles[0].is_mutated() && set.lifecycles[0].is_used());
}

#[test]
fn def_use_chain_queries() {
    let chains = DefUseChainSet {
        chains: vec![
            DefUseChain { function: "f".to_string(), variable: "a".to_string(), definition: 1, uses: vec![] },
            DefUseChain { function: "g".to_string(), variable: "b".to_string(), definition: 2, uses: vec![3, 4, 5] },
            DefUseChain { function: "f".to_string(), variable: "c".to_string(), definition: 6, uses: vec![7] },
        ],
    };
    assert_eq!(chains.for_function("f").len(), 2);
    assert_eq!(chains.dead_definitions()[0].variable, "a");
    let rs = DefUseChainResultSet::new(&chains);
    assert_eq!(rs.heavily_used_definitions(2).len(), 1);
    assert_eq!(rs.heavily_used_definitions(0).len(), 3);
    assert_eq!(rs.for_function("g")[0].use_count(), 3);
    assert_eq!(rs.all().len(), 3);
    assert_eq!(rs.dead_definitions().len(), 1);
}

#[test]
fn decision_tree_queries() {
    let path = |ok: bool| DecisionPath { conditions: vec!["x > 0".to_string()], reachable: ok };
    let trees = DecisionTreeSet {
        trees: vec![
            DecisionTree { function_name: "f".to_string(), paths: vec![path(true), path(false)] },
            DecisionTree { function_name: "g".to_string(), paths: vec![path(true)] },
        ],
    };
    assert_eq!(trees.trees[0].reachable_paths().len(), 1);
    assert_eq!(trees.trees[0].unreachable_paths().len(), 1);
    assert_eq!(trees.for_function("g").unwrap().paths.len(), 1);
    let rs = DecisionTreeResultSet::new(&trees);
    assert_eq!(rs.total_paths(), 3);
    assert_eq!(rs.reachable_paths(), 2);
    assert_eq!(rs.functions_with_dead_code(), vec!["f"]);
    assert!(rs.for_function("h").is_none());
}

#[test]
fn data_flow_and_cross_file_queries() {
    let graphs = vec![
        DataFlowGraph { function_name: "f".to_string(), edges: vec![DataDependency { variable: "x".to_string(), from: 1, to: 2 }] },
        DataFlowGraph { function_name: "g".to_string(), edges: vec![] },
    ];
    let rs = DataFlowResultSet::new(&graphs);
    assert_eq!(rs.functions_with_dependencies(), vec!["f"]);
    assert_eq!(rs.total_dependencies(), 1);
    assert_eq!(rs.for_function("g").unwrap().edges.len(), 0);
    assert_eq!(rs.all().len(), 2);
    let vars = vec![
        CrossFileVariable { name: "CONFIG".to_string(), definition_file: "src/config.py".to_string(), usage_files: vec!["src/app.py".to_string()] },
        CrossFileVariable { name: "LOCAL".to_string(), definition_file: "src/app.py".to_string(), usage_files: vec![] },
    ];
    let cf = CrossFileVariableResultSet::new(&vars);
    assert_eq!(cf.imported_variables().len(), 1);
    assert_eq!(cf.from_file("config")[0].name, "CONFIG");
    assert_eq!(cf.total_cross_file_dependencies(), 1);
}

#[test]
fn cfg_block_and_function_sets() {
    let cfgs = vec![
        CfgResult { function_name: "main".to_string(), mermaid: "graph TD\n    N1".to_string(), jsonl: "{\"a\":1}".to_string() },
        CfgResult { function_name: "get_x".to_string(), mermaid: "graph TD\n    N2".to_string(), jsonl: "{\"b\":2}".to_string() },
    ];
    assert_eq!(CfgResultSet { data: &cfgs }.to_mermaid(), "graph TD\n    N1\n\ngraph TD\n    N2");
    assert_eq!(CfgResultSet { data: &cfgs }.to_jsonl(), "{\"a\":1}\n{\"b\":2}");
    assert_eq!(CfgResultSet { data: &cfgs }.for_function("get_x").unwrap().jsonl, "{\"b\":2}");
    assert_eq!(CfgResultSet { data: &cfgs }.filter_by_name("get_").len(), 1);
    let blocks = vec![BasicBlockResult { function_name: "main".to_string(), jsonl: "{}".to_string() }];
    assert_eq!(BasicBlockResultSet { data: &blocks }.to_jsonl(), "{}");
    assert!(BasicBlockResultSet { data: &blocks }.for_function("nope").is_none());
    let fns = vec![
        FunctionSpan { function: "get_name".to_string(), span: "1:1-3:1".to_string() },
        FunctionSpan { function: "set_name".to_string(), span: "4:1-6:1".to_string() },
    ];
    assert_eq!(FunctionResultSet { data: &fns }.names(), vec!["get_name", "set_name"]);
    assert_eq!(FunctionResultSet { data: &fns }.filter_by_name("get_").len(), 1);
    assert_eq!(FunctionResultSet { data: &fns }.find_by_name("set_name").unwrap().span, "4:1-6:1");
    assert!(FunctionResultSet { data: &fns }.find_by_name("nope").is_none());
}
