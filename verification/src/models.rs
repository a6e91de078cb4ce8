//! The records that the analyses produce and consume.
use vstd::prelude::*;

verus! {

/// A function of a source file with the span it covers.
#[derive(Debug, Clone)]
pub struct FunctionSpan {
    pub function: String,
    pub span: String,
}

/// Cyclomatic complexity of one function and the nodes of its CFG that no
/// path from the entry reaches.
#[derive(Debug, Clone)]
pub struct ComplexityResult {
    pub function: String,
    pub cyclomatic: u32,
    pub unreachable: Vec<String>,
}

/// Both renderings of one function's control-flow graph.
#[derive(Debug, Clone)]
pub struct CfgResult {
    pub function_name: String,
    pub mermaid: String,
    pub jsonl: String,
}

/// The basic-block rendering of one function.
#[derive(Debug, Clone)]
pub struct BasicBlockResult {
    pub function_name: String,
    pub jsonl: String,
}

/// A node of a language-neutral control-flow graph.
#[derive(Debug, Clone)]
pub struct CfgIrNode {
    pub id: String,
    pub label: String,
}

/// An edge of a language-neutral control-flow graph, between node positions.
#[derive(Debug, Clone)]
pub struct CfgIrEdge {
    pub from: usize,
    pub to: usize,
    pub kind: String,
}

/// The language-neutral control-flow graph of one function.
#[derive(Debug, Clone)]
pub struct FunctionCfgIr {
    pub function_name: String,
    pub source_file: Option<String>,
    pub nodes: Vec<CfgIrNode>,
    pub edges: Vec<CfgIrEdge>,
    /// Position in `nodes` of the ENTRY node.
    pub entry: usize,
}

impl FunctionCfgIr {
    /// The edges as pairs of node positions.
    pub open spec fn edge_pairs(&self) -> Seq<(usize, usize)> {
        self.edges@.map_values(|e: CfgIrEdge| (e.from, e.to))
    }
}

/// A node of a function's control-flow graph.
#[derive(Debug, Clone)]
pub struct CfgNode {
    pub id: usize,
    pub label: String,
}

/// An edge of a function's control-flow graph, between node ids.
#[derive(Debug, Clone)]
pub struct CfgEdge {
    pub from: usize,
    pub to: usize,
    pub kind: String,
}

/// A function's control-flow graph.
#[derive(Debug, Clone)]
pub struct ControlFlowGraph {
    pub nodes: Vec<CfgNode>,
    pub edges: Vec<CfgEdge>,
}

/// A source file found in a workspace.
#[derive(Debug, Clone)]
pub struct FileRecord {
    pub path: String,
    pub language: String,
    pub size: u64,
    pub content_hash: String,
}

/// A top-level symbol (function, class, ...) of a source file.
#[derive(Debug, Clone)]
pub struct TopLevelSymbol {
    pub file_path: String,
    pub name: String,
    pub kind: String,
    pub id: String,
    pub span: String,
}

impl TopLevelSymbol {
    /// A symbol with the given fields.
    pub fn new(file_path: String, name: String, kind: String, id: String, span: String) -> (s:
        TopLevelSymbol)
        ensures
            s.file_path == file_path,
            s.name == name,
            s.kind == kind,
            s.id == id,
            s.span == span,
    {
        TopLevelSymbol { file_path, name, kind, id, span }
    }

    /// A copy of this symbol.
    pub fn duplicate(&self) -> (s: TopLevelSymbol)
        ensures
            s == *self,
    {
        TopLevelSymbol {
            file_path: self.file_path.clone(),
            name: self.name.clone(),
            kind: self.kind.clone(),
            id: self.id.clone(),
            span: self.span.clone(),
        }
    }
}

/// How a call site was resolved.
#[derive(Debug, Clone, Copy, PartialEq, Eq, Structural)]
pub enum CallKind {
    Direct,
    Virtual,
    Unresolved,
}

/// A call made from the body of a function.
#[derive(Debug, Clone)]
pub struct CallEdge {
    /// Symbol id of the calling function.
    pub caller: String,
    /// The text of the called expression, such as `requests.get`.
    pub callee_expr_text: String,
    /// Symbol id of the called function, where it was resolved.
    pub callee: Option<String>,
    pub kind: CallKind,
}

/// A data dependency between two program points of a function.
#[derive(Debug, Clone)]
pub struct DataDependency {
    pub variable: String,
    pub from: usize,
    pub to: usize,
}

/// The data dependencies of one function.
#[derive(Debug, Clone)]
pub struct DataFlowGraph {
    pub function_name: String,
    pub edges: Vec<DataDependency>,
}

/// How one variable is defined, changed and used.
#[derive(Debug, Clone)]
pub struct VariableLifecycle {
    pub name: String,
    pub function: String,
    pub definitions: usize,
    pub mutations: usize,
    pub uses: usize,
    pub live_at_exit: bool,
}

impl VariableLifecycle {
    /// The variable is changed after its definition.
    pub fn is_mutated(&self) -> (b: bool)
        ensures
            b == (self.mutations > 0),
    {
        self.mutations > 0
    }

    /// The variable is read somewhere.
    pub fn is_used(&self) -> (b: bool)
        ensures
            b == (self.uses > 0),
    {
        self.uses > 0
    }
}

/// A definition of a variable and the program points that use it.
#[derive(Debug, Clone)]
pub struct DefUseChain {
    pub function: String,
    pub variable: String,
    pub definition: usize,
    pub uses: Vec<usize>,
}

impl DefUseChain {
    /// How many uses the definition has.
    pub fn use_count(&self) -> (n: usize)
        ensures
            n == self.uses@.len(),
    {
        self.uses.len()
    }
}

/// One path through a function's decisions.
#[derive(Debug, Clone)]
pub struct DecisionPath {
    pub conditions: Vec<String>,
    pub reachable: bool,
}

/// The decision paths of one function.
#[derive(Debug, Clone)]
pub struct DecisionTree {
    pub function_name: String,
    pub paths: Vec<DecisionPath>,
}

/// A variable defined in one file and used in others.
#[derive(Debug, Clone)]
pub struct CrossFileVariable {
    pub name: String,
    pub definition_file: String,
    pub usage_files: Vec<String>,
}

} // verus!
