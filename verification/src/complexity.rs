//! Cyclomatic complexity and unreachable-node detection on a function's CFG.
use vstd::prelude::*;
use crate::error::NTreeError;
use crate::graph::{edges_within, reachable, reachable_from};
use crate::models::{ComplexityResult, FunctionCfgIr};
use crate::text::concat2;

verus! {

/// Cyclomatic complexity of a graph with `edges` edges and `nodes` nodes: `E - N + 2`.
pub open spec fn cyclomatic_formula(edges: int, nodes: int) -> int {
    edges - nodes + 2
}

/// The entry is a node, and every edge joins two nodes.
pub open spec fn ir_well_formed(ir: FunctionCfgIr) -> bool {
    &&& ir.entry < ir.nodes@.len()
    &&& edges_within(ir.edge_pairs(), ir.nodes@.len() as int)
}

/// The node at position `v` is reached by some path from the entry.
pub open spec fn ir_reachable(ir: FunctionCfgIr, v: int) -> bool {
    reachable(ir.edge_pairs(), ir.entry as int, v)
}

/// Ids of the nodes among the first `k` that no path from the entry reaches, in node order.
pub open spec fn unreachable_ids_upto(ir: FunctionCfgIr, k: int) -> Seq<Seq<char>>
    decreases k,
{
    if k <= 0 {
        Seq::empty()
    } else if !ir_reachable(ir, k - 1) {
        unreachable_ids_upto(ir, k - 1).push(ir.nodes@[k - 1].id@)
    } else {
        unreachable_ids_upto(ir, k - 1)
    }
}

/// Ids of the nodes that no path from the entry reaches, in node order.
pub open spec fn unreachable_ids(ir: FunctionCfgIr) -> Seq<Seq<char>> {
    unreachable_ids_upto(ir, ir.nodes@.len() as int)
}

/// The views of a sequence of strings.
pub open spec fn string_views(v: Seq<String>) -> Seq<Seq<char>> {
    v.map_values(|s: String| s@)
}

/// Why the analysis of `ir` fails, checked in this order: no entry node, an
/// edge to a missing node, a complexity beyond `u32`, a negative complexity.
pub open spec fn complexity_error(ir: FunctionCfgIr) -> Seq<char> {
    if ir.entry >= ir.nodes@.len() {
        "control-flow graph has no entry node"@
    } else if !edges_within(ir.edge_pairs(), ir.nodes@.len() as int) {
        "control-flow graph edge refers to a missing node"@
    } else if cyclomatic_formula(ir.edges@.len() as int, ir.nodes@.len() as int) > u32::MAX {
        "cyclomatic complexity exceeds u32"@
    } else {
        "control-flow graph has negative cyclomatic complexity"@
    }
}

/// Computes cyclomatic complexity and unreachable code of control-flow graphs.
pub struct ComplexityAnalyzer;

impl ComplexityAnalyzer {
    pub fn new() -> (a: ComplexityAnalyzer) {
        ComplexityAnalyzer
    }

    /// Complexity `E - N + 2` of `ir` and the ids of its nodes that a
    /// depth-first search from the entry does not reach.
    ///
    /// Fails when the graph is malformed or the complexity is not a `u32`.
    pub fn analyze(&self, ir: &FunctionCfgIr) -> (res: Result<ComplexityResult, String>)
        ensures
            res is Ok <==> (ir_well_formed(*ir) && 0 <= cyclomatic_formula(
                ir.edges@.len() as int,
                ir.nodes@.len() as int,
            ) <= u32::MAX),
            res matches Ok(r) ==> {
                &&& r.function@ == ir.function_name@
                &&& r.cyclomatic == cyclomatic_formula(
                    ir.edges@.len() as int,
                    ir.nodes@.len() as int,
                )
                &&& string_views(r.unreachable@) == unreachable_ids(*ir)
            },
            res matches Err(m) ==> m@ == complexity_error(*ir),
    {
        let n = ir.nodes.len();
        if ir.entry >= n {
            return Err("control-flow graph has no entry node".to_owned());
        }
        let mut pairs: Vec<(usize, usize)> = Vec::new();
        for k in 0..ir.edges.len()
            invariant
                n == ir.nodes@.len(),
                ir.entry < n,
                pairs@.len() == k,
                forall|m: int| 0 <= m < k ==> #[trigger] pairs@[m] == ir.edge_pairs()[m],
                edges_within(pairs@, n as int),
        {
            let e = &ir.edges[k];
            if e.from >= n || e.to >= n {
                assert(ir.edge_pairs()[k as int] == (e.from, e.to));
                assert(ir.edge_pairs()[k as int].0 == e.from);
                assert(!edges_within(ir.edge_pairs(), n as int));
                return Err("control-flow graph edge refers to a missing node".to_owned());
            }
            pairs.push((e.from, e.to));
            assert(pairs@[k as int].0 < n && pairs@[k as int].1 < n);
        }
        assert(pairs@ =~= ir.edge_pairs());
        let e_count = ir.edges.len();
        let c: usize;
        if e_count >= n {
            let d = e_count - n;
            if d > 4294967293usize {
                return Err("cyclomatic complexity exceeds u32".to_owned());
            }
            c = d + 2;
        } else {
            let d = n - e_count;
            if d > 2 {
                return Err("control-flow graph has negative cyclomatic complexity".to_owned());
            }
            c = 2 - d;
        }
        let seen = reachable_from(n, &pairs, ir.entry);
        let mut unreachable: Vec<String> = Vec::new();
        for v in 0..n
            invariant
                n == ir.nodes@.len(),
                seen@.len() == n,
                pairs@ == ir.edge_pairs(),
                forall|w: int| 0 <= w < n ==> (seen@[w] <==> ir_reachable(*ir, w)),
                string_views(unreachable@) == unreachable_ids_upto(*ir, v as int),
        {
            if !seen[v] {
                let id = ir.nodes[v].id.clone();
                unreachable.push(id);
                assert(string_views(unreachable@) =~= string_views(unreachable@.drop_last()).push(
                    ir.nodes@[v as int].id@,
                ));
            }
        }
        Ok(ComplexityResult { function: ir.function_name.clone(), cyclomatic: c as u32, unreachable })
    }
}

/// `e` reports the first graph of `irs` whose complexity cannot be computed.
pub open spec fn first_complexity_failure(irs: Seq<FunctionCfgIr>, e: NTreeError) -> bool {
    exists|i: int|
        0 <= i < irs.len() && !complexity_defined(#[trigger] irs[i]) && (forall|j: int|
            0 <= j < i ==> complexity_defined(irs[j])) && e == NTreeError::ParseError(
            e->ParseError_0,
        ) && e->ParseError_0@ == "Complexity analysis failed: "@ + complexity_error(irs[i])
}

/// Runs the complexity analysis on each function's graph, in order; the first
/// malformed graph fails the whole run.
pub fn run_complexity_on(irs: &Vec<FunctionCfgIr>) -> (res: Result<Vec<ComplexityResult>, NTreeError>)
    ensures
        res is Ok <==> forall|i: int| 0 <= i < irs@.len() ==> complexity_defined(#[trigger] irs@[i]),
        res matches Ok(v) ==> v@.len() == irs@.len() && forall|i: int|
            0 <= i < irs@.len() ==> complexity_matches(#[trigger] v@[i], irs@[i]),
        res matches Err(e) ==> first_complexity_failure(irs@, e),
{
    let analyzer = ComplexityAnalyzer::new();
    let mut out: Vec<ComplexityResult> = Vec::new();
    for i in 0..irs.len()
        invariant
            out@.len() == i,
            forall|j: int| 0 <= j < i ==> complexity_defined(#[trigger] irs@[j]),
            forall|j: int| 0 <= j < i ==> complexity_matches(#[trigger] out@[j], irs@[j]),
    {
        match analyzer.analyze(&irs[i]) {
            Ok(r) => out.push(r),
            Err(e) => {
                let msg = concat2("Complexity analysis failed: ", e.as_str());
                return Err(NTreeError::ParseError(msg));
            },
        }
    }
    Ok(out)
}

/// The analysis of `ir` succeeds.
pub open spec fn complexity_defined(ir: FunctionCfgIr) -> bool {
    ir_well_formed(ir) && 0 <= cyclomatic_formula(ir.edges@.len() as int, ir.nodes@.len() as int)
        <= u32::MAX
}

/// `r` is what the analysis of `ir` gives.
pub open spec fn complexity_matches(r: ComplexityResult, ir: FunctionCfgIr) -> bool {
    &&& r.function@ == ir.function_name@
    &&& r.cyclomatic == cyclomatic_formula(ir.edges@.len() as int, ir.nodes@.len() as int)
    &&& string_views(r.unreachable@) == unreachable_ids(ir)
}

/// Every id among the unreachable ids of the first `k` nodes is the id of one
/// of them that the entry does not reach.
pub proof fn lemma_unreachable_ids_upto(ir: FunctionCfgIr, k: int, x: Seq<char>)
    requires
        0 <= k <= ir.nodes@.len(),
        unreachable_ids_upto(ir, k).contains(x),
    ensures
        exists|j: int| 0 <= j < k && !ir_reachable(ir, j) && #[trigger] ir.nodes@[j].id@ == x,
    decreases k,
{
    if k > 0 {
        let d = unreachable_ids_upto(ir, k - 1);
        if !ir_reachable(ir, k - 1) && ir.nodes@[k - 1].id@ == x {
            assert(ir.nodes@[k - 1].id@ == x);
        } else {
            if !ir_reachable(ir, k - 1) {
                let i = choose|i: int| 0 <= i < unreachable_ids_upto(ir, k).len() && unreachable_ids_upto(ir, k)[i] == x;
                assert(unreachable_ids_upto(ir, k) == d.push(ir.nodes@[k - 1].id@));
                assert(i < d.len());
                assert(d[i] == x);
            }
            lemma_unreachable_ids_upto(ir, k - 1, x);
        }
    }
}

/// The entry is never unreachable: in a well-formed graph whose node ids are
/// distinct, the entry's id is not among the unreachable ids.
pub proof fn lemma_entry_never_unreachable(ir: FunctionCfgIr)
    requires
        ir_well_formed(ir),
        forall|i: int, j: int|
            0 <= i < ir.nodes@.len() && 0 <= j < ir.nodes@.len() && i != j ==> #[trigger] ir.nodes@[i].id@
                != #[trigger] ir.nodes@[j].id@,
    ensures
        !unreachable_ids(ir).contains(ir.nodes@[ir.entry as int].id@),
{
    let e = ir.entry as int;
    crate::graph::lemma_reachable_refl(ir.edge_pairs(), e);
    if unreachable_ids(ir).contains(ir.nodes@[e].id@) {
        lemma_unreachable_ids_upto(ir, ir.nodes@.len() as int, ir.nodes@[e].id@);
        let j = choose|j: int| 0 <= j < ir.nodes@.len() && !ir_reachable(ir, j) && #[trigger] ir.nodes@[j].id@ == ir.nodes@[e].id@;
        assert(j == e);
    }
}

} // verus!
