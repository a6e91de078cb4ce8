//! Result sets over the data-flow analyses: data dependencies, variable
//! lifecycles, def-use chains, decision trees and cross-file variables.
use vstd::prelude::*;
use crate::models::{
    CrossFileVariable, DataFlowGraph, DecisionPath, DecisionTree, DefUseChain, VariableLifecycle,
};
use crate::result_sets::{deref_all, deref_opt, first_where};
use crate::text::{contains_seq, str_contains, str_eq};

verus! {

/// The sum of a sequence of counts.
pub open spec fn sum_of(s: Seq<nat>) -> nat
    decreases s.len(),
{
    if s.len() == 0 {
        0
    } else {
        sum_of(s.drop_last()) + s.last()
    }
}

/// A prefix sums to no more than the whole.
pub proof fn lemma_sum_prefix_le(s: Seq<nat>, k: int)
    requires
        0 <= k <= s.len(),
    ensures
        sum_of(s.take(k)) <= sum_of(s),
    decreases s.len() - k,
{
    if k < s.len() {
        lemma_sum_prefix_le(s, k + 1);
        assert(s.take(k + 1).drop_last() == s.take(k));
    } else {
        assert(s.take(k) == s);
    }
}

/// A graph of the function `name`.
pub open spec fn graph_for(name: Seq<char>) -> spec_fn(DataFlowGraph) -> bool {
    |g: DataFlowGraph| g.function_name@ == name
}

/// A graph with at least one dependency.
pub open spec fn graph_has_edges() -> spec_fn(DataFlowGraph) -> bool {
    |g: DataFlowGraph| g.edges@.len() > 0
}

/// The lifecycle of the variable `name`.
pub open spec fn lifecycle_of(name: Seq<char>) -> spec_fn(VariableLifecycle) -> bool {
    |l: VariableLifecycle| l.name@ == name
}

/// A variable changed after its definition.
pub open spec fn lifecycle_mutated() -> spec_fn(VariableLifecycle) -> bool {
    |l: VariableLifecycle| l.mutations > 0
}

/// A variable never read.
pub open spec fn lifecycle_unused() -> spec_fn(VariableLifecycle) -> bool {
    |l: VariableLifecycle| !(l.uses > 0)
}

/// A variable live when the function exits.
pub open spec fn lifecycle_live() -> spec_fn(VariableLifecycle) -> bool {
    |l: VariableLifecycle| l.live_at_exit
}

/// A chain of the function `name`.
pub open spec fn chain_in(name: Seq<char>) -> spec_fn(DefUseChain) -> bool {
    |c: DefUseChain| c.function@ == name
}

/// A definition that nothing uses.
pub open spec fn chain_dead() -> spec_fn(DefUseChain) -> bool {
    |c: DefUseChain| c.uses@.len() == 0
}

/// A definition with at least `min` uses.
pub open spec fn chain_used_at_least(min: usize) -> spec_fn(DefUseChain) -> bool {
    |c: DefUseChain| c.uses@.len() >= min
}

/// A reachable decision path.
pub open spec fn path_reachable() -> spec_fn(DecisionPath) -> bool {
    |p: DecisionPath| p.reachable
}

/// An unreachable decision path.
pub open spec fn path_unreachable() -> spec_fn(DecisionPath) -> bool {
    |p: DecisionPath| !p.reachable
}

/// The tree of the function `name`.
pub open spec fn tree_for(name: Seq<char>) -> spec_fn(DecisionTree) -> bool {
    |t: DecisionTree| t.function_name@ == name
}

/// A tree with an unreachable path.
pub open spec fn tree_has_dead_path() -> spec_fn(DecisionTree) -> bool {
    |t: DecisionTree| t.paths@.filter(path_unreachable()).len() > 0
}

/// A variable used in some other file.
pub open spec fn var_imported() -> spec_fn(CrossFileVariable) -> bool {
    |v: CrossFileVariable| v.usage_files@.len() > 0
}

/// A variable whose definition file path contains `pattern`.
pub open spec fn var_defined_in(pattern: Seq<char>) -> spec_fn(CrossFileVariable) -> bool {
    |v: CrossFileVariable| contains_seq(v.definition_file@, pattern)
}

impl DecisionTree {
    /// The reachable paths, in order.
    pub fn reachable_paths(&self) -> (r: Vec<& DecisionPath>)
        ensures
            deref_all(r@) == self.paths@.filter(path_reachable()),
    {
        let ghost pred = path_reachable();
        let mut r: Vec<& DecisionPath> = Vec::new();
        for i in 0..self.paths.len()
            invariant
                pred == path_reachable(),
                deref_all(r@) == self.paths@.take(i as int).filter(pred),
        {
            reveal_with_fuel(Seq::<DecisionPath>::filter, 1);
            assert(self.paths@.take(i + 1).drop_last() == self.paths@.take(i as int));
            let x = &self.paths[i];
            if x.reachable {
                r.push(x);
            }
            assert(deref_all(r@) == self.paths@.take(i + 1).filter(pred));
        }
        assert(self.paths@.take(self.paths@.len() as int) == self.paths@);
        r
    }
    /// The unreachable paths, in order.
    pub fn unreachable_paths(&self) -> (r: Vec<& DecisionPath>)
        ensures
            deref_all(r@) == self.paths@.filter(path_unreachable()),
    {
        let ghost pred = path_unreachable();
        let mut r: Vec<& DecisionPath> = Vec::new();
        for i in 0..self.paths.len()
            invariant
                pred == path_unreachable(),
                deref_all(r@) == self.paths@.take(i as int).filter(pred),
        {
            reveal_with_fuel(Seq::<DecisionPath>::filter, 1);
            assert(self.paths@.take(i + 1).drop_last() == self.paths@.take(i as int));
            let x = &self.paths[i];
            if !x.reachable {
                r.push(x);
            }
            assert(deref_all(r@) == self.paths@.take(i + 1).filter(pred));
        }
        assert(self.paths@.take(self.paths@.len() as int) == self.paths@);
        r
    }
}

/// All variable lifecycles of an analysis.
#[derive(Debug, Clone)]
pub struct VariableLifecycleSet {
    pub lifecycles: Vec<VariableLifecycle>,
}

impl VariableLifecycleSet {
    /// An empty set.
    pub fn new() -> (s: Self)
        ensures
            s.lifecycles@.len() == 0,
    {
        VariableLifecycleSet { lifecycles: Vec::new() }
    }

    /// Adds a lifecycle at the end.
    pub fn add_lifecycle(&mut self, lifecycle: VariableLifecycle)
        ensures
            final(self).lifecycles@ == old(self).lifecycles@.push(lifecycle),
    {
        self.lifecycles.push(lifecycle);
    }

    /// All lifecycles, in order.
    pub fn all(&self) -> (r: Vec<& VariableLifecycle>)
        ensures
            deref_all(r@) == self.lifecycles@.filter(|l: VariableLifecycle| true),
    {
        let ghost pred = |l: VariableLifecycle| true;
        let mut r: Vec<& VariableLifecycle> = Vec::new();
        for i in 0..self.lifecycles.len()
            invariant
                pred == |l: VariableLifecycle| true,
                deref_all(r@) == self.lifecycles@.take(i as int).filter(pred),
        {
            reveal_with_fuel(Seq::<VariableLifecycle>::filter, 1);
            assert(self.lifecycles@.take(i + 1).drop_last() == self.lifecycles@.take(i as int));
            let x = &self.lifecycles[i];
            if true {
                r.push(x);
            }
            assert(deref_all(r@) == self.lifecycles@.take(i + 1).filter(pred));
        }
        assert(self.lifecycles@.take(self.lifecycles@.len() as int) == self.lifecycles@);
        r
    }
    /// The first lifecycle of the variable `name`.
    pub fn get(&self, name: &str) -> (r: Option<& VariableLifecycle>)
        ensures
            first_where(self.lifecycles@, lifecycle_of(name@), deref_opt(r)),
    {
        let ghost pred = lifecycle_of(name@);
        for i in 0..self.lifecycles.len()
            invariant
                pred == lifecycle_of(name@),
                forall|j: int| 0 <= j < i ==> !pred(self.lifecycles@[j]),
        {
            let x = &self.lifecycles[i];
            if str_eq(x.name.as_str(), name) {
                return Some(x);
            }
        }
        None
    }
}

/// All def-use chains of an analysis.
#[derive(Debug, Clone)]
pub struct DefUseChainSet {
    pub chains: Vec<DefUseChain>,
}

impl DefUseChainSet {
    /// An empty set.
    pub fn new() -> (s: Self)
        ensures
            s.chains@.len() == 0,
    {
        DefUseChainSet { chains: Vec::new() }
    }

    /// All chains, in order.
    pub fn all(&self) -> (r: Vec<& DefUseChain>)
        ensures
            deref_all(r@) == self.chains@.filter(|c: DefUseChain| true),
    {
        let ghost pred = |c: DefUseChain| true;
        let mut r: Vec<& DefUseChain> = Vec::new();
        for i in 0..self.chains.len()
            invariant
                pred == |c: DefUseChain| true,
                deref_all(r@) == self.chains@.take(i as int).filter(pred),
        {
            reveal_with_fuel(Seq::<DefUseChain>::filter, 1);
            assert(self.chains@.take(i + 1).drop_last() == self.chains@.take(i as int));
            let x = &self.chains[i];
            if true {
                r.push(x);
            }
            assert(deref_all(r@) == self.chains@.take(i + 1).filter(pred));
        }
        assert(self.chains@.take(self.chains@.len() as int) == self.chains@);
        r
    }
    /// The chains of the function `function_name`, in order.
    pub fn for_function(&self, function_name: &str) -> (r: Vec<& DefUseChain>)
        ensures
            deref_all(r@) == self.chains@.filter(chain_in(function_name@)),
    {
        let ghost pred = chain_in(function_name@);
        let mut r: Vec<& DefUseChain> = Vec::new();
        for i in 0..self.chains.len()
            invariant
                pred == chain_in(function_name@),
                deref_all(r@) == self.chains@.take(i as int).filter(pred),
        {
            reveal_with_fuel(Seq::<DefUseChain>::filter, 1);
            assert(self.chains@.take(i + 1).drop_last() == self.chains@.take(i as int));
            let x = &self.chains[i];
            if str_eq(x.function.as_str(), function_name) {
                r.push(x);
            }
            assert(deref_all(r@) == self.chains@.take(i + 1).filter(pred));
        }
        assert(self.chains@.take(self.chains@.len() as int) == self.chains@);
        r
    }
    /// The definitions that nothing uses, in order.
    pub fn dead_definitions(&self) -> (r: Vec<& DefUseChain>)
        ensures
            deref_all(r@) == self.chains@.filter(chain_dead()),
    {
        let ghost pred = chain_dead();
        let mut r: Vec<& DefUseChain> = Vec::new();
        for i in 0..self.chains.len()
            invariant
                pred == chain_dead(),
                deref_all(r@) == self.chains@.take(i as int).filter(pred),
        {
            reveal_with_fuel(Seq::<DefUseChain>::filter, 1);
            assert(self.chains@.take(i + 1).drop_last() == self.chains@.take(i as int));
            let x = &self.chains[i];
            if x.uses.len() == 0 {
                r.push(x);
            }
            assert(deref_all(r@) == self.chains@.take(i + 1).filter(pred));
        }
        assert(self.chains@.take(self.chains@.len() as int) == self.chains@);
        r
    }
}

/// All decision trees of an analysis.
#[derive(Debug, Clone)]
pub struct DecisionTreeSet {
    pub trees: Vec<DecisionTree>,
}

impl DecisionTreeSet {
    /// An empty set.
    pub fn new() -> (s: Self)
        ensures
            s.trees@.len() == 0,
    {
        DecisionTreeSet { trees: Vec::new() }
    }

    /// All trees, in order.
    pub fn all(&self) -> (r: Vec<& DecisionTree>)
        ensures
            deref_all(r@) == self.trees@.filter(|t: DecisionTree| true),
    {
        let ghost pred = |t: DecisionTree| true;
        let mut r: Vec<& DecisionTree> = Vec::new();
        for i in 0..self.trees.len()
            invariant
                pred == |t: DecisionTree| true,
                deref_all(r@) == self.trees@.take(i as int).filter(pred),
        {
            reveal_with_fuel(Seq::<DecisionTree>::filter, 1);
            assert(self.trees@.take(i + 1).drop_last() == self.trees@.take(i as int));
            let x = &self.trees[i];
            if true {
                r.push(x);
            }
            assert(deref_all(r@) == self.trees@.take(i + 1).filter(pred));
        }
        assert(self.trees@.take(self.trees@.len() as int) == self.trees@);
        r
    }
    /// The first tree of the function `function_name`.
    pub fn for_function(&self, function_name: &str) -> (r: Option<& DecisionTree>)
        ensures
            first_where(self.trees@, tree_for(function_name@), deref_opt(r)),
    {
        let ghost pred = tree_for(function_name@);
        for i in 0..self.trees.len()
            invariant
                pred == tree_for(function_name@),
                forall|j: int| 0 <= j < i ==> !pred(self.trees@[j]),
        {
            let x = &self.trees[i];
            if str_eq(x.function_name.as_str(), function_name) {
                return Some(x);
            }
        }
        None
    }
}

/// Result set for data flow graphs with filtering and export capabilities.
pub struct DataFlowResultSet<'a> {
    pub data: &'a [DataFlowGraph],
}

impl<'a> DataFlowResultSet<'a> {
    /// Create new result set.
    pub fn new(data: &'a [DataFlowGraph]) -> (r: Self)
        ensures
            r.data == data,
    {
        DataFlowResultSet { data }
    }

    /// Get all data flow graphs.
    pub fn all(&self) -> (r: &'a [DataFlowGraph])
        ensures
            r@ == self.data@,
    {
        self.data
    }

    /// Get data flow graph for specific function: the first with that name.
    pub fn for_function(&self, function_name: &str) -> (r: Option<&'a DataFlowGraph>)
        ensures
            first_where(self.data@, graph_for(function_name@), deref_opt(r)),
    {
        let ghost pred = graph_for(function_name@);
        for i in 0..self.data.len()
            invariant
                pred == graph_for(function_name@),
                forall|j: int| 0 <= j < i ==> !pred(self.data@[j]),
        {
            let x = &self.data[i];
            if str_eq(x.function_name.as_str(), function_name) {
                return Some(x);
            }
        }
        None
    }
    /// Get the names of the functions with data dependencies, in order.
    pub fn functions_with_dependencies(&self) -> (r: Vec<&'a str>)
        ensures
            r@.map_values(|s: &str| s@) == self.data@.filter(graph_has_edges()).map_values(
                |g: DataFlowGraph| g.function_name@,
            ),
    {
        let ghost pred = graph_has_edges();
        let mut r: Vec<&'a str> = Vec::new();
        for i in 0..self.data.len()
            invariant
                pred == graph_has_edges(),
                r@.map_values(|s: &str| s@) == self.data@.take(i as int).filter(pred).map_values(
                    |g: DataFlowGraph| g.function_name@,
                ),
        {
            reveal_with_fuel(Seq::<DataFlowGraph>::filter, 1);
            assert(self.data@.take(i + 1).drop_last() == self.data@.take(i as int));
            let ghost before = r@;
            if self.data[i].edges.len() > 0 {
                r.push(self.data[i].function_name.as_str());
                assert(r@.map_values(|s: &str| s@) =~= before.map_values(|s: &str| s@).push(
                    self.data@[i as int].function_name@,
                ));
            }
        }
        assert(self.data@.take(self.data@.len() as int) == self.data@);
        r
    }

    /// Get total number of data dependency edges.
    pub fn total_dependencies(&self) -> (n: usize)
        requires
            sum_of(self.data@.map_values(|g: DataFlowGraph| g.edges@.len())) <= usize::MAX,
        ensures
            n == sum_of(self.data@.map_values(|g: DataFlowGraph| g.edges@.len())),
    {
        let ghost counts = self.data@.map_values(|g: DataFlowGraph| g.edges@.len());
        let mut n: usize = 0;
        for i in 0..self.data.len()
            invariant
                counts == self.data@.map_values(|g: DataFlowGraph| g.edges@.len()),
                sum_of(counts) <= usize::MAX,
                n == sum_of(counts.take(i as int)),
        {
            assert(counts.take(i + 1).drop_last() == counts.take(i as int));
            proof {
                lemma_sum_prefix_le(counts, i + 1);
            }
            let x = &self.data[i];
            n = n + x.edges.len();
        }
        assert(counts.take(counts.len() as int) == counts);
        n
    }
}

/// Result set for variable lifecycles with filtering capabilities.
pub struct VariableLifecycleResultSet<'a> {
    pub data: &'a VariableLifecycleSet,
}

impl<'a> VariableLifecycleResultSet<'a> {
    /// Create new result set.
    pub fn new(data: &'a VariableLifecycleSet) -> (r: Self)
        ensures
            r.data == data,
    {
        VariableLifecycleResultSet { data }
    }

    /// Get all variable lifecycles.
    pub fn all(&self) -> (r: Vec<&'a VariableLifecycle>)
        ensures
            deref_all(r@) == self.data.lifecycles@,
    {
        let r = self.data.all();
        assert(self.data.lifecycles@.filter(|l: VariableLifecycle| true) == self.data.lifecycles@) by {
            lemma_filter_true(self.data.lifecycles@);
        }
        r
    }

    /// Get lifecycle for specific variable.
    pub fn for_variable(&self, variable_name: &str) -> (r: Option<&'a VariableLifecycle>)
        ensures
            first_where(self.data.lifecycles@, lifecycle_of(variable_name@), deref_opt(r)),
    {
        self.data.get(variable_name)
    }

    /// Get variables that are mutated after definition.
    pub fn mutated_variables(&self) -> (r: Vec<&'a VariableLifecycle>)
        ensures
            deref_all(r@) == self.data.lifecycles@.filter(lifecycle_mutated()),
    {
        let ghost pred = lifecycle_mutated();
        let mut r: Vec<&'a VariableLifecycle> = Vec::new();
        for i in 0..self.data.lifecycles.len()
            invariant
                pred == lifecycle_mutated(),
                deref_all(r@) == self.data.lifecycles@.take(i as int).filter(pred),
        {
            reveal_with_fuel(Seq::<VariableLifecycle>::filter, 1);
            assert(self.data.lifecycles@.take(i + 1).drop_last() == self.data.lifecycles@.take(i as int));
            let x = &self.data.lifecycles[i];
            if x.is_mutated() {
                r.push(x);
            }
            assert(deref_all(r@) == self.data.lifecycles@.take(i + 1).filter(pred));
        }
        assert(self.data.lifecycles@.take(self.data.lifecycles@.len() as int) == self.data.lifecycles@);
        r
    }
    /// Get variables that are never used.
    pub fn unused_variables(&self) -> (r: Vec<&'a VariableLifecycle>)
        ensures
            deref_all(r@) == self.data.lifecycles@.filter(lifecycle_unused()),
    {
        let ghost pred = lifecycle_unused();
        let mut r: Vec<&'a VariableLifecycle> = Vec::new();
        for i in 0..self.data.lifecycles.len()
            invariant
                pred == lifecycle_unused(),
                deref_all(r@) == self.data.lifecycles@.take(i as int).filter(pred),
        {
            reveal_with_fuel(Seq::<VariableLifecycle>::filter, 1);
            assert(self.data.lifecycles@.take(i + 1).drop_last() == self.data.lifecycles@.take(i as int));
            let x = &self.data.lifecycles[i];
            if !x.is_used() {
                r.push(x);
            }
            assert(deref_all(r@) == self.data.lifecycles@.take(i + 1).filter(pred));
        }
        assert(self.data.lifecycles@.take(self.data.lifecycles@.len() as int) == self.data.lifecycles@);
        r
    }
    /// Get variables live at function exit.
    pub fn live_variables(&self) -> (r: Vec<&'a VariableLifecycle>)
        ensures
            deref_all(r@) == self.data.lifecycles@.filter(lifecycle_live()),
    {
        let ghost pred = lifecycle_live();
        let mut r: Vec<&'a VariableLifecycle> = Vec::new();
        for i in 0..self.data.lifecycles.len()
            invariant
                pred == lifecycle_live(),
                deref_all(r@) == self.data.lifecycles@.take(i as int).filter(pred),
        {
            reveal_with_fuel(Seq::<VariableLifecycle>::filter, 1);
            assert(self.data.lifecycles@.take(i + 1).drop_last() == self.data.lifecycles@.take(i as int));
            let x = &self.data.lifecycles[i];
            if x.live_at_exit {
                r.push(x);
            }
            assert(deref_all(r@) == self.data.lifecycles@.take(i + 1).filter(pred));
        }
        assert(self.data.lifecycles@.take(self.data.lifecycles@.len() as int) == self.data.lifecycles@);
        r
    }
}

/// Result set for def-use chains with filtering capabilities.
pub struct DefUseChainResultSet<'a> {
    pub data: &'a DefUseChainSet,
}

impl<'a> DefUseChainResultSet<'a> {
    /// Create new result set.
    pub fn new(data: &'a DefUseChainSet) -> (r: Self)
        ensures
            r.data == data,
    {
        DefUseChainResultSet { data }
    }

    /// Get all def-use chains.
    pub fn all(&self) -> (r: Vec<&'a DefUseChain>)
        ensures
            deref_all(r@) == self.data.chains@,
    {
        let r = self.data.all();
        assert(self.data.chains@.filter(|c: DefUseChain| true) == self.data.chains@) by {
            lemma_filter_true(self.data.chains@);
        }
        r
    }

    /// Get chains for specific function.
    pub fn for_function(&self, function_name: &str) -> (r: Vec<&'a DefUseChain>)
        ensures
            deref_all(r@) == self.data.chains@.filter(chain_in(function_name@)),
    {
        self.data.for_function(function_name)
    }

    /// Get dead definitions (definitions with no uses).
    pub fn dead_definitions(&self) -> (r: Vec<&'a DefUseChain>)
        ensures
            deref_all(r@) == self.data.chains@.filter(chain_dead()),
    {
        self.data.dead_definitions()
    }

    /// Get chains with at least `min_uses` uses.
    pub fn heavily_used_definitions(&self, min_uses: usize) -> (r: Vec<&'a DefUseChain>)
        ensures
            deref_all(r@) == self.data.chains@.filter(chain_used_at_least(min_uses)),
    {
        let ghost pred = chain_used_at_least(min_uses);
        let mut r: Vec<&'a DefUseChain> = Vec::new();
        for i in 0..self.data.chains.len()
            invariant
                pred == chain_used_at_least(min_uses),
                deref_all(r@) == self.data.chains@.take(i as int).filter(pred),
        {
            reveal_with_fuel(Seq::<DefUseChain>::filter, 1);
            assert(self.data.chains@.take(i + 1).drop_last() == self.data.chains@.take(i as int));
            let x = &self.data.chains[i];
            if x.use_count() >= min_uses {
                r.push(x);
            }
            assert(deref_all(r@) == self.data.chains@.take(i + 1).filter(pred));
        }
        assert(self.data.chains@.take(self.data.chains@.len() as int) == self.data.chains@);
        r
    }
}

/// Result set for decision trees with filtering capabilities.
pub struct DecisionTreeResultSet<'a> {
    pub data: &'a DecisionTreeSet,
}

impl<'a> DecisionTreeResultSet<'a> {
    /// Create new result set.
    pub fn new(data: &'a DecisionTreeSet) -> (r: Self)
        ensures
            r.data == data,
    {
        DecisionTreeResultSet { data }
    }

    /// Get all decision trees.
    pub fn all(&self) -> (r: Vec<&'a DecisionTree>)
        ensures
            deref_all(r@) == self.data.trees@,
    {
        let r = self.data.all();
        assert(self.data.trees@.filter(|t: DecisionTree| true) == self.data.trees@) by {
            lemma_filter_true(self.data.trees@);
        }
        r
    }

    /// Get decision tree for specific function.
    pub fn for_function(&self, function_name: &str) -> (r: Option<&'a DecisionTree>)
        ensures
            first_where(self.data.trees@, tree_for(function_name@), deref_opt(r)),
    {
        self.data.for_function(function_name)
    }

    /// Get the names of the functions with unreachable paths, in order.
    pub fn functions_with_dead_code(&self) -> (r: Vec<&'a str>)
        ensures
            r@.map_values(|s: &str| s@) == self.data.trees@.filter(tree_has_dead_path()).map_values(
                |t: DecisionTree| t.function_name@,
            ),
    {
        let ghost pred = tree_has_dead_path();
        let mut r: Vec<&'a str> = Vec::new();
        for i in 0..self.data.trees.len()
            invariant
                pred == tree_has_dead_path(),
                r@.map_values(|s: &str| s@) == self.data.trees@.take(i as int).filter(pred).map_values(
                    |t: DecisionTree| t.function_name@,
                ),
        {
            reveal_with_fuel(Seq::<DecisionTree>::filter, 1);
            assert(self.data.trees@.take(i + 1).drop_last() == self.data.trees@.take(i as int));
            let ghost before = r@;
            let dead = self.data.trees[i].unreachable_paths();
            assert(deref_all(dead@).len() == dead@.len());
            if dead.len() > 0 {
                r.push(self.data.trees[i].function_name.as_str());
                assert(r@.map_values(|s: &str| s@) =~= before.map_values(|s: &str| s@).push(
                    self.data.trees@[i as int].function_name@,
                ));
            }
        }
        assert(self.data.trees@.take(self.data.trees@.len() as int) == self.data.trees@);
        r
    }

    /// Get total number of decision paths across all functions.
    pub fn total_paths(&self) -> (n: usize)
        requires
            sum_of(self.data.trees@.map_values(|t: DecisionTree| t.paths@.len())) <= usize::MAX,
        ensures
            n == sum_of(self.data.trees@.map_values(|t: DecisionTree| t.paths@.len())),
    {
        let ghost counts = self.data.trees@.map_values(|t: DecisionTree| t.paths@.len());
        let mut n: usize = 0;
        for i in 0..self.data.trees.len()
            invariant
                counts == self.data.trees@.map_values(|t: DecisionTree| t.paths@.len()),
                sum_of(counts) <= usize::MAX,
                n == sum_of(counts.take(i as int)),
        {
            assert(counts.take(i + 1).drop_last() == counts.take(i as int));
            proof {
                lemma_sum_prefix_le(counts, i + 1);
            }
            let x = &self.data.trees[i];
            n = n + x.paths.len();
        }
        assert(counts.take(counts.len() as int) == counts);
        n
    }
    /// Get total number of reachable paths.
    pub fn reachable_paths(&self) -> (n: usize)
        requires
            sum_of(self.data.trees@.map_values(|t: DecisionTree| t.paths@.filter(path_reachable()).len())) <= usize::MAX,
        ensures
            n == sum_of(self.data.trees@.map_values(|t: DecisionTree| t.paths@.filter(path_reachable()).len())),
    {
        let ghost counts = self.data.trees@.map_values(|t: DecisionTree| t.paths@.filter(path_reachable()).len());
        let mut n: usize = 0;
        for i in 0..self.data.trees.len()
            invariant
                counts == self.data.trees@.map_values(|t: DecisionTree| t.paths@.filter(path_reachable()).len()),
                sum_of(counts) <= usize::MAX,
                n == sum_of(counts.take(i as int)),
        {
            assert(counts.take(i + 1).drop_last() == counts.take(i as int));
            proof {
                lemma_sum_prefix_le(counts, i + 1);
            }
            let x = &self.data.trees[i];
            n = n + { let p = x.reachable_paths(); assert(deref_all(p@).len() == p@.len()); p.len() };
        }
        assert(counts.take(counts.len() as int) == counts);
        n
    }
}

/// Result set for cross-file variables with filtering capabilities.
pub struct CrossFileVariableResultSet<'a> {
    pub data: &'a [CrossFileVariable],
}

impl<'a> CrossFileVariableResultSet<'a> {
    /// Create new result set.
    pub fn new(data: &'a [CrossFileVariable]) -> (r: Self)
        ensures
            r.data == data,
    {
        CrossFileVariableResultSet { data }
    }

    /// Get all cross-file variables.
    pub fn all(&self) -> (r: &'a [CrossFileVariable])
        ensures
            r@ == self.data@,
    {
        self.data
    }

    /// Get variables imported from external modules.
    pub fn imported_variables(&self) -> (r: Vec<&'a CrossFileVariable>)
        ensures
            deref_all(r@) == self.data@.filter(var_imported()),
    {
        let ghost pred = var_imported();
        let mut r: Vec<&'a CrossFileVariable> = Vec::new();
        for i in 0..self.data.len()
            invariant
                pred == var_imported(),
                deref_all(r@) == self.data@.take(i as int).filter(pred),
        {
            reveal_with_fuel(Seq::<CrossFileVariable>::filter, 1);
            assert(self.data@.take(i + 1).drop_last() == self.data@.take(i as int));
            let x = &self.data[i];
            if x.usage_files.len() > 0 {
                r.push(x);
            }
            assert(deref_all(r@) == self.data@.take(i + 1).filter(pred));
        }
        assert(self.data@.take(self.data@.len() as int) == self.data@);
        r
    }
    /// Get variables by definition file: those whose definition path contains `file_path`.
    pub fn from_file(&self, file_path: &str) -> (r: Vec<&'a CrossFileVariable>)
        ensures
            deref_all(r@) == self.data@.filter(var_defined_in(file_path@)),
    {
        let ghost pred = var_defined_in(file_path@);
        let mut r: Vec<&'a CrossFileVariable> = Vec::new();
        for i in 0..self.data.len()
            invariant
                pred == var_defined_in(file_path@),
                deref_all(r@) == self.data@.take(i as int).filter(pred),
        {
            reveal_with_fuel(Seq::<CrossFileVariable>::filter, 1);
            assert(self.data@.take(i + 1).drop_last() == self.data@.take(i as int));
            let x = &self.data[i];
            if str_contains(x.definition_file.as_str(), file_path) {
                r.push(x);
            }
            assert(deref_all(r@) == self.data@.take(i + 1).filter(pred));
        }
        assert(self.data@.take(self.data@.len() as int) == self.data@);
        r
    }
    /// Get total number of cross-file dependencies.
    pub fn total_cross_file_dependencies(&self) -> (n: usize)
        requires
            sum_of(self.data@.map_values(|v: CrossFileVariable| v.usage_files@.len())) <= usize::MAX,
        ensures
            n == sum_of(self.data@.map_values(|v: CrossFileVariable| v.usage_files@.len())),
    {
        let ghost counts = self.data@.map_values(|v: CrossFileVariable| v.usage_files@.len());
        let mut n: usize = 0;
        for i in 0..self.data.len()
            invariant
                counts == self.data@.map_values(|v: CrossFileVariable| v.usage_files@.len()),
                sum_of(counts) <= usize::MAX,
                n == sum_of(counts.take(i as int)),
        {
            assert(counts.take(i + 1).drop_last() == counts.take(i as int));
            proof {
                lemma_sum_prefix_le(counts, i + 1);
            }
            let x = &self.data[i];
            n = n + x.usage_files.len();
        }
        assert(counts.take(counts.len() as int) == counts);
        n
    }
}

/// An element is kept by a filter exactly when it is in the sequence and
/// satisfies the predicate; a filter keeps no more than the sequence holds.
proof fn lemma_filter_member<T>(s: Seq<T>, pred: spec_fn(T) -> bool, x: T)
    ensures
        s.filter(pred).contains(x) <==> (s.contains(x) && pred(x)),
        s.filter(pred).len() <= s.len(),
{
    s.lemma_filter_len(pred);
    if s.filter(pred).contains(x) {
        s.lemma_filter_contains_rev(pred, x);
        let i = choose|i: int| 0 <= i < s.filter(pred).len() && s.filter(pred)[i] == x;
        s.lemma_filter_pred(pred, i);
    }
    if s.contains(x) && pred(x) {
        let i = choose|i: int| 0 <= i < s.len() && s[i] == x;
        s.lemma_filter_contains(pred, i);
    }
}

/// The mutated variables are exactly the variables changed after their
/// definition: a lifecycle is reported if and only if it is one of the
/// lifecycles and its mutation count is at least one; in particular a
/// variable changed once is reported.
pub proof fn lemma_mutated_variables_are_the_changed_ones(s: Seq<VariableLifecycle>, x: VariableLifecycle)
    ensures
        s.filter(lifecycle_mutated()).contains(x) <==> (s.contains(x) && x.mutations >= 1),
        s.filter(lifecycle_mutated()).len() <= s.len(),
        forall|i: int| 0 <= i < s.filter(lifecycle_mutated()).len() ==> #[trigger] s.filter(lifecycle_mutated())[i].mutations != 0,
{
    lemma_filter_member(s, lifecycle_mutated(), x);
    assert forall|i: int| 0 <= i < s.filter(lifecycle_mutated()).len() implies #[trigger] s.filter(lifecycle_mutated())[i].mutations != 0 by {
        s.lemma_filter_pred(lifecycle_mutated(), i);
    }
}

/// The unused variables are exactly the variables never read: a lifecycle is
/// reported if and only if it is one of the lifecycles and its use count is zero.
pub proof fn lemma_unused_variables_are_the_unread_ones(s: Seq<VariableLifecycle>, x: VariableLifecycle)
    ensures
        s.filter(lifecycle_unused()).contains(x) <==> (s.contains(x) && x.uses == 0),
{
    lemma_filter_member(s, lifecycle_unused(), x);
}

/// The live variables are exactly the variables live at the function's exit.
pub proof fn lemma_live_variables_are_the_live_ones(s: Seq<VariableLifecycle>, x: VariableLifecycle)
    ensures
        s.filter(lifecycle_live()).contains(x) <==> (s.contains(x) && x.live_at_exit),
{
    lemma_filter_member(s, lifecycle_live(), x);
}

/// Keeping every element keeps the sequence.
pub proof fn lemma_filter_true<T>(s: Seq<T>)
    ensures
        s.filter(|x: T| true) == s,
    decreases s.len(),
{
    reveal(Seq::filter);
    if s.len() > 0 {
        lemma_filter_true(s.drop_last());
        assert(s.drop_last().push(s.last()) == s);
    }
}

} // verus!
