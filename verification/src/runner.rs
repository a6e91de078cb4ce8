//! Running the analyses of one file on what generating its graphs, blocks
//! and functions gave.
use vstd::prelude::*;
use crate::complexity::{complexity_defined, complexity_matches, first_complexity_failure, run_complexity_on};
use crate::data_flow_sets::VariableLifecycleSet;
use crate::error::NTreeError;
use crate::models::{
    BasicBlockResult, CfgResult, ComplexityResult, DataFlowGraph, FunctionCfgIr, FunctionSpan, VariableLifecycle,
};

verus! {

/// Runs the individual analyses of a file.
pub struct AnalysisRunner;

/// What the complexity analysis of a file gives from the generated graphs:
/// the generation's error, or the complexity of each graph in order, where
/// the first graph that cannot be analysed fails the run.
pub open spec fn complexity_run(
    r: Result<Vec<ComplexityResult>, NTreeError>,
    generated: Result<Vec<FunctionCfgIr>, NTreeError>,
) -> bool {
    match generated {
        Err(e) => r == Err::<Vec<ComplexityResult>, NTreeError>(e),
        Ok(irs) => {
            &&& r is Ok <==> forall|i: int| 0 <= i < irs@.len() ==> complexity_defined(#[trigger] irs@[i])
            &&& r matches Ok(v) ==> v@.len() == irs@.len() && forall|i: int|
                0 <= i < irs@.len() ==> complexity_matches(#[trigger] v@[i], irs@[i])
            &&& r matches Err(e) ==> first_complexity_failure(irs@, e)
        },
    }
}

/// The values of `results` in order, or the first error among them.
pub open spec fn all_or_first_error<T>(results: Seq<Result<T, NTreeError>>) -> Result<Seq<T>, NTreeError>
    decreases results.len(),
{
    if results.len() == 0 {
        Ok(Seq::empty())
    } else {
        match all_or_first_error(results.drop_last()) {
            Err(e) => Err(e),
            Ok(v) => match results.last() {
                Ok(x) => Ok(v.push(x)),
                Err(e) => Err(e),
            },
        }
    }
}

/// The lifecycles of `results` one function after another, or the first
/// error among them.
pub open spec fn all_lifecycles(results: Seq<Result<Vec<VariableLifecycle>, NTreeError>>) -> Result<Seq<VariableLifecycle>, NTreeError>
    decreases results.len(),
{
    if results.len() == 0 {
        Ok(Seq::empty())
    } else {
        match all_lifecycles(results.drop_last()) {
            Err(e) => Err(e),
            Ok(v) => match results.last() {
                Ok(x) => Ok(v + x@),
                Err(e) => Err(e),
            },
        }
    }
}

proof fn lemma_error_stays<T>(rs: Seq<Result<T, NTreeError>>, k: int, e: NTreeError)
    requires
        0 <= k <= rs.len(),
        all_or_first_error(rs.take(k)) == Err::<Seq<T>, NTreeError>(e),
    ensures
        all_or_first_error(rs) == Err::<Seq<T>, NTreeError>(e),
    decreases rs.len() - k,
{
    if k < rs.len() {
        assert(rs.take(k + 1).drop_last() == rs.take(k));
        lemma_error_stays(rs, k + 1, e);
    } else {
        assert(rs.take(k) == rs);
    }
}

proof fn lemma_lifecycle_error_stays(rs: Seq<Result<Vec<VariableLifecycle>, NTreeError>>, k: int, e: NTreeError)
    requires
        0 <= k <= rs.len(),
        all_lifecycles(rs.take(k)) == Err::<Seq<VariableLifecycle>, NTreeError>(e),
    ensures
        all_lifecycles(rs) == Err::<Seq<VariableLifecycle>, NTreeError>(e),
    decreases rs.len() - k,
{
    if k < rs.len() {
        assert(rs.take(k + 1).drop_last() == rs.take(k));
        lemma_lifecycle_error_stays(rs, k + 1, e);
    } else {
        assert(rs.take(k) == rs);
    }
}

impl AnalysisRunner {
    /// Run complexity analysis on the graphs generated for a file.
    pub fn run_complexity_analysis(cfg_ir_results: Result<Vec<FunctionCfgIr>, NTreeError>) -> (r: Result<Vec<ComplexityResult>, NTreeError>)
        ensures
            complexity_run(r, cfg_ir_results),
    {
        match cfg_ir_results {
            Ok(irs) => run_complexity_on(&irs),
            Err(e) => Err(e),
        }
    }

    /// The control-flow graphs generated for a file, or the generation's error.
    pub fn run_cfg_generation(generated: Result<Vec<CfgResult>, NTreeError>) -> (r: Result<Vec<CfgResult>, NTreeError>)
        ensures
            r == generated,
    {
        match generated {
            Ok(cfgs) => Ok(cfgs),
            Err(e) => Err(e),
        }
    }

    /// The basic blocks generated for a file, or the generation's error.
    pub fn run_basic_block_generation(generated: Result<Vec<BasicBlockResult>, NTreeError>) -> (r: Result<Vec<BasicBlockResult>, NTreeError>)
        ensures
            r == generated,
    {
        match generated {
            Ok(blocks) => Ok(blocks),
            Err(e) => Err(e),
        }
    }

    /// The functions listed for a file, or the listing's error.
    pub fn run_function_extraction(listed: Result<Vec<FunctionSpan>, NTreeError>) -> (r: Result<Vec<FunctionSpan>, NTreeError>)
        ensures
            r == listed,
    {
        match listed {
            Ok(functions) => Ok(functions),
            Err(e) => Err(e),
        }
    }

    /// The data-flow graphs of a file's functions, given what generating its
    /// graphs gave and, for each graph in order, what analysing its function
    /// gave: the generation's error, else the first analysis error, else all
    /// graphs in order.
    pub fn run_data_flow_analysis(
        analyzed: Result<Vec<Result<DataFlowGraph, NTreeError>>, NTreeError>,
    ) -> (r: Result<Vec<DataFlowGraph>, NTreeError>)
        ensures
            match analyzed {
                Err(e) => r == Err::<Vec<DataFlowGraph>, NTreeError>(e),
                Ok(rs) => match all_or_first_error(rs@) {
                    Ok(v) => r matches Ok(g) && g@ == v,
                    Err(e) => r == Err::<Vec<DataFlowGraph>, NTreeError>(e),
                },
            },
    {
        let results = match analyzed {
            Ok(rs) => rs,
            Err(e) => return Err(e),
        };
        let mut graphs: Vec<DataFlowGraph> = Vec::new();
        let ghost rs = results@;
        assert(analyzed == Ok::<Vec<Result<DataFlowGraph, NTreeError>>, NTreeError>(results));
        assert(rs.take(0) =~= Seq::<Result<DataFlowGraph, NTreeError>>::empty());
        for item in it: results
            invariant
                it.seq() == rs,
                analyzed is Ok && rs == analyzed->Ok_0@,
                all_or_first_error(rs.take(it.index() as int)) == Ok::<Seq<DataFlowGraph>, NTreeError>(graphs@),
        {
            proof {
                let k = it.index() as int;
                assert(rs.take(k + 1).drop_last() == rs.take(k));
                assert(rs.take(k + 1).last() == item);
            }
            match item {
                Ok(g) => graphs.push(g),
                Err(e) => {
                    proof {
                        lemma_error_stays(rs, it.index() as int + 1, e);
                    }
                    return Err(e);
                },
            }
        }
        assert(rs.take(rs.len() as int) == rs);
        Ok(graphs)
    }

    /// The variable lifecycles of a file's functions, given what generating
    /// its graphs gave and, for each graph paired with its data-flow graph in
    /// order, what analysing the function gave: the generation's error, else
    /// the first analysis error, else all lifecycles, one function after another.
    pub fn run_variable_lifecycle_analysis(
        analyzed: Result<Vec<Result<Vec<VariableLifecycle>, NTreeError>>, NTreeError>,
    ) -> (r: Result<VariableLifecycleSet, NTreeError>)
        ensures
            match analyzed {
                Err(e) => r == Err::<VariableLifecycleSet, NTreeError>(e),
                Ok(rs) => match all_lifecycles(rs@) {
                    Ok(v) => r matches Ok(set) && set.lifecycles@ == v,
                    Err(e) => r == Err::<VariableLifecycleSet, NTreeError>(e),
                },
            },
    {
        let results = match analyzed {
            Ok(rs) => rs,
            Err(e) => return Err(e),
        };
        let mut combined = VariableLifecycleSet::new();
        let ghost rs = results@;
        assert(analyzed == Ok::<Vec<Result<Vec<VariableLifecycle>, NTreeError>>, NTreeError>(results));
        assert(combined.lifecycles@ =~= Seq::<VariableLifecycle>::empty());
        assert(rs.take(0) =~= Seq::<Result<Vec<VariableLifecycle>, NTreeError>>::empty());
        for item in it: results
            invariant
                it.seq() == rs,
                analyzed is Ok && rs == analyzed->Ok_0@,
                all_lifecycles(rs.take(it.index() as int)) == Ok::<Seq<VariableLifecycle>, NTreeError>(
                    combined.lifecycles@,
                ),
        {
            proof {
                let k = it.index() as int;
                assert(rs.take(k + 1).drop_last() == rs.take(k));
                assert(rs.take(k + 1).last() == item);
            }
            match item {
                Ok(mut v) => {
                    combined.lifecycles.append(&mut v);
                },
                Err(e) => {
                    proof {
                        lemma_lifecycle_error_stays(rs, it.index() as int + 1, e);
                    }
                    return Err(e);
                },
            }
        }
        assert(rs.take(rs.len() as int) == rs);
        Ok(combined)
    }
}

} // verus!
