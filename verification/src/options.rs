//! Which analyses to run.
use vstd::prelude::*;

verus! {

/// Configuration options for source code analysis.
#[derive(Debug, Clone, Copy, PartialEq, Eq, Structural)]
pub struct AnalysisOptions {
    /// Enable cyclomatic complexity analysis
    pub complexity_analysis: bool,
    /// Enable Control Flow Graph generation
    pub cfg_generation: bool,
    /// Enable early exit pattern analysis
    pub early_exit_analysis: bool,
    /// Enable loop structure analysis
    pub loop_analysis: bool,
    /// Enable basic block generation
    pub basic_blocks: bool,
    /// Enable workspace-wide search and analysis
    pub workspace_search: bool,
    /// Enable data flow analysis
    pub data_flow_analysis: bool,
    /// Enable variable lifecycle tracking
    pub variable_lifecycle_tracking: bool,
    /// Enable decision tree mapping
    pub decision_tree_mapping: bool,
    /// Enable def-use chain analysis
    pub def_use_chains: bool,
}

/// The default options: every analysis on, workspace search off.
pub open spec fn default_options() -> AnalysisOptions {
    AnalysisOptions {
        complexity_analysis: true,
        cfg_generation: true,
        early_exit_analysis: true,
        loop_analysis: true,
        basic_blocks: true,
        workspace_search: false,
        data_flow_analysis: true,
        variable_lifecycle_tracking: true,
        decision_tree_mapping: true,
        def_use_chains: true,
    }
}

/// Every option off.
pub open spec fn no_options() -> AnalysisOptions {
    AnalysisOptions {
        complexity_analysis: false,
        cfg_generation: false,
        early_exit_analysis: false,
        loop_analysis: false,
        basic_blocks: false,
        workspace_search: false,
        data_flow_analysis: false,
        variable_lifecycle_tracking: false,
        decision_tree_mapping: false,
        def_use_chains: false,
    }
}

/// Only complexity analysis and CFG generation on.
pub open spec fn minimal_options() -> AnalysisOptions {
    AnalysisOptions { complexity_analysis: true, cfg_generation: true, ..no_options() }
}

/// Some of the five core analyses is on.
pub open spec fn any_enabled(o: AnalysisOptions) -> bool {
    o.complexity_analysis || o.cfg_generation || o.early_exit_analysis || o.loop_analysis
        || o.basic_blocks
}

impl Default for AnalysisOptions {
    /// Create default configuration with all analyses enabled.
    fn default() -> (o: Self)
        ensures
            o == default_options(),
    {
        AnalysisOptions {
            complexity_analysis: true,
            cfg_generation: true,
            early_exit_analysis: true,
            loop_analysis: true,
            basic_blocks: true,
            workspace_search: false,
            data_flow_analysis: true,
            variable_lifecycle_tracking: true,
            decision_tree_mapping: true,
            def_use_chains: true,
        }
    }
}

impl AnalysisOptions {
    /// Create new options with all analyses disabled.
    pub fn none() -> (o: Self)
        ensures
            o == no_options(),
    {
        AnalysisOptions {
            complexity_analysis: false,
            cfg_generation: false,
            early_exit_analysis: false,
            loop_analysis: false,
            basic_blocks: false,
            workspace_search: false,
            data_flow_analysis: false,
            variable_lifecycle_tracking: false,
            decision_tree_mapping: false,
            def_use_chains: false,
        }
    }

    /// Create new options with only essential analyses enabled.
    pub fn minimal() -> (o: Self)
        ensures
            o == minimal_options(),
    {
        AnalysisOptions {
            complexity_analysis: true,
            cfg_generation: true,
            early_exit_analysis: false,
            loop_analysis: false,
            basic_blocks: false,
            workspace_search: false,
            data_flow_analysis: false,
            variable_lifecycle_tracking: false,
            decision_tree_mapping: false,
            def_use_chains: false,
        }
    }

    /// Check if any analysis is enabled.
    pub fn has_any_enabled(&self) -> (b: bool)
        ensures
            b == any_enabled(*self),
    {
        self.complexity_analysis || self.cfg_generation || self.early_exit_analysis
            || self.loop_analysis || self.basic_blocks
    }
}

/// The analyses that the builder switches one at a time.
#[derive(Debug, Clone, Copy)]
pub enum AnalysisFlag {
    Complexity,
    Cfg,
    EarlyExit,
    Loop,
    BasicBlocks,
    DataFlow,
    VariableLifecycle,
    DecisionTree,
    DefUse,
}

/// Whether `o` enables the analysis `f`.
pub open spec fn flag_of(o: AnalysisOptions, f: AnalysisFlag) -> bool {
    match f {
        AnalysisFlag::Complexity => o.complexity_analysis,
        AnalysisFlag::Cfg => o.cfg_generation,
        AnalysisFlag::EarlyExit => o.early_exit_analysis,
        AnalysisFlag::Loop => o.loop_analysis,
        AnalysisFlag::BasicBlocks => o.basic_blocks,
        AnalysisFlag::DataFlow => o.data_flow_analysis,
        AnalysisFlag::VariableLifecycle => o.variable_lifecycle_tracking,
        AnalysisFlag::DecisionTree => o.decision_tree_mapping,
        AnalysisFlag::DefUse => o.def_use_chains,
    }
}

/// `o` with the analysis `f` switched to `b`, every other option kept.
pub open spec fn with_flag(o: AnalysisOptions, f: AnalysisFlag, b: bool) -> AnalysisOptions {
    match f {
        AnalysisFlag::Complexity => AnalysisOptions { complexity_analysis: b, ..o },
        AnalysisFlag::Cfg => AnalysisOptions { cfg_generation: b, ..o },
        AnalysisFlag::EarlyExit => AnalysisOptions { early_exit_analysis: b, ..o },
        AnalysisFlag::Loop => AnalysisOptions { loop_analysis: b, ..o },
        AnalysisFlag::BasicBlocks => AnalysisOptions { basic_blocks: b, ..o },
        AnalysisFlag::DataFlow => AnalysisOptions { data_flow_analysis: b, ..o },
        AnalysisFlag::VariableLifecycle => AnalysisOptions { variable_lifecycle_tracking: b, ..o },
        AnalysisFlag::DecisionTree => AnalysisOptions { decision_tree_mapping: b, ..o },
        AnalysisFlag::DefUse => AnalysisOptions { def_use_chains: b, ..o },
    }
}

/// Switching an analysis sets it and keeps every other option, workspace
/// search included, and switching it again keeps only the last setting.
pub proof fn lemma_switch_last_wins(o: AnalysisOptions, f: AnalysisFlag, a: bool, b: bool)
    ensures
        flag_of(with_flag(o, f, a), f) == a,
        with_flag(o, f, a).workspace_search == o.workspace_search,
        with_flag(with_flag(o, f, a), f, b) == with_flag(o, f, b),
{
}

/// Two different analyses switched in either order give the same options,
/// and switching one leaves the other as it was.
#[verifier::spinoff_prover]
#[verifier::rlimit(60)]
pub proof fn lemma_switches_commute(o: AnalysisOptions, f: AnalysisFlag, g: AnalysisFlag, a: bool, b: bool)
    requires
        f != g,
    ensures
        flag_of(with_flag(o, f, a), g) == flag_of(o, g),
        with_flag(with_flag(o, f, a), g, b) == with_flag(with_flag(o, g, b), f, a),
{
    match f {
        AnalysisFlag::Complexity => match g {
                AnalysisFlag::Complexity => {},
                AnalysisFlag::Cfg => {},
                AnalysisFlag::EarlyExit => {},
                AnalysisFlag::Loop => {},
                AnalysisFlag::BasicBlocks => {},
                AnalysisFlag::DataFlow => {},
                AnalysisFlag::VariableLifecycle => {},
                AnalysisFlag::DecisionTree => {},
                AnalysisFlag::DefUse => {},
        },
        AnalysisFlag::Cfg => match g {
                AnalysisFlag::Complexity => {},
                AnalysisFlag::Cfg => {},
                AnalysisFlag::EarlyExit => {},
                AnalysisFlag::Loop => {},
                AnalysisFlag::BasicBlocks => {},
                AnalysisFlag::DataFlow => {},
                AnalysisFlag::VariableLifecycle => {},
                AnalysisFlag::DecisionTree => {},
                AnalysisFlag::DefUse => {},
        },
        AnalysisFlag::EarlyExit => match g {
                AnalysisFlag::Complexity => {},
                AnalysisFlag::Cfg => {},
                AnalysisFlag::EarlyExit => {},
                AnalysisFlag::Loop => {},
                AnalysisFlag::BasicBlocks => {},
                AnalysisFlag::DataFlow => {},
                AnalysisFlag::VariableLifecycle => {},
                AnalysisFlag::DecisionTree => {},
                AnalysisFlag::DefUse => {},
        },
        AnalysisFlag::Loop => match g {
                AnalysisFlag::Complexity => {},
                AnalysisFlag::Cfg => {},
                AnalysisFlag::EarlyExit => {},
                AnalysisFlag::Loop => {},
                AnalysisFlag::BasicBlocks => {},
                AnalysisFlag::DataFlow => {},
                AnalysisFlag::VariableLifecycle => {},
                AnalysisFlag::DecisionTree => {},
                AnalysisFlag::DefUse => {},
        },
        AnalysisFlag::BasicBlocks => match g {
                AnalysisFlag::Complexity => {},
                AnalysisFlag::Cfg => {},
                AnalysisFlag::EarlyExit => {},
                AnalysisFlag::Loop => {},
                AnalysisFlag::BasicBlocks => {},
                AnalysisFlag::DataFlow => {},
                AnalysisFlag::VariableLifecycle => {},
                AnalysisFlag::DecisionTree => {},
                AnalysisFlag::DefUse => {},
        },
        AnalysisFlag::DataFlow => match g {
                AnalysisFlag::Complexity => {},
                AnalysisFlag::Cfg => {},
                AnalysisFlag::EarlyExit => {},
                AnalysisFlag::Loop => {},
                AnalysisFlag::BasicBlocks => {},
                AnalysisFlag::DataFlow => {},
                AnalysisFlag::VariableLifecycle => {},
                AnalysisFlag::DecisionTree => {},
                AnalysisFlag::DefUse => {},
        },
        AnalysisFlag::VariableLifecycle => match g {
                AnalysisFlag::Complexity => {},
                AnalysisFlag::Cfg => {},
                AnalysisFlag::EarlyExit => {},
                AnalysisFlag::Loop => {},
                AnalysisFlag::BasicBlocks => {},
                AnalysisFlag::DataFlow => {},
                AnalysisFlag::VariableLifecycle => {},
                AnalysisFlag::DecisionTree => {},
                AnalysisFlag::DefUse => {},
        },
        AnalysisFlag::DecisionTree => match g {
                AnalysisFlag::Complexity => {},
                AnalysisFlag::Cfg => {},
                AnalysisFlag::EarlyExit => {},
                AnalysisFlag::Loop => {},
                AnalysisFlag::BasicBlocks => {},
                AnalysisFlag::DataFlow => {},
                AnalysisFlag::VariableLifecycle => {},
                AnalysisFlag::DecisionTree => {},
                AnalysisFlag::DefUse => {},
        },
        AnalysisFlag::DefUse => match g {
                AnalysisFlag::Complexity => {},
                AnalysisFlag::Cfg => {},
                AnalysisFlag::EarlyExit => {},
                AnalysisFlag::Loop => {},
                AnalysisFlag::BasicBlocks => {},
                AnalysisFlag::DataFlow => {},
                AnalysisFlag::VariableLifecycle => {},
                AnalysisFlag::DecisionTree => {},
                AnalysisFlag::DefUse => {},
        },
    }
}

/// The presets are what their names say: the default and the minimal options
/// enable some analysis, the empty options none.
pub proof fn lemma_presets_enable()
    ensures
        any_enabled(default_options()),
        any_enabled(minimal_options()),
        !any_enabled(no_options()),
{
}

} // verus!
