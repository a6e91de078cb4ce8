//! The fluent builder that configures an analysis.
use vstd::prelude::*;
use crate::analysis_result::{analysis_outcome, records_of, runs_on_workspace, AnalysisResult, FileAnalysis};
use crate::deep_call::{tracked_edges, DeepCallTracker, LibrarySource};
use crate::error::NTreeError;
use crate::options::any_enabled;
use crate::workspace::total_size_of;
use crate::options::{
    default_options, flag_of, lemma_switch_last_wins, lemma_switches_commute, minimal_options, no_options,
    with_flag, AnalysisFlag, AnalysisOptions,
};
use crate::text::{concat2, copy_str};

verus! {

/// What a `SourceCode` builder holds.
pub struct SourceCodeView {
    pub path: Seq<char>,
    pub is_workspace: bool,
    pub options: AnalysisOptions,
    pub incremental: bool,
    pub cha: bool,
    pub rta: bool,
    pub external_libs: bool,
    pub deep_external_calls: bool,
}

/// Builder for source code analysis with fluent configuration API.
#[derive(Debug)]
pub struct SourceCode {
    path: String,
    is_workspace: bool,
    options: AnalysisOptions,
    // Advanced analysis options
    enable_incremental: bool,
    enable_cha: bool,
    enable_rta: bool,
    enable_external_libs: bool,
    enable_deep_external_calls: bool,
}

impl View for SourceCode {
    type V = SourceCodeView;

    closed spec fn view(&self) -> SourceCodeView {
        SourceCodeView {
            path: self.path@,
            is_workspace: self.is_workspace,
            options: self.options,
            incremental: self.enable_incremental,
            cha: self.enable_cha,
            rta: self.enable_rta,
            external_libs: self.enable_external_libs,
            deep_external_calls: self.enable_deep_external_calls,
        }
    }
}

/// A builder in workspace search is in workspace mode: switching the search
/// on or off switches workspace mode with it, and nothing else turns the
/// search on.
pub open spec fn search_implies_workspace(v: SourceCodeView) -> bool {
    v.options.workspace_search ==> v.is_workspace
}

impl SourceCode {
    #[verifier::type_invariant]
    spec fn workspace_consistent(self) -> bool {
        self.options.workspace_search ==> self.is_workspace
    }
}

impl Clone for SourceCode {
    /// A builder with the same configuration.
    fn clone(&self) -> (r: Self)
        ensures
            r@ == self@,
            search_implies_workspace(r@),
    {
        proof {
            use_type_invariant(self);
        }
        SourceCode {
            path: copy_str(self.path.as_str()),
            is_workspace: self.is_workspace,
            options: self.options,
            enable_incremental: self.enable_incremental,
            enable_cha: self.enable_cha,
            enable_rta: self.enable_rta,
            enable_external_libs: self.enable_external_libs,
            enable_deep_external_calls: self.enable_deep_external_calls,
        }
    }
}

/// `v` with the analysis `f` switched to `b`.
pub open spec fn configured(v: SourceCodeView, f: AnalysisFlag, b: bool) -> SourceCodeView {
    SourceCodeView { options: with_flag(v.options, f, b), ..v }
}

/// Configuring two different analyses gives the same builder in either order;
/// configuring one twice keeps only the last setting, which the builder then
/// holds; and neither changes workspace search or workspace mode.
pub proof fn lemma_configure_commutes(v: SourceCodeView, f: AnalysisFlag, g: AnalysisFlag, a: bool, b: bool)
    ensures
        configured(configured(v, f, a), f, b) == configured(v, f, b),
        flag_of(configured(v, f, b).options, f) == b,
        configured(v, f, a).options.workspace_search == v.options.workspace_search,
        configured(v, f, a).is_workspace == v.is_workspace,
        f != g ==> configured(configured(v, f, a), g, b) == configured(configured(v, g, b), f, a),
{
    lemma_switch_last_wins(v.options, f, a, b);
    if f != g {
        lemma_switches_commute(v.options, f, g, a, b);
    }
}

/// The message for a path that does not exist.
pub open spec fn missing_path_message(path: Seq<char>) -> Seq<char> {
    "Path does not exist: "@ + path
}

/// The message when no analysis is enabled.
pub open spec fn nothing_enabled_message() -> Seq<char> {
    "No analyses enabled. Configure at least one analysis type."@
}

impl SourceCode {
    /// Create a new source code analyzer for a file or directory, given
    /// whether the path exists and whether it is a directory. A directory
    /// selects workspace mode; every analysis but workspace search is on.
    pub fn new(path: &str, exists: bool, is_dir: bool) -> (res: Result<Self, NTreeError>)
        ensures
            !exists ==> (res matches Err(NTreeError::ParseError(m)) && m@ == missing_path_message(path@)),
            exists ==> (res matches Ok(s) && s@ == (SourceCodeView {
                path: path@,
                is_workspace: is_dir,
                options: default_options(),
                incremental: false,
                cha: false,
                rta: false,
                external_libs: false,
                deep_external_calls: false,
            }) && search_implies_workspace(s@)),
    {
        if !exists {
            return Err(NTreeError::ParseError(concat2("Path does not exist: ", path)));
        }
        Ok(SourceCode {
            path: copy_str(path),
            is_workspace: is_dir,
            options: AnalysisOptions::default(),
            enable_incremental: false,
            enable_cha: false,
            enable_rta: false,
            enable_external_libs: false,
            enable_deep_external_calls: false,
        })
    }

    /// Configure complexity analysis (enabled by default).
    #[verifier::spinoff_prover]
    pub fn with_complexity_analysis(self, enabled: bool) -> (r: Self)
        ensures
            r@ == configured(self@, AnalysisFlag::Complexity, enabled),
            search_implies_workspace(r@),
    {
        let mut s = self;
        proof {
            use_type_invariant(&s);
        }
        s.options.complexity_analysis = enabled;
        s
    }

    /// Configure CFG generation (enabled by default).
    #[verifier::spinoff_prover]
    pub fn with_cfg_generation(self, enabled: bool) -> (r: Self)
        ensures
            r@ == configured(self@, AnalysisFlag::Cfg, enabled),
            search_implies_workspace(r@),
    {
        let mut s = self;
        proof {
            use_type_invariant(&s);
        }
        s.options.cfg_generation = enabled;
        s
    }

    /// Configure early exit analysis (enabled by default).
    #[verifier::spinoff_prover]
    pub fn with_early_exit_analysis(self, enabled: bool) -> (r: Self)
        ensures
            r@ == configured(self@, AnalysisFlag::EarlyExit, enabled),
            search_implies_workspace(r@),
    {
        let mut s = self;
        proof {
            use_type_invariant(&s);
        }
        s.options.early_exit_analysis = enabled;
        s
    }

    /// Configure loop analysis (enabled by default).
    #[verifier::spinoff_prover]
    pub fn with_loop_analysis(self, enabled: bool) -> (r: Self)
        ensures
            r@ == configured(self@, AnalysisFlag::Loop, enabled),
            search_implies_workspace(r@),
    {
        let mut s = self;
        proof {
            use_type_invariant(&s);
        }
        s.options.loop_analysis = enabled;
        s
    }

    /// Configure basic block generation (enabled by default).
    #[verifier::spinoff_prover]
    pub fn with_basic_blocks(self, enabled: bool) -> (r: Self)
        ensures
            r@ == configured(self@, AnalysisFlag::BasicBlocks, enabled),
            search_implies_workspace(r@),
    {
        let mut s = self;
        proof {
            use_type_invariant(&s);
        }
        s.options.basic_blocks = enabled;
        s
    }

    /// Configure data flow analysis (enabled by default).
    #[verifier::spinoff_prover]
    pub fn with_data_flow_analysis(self, enabled: bool) -> (r: Self)
        ensures
            r@ == configured(self@, AnalysisFlag::DataFlow, enabled),
            search_implies_workspace(r@),
    {
        let mut s = self;
        proof {
            use_type_invariant(&s);
        }
        s.options.data_flow_analysis = enabled;
        s
    }

    /// Configure variable lifecycle tracking (enabled by default).
    #[verifier::spinoff_prover]
    pub fn with_variable_lifecycle_tracking(self, enabled: bool) -> (r: Self)
        ensures
            r@ == configured(self@, AnalysisFlag::VariableLifecycle, enabled),
            search_implies_workspace(r@),
    {
        let mut s = self;
        proof {
            use_type_invariant(&s);
        }
        s.options.variable_lifecycle_tracking = enabled;
        s
    }

    /// Configure decision tree mapping (enabled by default).
    #[verifier::spinoff_prover]
    pub fn with_decision_tree_mapping(self, enabled: bool) -> (r: Self)
        ensures
            r@ == configured(self@, AnalysisFlag::DecisionTree, enabled),
            search_implies_workspace(r@),
    {
        let mut s = self;
        proof {
            use_type_invariant(&s);
        }
        s.options.decision_tree_mapping = enabled;
        s
    }

    /// Configure def-use chain analysis (enabled by default).
    #[verifier::spinoff_prover]
    pub fn with_def_use_chains(self, enabled: bool) -> (r: Self)
        ensures
            r@ == configured(self@, AnalysisFlag::DefUse, enabled),
            search_implies_workspace(r@),
    {
        let mut s = self;
        proof {
            use_type_invariant(&s);
        }
        s.options.def_use_chains = enabled;
        s
    }

    /// Use minimal analysis configuration (only complexity and CFG).
    pub fn minimal(self) -> (r: Self)
        ensures
            r@ == (SourceCodeView { options: minimal_options(), ..self@ }),
            search_implies_workspace(r@),
    {
        let mut s = self;
        proof {
            use_type_invariant(&s);
        }
        s.options = AnalysisOptions::minimal();
        s
    }

    /// Disable all analyses.
    pub fn none(self) -> (r: Self)
        ensures
            r@ == (SourceCodeView { options: no_options(), ..self@ }),
            search_implies_workspace(r@),
    {
        let mut s = self;
        proof {
            use_type_invariant(&s);
        }
        s.options = AnalysisOptions::none();
        s
    }

    /// Enable or disable workspace search mode.
    pub fn search_workspace(self, enabled: bool) -> (r: Self)
        ensures
            r@ == (SourceCodeView {
                is_workspace: enabled,
                options: AnalysisOptions { workspace_search: enabled, ..self@.options },
                ..self@
            }),
            search_implies_workspace(r@),
    {
        let mut s = self;
        proof {
            use_type_invariant(&s);
        }
        if enabled {
            s.is_workspace = true;
            s.options.workspace_search = true;
        } else {
            s.options.workspace_search = false;
            s.is_workspace = false;
        }
        s
    }

    /// Get the current path (file or directory).
    pub fn path(&self) -> (p: &str)
        ensures
            p@ == self@.path,
    {
        self.path.as_str()
    }

    /// Check if this is workspace mode.
    pub fn is_workspace(&self) -> (b: bool)
        ensures
            b == self@.is_workspace,
    {
        self.is_workspace
    }

    /// Get the current analysis options.
    pub fn options(&self) -> (o: &AnalysisOptions)
        ensures
            *o == self@.options,
    {
        &self.options
    }

    /// Enable incremental analysis for faster recomputation after edits.
    pub fn with_incremental_analysis(self, enabled: bool) -> (r: Self)
        ensures
            r@ == (SourceCodeView { incremental: enabled, ..self@ }),
            search_implies_workspace(r@),
    {
        let mut s = self;
        proof {
            use_type_invariant(&s);
        }
        s.enable_incremental = enabled;
        s
    }

    /// Enable advanced call resolution for OO/trait calls.
    pub fn with_advanced_call_resolution(self, enabled: bool) -> (r: Self)
        ensures
            r@ == (SourceCodeView { cha: enabled, rta: enabled, ..self@ }),
            search_implies_workspace(r@),
    {
        let mut s = self;
        proof {
            use_type_invariant(&s);
        }
        s.enable_cha = enabled;
        s.enable_rta = enabled;
        s
    }

    /// Enable external library analysis and security scanning.
    pub fn with_external_library_analysis(self, enabled: bool) -> (r: Self)
        ensures
            r@ == (SourceCodeView { external_libs: enabled, ..self@ }),
            search_implies_workspace(r@),
    {
        let mut s = self;
        proof {
            use_type_invariant(&s);
        }
        s.enable_external_libs = enabled;
        s
    }

    /// Enable deep call tracking into external library source code; enabling
    /// it also enables external library analysis.
    pub fn with_deep_external_call_tracking(self, enabled: bool) -> (r: Self)
        ensures
            r@ == (SourceCodeView {
                deep_external_calls: enabled,
                external_libs: enabled || self@.external_libs,
                ..self@
            }),
            search_implies_workspace(r@),
    {
        let mut s = self;
        proof {
            use_type_invariant(&s);
        }
        s.enable_deep_external_calls = enabled;
        if enabled {
            s.enable_external_libs = true;
        }
        s
    }

    /// Execute the configured analyses on what reading and parsing gave: the
    /// workspace's files, or the one file. Refused when no analysis is enabled.
    /// With deep call tracking on, the external calls of the result are then
    /// followed into the library sources found, `libraries`.
    pub fn analyze(self, files: Vec<FileAnalysis>, libraries: &Vec<LibrarySource>) -> (res: Result<AnalysisResult, NTreeError>)
        requires
            runs_on_workspace(self@.options, self@.is_workspace) ==> total_size_of(records_of(files@))
                <= u64::MAX,
            !runs_on_workspace(self@.options, self@.is_workspace) ==> files@.len() == 1,
        ensures
            !any_enabled(self@.options) ==> (res matches Err(NTreeError::ParseError(m)) && m@
                == nothing_enabled_message()),
            any_enabled(self@.options) ==> analysis_outcome(res, self@.options, self@.is_workspace, files@),
            res matches Ok(r) ==> r.is_workspace_mode == self@.is_workspace,
            res matches Ok(r) ==> if self@.deep_external_calls {
                r.deep_call_tracker matches Some(t) && tracked_edges(
                    t,
                    r.call_graph.edges@,
                    libraries@,
                    if self@.is_workspace { Some(self@.path) } else { None },
                )
            } else {
                r.deep_call_tracker is None
            },
    {
        proof {
            use_type_invariant(&self);
        }
        if !self.options.has_any_enabled() {
            return Err(NTreeError::ParseError(copy_str("No analyses enabled. Configure at least one analysis type.")));
        }
        let workspace_path = if self.is_workspace { Some(copy_str(self.path.as_str())) } else { None };
        let mut result = match AnalysisResult::from_source_code(self.options, self.is_workspace, files) {
            Ok(r) => r,
            Err(e) => return Err(e),
        };
        if self.enable_deep_external_calls {
            let mut tracker = match workspace_path {
                Some(p) => DeepCallTracker::with_workspace_path(p),
                None => DeepCallTracker::new(),
            };
            let ghost t0 = tracker;
            let outcome = tracker.analyze_external_calls(&result.call_graph, &result.symbol_store, libraries);
            proof {
                let ee = crate::deep_call::external_edges(result.call_graph.edges@);
                assert forall|k: int| 0 <= k < ee.len() implies crate::deep_call::external_chain(
                    #[trigger] tracker.chains()[k],
                    ee[k].0,
                    ee[k].1,
                    libraries@,
                    5,
                ) by {
                    assert(tracker.chains()[t0.chains().len() + k] == tracker.chains()[k]);
                }
            }
            if outcome.is_ok() {
                result.deep_call_tracker = Some(tracker);
            }
        }
        Ok(result)
    }
}

} // verus!
