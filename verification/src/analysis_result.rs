//! The unified result of an analysis, assembled from what reading and
//! parsing each source file yielded.
use vstd::prelude::*;
use crate::complexity::{complexity_matches, first_complexity_failure, run_complexity_on};
use crate::deep_call::DeepCallTracker;
use crate::data_flow_sets::{DecisionTreeSet, DefUseChainSet, VariableLifecycleSet};
use crate::error::NTreeError;
use crate::extractors::{ExportEdge, ImportEdge};
use crate::json::{complexity_json, lines_text, push_all, push_complexity_json};
use crate::models::{
    BasicBlockResult, CallEdge, CfgResult, ComplexityResult, CrossFileVariable, DataFlowGraph,
    FileRecord, FunctionCfgIr, FunctionSpan, TopLevelSymbol, VariableLifecycle,
};
use crate::options::AnalysisOptions;
use crate::result_sets::{BasicBlockResultSet, CfgResultSet, ComplexityResultSet, FunctionResultSet};
use crate::symbols::{SymbolResultSet, SymbolStore};
use crate::text::push_char;
use crate::workspace::{
    group_by_language, grouped_by_language, groups_view, language_of_path, total_size_of,
    SupportedLanguage, WorkspaceMethods, WorkspaceStats,
};

verus! {

/// What reading and parsing one source file yielded, each part with its own
/// error where that part could not be produced.
#[derive(Debug)]
pub struct FileAnalysis {
    pub record: FileRecord,
    pub functions: Result<Vec<FunctionSpan>, NTreeError>,
    pub cfgs: Result<Vec<CfgResult>, NTreeError>,
    pub cfg_irs: Result<Vec<FunctionCfgIr>, NTreeError>,
    pub basic_blocks: Result<Vec<BasicBlockResult>, NTreeError>,
    pub data_flow: Result<Vec<DataFlowGraph>, NTreeError>,
    pub lifecycles: Result<Vec<VariableLifecycle>, NTreeError>,
    pub symbols: Result<Vec<TopLevelSymbol>, NTreeError>,
    /// Calls made from the bodies of the file's functions.
    pub call_edges: Vec<CallEdge>,
}

/// All call edges of an analysed workspace.
#[derive(Debug, Clone)]
pub struct CallGraph {
    pub edges: Vec<CallEdge>,
}

impl CallGraph {
    /// A graph without edges.
    pub fn new() -> (g: CallGraph)
        ensures
            g.edges@.len() == 0,
    {
        CallGraph { edges: Vec::new() }
    }

    /// Adds a call edge at the end.
    pub fn add_call_edge(&mut self, edge: CallEdge)
        ensures
            final(self).edges@ == old(self).edges@.push(edge),
    {
        self.edges.push(edge);
    }

    /// All call edges, in the order added.
    pub fn get_all_call_edges(&self) -> (r: &[CallEdge])
        ensures
            r@ == self.edges@,
    {
        self.edges.as_slice()
    }
}

/// Unified analysis results supporting both single file and workspace analysis.
#[derive(Debug)]
pub struct AnalysisResult {
    pub complexity_data: Vec<ComplexityResult>,
    pub cfg_data: Vec<CfgResult>,
    pub basic_block_data: Vec<BasicBlockResult>,
    pub function_data: Vec<FunctionSpan>,
    pub data_flow_graphs: Vec<DataFlowGraph>,
    pub variable_lifecycles: VariableLifecycleSet,
    pub def_use_chains: DefUseChainSet,
    pub decision_trees: DecisionTreeSet,
    pub cross_file_variables: Vec<CrossFileVariable>,
    pub symbol_store: SymbolStore,
    pub file_records: Vec<FileRecord>,
    pub files_by_language: Vec<(String, Vec<FileRecord>)>,
    pub workspace_stats: Option<WorkspaceStats>,
    pub is_workspace_mode: bool,
    pub call_graph: CallGraph,
    /// The external calls followed into library sources, when that was asked for.
    pub deep_call_tracker: Option<DeepCallTracker>,
}

/// The first error of a single-file analysis, in the order the analyses run:
/// functions, CFGs, CFG IR for complexity, basic blocks, data flow,
/// lifecycles, symbols. (A failing complexity computation on well-read IR is
/// reported separately.)
pub open spec fn single_file_input_error(f: FileAnalysis, o: AnalysisOptions) -> Option<NTreeError> {
    if f.functions is Err {
        Some(f.functions->Err_0)
    } else if o.cfg_generation && f.cfgs is Err {
        Some(f.cfgs->Err_0)
    } else if o.complexity_analysis && f.cfg_irs is Err {
        Some(f.cfg_irs->Err_0)
    } else {
        None
    }
}

/// The results of every IR of `irs` are defined.
pub open spec fn all_complexity_defined(irs: Seq<FunctionCfgIr>) -> bool {
    forall|i: int| 0 <= i < irs.len() ==> crate::complexity::complexity_defined(#[trigger] irs[i])
}

/// `rs` are the complexity results of `irs`, one each, in order.
pub open spec fn complexities_of(rs: Seq<ComplexityResult>, irs: Seq<FunctionCfgIr>) -> bool {
    rs.len() == irs.len() && forall|i: int| 0 <= i < irs.len() ==> complexity_matches(#[trigger] rs[i], irs[i])
}

/// The later stages of a single-file analysis (after complexity) that fail.
pub open spec fn single_file_late_error(f: FileAnalysis, o: AnalysisOptions) -> Option<NTreeError> {
    if o.basic_blocks && f.basic_blocks is Err {
        Some(f.basic_blocks->Err_0)
    } else if o.data_flow_analysis && f.data_flow is Err {
        Some(f.data_flow->Err_0)
    } else if o.variable_lifecycle_tracking && f.lifecycles is Err {
        Some(f.lifecycles->Err_0)
    } else if f.symbols is Err {
        Some(f.symbols->Err_0)
    } else {
        None
    }
}

/// A single-file analysis of `f` with options `o` succeeds.
pub open spec fn single_file_succeeds(f: FileAnalysis, o: AnalysisOptions) -> bool {
    &&& single_file_input_error(f, o) is None
    &&& (o.complexity_analysis ==> all_complexity_defined(f.cfg_irs->Ok_0@))
    &&& single_file_late_error(f, o) is None
}

/// `r` holds what a successful single-file analysis of `f` with options `o` yields.
pub open spec fn single_file_result(r: AnalysisResult, f: FileAnalysis, o: AnalysisOptions) -> bool {
    &&& r.function_data@ == f.functions->Ok_0@
    &&& r.cfg_data@ == (if o.cfg_generation { f.cfgs->Ok_0@ } else { Seq::empty() })
    &&& (if o.complexity_analysis {
        complexities_of(r.complexity_data@, f.cfg_irs->Ok_0@)
    } else {
        r.complexity_data@.len() == 0
    })
    &&& r.basic_block_data@ == (if o.basic_blocks { f.basic_blocks->Ok_0@ } else { Seq::empty() })
    &&& r.data_flow_graphs@ == (if o.data_flow_analysis { f.data_flow->Ok_0@ } else { Seq::empty() })
    &&& r.variable_lifecycles.lifecycles@ == (if o.variable_lifecycle_tracking {
        f.lifecycles->Ok_0@
    } else {
        Seq::empty()
    })
    &&& r.symbol_store.symbols@ == f.symbols->Ok_0@
    &&& r.file_records@.len() == 0
    &&& r.files_by_language@.len() == 0
    &&& r.workspace_stats is None
    &&& !r.is_workspace_mode
    &&& r.call_graph.edges@.len() == 0
}

/// The concatenation of the successful parts of each file, where `part` picks one.
pub open spec fn concat_ok<T>(files: Seq<FileAnalysis>, part: spec_fn(FileAnalysis) -> Result<Vec<T>, NTreeError>) -> Seq<T>
    decreases files.len(),
{
    if files.len() == 0 {
        Seq::empty()
    } else {
        let rest = concat_ok(files.drop_last(), part);
        match part(files.last()) {
            Ok(v) => rest + v@,
            Err(_) => rest,
        }
    }
}

/// The records of the files.
pub open spec fn records_of(files: Seq<FileAnalysis>) -> Seq<FileRecord> {
    files.map_values(|f: FileAnalysis| f.record)
}

/// Some file's symbols could not be extracted.
pub open spec fn workspace_symbol_error(files: Seq<FileAnalysis>) -> bool {
    exists|i: int| 0 <= i < files.len() && (#[trigger] files[i]).symbols is Err
}

/// The symbols of all files, in file order.
pub open spec fn workspace_symbols(files: Seq<FileAnalysis>) -> Seq<TopLevelSymbol> {
    concat_ok(files, |f: FileAnalysis| f.symbols)
}

/// The complexity results of the files whose every graph can be analysed.
pub open spec fn workspace_complexity_ok(f: FileAnalysis) -> bool {
    f.cfg_irs is Ok && all_complexity_defined(f.cfg_irs->Ok_0@)
}

/// The graphs of the files whose complexity can be computed, in file order.
pub open spec fn workspace_irs(files: Seq<FileAnalysis>) -> Seq<FunctionCfgIr>
    decreases files.len(),
{
    if files.len() == 0 {
        Seq::empty()
    } else {
        let rest = workspace_irs(files.drop_last());
        if workspace_complexity_ok(files.last()) {
            rest + files.last().cfg_irs->Ok_0@
        } else {
            rest
        }
    }
}

/// The call edges of the Python files, in file order.
pub open spec fn python_edges(files: Seq<FileAnalysis>) -> Seq<CallEdge>
    decreases files.len(),
{
    if files.len() == 0 {
        Seq::empty()
    } else {
        let rest = python_edges(files.drop_last());
        if language_of_path(files.last().record.path@) == Some(SupportedLanguage::Python) {
            rest + files.last().call_edges@
        } else {
            rest
        }
    }
}

/// `r` holds what a successful workspace analysis of `files` with options `o` yields.
pub open spec fn workspace_result(r: AnalysisResult, files: Seq<FileAnalysis>, o: AnalysisOptions) -> bool {
    &&& r.file_records@ == records_of(files)
    &&& grouped_by_language(records_of(files), groups_view(r.files_by_language@))
    &&& r.workspace_stats matches Some(s) && s.total_files == files.len() && s.total_size
        == total_size_of(records_of(files)) && s.languages == crate::workspace::languages_of(
        records_of(files),
    ).to_set().len()
    &&& r.symbol_store.symbols@ == workspace_symbols(files)
    &&& r.cfg_data@ == (if o.cfg_generation {
        concat_ok(files, |f: FileAnalysis| f.cfgs)
    } else {
        Seq::empty()
    })
    &&& (if o.complexity_analysis {
        complexities_of(r.complexity_data@, workspace_irs(files))
    } else {
        r.complexity_data@.len() == 0
    })
    &&& r.basic_block_data@ == (if o.basic_blocks {
        concat_ok(files, |f: FileAnalysis| f.basic_blocks)
    } else {
        Seq::empty()
    })
    &&& r.data_flow_graphs@ == (if o.data_flow_analysis {
        concat_ok(files, |f: FileAnalysis| f.data_flow)
    } else {
        Seq::empty()
    })
    &&& r.variable_lifecycles.lifecycles@ == (if o.variable_lifecycle_tracking {
        concat_ok(files, |f: FileAnalysis| f.lifecycles)
    } else {
        Seq::empty()
    })
    &&& r.function_data@.len() == 0
    &&& r.is_workspace_mode
    &&& r.call_graph.edges@ == python_edges(files)
}

impl AnalysisResult {
    fn empty(is_workspace_mode: bool) -> (r: AnalysisResult)
        ensures
            r.complexity_data@.len() == 0,
            r.cfg_data@.len() == 0,
            r.basic_block_data@.len() == 0,
            r.function_data@.len() == 0,
            r.data_flow_graphs@.len() == 0,
            r.variable_lifecycles.lifecycles@.len() == 0,
            r.def_use_chains.chains@.len() == 0,
            r.decision_trees.trees@.len() == 0,
            r.cross_file_variables@.len() == 0,
            r.symbol_store.symbols@.len() == 0,
            r.file_records@.len() == 0,
            r.files_by_language@.len() == 0,
            r.workspace_stats is None,
            r.is_workspace_mode == is_workspace_mode,
            r.call_graph.edges@.len() == 0,
            r.deep_call_tracker is None,
    {
        AnalysisResult {
            complexity_data: Vec::new(),
            cfg_data: Vec::new(),
            basic_block_data: Vec::new(),
            function_data: Vec::new(),
            data_flow_graphs: Vec::new(),
            variable_lifecycles: VariableLifecycleSet::new(),
            def_use_chains: DefUseChainSet::new(),
            decision_trees: DecisionTreeSet::new(),
            cross_file_variables: Vec::new(),
            symbol_store: SymbolStore::new(),
            file_records: Vec::new(),
            files_by_language: Vec::new(),
            workspace_stats: None,
            is_workspace_mode,
            call_graph: CallGraph::new(),
            deep_call_tracker: None,
        }
    }

    /// Create result from single file analysis: every enabled analysis must
    /// succeed, and the first failure, in the order the analyses run, is
    /// returned.
    pub fn from_single_file(file: FileAnalysis, options: AnalysisOptions) -> (res: Result<Self, NTreeError>)
        ensures
            res is Ok <==> single_file_succeeds(file, options),
            single_file_input_error(file, options) matches Some(e) ==> res == Err::<Self, NTreeError>(e),
            (single_file_input_error(file, options) is None && options.complexity_analysis
                && !all_complexity_defined(file.cfg_irs->Ok_0@)) ==> (res matches Err(e)
                && first_complexity_failure(file.cfg_irs->Ok_0@, e)),
            (single_file_input_error(file, options) is None && (options.complexity_analysis
                ==> all_complexity_defined(file.cfg_irs->Ok_0@))) ==> match single_file_late_error(file, options) {
                Some(e) => res == Err::<Self, NTreeError>(e),
                None => res matches Ok(r) && single_file_result(r, file, options),
            },
            res matches Ok(r) ==> r.deep_call_tracker is None,
    {
        let mut result = AnalysisResult::empty(false);
        let FileAnalysis {
            record: _,
            functions,
            cfgs,
            cfg_irs,
            basic_blocks,
            data_flow,
            lifecycles,
            symbols,
            call_edges: _,
        } = file;
        result.function_data = functions?;
        if options.cfg_generation {
            result.cfg_data = cfgs?;
        }
        if options.complexity_analysis {
            let irs = cfg_irs?;
            result.complexity_data = run_complexity_on(&irs)?;
        }
        if options.basic_blocks {
            result.basic_block_data = basic_blocks?;
        }
        if options.data_flow_analysis {
            result.data_flow_graphs = data_flow?;
        }
        if options.variable_lifecycle_tracking {
            result.variable_lifecycles = VariableLifecycleSet { lifecycles: lifecycles? };
        }
        let syms = symbols?;
        result.symbol_store = SymbolStore { symbols: syms };
        proof {
            if !options.cfg_generation {
                assert(result.cfg_data@ =~= Seq::<CfgResult>::empty());
            }
            if !options.basic_blocks {
                assert(result.basic_block_data@ =~= Seq::<BasicBlockResult>::empty());
            }
            if !options.data_flow_analysis {
                assert(result.data_flow_graphs@ =~= Seq::<DataFlowGraph>::empty());
            }
            if !options.variable_lifecycle_tracking {
                assert(result.variable_lifecycles.lifecycles@ =~= Seq::<VariableLifecycle>::empty());
            }
        }
        Ok(result)
    }
}

/// The error of the first file whose symbols could not be extracted.
pub open spec fn first_symbol_error(files: Seq<FileAnalysis>, e: NTreeError) -> bool {
    exists|i: int|
        0 <= i < files.len() && files[i].symbols == Err::<Vec<TopLevelSymbol>, NTreeError>(e)
            && forall|j: int| 0 <= j < i ==> (#[trigger] files[j]).symbols is Ok
}

impl AnalysisResult {
    /// Workspace analysis: the files and their grouping by language, the
    /// workspace statistics and all symbols, then each enabled analysis for
    /// the files where it succeeds (a file where it fails adds nothing), and
    /// the call edges of the Python files. Fails only where the symbols of a
    /// file could not be extracted, with the first such error.
    pub fn from_workspace(files: Vec<FileAnalysis>, options: AnalysisOptions) -> (res: Result<Self, NTreeError>)
        requires
            total_size_of(records_of(files@)) <= u64::MAX,
        ensures
            res is Err <==> workspace_symbol_error(files@),
            res matches Err(e) ==> first_symbol_error(files@, e),
            res matches Ok(r) ==> workspace_result(r, files@, options),
            res matches Ok(r) ==> r.deep_call_tracker is None,
    {
        let ghost fs = files@;
        let mut records: Vec<FileRecord> = Vec::new();
        for i in 0..files.len()
            invariant
                fs == files@,
                records@ == records_of(fs).take(i as int),
                forall|j: int| 0 <= j < i ==> (#[trigger] fs[j]).symbols is Ok,
        {
            match &files[i].symbols {
                Err(e) => {
                    let err = e.duplicate();
                    assert(fs[i as int].symbols == Err::<Vec<TopLevelSymbol>, NTreeError>(err));
                    return Err(err);
                },
                Ok(_) => {},
            }
            records.push(files[i].record.duplicate());
            assert(records@ =~= records_of(fs).take(i + 1));
        }
        assert(records@ =~= records_of(fs));
        assert(!workspace_symbol_error(fs));
        let mut result = AnalysisResult::empty(true);
        result.files_by_language = group_by_language(records.as_slice());
        result.workspace_stats = Some(WorkspaceMethods::get_workspace_stats(records.as_slice()));
        result.file_records = records;
        for f in it: files
            invariant
                it.seq() == fs,
                !workspace_symbol_error(fs),
                result.file_records@ == records_of(fs),
                grouped_by_language(records_of(fs), groups_view(result.files_by_language@)),
                result.workspace_stats matches Some(s) && s.total_files == fs.len() && s.total_size
                    == total_size_of(records_of(fs)) && s.languages == crate::workspace::languages_of(
                    records_of(fs),
                ).to_set().len(),
                result.symbol_store.symbols@ == workspace_symbols(fs.take(it.index() as int)),
                result.cfg_data@ == (if options.cfg_generation {
                    concat_ok(fs.take(it.index() as int), |f: FileAnalysis| f.cfgs)
                } else {
                    Seq::empty()
                }),
                if options.complexity_analysis {
                    complexities_of(result.complexity_data@, workspace_irs(fs.take(it.index() as int)))
                } else {
                    result.complexity_data@.len() == 0
                },
                result.basic_block_data@ == (if options.basic_blocks {
                    concat_ok(fs.take(it.index() as int), |f: FileAnalysis| f.basic_blocks)
                } else {
                    Seq::empty()
                }),
                result.data_flow_graphs@ == (if options.data_flow_analysis {
                    concat_ok(fs.take(it.index() as int), |f: FileAnalysis| f.data_flow)
                } else {
                    Seq::empty()
                }),
                result.variable_lifecycles.lifecycles@ == (if options.variable_lifecycle_tracking {
                    concat_ok(fs.take(it.index() as int), |f: FileAnalysis| f.lifecycles)
                } else {
                    Seq::empty()
                }),
                result.function_data@.len() == 0,
                result.is_workspace_mode,
                result.call_graph.edges@ == python_edges(fs.take(it.index() as int)),
                result.deep_call_tracker is None,
        {
            let ghost k = it.index() as int;
            let ghost pre = fs.take(k);
            let ghost post = fs.take(k + 1);
            assert(post.drop_last() == pre);
            assert(post.last() == f);
            assert(f == fs[k]);
            let FileAnalysis {
                record,
                functions: _,
                cfgs,
                cfg_irs,
                basic_blocks,
                data_flow,
                lifecycles,
                symbols,
                call_edges,
            } = f;
            match symbols {
                Ok(mut v) => {
                    result.symbol_store.symbols.append(&mut v);
                },
                Err(_) => {
                    assert(fs[k].symbols is Err);
                },
            }
            if options.cfg_generation {
                match cfgs {
                    Ok(mut v) => result.cfg_data.append(&mut v),
                    Err(_) => {},
                }
            }
            if options.complexity_analysis {
                match &cfg_irs {
                    Ok(irs) => {
                        match run_complexity_on(irs) {
                            Ok(mut v) => {
                                let ghost before = result.complexity_data@;
                                let ghost vv = v@;
                                result.complexity_data.append(&mut v);
                                assert(workspace_irs(post) == workspace_irs(pre) + irs@);
                                assert forall|i: int| 0 <= i < workspace_irs(post).len() implies
                                    complexity_matches(#[trigger] result.complexity_data@[i], workspace_irs(post)[i]) by {
                                    if i >= before.len() {
                                        assert(result.complexity_data@[i] == vv[i - before.len()]);
                                    }
                                }
                            },
                            Err(_) => {
                                assert(!workspace_complexity_ok(fs[k]));
                                assert(workspace_irs(post) == workspace_irs(pre));
                            },
                        }
                    },
                    Err(_) => {
                        assert(workspace_irs(post) == workspace_irs(pre));
                    },
                }
            }
            if options.basic_blocks {
                match basic_blocks {
                    Ok(mut v) => result.basic_block_data.append(&mut v),
                    Err(_) => {},
                }
            }
            if options.data_flow_analysis {
                match data_flow {
                    Ok(mut v) => result.data_flow_graphs.append(&mut v),
                    Err(_) => {},
                }
            }
            if options.variable_lifecycle_tracking {
                match lifecycles {
                    Ok(mut v) => result.variable_lifecycles.lifecycles.append(&mut v),
                    Err(_) => {},
                }
            }
            let is_python = match SupportedLanguage::from_path(record.path.as_str()) {
                Ok(SupportedLanguage::Python) => true,
                _ => false,
            };
            if is_python {
                let mut edges = call_edges;
                result.call_graph.edges.append(&mut edges);
            }
        }
        proof {
            assert(fs.take(fs.len() as int) == fs);
        }
        Ok(result)
    }
}

/// The analyses run on a whole workspace rather than one file.
pub open spec fn runs_on_workspace(options: AnalysisOptions, is_workspace: bool) -> bool {
    is_workspace || options.workspace_search
}

/// What analysing `files` with `options` gives: a workspace analysis or a
/// single-file analysis of the one file.
pub open spec fn analysis_outcome(
    res: Result<AnalysisResult, NTreeError>,
    options: AnalysisOptions,
    is_workspace: bool,
    files: Seq<FileAnalysis>,
) -> bool {
    &&& runs_on_workspace(options, is_workspace) ==> {
        &&& res is Err <==> workspace_symbol_error(files)
        &&& res matches Err(e) ==> first_symbol_error(files, e)
        &&& res matches Ok(r) ==> workspace_result(r, files, options)
    }
    &&& !runs_on_workspace(options, is_workspace) ==> {
        let file = files[0];
        &&& res is Ok <==> single_file_succeeds(file, options)
        &&& single_file_input_error(file, options) matches Some(e) ==> res == Err::<AnalysisResult, NTreeError>(e)
        &&& (single_file_input_error(file, options) is None && (options.complexity_analysis
            ==> all_complexity_defined(file.cfg_irs->Ok_0@))) ==> match single_file_late_error(file, options) {
            Some(e) => res == Err::<AnalysisResult, NTreeError>(e),
            None => res matches Ok(r) && single_file_result(r, file, options),
        }
    }
}

impl AnalysisResult {
    /// Create analysis result by running configured analyses: on every file of
    /// a workspace, or on the one file given.
    pub fn from_source_code(options: AnalysisOptions, is_workspace: bool, files: Vec<FileAnalysis>) -> (res: Result<Self, NTreeError>)
        requires
            runs_on_workspace(options, is_workspace) ==> total_size_of(records_of(files@)) <= u64::MAX,
            !runs_on_workspace(options, is_workspace) ==> files@.len() == 1,
        ensures
            analysis_outcome(res, options, is_workspace, files@),
            res matches Ok(r) ==> r.deep_call_tracker is None,
    {
        if is_workspace || options.workspace_search {
            Self::from_workspace(files, options)
        } else {
            let mut files = files;
            let file = files.pop().unwrap();
            Self::from_single_file(file, options)
        }
    }

    /// Get complexity analysis results.
    pub fn complexity(&self) -> (r: ComplexityResultSet<'_>)
        ensures
            r.data@ == self.complexity_data@,
    {
        ComplexityResultSet { data: self.complexity_data.as_slice() }
    }

    /// Get CFG analysis results.
    pub fn cfgs(&self) -> (r: CfgResultSet<'_>)
        ensures
            r.data@ == self.cfg_data@,
    {
        CfgResultSet { data: self.cfg_data.as_slice() }
    }

    /// Get function information.
    pub fn functions(&self) -> (r: FunctionResultSet<'_>)
        ensures
            r.data@ == self.function_data@,
    {
        FunctionResultSet { data: self.function_data.as_slice() }
    }

    /// Get basic block information.
    pub fn basic_blocks(&self) -> (r: BasicBlockResultSet<'_>)
        ensures
            r.data@ == self.basic_block_data@,
    {
        BasicBlockResultSet { data: self.basic_block_data.as_slice() }
    }

    /// Get symbol search interface, with no filter set.
    pub fn symbols(&self) -> (r: SymbolResultSet<'_>)
        ensures
            r.store == &self.symbol_store,
            r.pattern is None,
            !r.use_regex,
            r.kind_filter is None,
            r.file_filter is None,
    {
        SymbolResultSet::new(&self.symbol_store)
    }

    /// Get files grouped by language (workspace mode only).
    pub fn files_by_language(&self) -> (r: Option<&Vec<(String, Vec<FileRecord>)>>)
        ensures
            self.is_workspace_mode ==> r == Some(&self.files_by_language),
            !self.is_workspace_mode ==> r is None,
    {
        if self.is_workspace_mode {
            Some(&self.files_by_language)
        } else {
            None
        }
    }

    /// Get workspace statistics (workspace mode only).
    pub fn workspace_stats(&self) -> (r: Option<&WorkspaceStats>)
        ensures
            match self.workspace_stats {
                Some(s) => r == Some(&s),
                None => r is None,
            },
    {
        match &self.workspace_stats {
            Some(s) => Some(s),
            None => None,
        }
    }

    /// Export all results to JSONL format.
    pub fn to_jsonl(&self) -> (res: Result<String, NTreeError>)
        ensures
            res matches Ok(s) && s@ == all_results_jsonl(
                self.cfg_data@,
                self.basic_block_data@,
                self.complexity_data@,
            ),
    {
        ExportUtils::to_jsonl(
            self.cfg_data.as_slice(),
            self.basic_block_data.as_slice(),
            self.complexity_data.as_slice(),
        )
    }

    /// Check if this is workspace analysis mode.
    pub fn is_workspace_mode(&self) -> (b: bool)
        ensures
            b == self.is_workspace_mode,
    {
        self.is_workspace_mode
    }

    /// Get total symbol count.
    pub fn symbol_count(&self) -> (n: usize)
        ensures
            n == self.symbol_store.symbols@.len(),
    {
        self.symbol_store.stats().total_symbols
    }
}

/// The JSONL of all results: each CFG's JSONL, each function's basic
/// blocks' JSONL, then each complexity result as a JSON object, each on a line
/// of its own.
pub open spec fn all_results_jsonl(
    cfgs: Seq<CfgResult>,
    blocks: Seq<BasicBlockResult>,
    complexity: Seq<ComplexityResult>,
) -> Seq<char> {
    lines_text(cfgs.map_values(|c: CfgResult| c.jsonl@)) + lines_text(
        blocks.map_values(|b: BasicBlockResult| b.jsonl@),
    ) + lines_text(complexity.map_values(|r: ComplexityResult| complexity_json(r)))
}

/// Utilities for exporting analysis results to various formats.
pub struct ExportUtils;

impl ExportUtils {
    /// Export all analysis results to JSONL format.
    pub fn to_jsonl(
        cfg_data: &[CfgResult],
        basic_block_data: &[BasicBlockResult],
        complexity_data: &[ComplexityResult],
    ) -> (res: Result<String, NTreeError>)
        ensures
            res matches Ok(s) && s@ == all_results_jsonl(cfg_data@, basic_block_data@, complexity_data@),
    {
        let mut jsonl = String::new();
        let ghost a = cfg_data@.map_values(|c: CfgResult| c.jsonl@);
        for i in 0..cfg_data.len()
            invariant
                a == cfg_data@.map_values(|c: CfgResult| c.jsonl@),
                jsonl@ == lines_text(a.take(i as int)),
        {
            assert(a.take(i + 1).drop_last() == a.take(i as int));
            push_all(&mut jsonl, cfg_data[i].jsonl.as_str());
            push_char(&mut jsonl, '\n');
        }
        assert(a.take(a.len() as int) == a);
        let ghost mid = jsonl@;
        let ghost b = basic_block_data@.map_values(|x: BasicBlockResult| x.jsonl@);
        for i in 0..basic_block_data.len()
            invariant
                b == basic_block_data@.map_values(|x: BasicBlockResult| x.jsonl@),
                jsonl@ == mid + lines_text(b.take(i as int)),
        {
            assert(b.take(i + 1).drop_last() == b.take(i as int));
            push_all(&mut jsonl, basic_block_data[i].jsonl.as_str());
            push_char(&mut jsonl, '\n');
        }
        assert(b.take(b.len() as int) == b);
        let ghost mid2 = jsonl@;
        let ghost c = complexity_data@.map_values(|r: ComplexityResult| complexity_json(r));
        for i in 0..complexity_data.len()
            invariant
                c == complexity_data@.map_values(|r: ComplexityResult| complexity_json(r)),
                jsonl@ == mid2 + lines_text(c.take(i as int)),
        {
            assert(c.take(i + 1).drop_last() == c.take(i as int));
            push_complexity_json(&mut jsonl, &complexity_data[i]);
            push_char(&mut jsonl, '\n');
        }
        assert(c.take(c.len() as int) == c);
        Ok(jsonl)
    }
}

// ---------------------------------------------------------------------------
// Workspace discovery and data sets
// ---------------------------------------------------------------------------

/// The symbols of the files were added up to the first file whose symbols
/// could not be extracted, and that file's error was returned.
pub open spec fn stopped_at_symbol_error(
    files: Seq<FileAnalysis>,
    e: NTreeError,
    before: Seq<TopLevelSymbol>,
    after: Seq<TopLevelSymbol>,
) -> bool {
    exists|i: int|
        #![trigger files.take(i)]
        0 <= i < files.len() && files[i].symbols == Err::<Vec<TopLevelSymbol>, NTreeError>(e)
            && (forall|j: int| 0 <= j < i ==> (#[trigger] files[j]).symbols is Ok) && after == before
            + workspace_symbols(files.take(i))
}

impl WorkspaceMethods {
    /// Populate workspace data from the files discovered: their records, the
    /// records grouped by language, and each file's symbols added to the store
    /// in turn; the first file whose symbols could not be extracted stops it
    /// with that file's error.
    pub fn populate_workspace_data(
        files: &Vec<FileAnalysis>,
        options: &AnalysisOptions,
        symbol_store: &mut SymbolStore,
    ) -> (r: Result<(Vec<FileRecord>, Vec<(String, Vec<FileRecord>)>), NTreeError>)
        ensures
            r is Err <==> workspace_symbol_error(files@),
            r matches Err(e) ==> stopped_at_symbol_error(
                files@,
                e,
                old(symbol_store).symbols@,
                final(symbol_store).symbols@,
            ),
            r matches Ok(d) ==> {
                &&& d.0@ == records_of(files@)
                &&& grouped_by_language(records_of(files@), groups_view(d.1@))
                &&& final(symbol_store).symbols@ == old(symbol_store).symbols@ + workspace_symbols(files@)
            },
    {
        let ghost fs = files@;
        let ghost s0 = symbol_store.symbols@;
        let mut records: Vec<FileRecord> = Vec::new();
        let mut i: usize = 0;
        while i < files.len()
            invariant
                i <= fs.len(),
                fs == files@,
                records@ == records_of(fs).take(i as int),
                forall|j: int| 0 <= j < i ==> (#[trigger] fs[j]).symbols is Ok,
                symbol_store.symbols@ == s0 + workspace_symbols(fs.take(i as int)),
                s0 == old(symbol_store).symbols@,
            decreases files.len() - i,
        {
            assert(fs.take(i + 1).drop_last() == fs.take(i as int));
            assert(fs.take(i + 1).last() == fs[i as int]);
            match &files[i].symbols {
                Err(e) => {
                    let err = e.duplicate();
                    assert(fs[i as int].symbols == Err::<Vec<TopLevelSymbol>, NTreeError>(err));
                    assert(workspace_symbol_error(fs));
                    assert(symbol_store.symbols@ == s0 + workspace_symbols(fs.take(i as int)));
                    assert(stopped_at_symbol_error(fs, err, s0, symbol_store.symbols@));
                    return Err(err);
                },
                Ok(v) => {
                    let mut j: usize = 0;
                    let ghost before = symbol_store.symbols@;
                    while j < v.len()
                        invariant
                            j <= v@.len(),
                            symbol_store.symbols@ == before + v@.take(j as int),
                        decreases v.len() - j,
                    {
                        symbol_store.add_symbol(v[j].duplicate());
                        assert(v@.take(j + 1) == v@.take(j as int).push(v@[j as int]));
                        j = j + 1;
                    }
                    assert(v@.take(v@.len() as int) == v@);
                    assert(workspace_symbols(fs.take(i + 1)) == workspace_symbols(fs.take(i as int)) + v@);
                },
            }
            records.push(files[i].record.duplicate());
            assert(records@ =~= records_of(fs).take(i + 1));
            i = i + 1;
        }
        assert(records@ =~= records_of(fs));
        assert(fs.take(fs.len() as int) == fs);
        assert(!workspace_symbol_error(fs));
        let groups = group_by_language(records.as_slice());
        Ok((records, groups))
    }
}

/// Files, symbols and the import and export edges between them.
#[derive(Debug)]
pub struct DataSet {
    pub files: Vec<FileRecord>,
    pub symbols: Vec<TopLevelSymbol>,
    pub imports: Vec<ImportEdge>,
    pub exports: Vec<ExportEdge>,
}

/// Counts of a data set.
#[derive(Debug, Clone)]
pub struct DataSetStats {
    pub files: usize,
    pub symbols: usize,
    pub imports: usize,
    pub exports: usize,
}

/// The import edges of the files whose dependencies could be extracted, in order.
pub open spec fn imports_of(deps: Seq<Result<(Vec<ImportEdge>, Vec<ExportEdge>), NTreeError>>) -> Seq<ImportEdge>
    decreases deps.len(),
{
    if deps.len() == 0 {
        Seq::empty()
    } else {
        imports_of(deps.drop_last()) + match deps.last() {
            Ok(d) => d.0@,
            Err(_) => Seq::empty(),
        }
    }
}

/// The export edges of the files whose dependencies could be extracted, in order.
pub open spec fn exports_of(deps: Seq<Result<(Vec<ImportEdge>, Vec<ExportEdge>), NTreeError>>) -> Seq<ExportEdge>
    decreases deps.len(),
{
    if deps.len() == 0 {
        Seq::empty()
    } else {
        exports_of(deps.drop_last()) + match deps.last() {
            Ok(d) => d.1@,
            Err(_) => Seq::empty(),
        }
    }
}

impl AnalysisResult {
    /// Export the data set: the file records, the symbols, and the imports and
    /// exports of each file, given what extracting each file's dependencies
    /// gave (a file where that failed adds none).
    pub fn export_dataset(&self, dependencies: Vec<Result<(Vec<ImportEdge>, Vec<ExportEdge>), NTreeError>>) -> (r: Result<DataSet, NTreeError>)
        requires
            dependencies@.len() == self.file_records@.len(),
        ensures
            r matches Ok(d) && d.files@ == self.file_records@ && d.symbols@ == self.symbol_store.symbols@
                && d.imports@ == imports_of(dependencies@) && d.exports@ == exports_of(dependencies@),
    {
        let mut files: Vec<FileRecord> = Vec::new();
        let mut i: usize = 0;
        while i < self.file_records.len()
            invariant
                i <= self.file_records@.len(),
                files@ == self.file_records@.take(i as int),
            decreases self.file_records.len() - i,
        {
            files.push(self.file_records[i].duplicate());
            assert(self.file_records@.take(i + 1) == self.file_records@.take(i as int).push(self.file_records@[i as int]));
            i = i + 1;
        }
        assert(self.file_records@.take(self.file_records@.len() as int) == self.file_records@);
        let mut symbols: Vec<TopLevelSymbol> = Vec::new();
        let mut k: usize = 0;
        while k < self.symbol_store.symbols.len()
            invariant
                k <= self.symbol_store.symbols@.len(),
                symbols@ == self.symbol_store.symbols@.take(k as int),
            decreases self.symbol_store.symbols.len() - k,
        {
            symbols.push(self.symbol_store.symbols[k].duplicate());
            assert(self.symbol_store.symbols@.take(k + 1) == self.symbol_store.symbols@.take(k as int).push(self.symbol_store.symbols@[k as int]));
            k = k + 1;
        }
        assert(self.symbol_store.symbols@.take(self.symbol_store.symbols@.len() as int) == self.symbol_store.symbols@);
        let ghost deps = dependencies@;
        let mut imports: Vec<ImportEdge> = Vec::new();
        let mut exports: Vec<ExportEdge> = Vec::new();
        let mut dependencies = dependencies;
        let ghost n = deps.len();
        while dependencies.len() > 0
            invariant
                dependencies@.len() <= n,
                n == deps.len(),
                dependencies@ == deps.subrange(n - dependencies@.len(), n as int),
                imports@ == imports_of(deps.take(n - dependencies@.len())),
                exports@ == exports_of(deps.take(n - dependencies@.len())),
            decreases dependencies.len(),
        {
            let ghost m = n - dependencies@.len();
            let d = dependencies.remove(0);
            assert(d == deps[m]);
            assert(deps.take(m + 1).drop_last() == deps.take(m));
            assert(deps.take(m + 1).last() == deps[m]);
            assert(dependencies@ =~= deps.subrange(m + 1, n as int));
            match d {
                Ok(pair) => {
                    let (mut im, mut ex) = pair;
                    imports.append(&mut im);
                    exports.append(&mut ex);
                },
                Err(_) => {
                    assert(imports@ == imports@ + Seq::<ImportEdge>::empty());
                    assert(exports@ == exports@ + Seq::<ExportEdge>::empty());
                },
            }
        }
        assert(deps.take(n as int) == deps);
        Ok(DataSet { files, symbols, imports, exports })
    }

    /// Get data set statistics.
    pub fn dataset_stats(&self, dependencies: Vec<Result<(Vec<ImportEdge>, Vec<ExportEdge>), NTreeError>>) -> (r: Result<DataSetStats, NTreeError>)
        requires
            dependencies@.len() == self.file_records@.len(),
        ensures
            r matches Ok(s) && s.files == self.file_records@.len() && s.symbols
                == self.symbol_store.symbols@.len() && s.imports == imports_of(dependencies@).len()
                && s.exports == exports_of(dependencies@).len(),
    {
        let d = match self.export_dataset(dependencies) {
            Ok(d) => d,
            Err(e) => return Err(e),
        };
        Ok(DataSetStats { files: d.files.len(), symbols: d.symbols.len(), imports: d.imports.len(), exports: d.exports.len() })
    }
}

} // verus!
