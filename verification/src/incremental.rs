//! Incremental analysis: which files changed since they were last analysed,
//! whether the interprocedural analysis must run again, and the record of
//! what was analysed.
use vstd::prelude::*;
use crate::analysis_result::{records_of, FileAnalysis};
use crate::complexity::string_views;
use crate::deep_call::{first_from, lemma_first_from};
use crate::error::NTreeError;
use crate::interprocedural::{
    analyze_interprocedural_cfg, workspace_interprocedural, InterproceduralOptions,
    InterproceduralResult,
};
use crate::models::FileRecord;
use crate::text::{copy_str, str_eq};
use crate::workspace::total_size_of;

verus! {

// ---------------------------------------------------------------------------
// Which files changed
// ---------------------------------------------------------------------------

/// A (path, hash) pair for `path`.
pub open spec fn path_is(path: Seq<char>) -> spec_fn((Seq<char>, Seq<char>)) -> bool {
    |p: (Seq<char>, Seq<char>)| p.0 == path
}

/// The content hash recorded for `path` in `seen` (path, hash pairs).
pub open spec fn recorded_hash(seen: Seq<(Seq<char>, Seq<char>)>, path: Seq<char>) -> Option<Seq<char>> {
    match first_from(seen, path_is(path), 0) {
        Some(i) => Some(seen[i].1),
        None => None,
    }
}

/// The record's file is new or its content changed since it was recorded.
pub open spec fn is_changed(seen: Seq<(Seq<char>, Seq<char>)>, r: FileRecord) -> bool {
    recorded_hash(seen, r.path@) != Some(r.content_hash@)
}

/// The paths of the changed files among `records`, in order.
pub open spec fn changed_paths(seen: Seq<(Seq<char>, Seq<char>)>, records: Seq<FileRecord>) -> Seq<Seq<char>>
    decreases records.len(),
{
    if records.len() == 0 {
        Seq::empty()
    } else {
        let d = changed_paths(seen, records.drop_last());
        if is_changed(seen, records.last()) {
            d.push(records.last().path@)
        } else {
            d
        }
    }
}

/// The files found changed, and what must be recomputed for them.
#[derive(Debug, Clone)]
pub struct InvalidationResult {
    pub changed_files: Vec<String>,
}

/// Counts of an invalidation.
#[derive(Debug, Clone)]
pub struct InvalidationStats {
    pub changed_files: usize,
    /// The engine records files, not functions: no function is scheduled on
    /// its own, so this stays zero.
    pub functions_to_recompute: usize,
}

impl InvalidationResult {
    /// Whether anything changed.
    pub fn needs_work(&self) -> (b: bool)
        ensures
            b == (self.changed_files@.len() > 0),
    {
        self.changed_files.len() > 0
    }

    /// Counts of the invalidation.
    pub fn get_stats(&self) -> (s: InvalidationStats)
        ensures
            s.changed_files == self.changed_files@.len(),
            s.functions_to_recompute == 0,
    {
        InvalidationStats { changed_files: self.changed_files.len(), functions_to_recompute: 0 }
    }
}

/// Counts of the cache of analysed files.
#[derive(Debug, Clone)]
pub struct CacheStats {
    pub cached_files: usize,
}

/// Counts of the dependencies between recorded files.
#[derive(Debug, Clone)]
pub struct DependencyStats {
    pub tracked_files: usize,
    pub dependencies: usize,
}

/// Records the content hash of each analysed file and finds the files that
/// changed since.
#[derive(Debug)]
pub struct InvalidationEngine {
    processed: Vec<(String, String)>,
}

/// The pairs of strings that `v` holds.
pub open spec fn hash_views(v: Seq<(String, String)>) -> Seq<(Seq<char>, Seq<char>)> {
    v.map_values(|p: (String, String)| (p.0@, p.1@))
}

impl InvalidationEngine {
    /// The (path, hash) pairs recorded.
    pub closed spec fn seen(&self) -> Seq<(Seq<char>, Seq<char>)> {
        hash_views(self.processed@)
    }

    /// An engine that has recorded nothing.
    pub fn new() -> (e: InvalidationEngine)
        ensures
            e.seen().len() == 0,
    {
        let e = InvalidationEngine { processed: Vec::new() };
        assert(e.seen() =~= Seq::<(Seq<char>, Seq<char>)>::empty());
        e
    }

    fn position(&self, path: &str) -> (r: Option<usize>)
        ensures
            r matches Some(i) ==> i < self.processed@.len(),
            match first_from(self.seen(), path_is(path@), 0) {
                Some(i) => r matches Some(j) && j == i,
                None => r is None,
            },
    {
        let ghost pred = path_is(path@);
        proof {
            lemma_first_from(self.seen(), pred, 0);
        }
        let mut i: usize = 0;
        while i < self.processed.len()
            invariant
                i <= self.processed@.len(),
                pred == path_is(path@),
                forall|j: int| 0 <= j < i ==> !pred(self.seen()[j]),
                match first_from(self.seen(), pred, 0) {
                    Some(k) => i <= k < self.seen().len() && pred(self.seen()[k]) && forall|j: int|
                        0 <= j < k ==> !pred(self.seen()[j]),
                    None => forall|j: int| 0 <= j < self.seen().len() ==> !pred(self.seen()[j]),
                },
            decreases self.processed.len() - i,
        {
            if str_eq(self.processed[i].0.as_str(), path) {
                assert(pred(self.seen()[i as int]));
                return Some(i);
            }
            i = i + 1;
        }
        None
    }

    /// The files among `records` that are new or whose content changed.
    pub fn process_file_changes(&self, records: &Vec<FileRecord>) -> (r: InvalidationResult)
        ensures
            string_views(r.changed_files@) == changed_paths(self.seen(), records@),
    {
        let mut changed: Vec<String> = Vec::new();
        let mut i: usize = 0;
        while i < records.len()
            invariant
                i <= records@.len(),
                string_views(changed@) == changed_paths(self.seen(), records@.take(i as int)),
            decreases records.len() - i,
        {
            assert(records@.take(i + 1).drop_last() == records@.take(i as int));
            assert(records@.take(i + 1).last() == records@[i as int]);
            let same = match self.position(records[i].path.as_str()) {
                Some(k) => {
                    assert(self.seen()[k as int] == (self.processed@[k as int].0@, self.processed@[k as int].1@));
                    assert(recorded_hash(self.seen(), records@[i as int].path@) == Some(self.processed@[k as int].1@));
                    let b = str_eq(self.processed[k].1.as_str(), records[i].content_hash.as_str());
                    assert(b == (self.processed@[k as int].1@ == records@[i as int].content_hash@));
                    b
                },
                None => false,
            };
            assert(same == !is_changed(self.seen(), records@[i as int]));
            if !same {
                let ghost before = string_views(changed@);
                changed.push(copy_str(records[i].path.as_str()));
                assert(string_views(changed@) == before.push(records@[i as int].path@));
            }
            i = i + 1;
        }
        assert(records@.take(records@.len() as int) == records@);
        InvalidationResult { changed_files: changed }
    }

    /// Records that `path` was analysed with content hash `hash`.
    pub fn mark_file_processed(&mut self, path: String, hash: String)
        ensures
            recorded_hash(final(self).seen(), path@) == Some(hash@),
            forall|q: Seq<char>| q != path@ ==> recorded_hash(final(self).seen(), q) == recorded_hash(
                old(self).seen(),
                q,
            ),
            final(self).seen().len() <= old(self).seen().len() + 1,
    {
        let ghost s0 = self.seen();
        let ghost pv = path@;
        let ghost hv = hash@;
        match self.position(path.as_str()) {
            Some(i) => {
                self.processed.set(i, (path, hash));
                proof {
                    let s1 = self.seen();
                    assert(s1 == s0.update(i as int, (pv, hv)));
                    lemma_first_from(s0, path_is(pv), 0);
                    lemma_first_from(s1, path_is(pv), 0);
                    assert(path_is(pv)(s1[i as int]));
                    assert forall|j: int| 0 <= j < i implies !path_is(pv)(s1[j]) by {
                        assert(s1[j] == s0[j]);
                    }
                    assert(recorded_hash(s1, pv) == Some(hv));
                    assert forall|q: Seq<char>| q != pv implies recorded_hash(s1, q) == recorded_hash(s0, q) by {
                        lemma_same_lookup_after_update(s0, i as int, (pv, hv), q);
                    }
                }
            },
            None => {
                self.processed.push((path, hash));
                proof {
                    let s1 = self.seen();
                    assert(s1 == s0.push((pv, hv)));
                    lemma_first_from(s0, path_is(pv), 0);
                    lemma_first_from(s1, path_is(pv), 0);
                    assert(path_is(pv)(s1[s0.len() as int]));
                    assert forall|q: Seq<char>| q != pv implies recorded_hash(s1, q) == recorded_hash(s0, q) by {
                        lemma_same_lookup_after_push(s0, (pv, hv), q);
                    }
                }
            },
        }
    }

    /// Counts of the cache.
    pub fn get_cache_stats(&self) -> (s: CacheStats)
        ensures
            s.cached_files == self.seen().len(),
    {
        CacheStats { cached_files: self.processed.len() }
    }

    /// Counts of the dependencies recorded: files, and no dependency between them.
    pub fn get_dependency_stats(&self) -> (s: DependencyStats)
        ensures
            s.tracked_files == self.seen().len(),
            s.dependencies == 0,
    {
        DependencyStats { tracked_files: self.processed.len(), dependencies: 0 }
    }
}

/// Changing the pair at `i` to one of another path keeps what `q` is recorded as,
/// when the pair at `i` has the new pair's path.
pub proof fn lemma_same_lookup_after_update(
    s: Seq<(Seq<char>, Seq<char>)>,
    i: int,
    x: (Seq<char>, Seq<char>),
    q: Seq<char>,
)
    requires
        0 <= i < s.len(),
        s[i].0 == x.0,
        q != x.0,
    ensures
        recorded_hash(s.update(i, x), q) == recorded_hash(s, q),
{
    let pred = path_is(q);
    let t = s.update(i, x);
    lemma_first_from(s, pred, 0);
    lemma_first_from(t, pred, 0);
    assert forall|j: int| 0 <= j < s.len() implies pred(t[j]) == pred(s[j]) by {
        if j == i {
            assert(t[j] == x);
        }
    }
    match first_from(s, pred, 0) {
        Some(k) => {
            match first_from(t, pred, 0) {
                Some(m) => {
                    assert(m == k);
                    assert(t[k] == s[k]);
                },
                None => {
                    assert(pred(t[k]));
                },
            }
        },
        None => {
            match first_from(t, pred, 0) {
                Some(m) => {
                    assert(pred(s[m]));
                },
                None => {},
            }
        },
    }
}

/// Adding a pair of another path keeps what `q` is recorded as.
pub proof fn lemma_same_lookup_after_push(s: Seq<(Seq<char>, Seq<char>)>, x: (Seq<char>, Seq<char>), q: Seq<char>)
    requires
        q != x.0,
    ensures
        recorded_hash(s.push(x), q) == recorded_hash(s, q),
{
    let pred = path_is(q);
    let t = s.push(x);
    lemma_first_from(s, pred, 0);
    lemma_first_from(t, pred, 0);
    assert(!pred(t[s.len() as int]));
    match first_from(s, pred, 0) {
        Some(k) => {
            match first_from(t, pred, 0) {
                Some(m) => {
                    assert(t[k] == s[k]);
                    assert(m == k);
                },
                None => {
                    assert(t[k] == s[k]);
                },
            }
        },
        None => {
            match first_from(t, pred, 0) {
                Some(m) => {
                    assert(t[m] == s[m]);
                },
                None => {},
            }
        },
    }
}

// ---------------------------------------------------------------------------
// The analyzer
// ---------------------------------------------------------------------------

/// What `q` is recorded as after marking `records` processed in turn, from `seen`.
pub open spec fn marked_hash(seen: Seq<(Seq<char>, Seq<char>)>, records: Seq<FileRecord>, q: Seq<char>) -> Option<Seq<char>>
    decreases records.len(),
{
    if records.len() == 0 {
        recorded_hash(seen, q)
    } else if records.last().path@ == q {
        Some(records.last().content_hash@)
    } else {
        marked_hash(seen, records.drop_last(), q)
    }
}

/// A call site resolved to the functions it may call.
#[derive(Debug, Clone)]
pub struct Resolution {
    pub call_site: usize,
    pub targets: Vec<String>,
}

/// Configuration for incremental analysis.
#[derive(Debug, Clone)]
pub struct IncrementalAnalysisOptions {
    /// Interprocedural analysis options
    pub interprocedural_options: InterproceduralOptions,
    /// Force full recomputation
    pub force_recompute: bool,
    /// Prefer full over incremental if many files changed
    pub full_recompute: bool,
    /// Enable Class Hierarchy Analysis
    pub enable_cha: bool,
    /// Enable Rapid Type Analysis
    pub enable_rta: bool,
    /// Enable external library analysis
    pub enable_external_analysis: bool,
}

impl Default for IncrementalAnalysisOptions {
    fn default() -> (o: IncrementalAnalysisOptions)
        ensures
            crate::interprocedural::all_parts(o.interprocedural_options),
            !o.force_recompute,
            !o.full_recompute,
            !o.enable_cha,
            !o.enable_rta,
            o.enable_external_analysis,
    {
        IncrementalAnalysisOptions {
            interprocedural_options: InterproceduralOptions::default(),
            force_recompute: false,
            full_recompute: false,
            enable_cha: false,
            enable_rta: false,
            enable_external_analysis: true,
        }
    }
}

/// Result of incremental analysis.
#[derive(Debug)]
pub struct IncrementalResult {
    /// Invalidation statistics
    pub invalidation_stats: InvalidationStats,
    /// Interprocedural analysis result (None if cache hit)
    pub interprocedural_result: Option<InterproceduralResult>,
    /// Call site resolutions (CHA/RTA results)
    pub resolutions: Vec<Resolution>,
    /// Whether this was a cache hit
    pub cache_hit: bool,
}

/// Performance metrics for incremental analysis.
#[derive(Debug, Clone)]
pub struct PerformanceMetrics {
    pub cache_hit: bool,
    pub functions_recomputed: usize,
    pub files_changed: usize,
    pub resolutions_generated: usize,
}

impl IncrementalResult {
    /// Check if analysis was performed (not cached).
    pub fn was_recomputed(&self) -> (b: bool)
        ensures
            b == !self.cache_hit,
    {
        !self.cache_hit
    }

    /// Get performance metrics.
    pub fn get_performance_metrics(&self) -> (m: PerformanceMetrics)
        ensures
            m.cache_hit == self.cache_hit,
            m.functions_recomputed == self.invalidation_stats.functions_to_recompute,
            m.files_changed == self.invalidation_stats.changed_files,
            m.resolutions_generated == self.resolutions@.len(),
    {
        PerformanceMetrics {
            cache_hit: self.cache_hit,
            functions_recomputed: self.invalidation_stats.functions_to_recompute,
            files_changed: self.invalidation_stats.changed_files,
            resolutions_generated: self.resolutions.len(),
        }
    }
}

/// Counts of the external libraries known.
#[derive(Debug, Clone)]
pub struct LibraryStats {
    pub total_libraries: usize,
}

/// The external libraries that the analysis knows of.
#[derive(Debug)]
pub struct ExternalLibraryHandler {
    libraries: Vec<String>,
}

impl ExternalLibraryHandler {
    /// The number of libraries known.
    pub closed spec fn library_count(&self) -> nat {
        self.libraries@.len()
    }

    /// A handler that knows no library.
    pub fn new() -> (h: ExternalLibraryHandler)
        ensures
            h.library_count() == 0,
    {
        ExternalLibraryHandler { libraries: Vec::new() }
    }

    /// Counts of the libraries known.
    pub fn get_stats(&self) -> (s: LibraryStats)
        ensures
            s.total_libraries == self.library_count(),
    {
        LibraryStats { total_libraries: self.libraries.len() }
    }
}

/// Advanced incremental analysis with CHA/RTA and external library support.
#[derive(Debug)]
pub struct IncrementalAnalyzer {
    invalidation_engine: InvalidationEngine,
    library_handler: ExternalLibraryHandler,
    rta_enabled: bool,
}

/// The message for the partial recomputation, which is not available.
pub open spec fn partial_unavailable_message() -> Seq<char> {
    "Incremental analysis not yet implemented"@
}

/// What incremental analysis of the workspace `files`, whose file records are
/// `records`, gives with options `o`, the engine having recorded `before`
/// and recording `after` once done: a cache hit when nothing changed and no
/// recomputation is forced; else the full interprocedural analysis when it is
/// asked for or more than ten files changed, after which every record is
/// marked processed; else the error that partial recomputation is not
/// available.
pub open spec fn incremental_outcome(
    r: Result<IncrementalResult, NTreeError>,
    before: Seq<(Seq<char>, Seq<char>)>,
    after: Seq<(Seq<char>, Seq<char>)>,
    records: Seq<FileRecord>,
    files: Seq<FileAnalysis>,
    o: IncrementalAnalysisOptions,
) -> bool {
    let changed = changed_paths(before, records);
    if changed.len() == 0 && !o.force_recompute {
        &&& r matches Ok(res) && res.cache_hit && res.interprocedural_result is None
            && res.resolutions@.len() == 0 && res.invalidation_stats.changed_files == 0
            && res.invalidation_stats.functions_to_recompute == 0
        &&& after == before
    } else if o.full_recompute || changed.len() > 10 {
        exists|ir: Result<InterproceduralResult, NTreeError>|
            #[trigger] workspace_interprocedural(ir, files, o.interprocedural_options) && match ir {
                Err(e) => r == Err::<IncrementalResult, NTreeError>(e) && after == before,
                Ok(x) => {
                    &&& r matches Ok(res) && !res.cache_hit && res.interprocedural_result == Some(x)
                        && res.resolutions@.len() == 0 && res.invalidation_stats.changed_files
                        == changed.len() && res.invalidation_stats.functions_to_recompute == 0
                    &&& forall|q: Seq<char>| #[trigger] recorded_hash(after, q) == marked_hash(before, records, q)
                },
            }
    } else {
        &&& r matches Err(NTreeError::InvalidInput(m)) && m@ == partial_unavailable_message()
        &&& after == before
    }
}

impl IncrementalAnalyzer {
    /// The (path, content hash) pairs recorded as analysed.
    pub closed spec fn seen(&self) -> Seq<(Seq<char>, Seq<char>)> {
        self.invalidation_engine.seen()
    }

    /// Rapid type analysis is enabled.
    pub closed spec fn rta_on(&self) -> bool {
        self.rta_enabled
    }

    /// The number of external libraries known.
    pub closed spec fn libraries_known(&self) -> nat {
        self.library_handler.library_count()
    }

    /// Create a new incremental analyzer.
    pub fn new() -> (a: IncrementalAnalyzer)
        ensures
            a.seen().len() == 0,
            !a.rta_on(),
            a.libraries_known() == 0,
    {
        IncrementalAnalyzer {
            invalidation_engine: InvalidationEngine::new(),
            library_handler: ExternalLibraryHandler::new(),
            rta_enabled: false,
        }
    }

    /// Enable RTA analysis.
    pub fn enable_rta(&mut self)
        ensures
            final(self).rta_on(),
            final(self).seen() == old(self).seen(),
            final(self).libraries_known() == old(self).libraries_known(),
    {
        self.rta_enabled = true;
    }

    /// Perform incremental interprocedural analysis of a workspace, given its
    /// file records and what reading and parsing its files yielded.
    pub fn analyze_incremental(
        &mut self,
        file_records: &Vec<FileRecord>,
        files: Vec<FileAnalysis>,
        options: IncrementalAnalysisOptions,
    ) -> (r: Result<IncrementalResult, NTreeError>)
        requires
            total_size_of(records_of(files@)) <= u64::MAX,
        ensures
            incremental_outcome(r, old(self).seen(), final(self).seen(), file_records@, files@, options),
            final(self).rta_on() == old(self).rta_on(),
            final(self).libraries_known() == old(self).libraries_known(),
    {
        let invalidation = self.invalidation_engine.process_file_changes(file_records);
        let stats = invalidation.get_stats();
        if !invalidation.needs_work() && !options.force_recompute {
            return Ok(IncrementalResult {
                invalidation_stats: stats,
                interprocedural_result: None,
                resolutions: Vec::new(),
                cache_hit: true,
            });
        }
        if !(options.full_recompute || invalidation.changed_files.len() > 10) {
            return Err(NTreeError::InvalidInput(copy_str("Incremental analysis not yet implemented")));
        }
        let io = options.interprocedural_options.duplicate();
        let ghost iog = io;
        let ir = analyze_interprocedural_cfg(files, io);
        proof {
            crate::interprocedural::lemma_same_options(ir, files@, iog, options.interprocedural_options);
        }
        let result = match ir {
            Ok(x) => x,
            Err(e) => {
                return Err(e);
            },
        };
        let ghost s0 = self.invalidation_engine.seen();
        let mut i: usize = 0;
        while i < file_records.len()
            invariant
                i <= file_records@.len(),
                forall|q: Seq<char>|
                    #[trigger] recorded_hash(self.invalidation_engine.seen(), q) == marked_hash(
                        s0,
                        file_records@.take(i as int),
                        q,
                    ),
                self.rta_enabled == old(self).rta_enabled,
                self.library_handler == old(self).library_handler,
            decreases file_records.len() - i,
        {
            let ghost before = self.invalidation_engine.seen();
            self.invalidation_engine.mark_file_processed(
                copy_str(file_records[i].path.as_str()),
                copy_str(file_records[i].content_hash.as_str()),
            );
            proof {
                let t = file_records@.take(i + 1);
                assert(t.drop_last() == file_records@.take(i as int));
                assert(t.last() == file_records@[i as int]);
            }
            i = i + 1;
        }
        assert(file_records@.take(file_records@.len() as int) == file_records@);
        Ok(IncrementalResult {
            invalidation_stats: stats,
            interprocedural_result: Some(result),
            resolutions: Vec::new(),
            cache_hit: false,
        })
    }

    /// Get cache statistics.
    pub fn get_cache_stats(&self) -> (s: CacheStats)
        ensures
            s.cached_files == self.seen().len(),
    {
        self.invalidation_engine.get_cache_stats()
    }

    /// Get dependency statistics.
    pub fn get_dependency_stats(&self) -> (s: DependencyStats)
        ensures
            s.tracked_files == self.seen().len(),
            s.dependencies == 0,
    {
        self.invalidation_engine.get_dependency_stats()
    }

    /// Get external library statistics.
    pub fn get_library_stats(&self) -> (s: LibraryStats)
        ensures
            s.total_libraries == self.libraries_known(),
    {
        self.library_handler.get_stats()
    }
}

// ---------------------------------------------------------------------------
// Laws
// ---------------------------------------------------------------------------

/// Records of the same path agree on the content hash.
pub open spec fn consistent_records(records: Seq<FileRecord>) -> bool {
    forall|i: int, j: int|
        0 <= i < records.len() && 0 <= j < records.len() && #[trigger] records[i].path@
            == #[trigger] records[j].path@ ==> records[i].content_hash@ == records[j].content_hash@
}

/// After marking consistent records, each is recorded with its own hash.
pub proof fn lemma_marked_record(seen: Seq<(Seq<char>, Seq<char>)>, records: Seq<FileRecord>, k: int)
    requires
        consistent_records(records),
        0 <= k < records.len(),
    ensures
        marked_hash(seen, records, records[k].path@) == Some(records[k].content_hash@),
    decreases records.len(),
{
    let last = records.len() - 1;
    if records.last().path@ == records[k].path@ {
        assert(records[last].path@ == records[k].path@);
    } else {
        let rest = records.drop_last();
        assert(k < last);
        assert forall|i: int, j: int|
            0 <= i < rest.len() && 0 <= j < rest.len() && #[trigger] rest[i].path@ == #[trigger] rest[j].path@
            implies rest[i].content_hash@ == rest[j].content_hash@ by {
            assert(rest[i] == records[i] && rest[j] == records[j]);
        }
        assert(rest[k] == records[k]);
        lemma_marked_record(seen, rest, k);
    }
}

/// No record is changed when each is recorded with its own hash.
pub proof fn lemma_none_changed(seen: Seq<(Seq<char>, Seq<char>)>, records: Seq<FileRecord>)
    requires
        forall|k: int| 0 <= k < records.len() ==> recorded_hash(seen, #[trigger] records[k].path@) == Some(records[k].content_hash@),
    ensures
        changed_paths(seen, records).len() == 0,
    decreases records.len(),
{
    if records.len() > 0 {
        let rest = records.drop_last();
        assert forall|k: int| 0 <= k < rest.len() implies recorded_hash(seen, #[trigger] rest[k].path@) == Some(rest[k].content_hash@) by {
            assert(rest[k] == records[k]);
        }
        lemma_none_changed(seen, rest);
        assert(records.last() == records[records.len() - 1]);
    }
}

/// Analysed files are remembered: once a recomputation succeeded, the same
/// file records (where records of one path agree on the hash) show no change,
/// so analysing them again without forcing it is a cache hit.
pub proof fn lemma_recomputed_records_unchanged(
    r: Result<IncrementalResult, NTreeError>,
    before: Seq<(Seq<char>, Seq<char>)>,
    after: Seq<(Seq<char>, Seq<char>)>,
    records: Seq<FileRecord>,
    files: Seq<FileAnalysis>,
    o: IncrementalAnalysisOptions,
)
    requires
        incremental_outcome(r, before, after, records, files, o),
        r matches Ok(res) && !res.cache_hit,
        consistent_records(records),
    ensures
        changed_paths(after, records).len() == 0,
        forall|r2: Result<IncrementalResult, NTreeError>, after2: Seq<(Seq<char>, Seq<char>)>, files2: Seq<FileAnalysis>, o2: IncrementalAnalysisOptions|
            #[trigger] incremental_outcome(r2, after, after2, records, files2, o2) && !o2.force_recompute
                ==> (r2 matches Ok(res2) && res2.cache_hit),
{
    let changed = changed_paths(before, records);
    assert(!(changed.len() == 0 && !o.force_recompute));
    assert(o.full_recompute || changed.len() > 10);
    let ir = choose|ir: Result<InterproceduralResult, NTreeError>|
        #[trigger] workspace_interprocedural(ir, files, o.interprocedural_options) && match ir {
            Err(e) => r == Err::<IncrementalResult, NTreeError>(e) && after == before,
            Ok(x) => {
                &&& r matches Ok(res) && !res.cache_hit && res.interprocedural_result == Some(x)
                    && res.resolutions@.len() == 0 && res.invalidation_stats.changed_files
                    == changed.len() && res.invalidation_stats.functions_to_recompute == 0
                &&& forall|q: Seq<char>| #[trigger] recorded_hash(after, q) == marked_hash(before, records, q)
            },
        };
    assert(ir is Ok);
    assert forall|k: int| 0 <= k < records.len() implies recorded_hash(after, #[trigger] records[k].path@) == Some(records[k].content_hash@) by {
        lemma_marked_record(before, records, k);
    }
    lemma_none_changed(after, records);
}

} // verus!
