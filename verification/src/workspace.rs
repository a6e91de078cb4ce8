//! Languages of source files, and the statistics and grouping of a workspace.
use vstd::prelude::*;
use crate::complexity::string_views;
use crate::error::NTreeError;
use crate::models::FileRecord;
use crate::text::{chars_eq, chars_of, concat2, rfind_char, rfind_char_exec, string_of, sub_chars, str_eq};

verus! {

/// The languages that the analyses support.
#[derive(Debug, Clone, Copy, PartialEq, Eq, Structural)]
pub enum SupportedLanguage {
    Rust,
    Python,
    JavaScript,
    TypeScript,
    Java,
    C,
    Cpp,
}

/// The last component of a `/`-separated path.
pub open spec fn file_name(path: Seq<char>) -> Seq<char> {
    match rfind_char(path, '/') {
        Some(i) => path.subrange(i + 1, path.len() as int),
        None => path,
    }
}

/// The extension of a path (`Path::extension`): the text after the last `.`
/// of the file name, where that `.` is not the name's first character.
pub open spec fn extension(path: Seq<char>) -> Option<Seq<char>> {
    let name = file_name(path);
    match rfind_char(name, '.') {
        Some(i) => if i > 0 {
            Some(name.subrange(i + 1, name.len() as int))
        } else {
            None
        },
        None => None,
    }
}

/// The language of an extension.
pub open spec fn language_of_extension(ext: Seq<char>) -> Option<SupportedLanguage> {
    if ext == "rs"@ {
        Some(SupportedLanguage::Rust)
    } else if ext == "py"@ {
        Some(SupportedLanguage::Python)
    } else if ext == "js"@ || ext == "mjs"@ {
        Some(SupportedLanguage::JavaScript)
    } else if ext == "ts"@ {
        Some(SupportedLanguage::TypeScript)
    } else if ext == "java"@ {
        Some(SupportedLanguage::Java)
    } else if ext == "c"@ || ext == "h"@ {
        Some(SupportedLanguage::C)
    } else if ext == "cpp"@ || ext == "cc"@ || ext == "cxx"@ || ext == "hpp"@ || ext == "hxx"@ {
        Some(SupportedLanguage::Cpp)
    } else {
        None
    }
}

/// The language of a path, by its extension.
pub open spec fn language_of_path(path: Seq<char>) -> Option<SupportedLanguage> {
    match extension(path) {
        Some(e) => language_of_extension(e),
        None => None,
    }
}

/// Why no supported language is known for `path`: it has no extension, or
/// its extension is not one of a supported language.
pub open spec fn language_error(path: Seq<char>) -> Seq<char> {
    match extension(path) {
        None => "No file extension: "@ + path,
        Some(x) => "Unsupported file extension: "@ + x,
    }
}

/// The extension of a path, as `extension` states it.
pub fn extension_exec(path: &[char]) -> (r: Option<Vec<char>>)
    ensures
        match r {
            Some(v) => extension(path@) == Some(v@),
            None => extension(path@) is None,
        },
{
    let name = match rfind_char_exec(path, '/') {
        Some(i) => sub_chars(path, i + 1, path.len()),
        None => sub_chars(path, 0, path.len()),
    };
    assert(name@ == file_name(path@));
    match rfind_char_exec(&name, '.') {
        Some(i) => if i > 0 {
            Some(sub_chars(&name, i + 1, name.len()))
        } else {
            None
        },
        None => None,
    }
}

impl SupportedLanguage {
    /// The language of a file, by its extension: `.rs`, `.py`, `.js`/`.mjs`,
    /// `.ts`, `.java`, `.c`/`.h`, `.cpp`/`.cc`/`.cxx`/`.hpp`/`.hxx`. Any other
    /// path is refused.
    pub fn from_path(path: &str) -> (r: Result<SupportedLanguage, NTreeError>)
        ensures
            match r {
                Ok(l) => language_of_path(path@) == Some(l),
                Err(e) => language_of_path(path@) is None && (e matches NTreeError::InvalidInput(m)
                    && m@ == language_error(path@)),
            },
    {
        let p = chars_of(path);
        let ext = match extension_exec(&p) {
            Some(e) => e,
            None => {
                return Err(NTreeError::InvalidInput(concat2("No file extension: ", path)));
            },
        };
        let lang = if chars_eq(&ext, &chars_of("rs")) {
            Some(SupportedLanguage::Rust)
        } else if chars_eq(&ext, &chars_of("py")) {
            Some(SupportedLanguage::Python)
        } else if chars_eq(&ext, &chars_of("js")) || chars_eq(&ext, &chars_of("mjs")) {
            Some(SupportedLanguage::JavaScript)
        } else if chars_eq(&ext, &chars_of("ts")) {
            Some(SupportedLanguage::TypeScript)
        } else if chars_eq(&ext, &chars_of("java")) {
            Some(SupportedLanguage::Java)
        } else if chars_eq(&ext, &chars_of("c")) || chars_eq(&ext, &chars_of("h")) {
            Some(SupportedLanguage::C)
        } else if chars_eq(&ext, &chars_of("cpp")) || chars_eq(&ext, &chars_of("cc")) || chars_eq(
            &ext,
            &chars_of("cxx"),
        ) || chars_eq(&ext, &chars_of("hpp")) || chars_eq(&ext, &chars_of("hxx")) {
            Some(SupportedLanguage::Cpp)
        } else {
            None
        };
        match lang {
            Some(l) => Ok(l),
            None => {
                let e = string_of(&ext);
                Err(NTreeError::InvalidInput(concat2("Unsupported file extension: ", e.as_str())))
            },
        }
    }
}

/// Statistics about workspace analysis.
#[derive(Debug, Clone, Copy)]
pub struct WorkspaceStats {
    pub total_files: usize,
    pub total_size: u64,
    pub languages: usize,
}

/// The sum of the sizes of the files.
pub open spec fn total_size_of(records: Seq<FileRecord>) -> int
    decreases records.len(),
{
    if records.len() == 0 {
        0
    } else {
        total_size_of(records.drop_last()) + records.last().size
    }
}

/// The languages of the files.
pub open spec fn languages_of(records: Seq<FileRecord>) -> Seq<Seq<char>> {
    records.map_values(|r: FileRecord| r.language@)
}

proof fn lemma_total_size_prefix(records: Seq<FileRecord>, k: int)
    requires
        0 <= k <= records.len(),
    ensures
        0 <= total_size_of(records.take(k)) <= total_size_of(records),
    decreases records.len() - k,
{
    if k < records.len() {
        lemma_total_size_prefix(records, k + 1);
        assert(records.take(k + 1).drop_last() == records.take(k));
    } else {
        assert(records.take(k) == records);
    }
    if k > 0 {
        lemma_total_size_nonneg(records.take(k));
    }
}

proof fn lemma_total_size_nonneg(records: Seq<FileRecord>)
    ensures
        total_size_of(records) >= 0,
    decreases records.len(),
{
    if records.len() > 0 {
        lemma_total_size_nonneg(records.drop_last());
    }
}

impl FileRecord {
    /// A copy of the record.
    pub fn duplicate(&self) -> (r: FileRecord)
        ensures
            r == *self,
    {
        FileRecord {
            path: self.path.clone(),
            language: self.language.clone(),
            size: self.size,
            content_hash: self.content_hash.clone(),
        }
    }
}

/// The distinct languages of the files, in the order each first appears.
pub fn distinct_languages(file_records: &[FileRecord]) -> (seen: Vec<String>)
    ensures
        string_views(seen@).no_duplicates(),
        string_views(seen@).to_set() == languages_of(file_records@).to_set(),
{
    let mut seen: Vec<String> = Vec::new();
    let ghost langs = languages_of(file_records@);
    for i in 0..file_records.len()
        invariant
            langs == languages_of(file_records@),
            string_views(seen@).no_duplicates(),
            string_views(seen@).to_set() == langs.take(i as int).to_set(),
    {
        let lang = file_records[i].language.as_str();
        let mut found = false;
        for j in 0..seen.len()
            invariant
                found == exists|k: int| 0 <= k < j && seen@[k]@ == lang@,
        {
            if str_eq(seen[j].as_str(), lang) {
                found = true;
            }
        }
        assert(langs.take(i + 1) == langs.take(i as int).push(lang@));
        assert(langs.take(i + 1).to_set() == langs.take(i as int).to_set().insert(lang@)) by {
            langs.take(i as int).lemma_push_to_set_commute(lang@);
        }
        if !found {
            let ghost before = seen@;
            seen.push(file_records[i].language.clone());
            assert(string_views(seen@) == string_views(before).push(lang@));
            assert(!string_views(before).contains(lang@));
            proof { string_views(before).lemma_push_to_set_commute(lang@); }
        } else {
            proof {
                let k = choose|k: int| 0 <= k < seen@.len() && seen@[k]@ == lang@;
                assert(string_views(seen@)[k] == lang@);
                assert(string_views(seen@).to_set().contains(lang@));
                assert(string_views(seen@).to_set() =~= string_views(seen@).to_set().insert(lang@));
            }
        }
    }
    assert(langs.take(langs.len() as int) == langs);
    seen
}

/// The files in language `lang`.
pub open spec fn in_language(lang: Seq<char>) -> spec_fn(FileRecord) -> bool {
    |r: FileRecord| r.language@ == lang
}

/// The files in language `lang`, in order.
pub fn files_in_language(file_records: &[FileRecord], lang: &str) -> (v: Vec<FileRecord>)
    ensures
        v@ == file_records@.filter(in_language(lang@)),
{
    let ghost pred = in_language(lang@);
    let mut v: Vec<FileRecord> = Vec::new();
    for i in 0..file_records.len()
        invariant
            pred == in_language(lang@),
            v@ == file_records@.take(i as int).filter(pred),
    {
        reveal_with_fuel(Seq::<FileRecord>::filter, 1);
        assert(file_records@.take(i + 1).drop_last() == file_records@.take(i as int));
        if str_eq(file_records[i].language.as_str(), lang) {
            v.push(file_records[i].duplicate());
        }
    }
    assert(file_records@.take(file_records@.len() as int) == file_records@);
    v
}

/// Workspace-specific analysis methods.
pub struct WorkspaceMethods;

impl WorkspaceMethods {
    /// Get workspace statistics: how many files, their total size, and how
    /// many distinct languages they are in.
    pub fn get_workspace_stats(file_records: &[FileRecord]) -> (s: WorkspaceStats)
        requires
            total_size_of(file_records@) <= u64::MAX,
        ensures
            s.total_files == file_records@.len(),
            s.total_size == total_size_of(file_records@),
            s.languages == languages_of(file_records@).to_set().len(),
    {
        let mut total_size: u64 = 0;
        for i in 0..file_records.len()
            invariant
                total_size_of(file_records@) <= u64::MAX,
                total_size == total_size_of(file_records@.take(i as int)),
        {
            proof {
                lemma_total_size_prefix(file_records@, i + 1);
                assert(file_records@.take(i + 1).drop_last() == file_records@.take(i as int));
            }
            total_size = total_size + file_records[i].size;
        }
        assert(file_records@.take(file_records@.len() as int) == file_records@);
        let seen = distinct_languages(file_records);
        proof {
            string_views(seen@).unique_seq_to_set();
        }
        WorkspaceStats { total_files: file_records.len(), total_size, languages: seen.len() }
    }
}

/// The files grouped by language: each language once, in the order it first
/// appears, with its files in order.
pub open spec fn grouped_by_language(
    records: Seq<FileRecord>,
    groups: Seq<(Seq<char>, Seq<FileRecord>)>,
) -> bool {
    &&& groups.map_values(|g: (Seq<char>, Seq<FileRecord>)| g.0).no_duplicates()
    &&& groups.map_values(|g: (Seq<char>, Seq<FileRecord>)| g.0).to_set()
        == languages_of(records).to_set()
    &&& forall|k: int|
        0 <= k < groups.len() ==> #[trigger] groups[k].1 == records.filter(in_language(groups[k].0))
}

/// The view of a list of language groups.
pub open spec fn groups_view(g: Seq<(String, Vec<FileRecord>)>) -> Seq<(Seq<char>, Seq<FileRecord>)> {
    g.map_values(|p: (String, Vec<FileRecord>)| (p.0@, p.1@))
}

/// Groups files by language, each language once in the order it first appears.
pub fn group_by_language(file_records: &[FileRecord]) -> (groups: Vec<(String, Vec<FileRecord>)>)
    ensures
        grouped_by_language(file_records@, groups_view(groups@)),
{
    let keys = distinct_languages(file_records);
    let mut groups: Vec<(String, Vec<FileRecord>)> = Vec::new();
    for k in 0..keys.len()
        invariant
            groups@.len() == k,
            forall|m: int| 0 <= m < k ==> #[trigger] groups@[m].0@ == keys@[m]@,
            forall|m: int| 0 <= m < k ==> #[trigger] groups@[m].1@ == file_records@.filter(in_language(keys@[m]@)),
    {
        let files = files_in_language(file_records, keys[k].as_str());
        groups.push((keys[k].clone(), files));
    }
    proof {
        let gv = groups_view(groups@);
        assert(gv.map_values(|g: (Seq<char>, Seq<FileRecord>)| g.0) =~= string_views(keys@));
        assert forall|m: int| 0 <= m < gv.len() implies #[trigger] gv[m].1 == file_records@.filter(in_language(gv[m].0)) by {
            assert(groups@[m].0@ == keys@[m]@);
            assert(groups@[m].1@ == file_records@.filter(in_language(keys@[m]@)));
        }
    }
    groups
}

} // verus!
