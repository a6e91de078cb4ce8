//! Following calls into external Python libraries: which library a call
//! uses, which function of the library's source it reaches, what that
//! function calls in turn, and which certificates the chain touches.
//!
//! The library's files are handed in as a `LibrarySource`, read from disk
//! beforehand; everything decided from them is computed here.
use vstd::prelude::*;
use crate::analysis_result::CallGraph;
use crate::call_text::{
    file_path_in, file_path_in_exec, function_name_from_call, function_name_from_call_exec,
    library_name, library_name_exec,
};
use crate::error::NTreeError;
use crate::models::CallEdge;
use crate::symbols::SymbolStore;
use crate::syntax::{calls_of_function, function_calls, SyntaxNode};
use crate::certs::{
    certs_from_calls, certs_from_source, certificates_from_calls, certificates_from_source,
    clean_path, clean_path_exec, plausible_path_exec, concat_chars, defines_function, has_function_definition, holds_entry,
    plausible_path,
};
use crate::complexity::string_views;
use crate::text::{
    as_pos, concat2, concat3, copy_str, ends_with, str_ends_with, str_eq, chars_eq, chars_of, contains_exec,
    contains_seq, find_char_exec, find_seq, lemma_find_seq, starts_with, starts_with_exec, string_of, sub_chars,
    trim, trim_chars,
};

verus! {

// ---------------------------------------------------------------------------
// What was read of a library
// ---------------------------------------------------------------------------

/// A Python file of a library, as found by walking the library's directory.
#[derive(Debug, Clone)]
pub struct LibraryFile {
    /// The path as written (`to_string_lossy`).
    pub path: String,
    /// The path as shown to users (canonical where possible).
    pub display: String,
    /// The file lies directly in the library's directory.
    pub at_root: bool,
    /// The last component of the path.
    pub file_name: String,
    /// The text of the file; `None` when it could not be read.
    pub content: Option<String>,
    /// The file's syntax tree; `None` when the file could not be parsed.
    pub syntax: Option<Vec<SyntaxNode>>,
}

/// A path written in a call that names an existing file.
#[derive(Debug, Clone)]
pub struct ResolvedPath {
    /// The path as written (quotes removed).
    pub raw: String,
    /// The canonical path, by which certificate files are told apart.
    pub key: String,
    /// The canonical path as shown to users.
    pub display: String,
}

/// Where a certificate file met while following a library was found.
#[derive(Debug, Clone)]
pub enum CertificateOrigin {
    /// The `cacert.pem` bundle of the `certifi` library.
    Certifi,
    /// A bundle file of the SSL/TLS library of this name.
    SslLibrary(String),
    /// A file up to two levels below the directory that holds the library.
    Nearby,
}

/// An existing file that may hold certificates, found beside a library.
#[derive(Debug, Clone)]
pub struct CertificateFile {
    pub origin: CertificateOrigin,
    /// The last component of the file's path.
    pub file_name: String,
    /// The path as shown to users.
    pub display: String,
    /// The canonical path, by which certificate files are told apart.
    pub key: String,
}

/// The source of an installed library.
#[derive(Debug, Clone)]
pub struct LibrarySource {
    pub name: String,
    /// The library's directory as shown to users.
    pub display: String,
    pub is_dir: bool,
    /// The Python files below the library's directory, in walk order.
    pub files: Vec<LibraryFile>,
    /// Paths written in calls that name existing files.
    pub resolved_paths: Vec<ResolvedPath>,
    /// The bundles of `certifi` and of the SSL/TLS libraries, and the files
    /// beside the library, in the order they are looked for.
    pub bundled_certificates: Vec<CertificateFile>,
}

/// One external call followed into the library's source.
#[derive(Debug)]
pub struct DeepCallChain {
    /// The external call, such as `requests.get(url)`.
    pub external_call: String,
    /// The library it belongs to, such as `requests`.
    pub library: String,
    /// Names of the functions that the reached function calls, each once.
    pub internal_calls: Vec<String>,
    /// The call expressions in the reached function, each once.
    pub call_expressions: Vec<String>,
    /// Certificates and certificate parameters met along the chain, each once.
    pub certificates: Vec<String>,
    /// The library's source was found.
    pub source_available: bool,
    /// The file where the function was found, when the source was found.
    pub source_file: Option<String>,
    /// What the functions called from here call in turn.
    pub nested_chains: Vec<DeepCallChain>,
}

// ---------------------------------------------------------------------------
// Sequences
// ---------------------------------------------------------------------------

/// `s` with each element kept at its first occurrence only.
pub open spec fn first_occurrences(s: Seq<Seq<char>>) -> Seq<Seq<char>>
    decreases s.len(),
{
    if s.len() == 0 {
        s
    } else {
        let d = first_occurrences(s.drop_last());
        if d.contains(s.last()) {
            d
        } else {
            d.push(s.last())
        }
    }
}

/// The index of the first element of `s` from `i` on that satisfies `p`.
pub open spec fn first_from<T>(s: Seq<T>, p: spec_fn(T) -> bool, i: int) -> Option<int>
    decreases s.len() - i,
{
    if i < 0 || i >= s.len() {
        None
    } else if p(s[i]) {
        Some(i)
    } else {
        first_from(s, p, i + 1)
    }
}

pub proof fn lemma_first_from<T>(s: Seq<T>, p: spec_fn(T) -> bool, i: int)
    requires
        0 <= i <= s.len(),
    ensures
        match first_from(s, p, i) {
            Some(k) => i <= k < s.len() && p(s[k]) && forall|j: int| i <= j < k ==> !p(s[j]),
            None => forall|j: int| i <= j < s.len() ==> !p(s[j]),
        },
    decreases s.len() - i,
{
    if i < s.len() && !p(s[i]) {
        lemma_first_from(s, p, i + 1);
    }
}

/// `s` holds no element twice and holds exactly the elements of `set`.
pub open spec fn distinct_with(s: Seq<Seq<char>>, set: Set<Seq<char>>) -> bool {
    s.no_duplicates() && s.to_set() == set
}

/// `s` followed by each element of `t` that it does not hold yet, in the
/// order of `t`.
pub open spec fn add_new(s: Seq<Seq<char>>, t: Seq<Seq<char>>) -> Seq<Seq<char>>
    decreases t.len(),
{
    if t.len() == 0 {
        s
    } else {
        let d = add_new(s, t.drop_last());
        if d.contains(t.last()) {
            d
        } else {
            d.push(t.last())
        }
    }
}

/// Appends to `dst` each element of `src` that `dst` does not hold yet.
pub fn append_new(dst: &mut Vec<String>, src: &Vec<String>)
    ensures
        string_views(final(dst)@) == add_new(string_views(old(dst)@), string_views(src@)),
        string_views(old(dst)@).no_duplicates() ==> string_views(final(dst)@).no_duplicates(),
        string_views(final(dst)@).to_set() == string_views(old(dst)@).to_set() + string_views(
            src@,
        ).to_set(),
        string_views(old(dst)@).is_prefix_of(string_views(final(dst)@)),
{
    let ghost d0 = string_views(dst@);
    let mut i: usize = 0;
    while i < src.len()
        invariant
            i <= src@.len(),
            d0.no_duplicates() ==> string_views(dst@).no_duplicates(),
            string_views(dst@).to_set() == d0.to_set() + string_views(src@).take(i as int).to_set(),
            d0.is_prefix_of(string_views(dst@)),
            string_views(dst@) == add_new(d0, string_views(src@).take(i as int)),
        decreases src.len() - i,
    {
        let s = chars_of(src[i].as_str());
        let ghost before = string_views(dst@);
        assert(string_views(src@).take(i + 1) == string_views(src@).take(i as int).push(s@));
        assert(string_views(src@).take(i + 1).drop_last() == string_views(src@).take(i as int));
        if !holds_entry(dst, &s) {
            dst.push(string_of(&s));
            assert(string_views(dst@) == before.push(s@));
            proof {
                before.lemma_push_to_set_commute(s@);
            }
        }
        proof {
            string_views(src@).take(i as int).lemma_push_to_set_commute(s@);
        }
        i = i + 1;
    }
    assert(string_views(src@).take(src@.len() as int) == string_views(src@));
}

// ---------------------------------------------------------------------------
// Reading calls
// ---------------------------------------------------------------------------

/// The function that a call into a library names: the text after its first
/// `.` up to the next `.`, cut at `(` and trimmed; `None` without a `.`.
pub open spec fn called_function_name(call: Seq<char>) -> Option<Seq<char>> {
    match find_seq(call, seq!['.']) {
        Some(d) => {
            let rest = call.subrange(d + 1, call.len() as int);
            let seg = match find_seq(rest, seq!['.']) {
                Some(e) => rest.take(e),
                None => rest,
            };
            let head = match find_seq(seg, seq!['(']) {
                Some(p) => seg.take(p),
                None => seg,
            };
            Some(trim(head))
        },
        None => None,
    }
}

/// The function that a call into a library names, as `called_function_name` states it.
pub fn called_function_name_exec(call: &[char]) -> (r: Option<Vec<char>>)
    ensures
        match r {
            Some(v) => called_function_name(call@) == Some(v@),
            None => called_function_name(call@) is None,
        },
{
    proof {
        lemma_find_seq(call@, seq!['.']);
    }
    match find_char_exec(call, '.') {
        Some(d) => {
            let rest = sub_chars(call, d + 1, call.len());
            proof {
                lemma_find_seq(rest@, seq!['.']);
            }
            let seg = match find_char_exec(&rest, '.') {
                Some(e) => sub_chars(&rest, 0, e),
                None => rest,
            };
            proof {
                lemma_find_seq(seg@, seq!['(']);
            }
            let head = match find_char_exec(&seg, '(') {
                Some(p) => sub_chars(&seg, 0, p),
                None => seg,
            };
            Some(trim_chars(&head))
        },
        None => None,
    }
}

// ---------------------------------------------------------------------------
// Finding the function's file
// ---------------------------------------------------------------------------

/// The files looked at first, in this order, in the library's directory.
pub open spec fn preferred_names() -> Seq<Seq<char>> {
    seq!["api.py"@, "sessions.py"@, "__init__.py"@]
}

/// The file lies in the library's directory and is called `name`.
pub open spec fn named_at_root(name: Seq<char>) -> spec_fn(LibraryFile) -> bool {
    |f: LibraryFile| f.at_root && f.file_name@ == name
}

/// The file could be read and defines `name`, at module level or as a method.
pub open spec fn file_defines(f: LibraryFile, name: Seq<char>) -> bool {
    match f.content {
        Some(c) => defines_function(c@, name, true) || defines_function(c@, name, false),
        None => false,
    }
}

/// A file of the walk, other than the preferred ones, that defines `name`.
pub open spec fn walk_defines(name: Seq<char>) -> spec_fn(LibraryFile) -> bool {
    |f: LibraryFile| !preferred_names().contains(f.file_name@) && file_defines(f, name)
}

/// The first of the preferred files, from the `k`-th on, that defines `name`.
pub open spec fn preferred_from(files: Seq<LibraryFile>, name: Seq<char>, k: int) -> Option<int>
    decreases 3 - k,
{
    if k < 0 || k >= 3 {
        None
    } else {
        match first_from(files, named_at_root(preferred_names()[k]), 0) {
            Some(j) => if file_defines(files[j], name) {
                Some(j)
            } else {
                preferred_from(files, name, k + 1)
            },
            None => preferred_from(files, name, k + 1),
        }
    }
}

/// The file that defines the function a call names: a preferred file of the
/// library's directory, else the first other file of the walk.
pub open spec fn function_file(src: LibrarySource, call: Seq<char>) -> Option<int> {
    match called_function_name(call) {
        None => None,
        Some(name) => if !src.is_dir {
            None
        } else {
            match preferred_from(src.files@, name, 0) {
                Some(j) => Some(j),
                None => first_from(src.files@, walk_defines(name), 0),
            }
        },
    }
}

/// The call is likely a method call: the object before the dot is not the
/// library, or it is `requests`' `request`.
pub open spec fn likely_method(library: Seq<char>, call: Seq<char>, name: Seq<char>) -> bool {
    (contains_seq(call, "."@) && !starts_with(call, library + "."@)) || (name == "request"@
        && library == "requests"@)
}

/// The file whose function is followed: for a likely method of `requests`,
/// `sessions.py` when it defines the function, else `function_file`.
pub open spec fn traced_file(src: LibrarySource, library: Seq<char>, call: Seq<char>, name: Seq<char>) -> Option<int> {
    if likely_method(library, call, name) && library == "requests"@ {
        match first_from(src.files@, named_at_root("sessions.py"@), 0) {
            Some(j) => match src.files@[j].content {
                Some(c) => if defines_function(c@, name, false) {
                    Some(j)
                } else {
                    function_file(src, call)
                },
                None => function_file(src, call),
            },
            None => function_file(src, call),
        }
    } else {
        function_file(src, call)
    }
}

/// A readable file that defines `name` at module level.
pub open spec fn module_defines(name: Seq<char>) -> spec_fn(LibraryFile) -> bool {
    |f: LibraryFile|
        match f.content {
            Some(c) => defines_function(c@, name, true),
            None => false,
        }
}

/// Where the search falls back to when no file was chosen: the first file of
/// the walk that defines `name` at module level.
pub open spec fn fallback_file(src: LibrarySource, name: Seq<char>) -> Option<int> {
    if src.is_dir {
        first_from(src.files@, module_defines(name), 0)
    } else {
        None
    }
}

/// The calls made by the functions called `name` in a file; `None` when the
/// file could not be parsed.
pub open spec fn calls_in(f: LibraryFile, name: Seq<char>) -> Option<Seq<Seq<char>>> {
    match f.syntax {
        Some(t) => Some(function_calls(t@, name)),
        None => None,
    }
}

fn first_named_at_root(files: &Vec<LibraryFile>, name: &str) -> (r: Option<usize>)
    ensures
        as_pos(r) == first_from(files@, named_at_root(name@), 0),
        r matches Some(j) ==> j < files@.len(),
{
    proof {
        lemma_first_from(files@, named_at_root(name@), 0);
    }
    let mut i: usize = 0;
    while i < files.len()
        invariant
            i <= files@.len(),
            forall|j: int| 0 <= j < i ==> !named_at_root(name@)(files@[j]),
        decreases files.len() - i,
    {
        if files[i].at_root && str_eq(files[i].file_name.as_str(), name) {
            assert(named_at_root(name@)(files@[i as int]));
            proof {
                lemma_first_from(files@, named_at_root(name@), 0);
            }
            return Some(i);
        }
        i = i + 1;
    }
    None
}

fn file_defines_exec(f: &LibraryFile, name: &str) -> (b: bool)
    ensures
        b == file_defines(*f, name@),
{
    match &f.content {
        Some(c) => has_function_definition(c.as_str(), name, true) || has_function_definition(
            c.as_str(),
            name,
            false,
        ),
        None => false,
    }
}

fn is_preferred_name(file_name: &str) -> (b: bool)
    ensures
        b == preferred_names().contains(file_name@),
{
    proof {
        reveal_strlit("api.py");
        reveal_strlit("sessions.py");
        reveal_strlit("__init__.py");
    }
    let r = str_eq(file_name, "api.py") || str_eq(file_name, "sessions.py") || str_eq(
        file_name,
        "__init__.py",
    );
    proof {
        if preferred_names().contains(file_name@) {
            let k = choose|k: int| 0 <= k < 3 && preferred_names()[k] == file_name@;
            assert(k == 0 || k == 1 || k == 2);
        }
        if r {
            if file_name@ == "api.py"@ {
                assert(preferred_names()[0] == file_name@);
            } else if file_name@ == "sessions.py"@ {
                assert(preferred_names()[1] == file_name@);
            } else {
                assert(preferred_names()[2] == file_name@);
            }
        }
    }
    r
}

fn preferred_name_exec(k: usize) -> (s: &'static str)
    requires
        k < 3,
    ensures
        s@ == preferred_names()[k as int],
{
    if k == 0 {
        "api.py"
    } else if k == 1 {
        "sessions.py"
    } else {
        "__init__.py"
    }
}

/// The file that defines the function a call names, as `function_file` states it.
pub fn find_function_file(src: &LibrarySource, function_call: &str) -> (r: Option<usize>)
    ensures
        as_pos(r) == function_file(*src, function_call@),
        r matches Some(j) ==> j < src.files@.len(),
{
    let call = chars_of(function_call);
    let name = match called_function_name_exec(&call) {
        Some(n) => string_of(&n),
        None => return None,
    };
    if !src.is_dir {
        return None;
    }
    let mut k: usize = 0;
    while k < 3
        invariant
            k <= 3,
            called_function_name(function_call@) == Some(name@),
            src.is_dir,
            preferred_from(src.files@, name@, 0) == preferred_from(src.files@, name@, k as int),
        decreases 3 - k,
    {
        let pref = preferred_name_exec(k);
        match first_named_at_root(&src.files, pref) {
            Some(j) => {
                if file_defines_exec(&src.files[j], name.as_str()) {
                    return Some(j);
                }
            },
            None => {},
        }
        k = k + 1;
    }
    proof {
        lemma_first_from(src.files@, walk_defines(name@), 0);
    }
    let mut i: usize = 0;
    while i < src.files.len()
        invariant
            i <= src.files@.len(),
            called_function_name(function_call@) == Some(name@),
            src.is_dir,
            preferred_from(src.files@, name@, 0) is None,
            forall|j: int| 0 <= j < i ==> !walk_defines(name@)(src.files@[j]),
        decreases src.files.len() - i,
    {
        if !is_preferred_name(src.files[i].file_name.as_str()) && file_defines_exec(
            &src.files[i],
            name.as_str(),
        ) {
            assert(walk_defines(name@)(src.files@[i as int]));
            proof {
                lemma_first_from(src.files@, walk_defines(name@), 0);
            }
            return Some(i);
        }
        i = i + 1;
    }
    None
}

fn likely_method_exec(library: &[char], call: &[char], name: &[char]) -> (b: bool)
    ensures
        b == likely_method(library@, call@, name@),
{
    let lib_dot = concat_chars(library, &chars_of("."));
    let dot = chars_of(".");
    let request = chars_of("request");
    let requests = chars_of("requests");
    (contains_exec(call, &dot) && !starts_with_exec(call, &lib_dot)) || (chars_eq(name, &request)
        && chars_eq(library, &requests))
}

/// The file whose function is followed, as `traced_file` states it.
fn traced_file_exec(src: &LibrarySource, library: &[char], call: &str, name: &[char]) -> (r: Option<usize>)
    ensures
        as_pos(r) == traced_file(*src, library@, call@, name@),
        r matches Some(j) ==> j < src.files@.len(),
{
    let call_chars = chars_of(call);
    let requests = chars_of("requests");
    if likely_method_exec(library, &call_chars, name) && chars_eq(library, &requests) {
        match first_named_at_root(&src.files, "sessions.py") {
            Some(j) => match &src.files[j].content {
                Some(c) => {
                    let name_s = string_of(name);
                    if has_function_definition(c.as_str(), name_s.as_str(), false) {
                        Some(j)
                    } else {
                        find_function_file(src, call)
                    }
                },
                None => find_function_file(src, call),
            },
            None => find_function_file(src, call),
        }
    } else {
        find_function_file(src, call)
    }
}

/// The file the search falls back to, as `fallback_file` states it.
fn fallback_file_exec(src: &LibrarySource, name: &str) -> (r: Option<usize>)
    ensures
        as_pos(r) == fallback_file(*src, name@),
        r matches Some(j) ==> j < src.files@.len(),
{
    if !src.is_dir {
        return None;
    }
    let mut i: usize = 0;
    while i < src.files.len()
        invariant
            i <= src.files@.len(),
            src.is_dir,
            forall|j: int| 0 <= j < i ==> !module_defines(name@)(src.files@[j]),
        decreases src.files.len() - i,
    {
        let found = match &src.files[i].content {
            Some(c) => has_function_definition(c.as_str(), name, true),
            None => false,
        };
        if found {
            assert(module_defines(name@)(src.files@[i as int]));
            proof {
                lemma_first_from(src.files@, module_defines(name@), 0);
            }
            return Some(i);
        }
        i = i + 1;
    }
    proof {
        lemma_first_from(src.files@, module_defines(name@), 0);
    }
    None
}

// ---------------------------------------------------------------------------
// Certificates along a chain
// ---------------------------------------------------------------------------

/// Words whose presence in a source file means it may use certificates.
pub open spec fn tls_markers() -> Seq<Seq<char>> {
    seq![
        "certifi"@,
        "DEFAULT_CA_BUNDLE"@,
        "from certifi"@,
        "import certifi"@,
        "certs.where()"@,
        "certifi.where()"@,
        "ssl"@,
        "SSL"@,
        "TLS"@,
        "cert"@,
        "verify"@,
        "ca_bundle"@,
    ]
}

/// The source text mentions certificates or SSL/TLS.
pub open spec fn mentions_tls(content: Seq<char>) -> bool {
    exists|k: int| 0 <= k < tls_markers().len() && contains_seq(content, #[trigger] tls_markers()[k])
}

fn tls_marker_exec(k: usize) -> (s: &'static str)
    requires
        k < 12,
    ensures
        s@ == tls_markers()[k as int],
{
    if k == 0 {
        "certifi"
    } else if k == 1 {
        "DEFAULT_CA_BUNDLE"
    } else if k == 2 {
        "from certifi"
    } else if k == 3 {
        "import certifi"
    } else if k == 4 {
        "certs.where()"
    } else if k == 5 {
        "certifi.where()"
    } else if k == 6 {
        "ssl"
    } else if k == 7 {
        "SSL"
    } else if k == 8 {
        "TLS"
    } else if k == 9 {
        "cert"
    } else if k == 10 {
        "verify"
    } else {
        "ca_bundle"
    }
}

fn mentions_tls_exec(content: &str) -> (b: bool)
    ensures
        b == mentions_tls(content@),
{
    let text = chars_of(content);
    let mut k: usize = 0;
    while k < 12
        invariant
            k <= 12,
            text@ == content@,
            forall|j: int| 0 <= j < k ==> !contains_seq(content@, #[trigger] tls_markers()[j]),
        decreases 12 - k,
    {
        let m = chars_of(tls_marker_exec(k));
        if contains_exec(&text, &m) {
            return true;
        }
        k = k + 1;
    }
    false
}

/// The index of the resolved path written as `raw`.
pub open spec fn resolved_as(raw: Seq<char>) -> spec_fn(ResolvedPath) -> bool {
    |r: ResolvedPath| r.raw@ == raw
}

/// The certificate file, with the key that tells it apart, that a call names,
/// when it names an existing one.
pub open spec fn call_candidate(src: LibrarySource, call: Seq<char>) -> Seq<(Seq<char>, Seq<char>)> {
    match file_path_in(call) {
        Some(p) => if plausible_path(p) {
            match first_from(src.resolved_paths@, resolved_as(clean_path(p)), 0) {
                Some(k) => seq![
                    (
                        "Certificate file: "@ + src.resolved_paths@[k].display@,
                        src.resolved_paths@[k].key@,
                    ),
                ],
                None => Seq::empty(),
            }
        } else {
            Seq::empty()
        },
        None => Seq::empty(),
    }
}

/// The certificate files that the calls name, in order.
pub open spec fn call_candidates(src: LibrarySource, calls: Seq<Seq<char>>) -> Seq<(Seq<char>, Seq<char>)>
    decreases calls.len(),
{
    if calls.len() == 0 {
        Seq::empty()
    } else {
        call_candidates(src, calls.drop_last()) + call_candidate(src, calls.last())
    }
}

/// A file name that certificate files have: one ending in `.pem`, `.crt`,
/// `.cer` or `.key`.
pub open spec fn certificate_file_name(name: Seq<char>) -> bool {
    ends_with(name, ".pem"@) || ends_with(name, ".crt"@) || ends_with(name, ".cer"@) || ends_with(
        name,
        ".key"@,
    )
}

/// The text that reports the certificate file `c`.
pub open spec fn certificate_entry(c: CertificateFile) -> Seq<char> {
    match c.origin {
        CertificateOrigin::Certifi => "Default certificate bundle: "@ + c.display@,
        CertificateOrigin::SslLibrary(lib) => "Certificate from "@ + lib@ + ": "@ + c.display@,
        CertificateOrigin::Nearby => "Certificate file: "@ + c.display@,
    }
}

/// The file `c` is reported: a bundle always, a file beside the library when
/// its name is that of a certificate file.
pub open spec fn reported(c: CertificateFile) -> bool {
    c.origin is Nearby ==> certificate_file_name(c.file_name@)
}

/// The reported files among `c`, each with its entry and key, in order.
pub open spec fn reported_files(c: Seq<CertificateFile>) -> Seq<(Seq<char>, Seq<char>)>
    decreases c.len(),
{
    if c.len() == 0 {
        Seq::empty()
    } else if reported(c.last()) {
        reported_files(c.drop_last()).push((certificate_entry(c.last()), c.last().key@))
    } else {
        reported_files(c.drop_last())
    }
}

/// The bundled certificate files of a library, with their keys.
pub open spec fn bundled_candidates(src: LibrarySource) -> Seq<(Seq<char>, Seq<char>)> {
    reported_files(src.bundled_certificates@)
}

/// The SSL/TLS libraries whose bundle files are looked for, in order.
pub open spec fn ssl_libraries() -> Seq<Seq<char>> {
    seq!["urllib3"@, "ssl"@, "OpenSSL"@, "cryptography"@]
}

/// The names of the bundle files looked for in each SSL/TLS library, in order.
pub open spec fn bundle_file_names() -> Seq<Seq<char>> {
    seq!["cacert.pem"@, "cert.pem"@, "ca-bundle.crt"@, "ca-certificates.crt"@]
}

/// The SSL/TLS libraries whose bundle files are looked for, as
/// `ssl_libraries` lists them.
pub fn ssl_library_names() -> (r: Vec<String>)
    ensures
        string_views(r@) == ssl_libraries(),
{
    let r = vec![copy_str("urllib3"), copy_str("ssl"), copy_str("OpenSSL"), copy_str("cryptography")];
    assert(string_views(r@) =~= ssl_libraries());
    r
}

/// The bundle file names looked for in an SSL/TLS library, as
/// `bundle_file_names` lists them.
pub fn bundle_names() -> (r: Vec<String>)
    ensures
        string_views(r@) == bundle_file_names(),
{
    let r = vec![
        copy_str("cacert.pem"),
        copy_str("cert.pem"),
        copy_str("ca-bundle.crt"),
        copy_str("ca-certificates.crt"),
    ];
    assert(string_views(r@) =~= bundle_file_names());
    r
}

fn certificate_file_name_exec(name: &str) -> (b: bool)
    ensures
        b == certificate_file_name(name@),
{
    str_ends_with(name, ".pem") || str_ends_with(name, ".crt") || str_ends_with(name, ".cer")
        || str_ends_with(name, ".key")
}

fn certificate_entry_exec(c: &CertificateFile) -> (r: String)
    ensures
        r@ == certificate_entry(*c),
{
    match &c.origin {
        CertificateOrigin::Certifi => concat2("Default certificate bundle: ", c.display.as_str()),
        CertificateOrigin::SslLibrary(lib) => {
            let head = concat3("Certificate from ", lib.as_str(), ": ");
            concat2(head.as_str(), c.display.as_str())
        },
        CertificateOrigin::Nearby => concat2("Certificate file: ", c.display.as_str()),
    }
}

/// The entries of `c` whose key was not met before, and the keys met.
pub open spec fn first_by_key(c: Seq<(Seq<char>, Seq<char>)>) -> (Seq<Seq<char>>, Seq<Seq<char>>)
    decreases c.len(),
{
    if c.len() == 0 {
        (Seq::empty(), Seq::empty())
    } else {
        let (e, k) = first_by_key(c.drop_last());
        if k.contains(c.last().1) {
            (e, k)
        } else {
            (e.push(c.last().0), k.push(c.last().1))
        }
    }
}

/// The certificates found along a call chain: the files that its calls name,
/// then the bundled ones, each file reported once.
pub open spec fn chain_certificates(src: LibrarySource, calls: Seq<Seq<char>>) -> Seq<Seq<char>> {
    first_by_key(call_candidates(src, calls) + bundled_candidates(src)).0
}

fn resolved_index(src: &LibrarySource, raw: &[char]) -> (r: Option<usize>)
    ensures
        as_pos(r) == first_from(src.resolved_paths@, resolved_as(raw@), 0),
        r matches Some(k) ==> k < src.resolved_paths@.len(),
{
    let mut i: usize = 0;
    while i < src.resolved_paths.len()
        invariant
            i <= src.resolved_paths@.len(),
            forall|j: int| 0 <= j < i ==> !resolved_as(raw@)(src.resolved_paths@[j]),
        decreases src.resolved_paths.len() - i,
    {
        let r = chars_of(src.resolved_paths[i].raw.as_str());
        if chars_eq(&r, raw) {
            assert(resolved_as(raw@)(src.resolved_paths@[i as int]));
            proof {
                lemma_first_from(src.resolved_paths@, resolved_as(raw@), 0);
            }
            return Some(i);
        }
        i = i + 1;
    }
    proof {
        lemma_first_from(src.resolved_paths@, resolved_as(raw@), 0);
    }
    None
}

fn add_by_key(entries: &mut Vec<String>, keys: &mut Vec<String>, entry: &[char], key: &[char])
    ensures
        (string_views(final(entries)@), string_views(final(keys)@)) == (if string_views(
            old(keys)@,
        ).contains(key@) {
            (string_views(old(entries)@), string_views(old(keys)@))
        } else {
            (string_views(old(entries)@).push(entry@), string_views(old(keys)@).push(key@))
        }),
{
    if !holds_entry(keys, key) {
        let ghost e0 = string_views(entries@);
        let ghost k0 = string_views(keys@);
        entries.push(string_of(entry));
        keys.push(string_of(key));
        assert(string_views(entries@) == e0.push(entry@));
        assert(string_views(keys@) == k0.push(key@));
    }
}

/// The certificates found along a call chain, as `chain_certificates` states it.
pub fn find_certificates_from_call_chain(src: &LibrarySource, call_expressions: &[String]) -> (r: Vec<String>)
    ensures
        string_views(r@) == chain_certificates(*src, string_views(call_expressions@)),
{
    let mut entries: Vec<String> = Vec::new();
    let mut keys: Vec<String> = Vec::new();
    let ghost calls = string_views(call_expressions@);
    let mut i: usize = 0;
    while i < call_expressions.len()
        invariant
            i <= call_expressions@.len(),
            calls == string_views(call_expressions@),
            (string_views(entries@), string_views(keys@)) == first_by_key(
                call_candidates(*src, calls.take(i as int)),
            ),
        decreases call_expressions.len() - i,
    {
        let call = chars_of(call_expressions[i].as_str());
        let ghost before = call_candidates(*src, calls.take(i as int));
        assert(calls.take(i + 1).drop_last() == calls.take(i as int));
        assert(calls.take(i + 1).last() == call@);
        match file_path_in_exec(&call) {
            Some(p) => {
                if plausible_path_exec(&p) {
                    let cleaned = clean_path_exec(&p);
                    match resolved_index(src, &cleaned) {
                        Some(k) => {
                            let rp = &src.resolved_paths[k];
                            let entry = concat_chars(&chars_of("Certificate file: "), &chars_of(rp.display.as_str()));
                            let key = chars_of(rp.key.as_str());
                            proof {
                                reveal_strlit("Certificate file: ");
                                let c = call_candidate(*src, call@);
                                assert(c == seq![(entry@, key@)]);
                                assert(before + c == before.push((entry@, key@)));
                                assert((before + c).drop_last() == before);
                            }
                            add_by_key(&mut entries, &mut keys, &entry, &key);
                        },
                        None => {
                            assert(before + call_candidate(*src, call@) == before);
                        },
                    }
                } else {
                    assert(before + call_candidate(*src, call@) == before);
                }
            },
            None => {
                assert(before + call_candidate(*src, call@) == before);
            },
        }
        i = i + 1;
    }
    assert(calls.take(call_expressions@.len() as int) == calls);
    let ghost head = call_candidates(*src, calls);
    let mut j: usize = 0;
    while j < src.bundled_certificates.len()
        invariant
            j <= src.bundled_certificates@.len(),
            head == call_candidates(*src, calls),
            (string_views(entries@), string_views(keys@)) == first_by_key(
                head + reported_files(src.bundled_certificates@.take(j as int)),
            ),
        decreases src.bundled_certificates.len() - j,
    {
        let c = &src.bundled_certificates[j];
        let ghost all = src.bundled_certificates@;
        proof {
            assert(all.take(j + 1).drop_last() == all.take(j as int));
            assert(all.take(j + 1).last() == *c);
        }
        let is_bundle = match &c.origin {
            CertificateOrigin::Nearby => false,
            _ => true,
        };
        if is_bundle || certificate_file_name_exec(c.file_name.as_str()) {
            let entry = chars_of(certificate_entry_exec(c).as_str());
            let key = chars_of(c.key.as_str());
            proof {
                let b = reported_files(all.take(j as int));
                assert(reported_files(all.take(j + 1)) == b.push((entry@, key@)));
                assert(head + b.push((entry@, key@)) == (head + b).push((entry@, key@)));
                assert((head + b.push((entry@, key@))).drop_last() == head + b);
            }
            add_by_key(&mut entries, &mut keys, &entry, &key);
        }
        j = j + 1;
    }
    assert(src.bundled_certificates@.take(src.bundled_certificates@.len() as int) == src.bundled_certificates@);
    entries
}

/// The path, quotes removed, that the call node `n` writes, where it
/// plausibly writes one.
pub open spec fn node_path(n: SyntaxNode) -> Seq<Seq<char>> {
    if n.kind@ == "call"@ {
        match file_path_in(trim(n.text@)) {
            Some(p) => if plausible_path(p) {
                seq![clean_path(p)]
            } else {
                Seq::empty()
            },
            None => Seq::empty(),
        }
    } else {
        Seq::empty()
    }
}

/// The paths that the call nodes among `nodes` write, in order.
pub open spec fn node_paths(nodes: Seq<SyntaxNode>) -> Seq<Seq<char>>
    decreases nodes.len(),
{
    if nodes.len() == 0 {
        Seq::empty()
    } else {
        node_paths(nodes.drop_last()) + node_path(nodes.last())
    }
}

/// The paths that the calls in the syntax trees of `files` write, in order:
/// every path that a certificate search along a call chain in these files
/// looks up among the resolved paths.
pub open spec fn written_paths(files: Seq<LibraryFile>) -> Seq<Seq<char>>
    decreases files.len(),
{
    if files.len() == 0 {
        Seq::empty()
    } else {
        written_paths(files.drop_last()) + match files.last().syntax {
            Some(nodes) => node_paths(nodes@),
            None => Seq::empty(),
        }
    }
}

fn push_node_paths(out: &mut Vec<String>, nodes: &Vec<SyntaxNode>)
    ensures
        string_views(final(out)@) == string_views(old(out)@) + node_paths(nodes@),
{
    let ghost start = string_views(out@);
    let mut i: usize = 0;
    while i < nodes.len()
        invariant
            i <= nodes@.len(),
            string_views(out@) == start + node_paths(nodes@.take(i as int)),
        decreases nodes.len() - i,
    {
        let n = &nodes[i];
        let ghost before = string_views(out@);
        proof {
            assert(nodes@.take(i + 1).drop_last() == nodes@.take(i as int));
            assert(nodes@.take(i + 1).last() == *n);
        }
        if str_eq(n.kind.as_str(), "call") {
            let text = trim_chars(&chars_of(n.text.as_str()));
            match file_path_in_exec(&text) {
                Some(p) => {
                    if plausible_path_exec(&p) {
                        let cleaned = string_of(&clean_path_exec(&p));
                        out.push(cleaned);
                        assert(string_views(out@) == before.push(cleaned@));
                        assert(node_path(*n) == seq![cleaned@]);
                        assert(before + seq![cleaned@] == before.push(cleaned@));
                    } else {
                        assert(node_path(*n) == Seq::<Seq<char>>::empty());
                        assert(before + node_path(*n) == before);
                    }
                },
                None => {
                    assert(node_path(*n) == Seq::<Seq<char>>::empty());
                    assert(before + node_path(*n) == before);
                },
            }
        } else {
            assert(node_path(*n) == Seq::<Seq<char>>::empty());
            assert(before + node_path(*n) == before);
        }
        i = i + 1;
    }
    assert(nodes@.take(nodes@.len() as int) == nodes@);
}

/// The paths that the calls in the syntax trees of `files` write, as
/// `written_paths` states them: those that reading a library resolves.
pub fn paths_written_in(files: &Vec<LibraryFile>) -> (r: Vec<String>)
    ensures
        string_views(r@) == written_paths(files@),
{
    let mut out: Vec<String> = Vec::new();
    let mut i: usize = 0;
    while i < files.len()
        invariant
            i <= files@.len(),
            string_views(out@) == written_paths(files@.take(i as int)),
        decreases files.len() - i,
    {
        let f = &files[i];
        let ghost before = string_views(out@);
        proof {
            assert(files@.take(i + 1).drop_last() == files@.take(i as int));
            assert(files@.take(i + 1).last() == *f);
        }
        match &f.syntax {
            Some(nodes) => {
                push_node_paths(&mut out, nodes);
            },
            None => {
                assert(before + Seq::<Seq<char>>::empty() == before);
            },
        }
        i = i + 1;
    }
    assert(files@.take(files@.len() as int) == files@);
    out
}

// ---------------------------------------------------------------------------
// Following the calls of a function
// ---------------------------------------------------------------------------

/// The names of the functions that `calls` call, each once, empty names left out.
pub open spec fn internal_names(calls: Seq<Seq<char>>) -> Seq<Seq<char>>
    decreases calls.len(),
{
    if calls.len() == 0 {
        Seq::empty()
    } else {
        let d = internal_names(calls.drop_last());
        let n = function_name_from_call(calls.last());
        if n.len() == 0 || d.contains(n) {
            d
        } else {
            d.push(n)
        }
    }
}

/// The call does not start with a builtin such as `print` or `len`.
pub open spec fn starts_plainly(call: Seq<char>) -> bool {
    &&& !starts_with(call, "print"@)
    &&& !starts_with(call, "len"@)
    &&& !starts_with(call, "dict"@)
    &&& !starts_with(call, "list"@)
    &&& !starts_with(call, "str"@)
    &&& !starts_with(call, "int"@)
}

/// A call that is followed into the library: a call on `self`, on the
/// library, a plain call, or a method call on some object.
pub open spec fn followed_call(library: Seq<char>, call: Seq<char>) -> bool {
    let internal = contains_seq(call, "self."@) || starts_with(call, library + "."@) || (
    !contains_seq(call, "."@) && starts_plainly(call));
    let method = contains_seq(call, "."@) && !starts_with(call, "print"@) && !starts_with(
        call,
        "len"@,
    );
    internal || method
}

/// The call that is followed for `call`, which calls `called`: the call itself
/// when it already names the library, else `library.called`.
pub open spec fn nested_call(library: Seq<char>, call: Seq<char>, called: Seq<char>) -> Seq<char> {
    if !contains_seq(call, "self."@) && contains_seq(call, "."@) && starts_with(call, library + "."@) {
        call
    } else {
        library + "."@ + called
    }
}

/// The certificates of a sequence of chains.
pub open spec fn nested_cert_set(chains: Seq<DeepCallChain>) -> Set<Seq<char>>
    decreases chains.len(),
{
    if chains.len() == 0 {
        Set::empty()
    } else {
        nested_cert_set(chains.drop_last()) + string_views(chains.last().certificates@).to_set()
    }
}

/// `c` is the chain followed, `depth` deep and with the functions `active`
/// being followed, for one of `calls`, made by a function found in the file
/// at `file_path`: what following its call finds, when that is not empty.
pub open spec fn chain_from(
    c: DeepCallChain,
    src: LibrarySource,
    library: Seq<char>,
    file_path: Seq<char>,
    calls: Seq<Seq<char>>,
    max_depth: usize,
    depth: int,
    active: Seq<Seq<char>>,
) -> bool
    decreases max_depth - depth + 1, 0int,
{
    &&& c.library@ == library
    &&& c.source_available
    &&& c.source_file matches Some(f) && f@ == file_path
    &&& exists|k: int|
        0 <= k < calls.len() && followed_call(library, calls[k]) && c.external_call@
            == nested_call(library, calls[k], function_name_from_call(calls[k]))
    &&& (c.internal_calls.len() > 0 || c.call_expressions.len() > 0 || c.certificates.len() > 0
        || c.nested_chains.len() > 0)
    &&& 0 <= depth <= max_depth
    &&& trace_result(
        (c.internal_calls, c.call_expressions, c.certificates, c.nested_chains),
        src,
        library,
        c.external_call@,
        max_depth,
        depth as usize,
        active,
    )
}

/// The file whose function's calls are read: the traced file, else the fallback.
pub open spec fn traced_source(src: LibrarySource, library: Seq<char>, call: Seq<char>, name: Seq<char>) -> Option<int> {
    match traced_file(src, library, call, name) {
        Some(i) => Some(i),
        None => fallback_file(src, name),
    }
}

/// The calls made by the function that is followed.
pub open spec fn traced_calls(src: LibrarySource, library: Seq<char>, call: Seq<char>, name: Seq<char>) -> Seq<Seq<char>> {
    match traced_source(src, library, call, name) {
        Some(i) => match calls_in(src.files@[i], name) {
            Some(c) => c,
            None => Seq::empty(),
        },
        None => Seq::empty(),
    }
}

/// The path of the file whose function is followed.
pub open spec fn traced_path(src: LibrarySource, library: Seq<char>, call: Seq<char>, name: Seq<char>) -> Seq<char> {
    match traced_source(src, library, call, name) {
        Some(i) => src.files@[i].path@,
        None => Seq::empty(),
    }
}

/// The certificates found for a followed function itself, without those of
/// the functions it calls: in its file's text, bundled beside the library when
/// the file mentions SSL/TLS, in its calls, and along its call chain.
pub open spec fn own_certificates(src: LibrarySource, library: Seq<char>, call: Seq<char>, name: Seq<char>) -> Set<Seq<char>> {
    let calls = traced_calls(src, library, call, name);
    let exprs = first_occurrences(calls);
    let base = certs_from_calls(exprs).to_set();
    match traced_file(src, library, call, name) {
        Some(i) => {
            let f = src.files@[i];
            let from_content = match f.content {
                Some(c) => certs_from_source(c@).to_set() + if mentions_tls(c@) {
                    chain_certificates(src, Seq::empty()).to_set()
                } else {
                    Set::empty()
                },
                None => Set::empty(),
            };
            let from_calls = match f.syntax {
                Some(_) => certs_from_calls(calls).to_set() + chain_certificates(src, exprs).to_set(),
                None => Set::empty(),
            };
            from_content + from_calls + base
        },
        None => base,
    }
}

/// `s` with the certificates of each of `chains` added in turn, each once.
pub open spec fn add_chain_certs(s: Seq<Seq<char>>, chains: Seq<DeepCallChain>) -> Seq<Seq<char>>
    decreases chains.len(),
{
    if chains.len() == 0 {
        s
    } else {
        add_new(add_chain_certs(s, chains.drop_last()), string_views(chains.last().certificates@))
    }
}

/// The certificates met for a followed function before those of the
/// functions it calls, in order, each once: in its file's text, bundled
/// beside the library when the file mentions SSL/TLS, and in its calls when
/// the file was parsed.
pub open spec fn leading_certificates(src: LibrarySource, library: Seq<char>, call: Seq<char>, name: Seq<char>) -> Seq<Seq<char>> {
    match traced_file(src, library, call, name) {
        Some(i) => {
            let f = src.files@[i];
            let from_content = match f.content {
                Some(c) => {
                    let found = add_new(Seq::empty(), certs_from_source(c@));
                    if mentions_tls(c@) {
                        add_new(found, chain_certificates(src, Seq::empty()))
                    } else {
                        found
                    }
                },
                None => Seq::empty(),
            };
            match f.syntax {
                Some(_) => add_new(from_content, certs_from_calls(traced_calls(src, library, call, name))),
                None => from_content,
            }
        },
        None => Seq::empty(),
    }
}

/// The certificates of a followed function that leads to `chains`, in the
/// order they are met, each once: the leading ones, those of each chain in
/// turn, those along its call chain when its own file was parsed, and those
/// in its call expressions.
pub open spec fn certificate_order(
    src: LibrarySource,
    library: Seq<char>,
    call: Seq<char>,
    name: Seq<char>,
    chains: Seq<DeepCallChain>,
) -> Seq<Seq<char>> {
    let exprs = first_occurrences(traced_calls(src, library, call, name));
    let with_nested = add_chain_certs(leading_certificates(src, library, call, name), chains);
    let along = match traced_file(src, library, call, name) {
        Some(i) => match src.files@[i].syntax {
            Some(_) => add_new(with_nested, chain_certificates(src, exprs)),
            None => with_nested,
        },
        None => with_nested,
    };
    add_new(along, certs_from_calls(exprs))
}

/// The search stops at once: too deep, no function named, or the function is
/// already being followed.
pub open spec fn stops_at(max_depth: usize, depth: usize, library: Seq<char>, call: Seq<char>, active: Seq<Seq<char>>) -> bool {
    ||| depth >= max_depth
    ||| called_function_name(call) is None
    ||| active.contains(library + "::"@ + called_function_name(call)->0)
}


/// Following `call` finds something: it does not stop at once, and the
/// function followed makes some call or meets some certificate.
pub open spec fn finds_something(
    src: LibrarySource,
    library: Seq<char>,
    call: Seq<char>,
    max_depth: usize,
    depth: usize,
    active: Seq<Seq<char>>,
) -> bool {
    &&& !stops_at(max_depth, depth, library, call, active)
    &&& ({
        let name = called_function_name(call)->0;
        ||| traced_calls(src, library, call, name).len() > 0
        ||| exists|x: Seq<char>| #[trigger] own_certificates(src, library, call, name).contains(x)
    })
}

/// The calls followed one level deeper from `calls`, in order: each call whose
/// function name is not empty and new among the calls before it, that is
/// followed, and whose following finds something.
pub open spec fn chain_calls(
    src: LibrarySource,
    library: Seq<char>,
    calls: Seq<Seq<char>>,
    max_depth: usize,
    depth: usize,
    active: Seq<Seq<char>>,
) -> Seq<Seq<char>>
    decreases calls.len(),
{
    if calls.len() == 0 {
        Seq::empty()
    } else {
        let d = chain_calls(src, library, calls.drop_last(), max_depth, depth, active);
        let c = calls.last();
        let n = function_name_from_call(c);
        if n.len() > 0 && !internal_names(calls.drop_last()).contains(n) && followed_call(library, c)
            && finds_something(src, library, nested_call(library, c, n), max_depth, depth, active) {
            d.push(nested_call(library, c, n))
        } else {
            d
        }
    }
}

/// The calls that the chains `cs` follow.
pub open spec fn followed_calls(cs: Seq<DeepCallChain>) -> Seq<Seq<char>> {
    cs.map_values(|c: DeepCallChain| c.external_call@)
}

/// What following a call finds, as `analyze_library_function_recursive` returns it.
pub open spec fn trace_result(
    r: (Vec<String>, Vec<String>, Vec<String>, Vec<DeepCallChain>),
    src: LibrarySource,
    library: Seq<char>,
    call: Seq<char>,
    max_depth: usize,
    depth: usize,
    active: Seq<Seq<char>>,
) -> bool
    decreases max_depth - depth, 1int,
{
    if stops_at(max_depth, depth, library, call, active) {
        r.0@.len() == 0 && r.1@.len() == 0 && r.2@.len() == 0 && r.3@.len() == 0
    } else {
        let name = called_function_name(call)->0;
        let calls = traced_calls(src, library, call, name);
        &&& string_views(r.0@) == internal_names(calls)
        &&& string_views(r.1@) == first_occurrences(calls)
        &&& distinct_with(
            string_views(r.2@),
            own_certificates(src, library, call, name) + nested_cert_set(r.3@),
        )
        &&& string_views(r.2@) == certificate_order(src, library, call, name, r.3@)
        &&& forall|k: int|
            0 <= k < r.3@.len() ==> chain_from(
                #[trigger] r.3@[k],
                src,
                library,
                traced_path(src, library, call, name),
                calls,
                max_depth,
                depth + 1,
                active.push(library + "::"@ + name),
            )
        &&& followed_calls(r.3@) == chain_calls(
            src,
            library,
            calls,
            max_depth,
            (depth + 1) as usize,
            active.push(library + "::"@ + name),
        )
    }
}

/// What following a call returns is empty exactly when the following finds nothing.
pub proof fn lemma_finds_something(
    r: (Vec<String>, Vec<String>, Vec<String>, Vec<DeepCallChain>),
    src: LibrarySource,
    library: Seq<char>,
    call: Seq<char>,
    max_depth: usize,
    depth: usize,
    active: Seq<Seq<char>>,
)
    requires
        trace_result(r, src, library, call, max_depth, depth, active),
    ensures
        (r.0@.len() > 0 || r.1@.len() > 0 || r.2@.len() > 0 || r.3@.len() > 0) <==> finds_something(
            src,
            library,
            call,
            max_depth,
            depth,
            active,
        ),
{
    if !stops_at(max_depth, depth, library, call, active) {
        let name = called_function_name(call)->0;
        let calls = traced_calls(src, library, call, name);
        let own = own_certificates(src, library, call, name);
        lemma_first_occurrences_empty(calls);
        if calls.len() == 0 {
            assert(internal_names(calls) == Seq::<Seq<char>>::empty());
            if r.3@.len() > 0 {
                let c = r.3@[0];
                assert(chain_from(c, src, library, traced_path(src, library, call, name), calls, max_depth, depth + 1, active.push(library + "::"@ + name)));
            }
            assert(r.3@.len() == 0);
            assert(nested_cert_set(r.3@) == Set::<Seq<char>>::empty());
            assert(string_views(r.2@).to_set() =~= own);
            if r.2@.len() > 0 {
                assert(string_views(r.2@)[0] == r.2@[0]@);
                assert(string_views(r.2@).contains(r.2@[0]@));
                assert(string_views(r.2@).to_set().contains(r.2@[0]@));
                assert(own.contains(r.2@[0]@));
            }
            if exists|x: Seq<char>| #[trigger] own.contains(x) {
                let x = choose|x: Seq<char>| #[trigger] own.contains(x);
                assert(string_views(r.2@).to_set().contains(x));
                assert(string_views(r.2@).len() > 0);
            }
        } else {
            assert(string_views(r.1@).len() > 0);
        }
    }
}

/// Keeping first occurrences leaves a sequence empty exactly when it was empty.
pub proof fn lemma_first_occurrences_empty(s: Seq<Seq<char>>)
    ensures
        (first_occurrences(s).len() == 0) <==> (s.len() == 0),
    decreases s.len(),
{
    if s.len() > 0 {
        lemma_first_occurrences_empty(s.drop_last());
    }
}

fn starts_plainly_exec(call: &[char]) -> (b: bool)
    ensures
        b == starts_plainly(call@),
{
    !starts_with_exec(call, &chars_of("print")) && !starts_with_exec(call, &chars_of("len"))
        && !starts_with_exec(call, &chars_of("dict")) && !starts_with_exec(call, &chars_of("list"))
        && !starts_with_exec(call, &chars_of("str")) && !starts_with_exec(call, &chars_of("int"))
}

fn followed_call_exec(library: &[char], call: &[char]) -> (b: bool)
    ensures
        b == followed_call(library@, call@),
{
    let has_self = contains_exec(call, &chars_of("self."));
    let has_dot = contains_exec(call, &chars_of("."));
    let on_library = starts_with_exec(call, &concat_chars(library, &chars_of(".")));
    let internal = has_self || on_library || (!has_dot && starts_plainly_exec(call));
    let method = has_dot && !starts_with_exec(call, &chars_of("print")) && !starts_with_exec(
        call,
        &chars_of("len"),
    );
    internal || method
}

fn nested_call_exec(library: &[char], call: &[char], called: &[char]) -> (r: Vec<char>)
    ensures
        r@ == nested_call(library@, call@, called@),
{
    let has_self = contains_exec(call, &chars_of("self."));
    let has_dot = contains_exec(call, &chars_of("."));
    let on_library = starts_with_exec(call, &concat_chars(library, &chars_of(".")));
    if !has_self && has_dot && on_library {
        sub_chars(call, 0, call.len())
    } else {
        concat_chars(&concat_chars(library, &chars_of(".")), called)
    }
}

// ---------------------------------------------------------------------------
// The tracker
// ---------------------------------------------------------------------------

/// Follows external library calls into the libraries' source.
#[derive(Debug)]
pub struct DeepCallTracker {
    call_chains: Vec<DeepCallChain>,
    workspace_path: Option<String>,
    max_depth: usize,
}

fn no_strings() -> (r: Vec<String>)
    ensures
        r@.len() == 0,
        string_views(r@) == Seq::<Seq<char>>::empty(),
{
    let r: Vec<String> = Vec::new();
    assert(string_views(r@) =~= Seq::<Seq<char>>::empty());
    r
}

impl DeepCallTracker {
    /// The chains found so far.
    pub closed spec fn chains(&self) -> Seq<DeepCallChain> {
        self.call_chains@
    }

    /// How deep calls are followed.
    pub closed spec fn depth_limit(&self) -> usize {
        self.max_depth
    }

    /// The workspace whose environments are searched for libraries.
    pub closed spec fn workspace(&self) -> Option<Seq<char>> {
        match self.workspace_path {
            Some(p) => Some(p@),
            None => None,
        }
    }

    /// Follows `calls`, made by a function found in the file at `file_path`,
    /// one level deeper.
    fn trace_calls(
        &self,
        active: &mut Vec<String>,
        library: &str,
        src: &LibrarySource,
        calls: &Vec<String>,
        file_path: &String,
        depth: usize,
        internal: &mut Vec<String>,
        exprs: &mut Vec<String>,
        certs: &mut Vec<String>,
        nested: &mut Vec<DeepCallChain>,
    )
        requires
            depth < self.max_depth,
            old(internal)@.len() == 0,
            old(exprs)@.len() == 0,
            old(nested)@.len() == 0,
            string_views(old(certs)@).no_duplicates(),
        ensures
            final(active)@ == old(active)@,
            string_views(final(internal)@) == internal_names(string_views(calls@)),
            string_views(final(exprs)@) == first_occurrences(string_views(calls@)),
            distinct_with(
                string_views(final(certs)@),
                string_views(old(certs)@).to_set() + nested_cert_set(final(nested)@),
            ),
            string_views(final(certs)@) == add_chain_certs(string_views(old(certs)@), final(nested)@),
            forall|k: int|
                0 <= k < final(nested)@.len() ==> chain_from(
                    #[trigger] final(nested)@[k],
                    *src,
                    library@,
                    file_path@,
                    string_views(calls@),
                    self.max_depth,
                    depth + 1,
                    string_views(old(active)@),
                ),
            followed_calls(final(nested)@) == chain_calls(
                *src,
                library@,
                string_views(calls@),
                self.max_depth,
                (depth + 1) as usize,
                string_views(old(active)@),
            ),
        decreases self.max_depth - depth, 0int,
    {
        let ghost cs = string_views(calls@);
        let ghost c0 = string_views(certs@).to_set();
        let ghost c0s = string_views(certs@);
        let lib = chars_of(library);
        let mut i: usize = 0;
        assert(internal_names(cs.take(0)) == Seq::<Seq<char>>::empty());
        assert(first_occurrences(cs.take(0)) == Seq::<Seq<char>>::empty());
        assert(string_views(internal@) =~= Seq::<Seq<char>>::empty());
        assert(string_views(exprs@) =~= Seq::<Seq<char>>::empty());
        assert(nested_cert_set(nested@) == Set::<Seq<char>>::empty());
        assert(c0 + Set::<Seq<char>>::empty() =~= c0);
        while i < calls.len()
            invariant
                i <= calls@.len(),
                depth < self.max_depth,
                cs == string_views(calls@),
                lib@ == library@,
                active@ == old(active)@,
                string_views(internal@) == internal_names(cs.take(i as int)),
                string_views(exprs@) == first_occurrences(cs.take(i as int)),
                distinct_with(string_views(certs@), c0 + nested_cert_set(nested@)),
                string_views(certs@) == add_chain_certs(c0s, nested@),
                forall|k: int|
                    0 <= k < nested@.len() ==> chain_from(
                        #[trigger] nested@[k],
                        *src,
                        library@,
                        file_path@,
                        cs,
                        self.max_depth,
                        depth + 1,
                        string_views(old(active)@),
                    ),
                followed_calls(nested@) == chain_calls(
                    *src,
                    library@,
                    cs.take(i as int),
                    self.max_depth,
                    (depth + 1) as usize,
                    string_views(old(active)@),
                ),
            decreases calls.len() - i,
        {
            let call = chars_of(calls[i].as_str());
            assert(cs.take(i + 1).drop_last() == cs.take(i as int));
            assert(cs.take(i + 1).last() == call@);
            if !holds_entry(exprs, &call) {
                let ghost e0 = string_views(exprs@);
                exprs.push(copy_str(calls[i].as_str()));
                assert(string_views(exprs@) == e0.push(call@));
            }
            let called = function_name_from_call_exec(&call);
            if called.len() > 0 && !holds_entry(internal, &called) {
                let ghost n0 = string_views(internal@);
                internal.push(string_of(&called));
                assert(string_views(internal@) == n0.push(called@));
                if followed_call_exec(&lib, &call) {
                    let next = string_of(&nested_call_exec(&lib, &call, &called));
                    let (ni, ne, nc, nn) = self.analyze_library_function_recursive(
                        active,
                        library,
                        next.as_str(),
                        src,
                        depth + 1,
                    );
                    proof {
                        lemma_finds_something(
                            (ni, ne, nc, nn),
                            *src,
                            library@,
                            next@,
                            self.max_depth,
                            (depth + 1) as usize,
                            string_views(active@),
                        );
                    }
                    let ghost s0 = string_views(certs@);
                    append_new(certs, &nc);
                    if ni.len() > 0 || ne.len() > 0 || nc.len() > 0 || nn.len() > 0 {
                        let ghost ch0 = nested@;
                        let chain = DeepCallChain {
                            external_call: next,
                            library: copy_str(library),
                            internal_calls: ni,
                            call_expressions: ne,
                            certificates: nc,
                            source_available: true,
                            source_file: Some(copy_str(file_path.as_str())),
                            nested_chains: nn,
                        };
                        nested.push(chain);
                        proof {
                            assert(nested@.drop_last() == ch0);
                            assert(add_chain_certs(c0s, nested@) == add_new(add_chain_certs(c0s, ch0), string_views(nc@)));
                            assert(followed_calls(nested@) == followed_calls(ch0).push(next@));
                            assert(chain_from(nested@.last(), *src, library@, file_path@, cs, self.max_depth, depth + 1, string_views(old(active)@))) by {
                                assert(cs[i as int] == call@);
                            }
                            assert(string_views(certs@).to_set() =~= c0 + nested_cert_set(nested@));
                        }
                    } else {
                        assert(string_views(nc@) =~= Seq::<Seq<char>>::empty());
                        assert(string_views(certs@).to_set() =~= s0.to_set());
                        assert(string_views(certs@) == s0);
                    }
                }
            }
            i = i + 1;
        }
        assert(cs.take(calls@.len() as int) == cs);
    }

    /// Follows the function that `function_call` names into the library's
    /// source: the calls it makes, the functions those call, down to the depth
    /// limit, and the certificates met on the way.
    fn analyze_library_function_recursive(
        &self,
        active: &mut Vec<String>,
        library: &str,
        function_call: &str,
        src: &LibrarySource,
        depth: usize,
    ) -> (r: (Vec<String>, Vec<String>, Vec<String>, Vec<DeepCallChain>))
        ensures
            final(active)@ == old(active)@,
            trace_result(
                r,
                *src,
                library@,
                function_call@,
                self.max_depth,
                depth,
                string_views(old(active)@),
            ),
        decreases self.max_depth - depth, 1int,
    {
        if depth >= self.max_depth {
            return (no_strings(), no_strings(), no_strings(), Vec::new());
        }
        let call = chars_of(function_call);
        let name = match called_function_name_exec(&call) {
            Some(n) => n,
            None => return (no_strings(), no_strings(), no_strings(), Vec::new()),
        };
        let lib = chars_of(library);
        let id = concat_chars(&concat_chars(&lib, &chars_of("::")), &name);
        if holds_entry(active, &id) {
            return (no_strings(), no_strings(), no_strings(), Vec::new());
        }
        let ghost a0 = active@;
        let id_s = string_of(&id);
        let ghost id_sg = id_s;
        active.push(id_s);
        let name_s = string_of(&name);
        let mut internal = no_strings();
        let mut exprs = no_strings();
        let mut certs = no_strings();
        let mut nested: Vec<DeepCallChain> = Vec::new();
        let ghost calls = traced_calls(*src, library@, function_call@, name@);
        let ghost exprs_v = first_occurrences(calls);
        let ghost mut own_before: Set<Seq<char>> = Set::empty();
        match traced_file_exec(src, &lib, function_call, &name) {
            Some(i) => {
                let f = &src.files[i];
                match &f.content {
                    Some(c) => {
                        append_new(&mut certs, &certificates_from_source(c.as_str()));
                        if mentions_tls_exec(c.as_str()) {
                            let none = no_strings();
                            append_new(&mut certs, &find_certificates_from_call_chain(src, &none));
                        }
                    },
                    None => {},
                }
                let ghost from_content = string_views(certs@).to_set();
                match &f.syntax {
                    Some(tree) => {
                        let found_calls = calls_of_function(tree, name_s.as_str());
                        append_new(&mut certs, &certificates_from_calls(&found_calls));
                        let ghost after_calls = string_views(certs@).to_set();
                        self.trace_calls(
                            active,
                            library,
                            src,
                            &found_calls,
                            &f.path,
                            depth,
                            &mut internal,
                            &mut exprs,
                            &mut certs,
                            &mut nested,
                        );
                        let found = find_certificates_from_call_chain(src, &exprs);
                        append_new(&mut certs, &found);
                        proof {
                            assert(string_views(found_calls@) == calls);
                            own_before = from_content + (certs_from_calls(calls).to_set()
                                + chain_certificates(*src, exprs_v).to_set());
                            assert(string_views(certs@).to_set() =~= own_before + nested_cert_set(nested@));
                        }
                    },
                    None => {
                        proof {
                            own_before = from_content;
                            assert(nested_cert_set(nested@) == Set::<Seq<char>>::empty());
                            assert(string_views(certs@).to_set() =~= own_before + nested_cert_set(nested@));
                        }
                    },
                }
            },
            None => match fallback_file_exec(src, name_s.as_str()) {
                Some(j) => match &src.files[j].syntax {
                    Some(tree) => {
                        let found_calls = calls_of_function(tree, name_s.as_str());
                        self.trace_calls(
                            active,
                            library,
                            src,
                            &found_calls,
                            &src.files[j].path,
                            depth,
                            &mut internal,
                            &mut exprs,
                            &mut certs,
                            &mut nested,
                        );
                        assert(string_views(certs@).to_set() =~= own_before + nested_cert_set(nested@));
                    },
                    None => {
                        assert(nested_cert_set(nested@) == Set::<Seq<char>>::empty());
                        assert(string_views(certs@).to_set() =~= own_before + nested_cert_set(nested@));
                    },
                },
                None => {
                    assert(nested_cert_set(nested@) == Set::<Seq<char>>::empty());
                    assert(string_views(certs@).to_set() =~= own_before + nested_cert_set(nested@));
                },
            },
        }
        let additional = certificates_from_calls(&exprs);
        append_new(&mut certs, &additional);
        active.pop();
        assert(active@ == a0);
        proof {
            assert(string_views(exprs@) == exprs_v);
            assert(own_certificates(*src, library@, function_call@, name@) =~= own_before + certs_from_calls(exprs_v).to_set());
            assert(string_views(certs@).to_set() =~= own_certificates(*src, library@, function_call@, name@) + nested_cert_set(nested@));
            assert(string_views(certs@).no_duplicates());
            let ghost nm = called_function_name(function_call@)->0;
            assert(nm == name@);
            assert(!stops_at(self.max_depth, depth, library@, function_call@, string_views(a0)));
            assert(string_views(internal@) == internal_names(calls));
            assert(string_views(exprs@) == first_occurrences(calls));
            assert(distinct_with(string_views(certs@), own_certificates(*src, library@, function_call@, nm) + nested_cert_set(nested@)));
            assert(string_views(a0.push(id_sg)) == string_views(a0).push(id@));
            assert(followed_calls(nested@) == chain_calls(*src, library@, calls, self.max_depth, (depth + 1) as usize, string_views(a0).push(library@ + "::"@ + nm)));
            assert(forall|k: int| 0 <= k < nested@.len() ==> chain_from(#[trigger] nested@[k], *src, library@, traced_path(*src, library@, function_call@, nm), calls, self.max_depth, depth + 1, string_views(a0).push(library@ + "::"@ + nm)));
        }
        (internal, exprs, certs, nested)
    }
}

// ---------------------------------------------------------------------------
// External calls
// ---------------------------------------------------------------------------

/// Names that look like a library before a dot but are builtins.
pub open spec fn skipped_library(l: Seq<char>) -> bool {
    l == "print"@ || l == "len"@ || l == "str"@ || l == "int"@ || l == "float"@
}

/// The library that a call expression calls into, unless it is a builtin.
pub open spec fn edge_library(callee: Seq<char>) -> Option<Seq<char>> {
    match library_name(callee) {
        Some(l) => if skipped_library(l) {
            None
        } else {
            Some(l)
        },
        None => None,
    }
}

/// The call edges that call into a library: each callee text with its library.
pub open spec fn external_edges(edges: Seq<CallEdge>) -> Seq<(Seq<char>, Seq<char>)>
    decreases edges.len(),
{
    if edges.len() == 0 {
        Seq::empty()
    } else {
        let rest = external_edges(edges.drop_last());
        match edge_library(edges.last().callee_expr_text@) {
            Some(l) => rest.push((edges.last().callee_expr_text@, l)),
            None => rest,
        }
    }
}

/// The source of the library called `name`.
pub open spec fn named_library(name: Seq<char>) -> spec_fn(LibrarySource) -> bool {
    |l: LibrarySource| l.name@ == name
}

/// `c` is what following `callee`, a call into `library`, gives from the top.
pub open spec fn external_chain(
    c: DeepCallChain,
    callee: Seq<char>,
    library: Seq<char>,
    libraries: Seq<LibrarySource>,
    max_depth: usize,
) -> bool {
    &&& c.external_call@ == callee
    &&& c.library@ == library
    &&& match first_from(libraries, named_library(library), 0) {
        None => {
            &&& !c.source_available
            &&& c.source_file is None
            &&& c.internal_calls@.len() == 0
            &&& c.call_expressions@.len() == 0
            &&& c.certificates@.len() == 0
            &&& c.nested_chains@.len() == 0
        },
        Some(k) => {
            let src = libraries[k];
            &&& c.source_available
            &&& c.source_file matches Some(f) && f@ == match function_file(src, callee) {
                Some(j) => src.files@[j].display@,
                None => src.display@,
            }
            &&& if stops_at(max_depth, 0, library, callee, Seq::empty()) {
                &&& c.internal_calls@.len() == 0
                &&& c.call_expressions@.len() == 0
                &&& c.nested_chains@.len() == 0
                &&& distinct_with(
                    string_views(c.certificates@),
                    chain_certificates(src, Seq::empty()).to_set(),
                )
                &&& string_views(c.certificates@) == add_new(
                    Seq::empty(),
                    chain_certificates(src, Seq::empty()),
                )
            } else {
                let name = called_function_name(callee)->0;
                let calls = traced_calls(src, library, callee, name);
                &&& string_views(c.internal_calls@) == internal_names(calls)
                &&& string_views(c.call_expressions@) == first_occurrences(calls)
                &&& distinct_with(
                    string_views(c.certificates@),
                    own_certificates(src, library, callee, name) + nested_cert_set(
                        c.nested_chains@,
                    ) + chain_certificates(src, first_occurrences(calls)).to_set(),
                )
                &&& string_views(c.certificates@) == add_new(
                    certificate_order(src, library, callee, name, c.nested_chains@),
                    chain_certificates(src, first_occurrences(calls)),
                )
                &&& forall|k: int|
                    0 <= k < c.nested_chains@.len() ==> chain_from(
                        #[trigger] c.nested_chains@[k],
                        src,
                        library,
                        traced_path(src, library, callee, name),
                        calls,
                        max_depth,
                        1,
                        seq![library + "::"@ + name],
                    )
                &&& followed_calls(c.nested_chains@) == chain_calls(
                    src,
                    library,
                    calls,
                    max_depth,
                    1,
                    seq![library + "::"@ + name],
                )
            }
        },
    }
}

/// The chain that follows the external call `external_call`.
pub open spec fn chain_of_call(external_call: Seq<char>) -> spec_fn(DeepCallChain) -> bool {
    |c: DeepCallChain| c.external_call@ == external_call
}

fn skipped_library_exec(l: &[char]) -> (b: bool)
    ensures
        b == skipped_library(l@),
{
    chars_eq(l, &chars_of("print")) || chars_eq(l, &chars_of("len")) || chars_eq(l, &chars_of("str"))
        || chars_eq(l, &chars_of("int")) || chars_eq(l, &chars_of("float"))
}

fn library_index(libraries: &Vec<LibrarySource>, name: &[char]) -> (r: Option<usize>)
    ensures
        as_pos(r) == first_from(libraries@, named_library(name@), 0),
        r matches Some(k) ==> k < libraries@.len(),
{
    let mut i: usize = 0;
    while i < libraries.len()
        invariant
            i <= libraries@.len(),
            forall|j: int| 0 <= j < i ==> !named_library(name@)(libraries@[j]),
        decreases libraries.len() - i,
    {
        let n = chars_of(libraries[i].name.as_str());
        if chars_eq(&n, name) {
            assert(named_library(name@)(libraries@[i as int]));
            proof {
                lemma_first_from(libraries@, named_library(name@), 0);
            }
            return Some(i);
        }
        i = i + 1;
    }
    proof {
        lemma_first_from(libraries@, named_library(name@), 0);
    }
    None
}

impl DeepCallTracker {
    /// A tracker with no chains, no workspace, following calls five deep.
    pub fn new() -> (t: DeepCallTracker)
        ensures
            t.chains().len() == 0,
            t.workspace() is None,
            t.depth_limit() == 5,
    {
        DeepCallTracker { call_chains: Vec::new(), workspace_path: None, max_depth: 5 }
    }

    /// A tracker that searches the environments of `workspace_path` for libraries.
    pub fn with_workspace_path(workspace_path: String) -> (t: DeepCallTracker)
        ensures
            t.chains().len() == 0,
            t.workspace() == Some(workspace_path@),
            t.depth_limit() == 5,
    {
        DeepCallTracker { call_chains: Vec::new(), workspace_path: Some(workspace_path), max_depth: 5 }
    }

    /// The same tracker, following calls `depth` deep.
    pub fn with_max_depth(self, depth: usize) -> (t: DeepCallTracker)
        ensures
            t.chains() == self.chains(),
            t.workspace() == self.workspace(),
            t.depth_limit() == depth,
    {
        let mut t = self;
        t.max_depth = depth;
        t
    }

    /// The workspace path, if one was given.
    pub fn workspace_path(&self) -> (r: Option<&String>)
        ensures
            match r {
                Some(p) => self.workspace() == Some(p@),
                None => self.workspace() is None,
            },
    {
        match &self.workspace_path {
            Some(p) => Some(p),
            None => None,
        }
    }

    /// Follows every call edge that calls into a library (builtins such as
    /// `print` aside) into that library's source, when `libraries` holds it,
    /// and records one chain per such edge, in order.
    pub fn analyze_external_calls(
        &mut self,
        call_graph: &CallGraph,
        symbol_store: &SymbolStore,
        libraries: &Vec<LibrarySource>,
    ) -> (r: Result<(), NTreeError>)
        ensures
            r is Ok,
            final(self).workspace() == old(self).workspace(),
            final(self).depth_limit() == old(self).depth_limit(),
            final(self).chains().len() == old(self).chains().len() + external_edges(
                call_graph.edges@,
            ).len(),
            forall|k: int|
                0 <= k < old(self).chains().len() ==> final(self).chains()[k] == old(
                    self,
                ).chains()[k],
            forall|k: int|
                0 <= k < external_edges(call_graph.edges@).len() ==> external_chain(
                    #[trigger] final(self).chains()[old(self).chains().len() + k],
                    external_edges(call_graph.edges@)[k].0,
                    external_edges(call_graph.edges@)[k].1,
                    libraries@,
                    old(self).depth_limit(),
                ),
    {
        let edges = call_graph.get_all_call_edges();
        let ghost n0 = self.call_chains@.len();
        let ghost old_chains = self.call_chains@;
        let mut i: usize = 0;
        while i < edges.len()
            invariant
                i <= edges@.len(),
                edges@ == call_graph.edges@,
                self.max_depth == old(self).max_depth,
                self.workspace_path == old(self).workspace_path,
                n0 == old_chains.len(),
                old_chains == old(self).call_chains@,
                self.call_chains@.len() == n0 + external_edges(edges@.take(i as int)).len(),
                forall|k: int| 0 <= k < n0 ==> self.call_chains@[k] == old_chains[k],
                forall|k: int|
                    0 <= k < external_edges(edges@.take(i as int)).len() ==> external_chain(
                        #[trigger] self.call_chains@[n0 + k],
                        external_edges(edges@.take(i as int))[k].0,
                        external_edges(edges@.take(i as int))[k].1,
                        libraries@,
                        self.max_depth,
                    ),
            decreases edges.len() - i,
        {
            let ghost before = external_edges(edges@.take(i as int));
            assert(edges@.take(i + 1).drop_last() == edges@.take(i as int));
            assert(edges@.take(i + 1).last() == edges@[i as int]);
            let callee_s = &edges[i].callee_expr_text;
            let callee = chars_of(callee_s.as_str());
            match library_name_exec(&callee) {
                Some(lib) => {
                    if !skipped_library_exec(&lib) {
                        let chain = self.follow_external_call(callee_s, &lib, libraries);
                        let ghost pre = self.call_chains@;
                        self.call_chains.push(chain);
                        proof {
                            assert(external_edges(edges@.take(i + 1)) == before.push((callee@, lib@)));
                            assert forall|k: int|
                                0 <= k < external_edges(edges@.take(i + 1)).len() implies external_chain(
                                #[trigger] self.call_chains@[n0 + k],
                                external_edges(edges@.take(i + 1))[k].0,
                                external_edges(edges@.take(i + 1))[k].1,
                                libraries@,
                                self.max_depth,
                            ) by {
                                if k < before.len() {
                                    assert(self.call_chains@[n0 + k] == pre[n0 + k]);
                                }
                            }
                        }
                    } else {
                        assert(external_edges(edges@.take(i + 1)) == before);
                    }
                },
                None => {
                    assert(external_edges(edges@.take(i + 1)) == before);
                },
            }
            i = i + 1;
        }
        assert(edges@.take(edges@.len() as int) == edges@);
        Ok(())
    }

    /// The chain for one external call into `library`.
    fn follow_external_call(&self, callee: &String, library: &[char], libraries: &Vec<LibrarySource>) -> (c: DeepCallChain)
        ensures
            external_chain(c, callee@, library@, libraries@, self.max_depth),
    {
        let lib_s = string_of(library);
        match library_index(libraries, library) {
            Some(k) => {
                let src = &libraries[k];
                let mut active: Vec<String> = Vec::new();
                assert(string_views(active@) =~= Seq::<Seq<char>>::empty());
                let (internal, exprs, mut certs, nested) = self.analyze_library_function_recursive(
                    &mut active,
                    lib_s.as_str(),
                    callee.as_str(),
                    src,
                    0,
                );
                let ghost first_certs = string_views(certs@);
                let found = find_certificates_from_call_chain(src, &exprs);
                append_new(&mut certs, &found);
                let source_file = match find_function_file(src, callee.as_str()) {
                    Some(j) => copy_str(src.files[j].display.as_str()),
                    None => copy_str(src.display.as_str()),
                };
                let c = DeepCallChain {
                    external_call: copy_str(callee.as_str()),
                    library: lib_s,
                    internal_calls: internal,
                    call_expressions: exprs,
                    certificates: certs,
                    source_available: true,
                    source_file: Some(source_file),
                    nested_chains: nested,
                };
                proof {
                    let ghost src_v = libraries@[k as int];
                    if stops_at(self.max_depth, 0, library@, callee@, Seq::empty()) {
                        assert(string_views(exprs@) =~= Seq::<Seq<char>>::empty());
                        assert(first_certs =~= Seq::<Seq<char>>::empty());
                        assert(string_views(c.certificates@).to_set() =~= chain_certificates(src_v, Seq::empty()).to_set());
                    } else {
                        let name = called_function_name(callee@)->0;
                        let calls = traced_calls(src_v, library@, callee@, name);
                        assert(string_views(c.certificates@).to_set() =~= own_certificates(src_v, library@, callee@, name) + nested_cert_set(
                            c.nested_chains@) + chain_certificates(src_v, first_occurrences(calls)).to_set());
                    }
                }
                c
            },
            None => {
                DeepCallChain {
                    external_call: copy_str(callee.as_str()),
                    library: lib_s,
                    internal_calls: Vec::new(),
                    call_expressions: Vec::new(),
                    certificates: Vec::new(),
                    source_available: false,
                    source_file: None,
                    nested_chains: Vec::new(),
                }
            },
        }
    }

    /// All chains found, in order.
    pub fn get_call_chains(&self) -> (r: &[DeepCallChain])
        ensures
            r@ == self.chains(),
    {
        self.call_chains.as_slice()
    }

    /// The first chain that follows `external_call`.
    pub fn get_call_chain(&self, external_call: &str) -> (r: Option<&DeepCallChain>)
        ensures
            match first_from(self.chains(), chain_of_call(external_call@), 0) {
                Some(k) => r == Some(&self.chains()[k]),
                None => r is None,
            },
    {
        let mut i: usize = 0;
        while i < self.call_chains.len()
            invariant
                i <= self.call_chains@.len(),
                forall|j: int| 0 <= j < i ==> !chain_of_call(external_call@)(self.call_chains@[j]),
            decreases self.call_chains.len() - i,
        {
            if str_eq(self.call_chains[i].external_call.as_str(), external_call) {
                assert(chain_of_call(external_call@)(self.call_chains@[i as int]));
                proof {
                    lemma_first_from(self.call_chains@, chain_of_call(external_call@), 0);
                }
                return Some(&self.call_chains[i]);
            }
            i = i + 1;
        }
        proof {
            lemma_first_from(self.call_chains@, chain_of_call(external_call@), 0);
        }
        None
    }
}

impl Default for DeepCallTracker {
    fn default() -> (t: DeepCallTracker)
        ensures
            t.chains().len() == 0,
            t.workspace() is None,
            t.depth_limit() == 5,
    {
        DeepCallTracker::new()
    }
}

/// `t` is a fresh tracker, with the given workspace, after it followed the
/// external calls among `edges`.
pub open spec fn tracked_edges(
    t: DeepCallTracker,
    edges: Seq<CallEdge>,
    libraries: Seq<LibrarySource>,
    workspace: Option<Seq<char>>,
) -> bool {
    &&& t.workspace() == workspace
    &&& t.depth_limit() == 5
    &&& t.chains().len() == external_edges(edges).len()
    &&& forall|k: int|
        0 <= k < external_edges(edges).len() ==> external_chain(
            #[trigger] t.chains()[k],
            external_edges(edges)[k].0,
            external_edges(edges)[k].1,
            libraries,
            5,
        )
}

} // verus!
