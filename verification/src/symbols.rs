//! The symbol store and the fluent symbol search over it.
use vstd::prelude::*;
use crate::deep_call::{first_from, lemma_first_from};
use crate::error::NTreeError;
use crate::models::TopLevelSymbol;
use crate::result_sets::deref_all;
use crate::text::{concat2, concat3, contains_seq, copy_str, starts_with, str_contains, str_eq, str_starts_with};

verus! {

/// `regex::Regex`, a compiled regular expression.
#[verifier::external_type_specification]
#[verifier::external_body]
pub struct ExRegex(regex::Regex);

/// `regex::Error`, why a pattern did not compile.
#[verifier::external_type_specification]
#[verifier::external_body]
pub struct ExRegexError(regex::Error);

/// Whether `regex::Regex::new` accepts `pattern`.
pub uninterp spec fn regex_compiles(pattern: Seq<char>) -> bool;

/// Whether the regular expression `pattern` matches somewhere in `text`.
pub uninterp spec fn regex_finds(pattern: Seq<char>, text: Seq<char>) -> bool;

/// `regex::Regex::new`: compiles `pattern`. The contract names when it
/// succeeds; the regex syntax is not restated.
#[verifier::external_body]
fn regex_new(pattern: &str) -> (r: Result<regex::Regex, regex::Error>)
    ensures
        r is Ok <==> regex_compiles(pattern@),
{
    regex::Regex::new(pattern)
}

/// A compiled pattern together with the text it was compiled from.
pub struct CompiledPattern {
    source: String,
    re: regex::Regex,
}

impl CompiledPattern {
    pub closed spec fn source(&self) -> Seq<char> {
        self.source@
    }

    /// Compiles `pattern`.
    pub fn compile(pattern: &str) -> (r: Option<CompiledPattern>)
        ensures
            r is Some <==> regex_compiles(pattern@),
            r matches Some(c) ==> c.source() == pattern@,
    {
        match regex_new(pattern) {
            Ok(re) => Some(CompiledPattern { source: copy_str(pattern), re }),
            Err(_) => None,
        }
    }

    /// `regex::Regex::is_match`: whether the pattern matches somewhere in
    /// `text`. A `CompiledPattern` is only made by `compile`, so its regex is
    /// the one compiled from `source()`; the contract names the answer for
    /// that pattern and text.
    #[verifier::external_body]
    pub(crate) fn is_match(&self, text: &str) -> (b: bool)
        ensures
            b == regex_finds(self.source(), text@),
    {
        self.re.is_match(text)
    }
}

/// `pattern` anchored at both ends, so that it must match a whole name.
pub open spec fn anchored(pattern: Seq<char>) -> Seq<char> {
    "^(?:"@ + pattern + ")$"@
}

/// All symbols found in the analysed files.
#[derive(Debug, Clone)]
pub struct SymbolStore {
    pub symbols: Vec<TopLevelSymbol>,
}

/// Counts over a symbol store.
#[derive(Debug, Clone, Copy)]
pub struct SymbolStoreStats {
    pub total_symbols: usize,
}

/// A symbol called exactly `name`.
pub open spec fn symbol_named(name: Seq<char>) -> spec_fn(TopLevelSymbol) -> bool {
    |s: TopLevelSymbol| s.name@ == name
}

/// A symbol whose name begins with `prefix`.
pub open spec fn symbol_name_starts(prefix: Seq<char>) -> spec_fn(TopLevelSymbol) -> bool {
    |s: TopLevelSymbol| starts_with(s.name@, prefix)
}

/// A symbol whose name contains `pattern`.
pub open spec fn symbol_name_contains(pattern: Seq<char>) -> spec_fn(TopLevelSymbol) -> bool {
    |s: TopLevelSymbol| contains_seq(s.name@, pattern)
}

/// A symbol whose whole name matches the regular expression `pattern`.
pub open spec fn symbol_name_matches(pattern: Seq<char>) -> spec_fn(TopLevelSymbol) -> bool {
    |s: TopLevelSymbol| regex_finds(anchored(pattern), s.name@)
}

/// A symbol of kind `kind`.
pub open spec fn symbol_kind_is(kind: Seq<char>) -> spec_fn(TopLevelSymbol) -> bool {
    |s: TopLevelSymbol| s.kind@ == kind
}

/// A symbol whose file path contains `pattern`.
pub open spec fn symbol_file_contains(pattern: Seq<char>) -> spec_fn(TopLevelSymbol) -> bool {
    |s: TopLevelSymbol| contains_seq(s.file_path@, pattern)
}

/// A constructor in any supported language: `new`, `__init__` or `constructor`.
pub open spec fn is_constructor_name(n: Seq<char>) -> bool {
    n == "new"@ || n == "__init__"@ || n == "constructor"@
}

/// A symbol named like a constructor.
pub open spec fn symbol_is_constructor() -> spec_fn(TopLevelSymbol) -> bool {
    |s: TopLevelSymbol| is_constructor_name(s.name@)
}

/// The ids of the symbols in `s`.
pub open spec fn symbol_ids(s: Seq<TopLevelSymbol>) -> Seq<Seq<char>> {
    s.map_values(|x: TopLevelSymbol| x.id@)
}

impl SymbolStore {
    /// An empty store.
    pub fn new() -> (s: SymbolStore)
        ensures
            s.symbols@.len() == 0,
    {
        SymbolStore { symbols: Vec::new() }
    }

    /// Adds a symbol at the end.
    pub fn add_symbol(&mut self, symbol: TopLevelSymbol)
        ensures
            final(self).symbols@ == old(self).symbols@.push(symbol),
    {
        self.symbols.push(symbol);
    }

    /// All symbols, in the order added.
    pub fn get_all_symbols(&self) -> (r: &[TopLevelSymbol])
        ensures
            r@ == self.symbols@,
    {
        self.symbols.as_slice()
    }

    /// The id of the first symbol called exactly `name`.
    pub fn find_by_name(&self, name: &str) -> (r: Result<String, NTreeError>)
        ensures
            r matches Ok(id) ==> exists|i: int|
                0 <= i < self.symbols@.len() && self.symbols@[i].name@ == name@ && id@
                    == self.symbols@[i].id@ && forall|j: int| 0 <= j < i ==> self.symbols@[j].name@ != name@,
            r is Err ==> forall|i: int| 0 <= i < self.symbols@.len() ==> self.symbols@[i].name@ != name@,
            r matches Err(e) ==> e is InvalidInput,
            match first_from(self.symbols@, symbol_named(name@), 0) {
                Some(i) => r matches Ok(id) && id@ == self.symbols@[i].id@,
                None => r matches Err(NTreeError::InvalidInput(m)) && m@ == "Symbol not found: "@ + name@,
            },
    {
        proof {
            lemma_first_from(self.symbols@, symbol_named(name@), 0);
        }
        for i in 0..self.symbols.len()
            invariant
                forall|j: int| 0 <= j < i ==> self.symbols@[j].name@ != name@,
                match first_from(self.symbols@, symbol_named(name@), 0) {
                    Some(k) => i <= k < self.symbols@.len() && self.symbols@[k].name@ == name@
                        && forall|j: int| 0 <= j < k ==> !symbol_named(name@)(self.symbols@[j]),
                    None => forall|j: int| 0 <= j < self.symbols@.len() ==> !symbol_named(name@)(self.symbols@[j]),
                },
        {
            if str_eq(self.symbols[i].name.as_str(), name) {
                assert(symbol_named(name@)(self.symbols@[i as int]));
                return Ok(copy_str(self.symbols[i].id.as_str()));
            }
        }
        Err(NTreeError::InvalidInput(concat2("Symbol not found: ", name)))
    }

    /// The ids of the symbols whose names begin with `pattern`, in order.
    pub fn find_symbols_matching(&self, pattern: &str) -> (r: Result<Vec<String>, NTreeError>)
        ensures
            r matches Ok(ids) && crate::complexity::string_views(ids@) == symbol_ids(
                self.symbols@.filter(symbol_name_starts(pattern@)),
            ),
    {
        let ghost pred = symbol_name_starts(pattern@);
        let mut ids: Vec<String> = Vec::new();
        for i in 0..self.symbols.len()
            invariant
                pred == symbol_name_starts(pattern@),
                crate::complexity::string_views(ids@) == symbol_ids(self.symbols@.take(i as int).filter(pred)),
        {
            reveal_with_fuel(Seq::<TopLevelSymbol>::filter, 1);
            assert(self.symbols@.take(i + 1).drop_last() == self.symbols@.take(i as int));
            if str_starts_with(self.symbols[i].name.as_str(), pattern) {
                let ghost before = ids@;
                ids.push(self.symbols[i].id.clone());
                assert(crate::complexity::string_views(ids@) =~= crate::complexity::string_views(before).push(self.symbols@[i as int].id@));
            }
            assert(self.symbols@.take(i + 1).filter(pred) == if pred(self.symbols@[i as int]) {
                self.symbols@.take(i as int).filter(pred).push(self.symbols@[i as int])
            } else {
                self.symbols@.take(i as int).filter(pred)
            });
        }
        assert(self.symbols@.take(self.symbols@.len() as int) == self.symbols@);
        Ok(ids)
    }

    /// Counts over the store.
    pub fn stats(&self) -> (s: SymbolStoreStats)
        ensures
            s.total_symbols == self.symbols@.len(),
    {
        SymbolStoreStats { total_symbols: self.symbols.len() }
    }
}

/// Keeps the references whose symbols satisfy a filter, in order.
fn retain_kind<'a>(v: Vec<&'a TopLevelSymbol>, kind: &str) -> (r: Vec<&'a TopLevelSymbol>)
    ensures
        deref_all(r@) == deref_all(v@).filter(symbol_kind_is(kind@)),
{
    let ghost pred = symbol_kind_is(kind@);
    let mut r: Vec<&'a TopLevelSymbol> = Vec::new();
    for i in 0..v.len()
        invariant
            pred == symbol_kind_is(kind@),
            deref_all(r@) == deref_all(v@).take(i as int).filter(pred),
    {
        reveal_with_fuel(Seq::<TopLevelSymbol>::filter, 1);
        assert(deref_all(v@).take(i + 1).drop_last() == deref_all(v@).take(i as int));
        if str_eq(v[i].kind.as_str(), kind) {
            r.push(v[i]);
        }
        assert(deref_all(r@) == deref_all(v@).take(i + 1).filter(pred));
    }
    assert(deref_all(v@).take(v@.len() as int) == deref_all(v@));
    r
}

fn retain_file<'a>(v: Vec<&'a TopLevelSymbol>, file_pattern: &str) -> (r: Vec<&'a TopLevelSymbol>)
    ensures
        deref_all(r@) == deref_all(v@).filter(symbol_file_contains(file_pattern@)),
{
    let ghost pred = symbol_file_contains(file_pattern@);
    let mut r: Vec<&'a TopLevelSymbol> = Vec::new();
    for i in 0..v.len()
        invariant
            pred == symbol_file_contains(file_pattern@),
            deref_all(r@) == deref_all(v@).take(i as int).filter(pred),
    {
        reveal_with_fuel(Seq::<TopLevelSymbol>::filter, 1);
        assert(deref_all(v@).take(i + 1).drop_last() == deref_all(v@).take(i as int));
        if str_contains(v[i].file_path.as_str(), file_pattern) {
            r.push(v[i]);
        }
        assert(deref_all(r@) == deref_all(v@).take(i + 1).filter(pred));
    }
    assert(deref_all(v@).take(v@.len() as int) == deref_all(v@));
    r
}

fn retain_name<'a>(v: Vec<&'a TopLevelSymbol>, pattern: &str) -> (r: Vec<&'a TopLevelSymbol>)
    ensures
        deref_all(r@) == deref_all(v@).filter(symbol_name_contains(pattern@)),
{
    let ghost pred = symbol_name_contains(pattern@);
    let mut r: Vec<&'a TopLevelSymbol> = Vec::new();
    for i in 0..v.len()
        invariant
            pred == symbol_name_contains(pattern@),
            deref_all(r@) == deref_all(v@).take(i as int).filter(pred),
    {
        reveal_with_fuel(Seq::<TopLevelSymbol>::filter, 1);
        assert(deref_all(v@).take(i + 1).drop_last() == deref_all(v@).take(i as int));
        if str_contains(v[i].name.as_str(), pattern) {
            r.push(v[i]);
        }
        assert(deref_all(r@) == deref_all(v@).take(i + 1).filter(pred));
    }
    assert(deref_all(v@).take(v@.len() as int) == deref_all(v@));
    r
}

/// References to all symbols of a store, in order.
fn all_refs<'a>(store: &'a SymbolStore) -> (r: Vec<&'a TopLevelSymbol>)
    ensures
        deref_all(r@) == store.symbols@,
{
    let mut r: Vec<&'a TopLevelSymbol> = Vec::new();
    for i in 0..store.symbols.len()
        invariant
            r@.len() == i,
            forall|j: int| 0 <= j < i ==> *#[trigger] r@[j] == store.symbols@[j],
    {
        r.push(&store.symbols[i]);
    }
    assert(deref_all(r@) =~= store.symbols@);
    r
}

/// The symbols whose whole names match the regular expression `pattern`, or
/// the error for a pattern that does not compile.
pub fn find_symbols_regex<'a>(store: &'a SymbolStore, pattern: &str) -> (r: Result<
    Vec<&'a TopLevelSymbol>,
    NTreeError,
>)
    ensures
        r is Ok <==> regex_compiles(anchored(pattern@)),
        r matches Ok(v) ==> deref_all(v@) == store.symbols@.filter(symbol_name_matches(pattern@)),
        r matches Err(e) ==> (e matches NTreeError::InvalidInput(m) && m@ == "Invalid regex pattern: "@
            + pattern@),
{
    let full = concat3("^(?:", pattern, ")$");
    match CompiledPattern::compile(full.as_str()) {
        None => Err(NTreeError::InvalidInput(concat2("Invalid regex pattern: ", pattern))),
        Some(re) => {
            let ghost pred = symbol_name_matches(pattern@);
            let mut r: Vec<&'a TopLevelSymbol> = Vec::new();
            for i in 0..store.symbols.len()
                invariant
                    pred == symbol_name_matches(pattern@),
                    re.source() == anchored(pattern@),
                    deref_all(r@) == store.symbols@.take(i as int).filter(pred),
            {
                reveal_with_fuel(Seq::<TopLevelSymbol>::filter, 1);
                assert(store.symbols@.take(i + 1).drop_last() == store.symbols@.take(i as int));
                if re.is_match(store.symbols[i].name.as_str()) {
                    r.push(&store.symbols[i]);
                }
                assert(deref_all(r@) == store.symbols@.take(i + 1).filter(pred));
            }
            assert(store.symbols@.take(store.symbols@.len() as int) == store.symbols@);
            Ok(r)
        },
    }
}

/// What a symbol search selects: by name (a substring, or a regular
/// expression over the whole name), then by kind, then by file.
pub open spec fn search_spec(
    all: Seq<TopLevelSymbol>,
    pattern: Option<Seq<char>>,
    use_regex: bool,
    kind: Option<Seq<char>>,
    file: Option<Seq<char>>,
) -> Seq<TopLevelSymbol> {
    let by_name = match pattern {
        Some(p) => if use_regex {
            all.filter(symbol_name_matches(p))
        } else {
            all.filter(symbol_name_contains(p))
        },
        None => all,
    };
    let by_kind = match kind {
        Some(k) => by_name.filter(symbol_kind_is(k)),
        None => by_name,
    };
    match file {
        Some(f) => by_kind.filter(symbol_file_contains(f)),
        None => by_kind,
    }
}

/// A regular-expression search whose pattern does not compile.
pub open spec fn search_fails(pattern: Option<String>, use_regex: bool) -> bool {
    match pattern {
        Some(p) => use_regex && !regex_compiles(anchored(p@)),
        None => false,
    }
}

/// The view of an optional string.
pub open spec fn opt_view(o: Option<String>) -> Option<Seq<char>> {
    match o {
        Some(s) => Some(s@),
        None => None,
    }
}

/// Symbol search result set with fluent builder pattern.
pub struct SymbolResultSet<'a> {
    pub store: &'a SymbolStore,
    pub pattern: Option<String>,
    pub use_regex: bool,
    pub kind_filter: Option<String>,
    pub file_filter: Option<String>,
}

impl<'a> SymbolResultSet<'a> {
    /// Create a new symbol result set with no filter.
    pub fn new(store: &'a SymbolStore) -> (r: Self)
        ensures
            r.store == store,
            r.pattern is None,
            !r.use_regex,
            r.kind_filter is None,
            r.file_filter is None,
    {
        SymbolResultSet { store, pattern: None, use_regex: false, kind_filter: None, file_filter: None }
    }

    /// Set name pattern for searching.
    pub fn named(self, pattern: &str) -> (r: Self)
        ensures
            r.store == self.store,
            opt_view(r.pattern) == Some(pattern@),
            r.use_regex == self.use_regex,
            r.kind_filter == self.kind_filter,
            r.file_filter == self.file_filter,
    {
        SymbolResultSet { pattern: Some(copy_str(pattern)), ..self }
    }

    /// Enable regex pattern matching.
    pub fn regex(self, enabled: bool) -> (r: Self)
        ensures
            r.store == self.store,
            r.pattern == self.pattern,
            r.use_regex == enabled,
            r.kind_filter == self.kind_filter,
            r.file_filter == self.file_filter,
    {
        SymbolResultSet { use_regex: enabled, ..self }
    }

    /// Filter by symbol kind (function, class, struct, etc.).
    pub fn kind(self, kind: &str) -> (r: Self)
        ensures
            r.store == self.store,
            r.pattern == self.pattern,
            r.use_regex == self.use_regex,
            opt_view(r.kind_filter) == Some(kind@),
            r.file_filter == self.file_filter,
    {
        SymbolResultSet { kind_filter: Some(copy_str(kind)), ..self }
    }

    /// Filter by file path pattern.
    pub fn in_file(self, file_pattern: &str) -> (r: Self)
        ensures
            r.store == self.store,
            r.pattern == self.pattern,
            r.use_regex == self.use_regex,
            r.kind_filter == self.kind_filter,
            opt_view(r.file_filter) == Some(file_pattern@),
    {
        SymbolResultSet { file_filter: Some(copy_str(file_pattern)), ..self }
    }

    /// Execute the search and return matching symbols, in store order. Fails
    /// only for a regular expression that does not compile.
    pub fn search(&self) -> (r: Result<Vec<&'a TopLevelSymbol>, NTreeError>)
        ensures
            r is Err <==> search_fails(self.pattern, self.use_regex),
            r matches Err(e) ==> (e matches NTreeError::InvalidInput(m) && m@ == "Invalid regex pattern: "@
                + self.pattern->Some_0@),
            r matches Ok(v) ==> deref_all(v@) == search_spec(
                self.store.symbols@,
                opt_view(self.pattern),
                self.use_regex,
                opt_view(self.kind_filter),
                opt_view(self.file_filter),
            ),
    {
        let mut results = all_refs(self.store);
        match &self.pattern {
            Some(pattern) => {
                if self.use_regex {
                    results = find_symbols_regex(self.store, pattern.as_str())?;
                } else {
                    results = retain_name(results, pattern.as_str());
                }
            },
            None => {},
        }
        match &self.kind_filter {
            Some(kind) => {
                results = retain_kind(results, kind.as_str());
            },
            None => {},
        }
        match &self.file_filter {
            Some(file_pattern) => {
                results = retain_file(results, file_pattern.as_str());
            },
            None => {},
        }
        Ok(results)
    }

    /// Find constructor functions across all languages: the symbols named
    /// `new`, `__init__` or `constructor`, in store order.
    pub fn constructors(&self) -> (r: Result<Vec<&'a TopLevelSymbol>, NTreeError>)
        ensures
            r matches Ok(v) && deref_all(v@) == self.store.symbols@.filter(symbol_is_constructor()),
    {
        let ghost pred = symbol_is_constructor();
        let mut r: Vec<&'a TopLevelSymbol> = Vec::new();
        for i in 0..self.store.symbols.len()
            invariant
                pred == symbol_is_constructor(),
                deref_all(r@) == self.store.symbols@.take(i as int).filter(pred),
        {
            reveal_with_fuel(Seq::<TopLevelSymbol>::filter, 1);
            assert(self.store.symbols@.take(i + 1).drop_last() == self.store.symbols@.take(i as int));
            let n = self.store.symbols[i].name.as_str();
            if str_eq(n, "new") || str_eq(n, "__init__") || str_eq(n, "constructor") {
                r.push(&self.store.symbols[i]);
            }
            assert(deref_all(r@) == self.store.symbols@.take(i + 1).filter(pred));
        }
        assert(self.store.symbols@.take(self.store.symbols@.len() as int) == self.store.symbols@);
        Ok(r)
    }

    /// Get all symbols without filtering.
    pub fn all(&self) -> (r: Vec<&'a TopLevelSymbol>)
        ensures
            deref_all(r@) == self.store.symbols@,
    {
        all_refs(self.store)
    }

    /// Count matching symbols.
    pub fn count(&self) -> (r: Result<usize, NTreeError>)
        ensures
            r is Err <==> search_fails(self.pattern, self.use_regex),
            r matches Ok(n) ==> n == search_spec(
                self.store.symbols@,
                opt_view(self.pattern),
                self.use_regex,
                opt_view(self.kind_filter),
                opt_view(self.file_filter),
            ).len(),
    {
        match self.search() {
            Ok(results) => Ok(results.len()),
            Err(e) => Err(e),
        }
    }
}

/// A symbol added to a store that holds none of its name is found by that
/// name: looking it up gives its id.
pub proof fn lemma_added_symbol_found(before: Seq<TopLevelSymbol>, sym: TopLevelSymbol)
    requires
        forall|i: int| 0 <= i < before.len() ==> before[i].name@ != sym.name@,
    ensures
        first_from(before.push(sym), symbol_named(sym.name@), 0) == Some(before.len() as int),
{
    let after = before.push(sym);
    lemma_first_from(after, symbol_named(sym.name@), 0);
    assert(symbol_named(sym.name@)(after[before.len() as int]));
    assert forall|j: int| 0 <= j < before.len() implies !symbol_named(sym.name@)(after[j]) by {
        assert(after[j] == before[j]);
    }
}

} // verus!
