use ntree::error::NTreeError;
use ntree::models::TopLevelSymbol;
use ntree::symbols::{SymbolResultSet, SymbolStore};

fn sym(file: &str, name: &str, kind: &str) -> TopLevelSymbol {
    TopLevelSymbol::new(
        file.to_string(),
        name.to_string(),
        kind.to_string(),
        format!("{}::{}", file, name),
        "1:1-2:1".to_string(),
    )
}

fn store() -> SymbolStore {
    let mut s = SymbolStore::new();
    s.add_symbol(sym("src/vec.rs", "new", "function"));
    s.add_symbol(sym("src/vec.rs", "new_iterator", "function"));
    s.add_symbol(sym("src/iter.rs", "new_panic", "function"));
    s.add_symbol(sym("app/model.py", "__init__", "method"));
    s.add_symbol(sym("web/app.js", "constructor", "method"));
    s.add_symbol(sym("src/api.rs", "get_name", "function"));
    s.add_symbol(sym("src/cfg.rs", "test_cfg_build", "function"));
    s
}

fn names(v: &[&TopLevelSymbol]) -> Vec<String> {
    v.iter().map(|s| s.name.clone()).collect()
}

#[test]
fn regex_search_finds_exact_constructors() {
    let s = store();
    let found = SymbolResultSet::new(&s).named("new").regex(true).kind("function").search().unwrap();
    assert_eq!(names(&found), vec!["new"]);
}

#[test]
fn plain_search_matches_substrings() {
    let s = store();
    let found = SymbolResultSet::new(&s).named("new").search().unwrap();
    assert_eq!(names(&found), vec!["new", "new_iterator", "new_panic"]);
}

#[test]
fn regex_getters_and_tests() {
    let s = store();
    let getters = SymbolResultSet::new(&s).named("^get_\\w+").regex(true).search().unwrap();
    assert_eq!(names(&getters), vec!["get_name"]);
    let tests = SymbolResultSet::new(&s).named(".*test.*").regex(true).search().unwrap();
    assert_eq!(names(&tests), vec!["test_cfg_build"]);
}

#[test]
fn constructors_in_every_language() {
    let s = store();
    let by_regex = SymbolResultSet::new(&s).named("^(new|__init__|constructor)$").regex(true).search().unwrap();
    assert_eq!(names(&by_regex), vec!["new", "__init__", "constructor"]);
    let direct = SymbolResultSet::new(&s).constructors().unwrap();
    assert_eq!(names(&direct), vec!["new", "__init__", "constructor"]);
}

#[test]
fn file_and_kind_filters() {
    let s = store();
    let in_cfg = SymbolResultSet::new(&s).in_file("cfg").kind("function").search().unwrap();
    assert_eq!(names(&in_cfg), vec!["test_cfg_build"]);
    let methods = SymbolResultSet::new(&s).kind("method").count().unwrap();
    assert_eq!(methods, 2);
    assert_eq!(SymbolResultSet::new(&s).all().len(), 7);
}

#[test]
fn invalid_regex_is_an_invalid_input() {
    let s = store();
    match SymbolResultSet::new(&s).named("(").regex(true).search() {
        Err(NTreeError::InvalidInput(m)) => assert_eq!(m, "Invalid regex pattern: ("),
        other => panic!("unexpected {:?}", other.map(|v| v.len())),
    }
    assert!(SymbolResultSet::new(&s).named("(").search().unwrap().is_empty());
}

#[test]
fn regex_search_matches_whole_names() {
    let s = store();
    let found = SymbolResultSet::new(&s).named("new_[a-z]+").regex(true).search().unwrap();
    assert_eq!(names(&found), vec!["new_iterator", "new_panic"]);
    assert!(SymbolResultSet::new(&s).named("ew").regex(true).search().unwrap().is_empty());
}

#[test]
fn lookups_by_name_and_prefix() {
    let s = store();
    assert_eq!(s.find_by_name("new").unwrap(), "src/vec.rs::new");
    match s.find_by_name("missing") {
        Err(NTreeError::InvalidInput(m)) => assert_eq!(m, "Symbol not found: missing"),
        other => panic!("unexpected {:?}", other),
    }
    let matching = s.find_symbols_matching("new_").unwrap();
    assert_eq!(matching, vec!["src/vec.rs::new_iterator".to_string(), "src/iter.rs::new_panic".to_string()]);
    assert_eq!(s.stats().total_symbols, 7);
    assert_eq!(s.get_all_symbols().len(), 7);
}

#[test]
fn an_added_symbol_is_found_by_its_name() {
    let mut s = SymbolStore::new();
    s.add_symbol(sym("a.py", "alpha", "function"));
    assert!(s.find_by_name("beta").is_err());
    s.add_symbol(sym("b.py", "beta", "function"));
    assert_eq!(s.find_by_name("beta").unwrap(), "b.py::beta");
    s.add_symbol(sym("c.py", "beta", "function"));
    assert_eq!(s.find_by_name("beta").unwrap(), "b.py::beta");
}
