use ntree::analysis_result::CallGraph;
use ntree::deep_call::{
    bundle_names, called_function_name_exec, find_certificates_from_call_chain, find_function_file,
    paths_written_in, ssl_library_names, CertificateFile, CertificateOrigin, DeepCallTracker, LibraryFile,
    LibrarySource, ResolvedPath,
};
use ntree::syntax::{call_site_bodies, calls_of_function, SyntaxNode};
use ntree::models::{CallEdge, CallKind, TopLevelSymbol};
use ntree::symbols::SymbolStore;

const API: &str = "def get(url, params=None, **kwargs):\n    return request('get', url, params=params, **kwargs)\n";
const SESSIONS: &str = "class Session:\n    def request(self, method, url):\n        verify = merge_setting(verify, self.verify)\n        prep = self.prepare_request(req)\n        return self.send(prep)\n\n    def send(self, request, **kwargs):\n        return adapter.send(request, verify=True)\n";
const BUNDLE: &str = "Default certificate bundle: /venv/certifi/cacert.pem";

fn push(out: &mut Vec<SyntaxNode>, kind: &str, text: &str, parent: Option<usize>, depth: usize) -> usize {
    out.push(SyntaxNode { kind: kind.to_string(), text: text.to_string(), parent, depth });
    out.len() - 1
}

/// A function definition under `parent`: its name, and a block holding the calls.
fn def(out: &mut Vec<SyntaxNode>, parent: usize, depth: usize, name: &str, calls: &[&str]) {
    let f = push(out, "function_definition", &format!("def {}(): ...", name), Some(parent), depth);
    push(out, "identifier", name, Some(f), depth + 1);
    let b = push(out, "block", "...", Some(f), depth + 1);
    for c in calls {
        push(out, "call", c, Some(b), depth + 2);
    }
}

/// A module whose top level holds the given functions.
fn module(defs: &[(&str, &[&str])]) -> Option<Vec<SyntaxNode>> {
    let mut out = Vec::new();
    let m = push(&mut out, "module", "...", None, 0);
    for (name, calls) in defs {
        def(&mut out, m, 1, name, calls);
    }
    Some(out)
}

/// A module holding one class with the given methods.
fn class_module(methods: &[(&str, &[&str])]) -> Option<Vec<SyntaxNode>> {
    let mut out = Vec::new();
    let m = push(&mut out, "module", "...", None, 0);
    let c = push(&mut out, "class_definition", "class Session: ...", Some(m), 1);
    let b = push(&mut out, "block", "...", Some(c), 2);
    for (name, calls) in methods {
        def(&mut out, b, 3, name, calls);
    }
    Some(out)
}

fn lib_file(name: &str, content: &str, syntax: Option<Vec<SyntaxNode>>) -> LibraryFile {
    LibraryFile {
        path: format!("/venv/requests/{}", name),
        display: format!("/real/venv/requests/{}", name),
        at_root: true,
        file_name: name.to_string(),
        content: Some(content.to_string()),
        syntax,
    }
}

fn requests_source() -> LibrarySource {
    LibrarySource {
        name: "requests".to_string(),
        display: "/real/venv/requests".to_string(),
        is_dir: true,
        files: vec![
            lib_file("api.py", API, module(&[("get", &["request('get', url, params=params, **kwargs)"])])),
            lib_file(
                "sessions.py",
                SESSIONS,
                class_module(&[
                    ("request", &["self.prepare_request(req)", "self.send(prep)"]),
                    ("send", &["adapter.send(request, verify=True)"]),
                ]),
            ),
        ],
        resolved_paths: vec![ResolvedPath {
            raw: "/srv/cert/client.pem".to_string(),
            key: "/srv/cert/client.pem".to_string(),
            display: "/srv/cert/client.pem".to_string(),
        }],
        bundled_certificates: vec![cert_file(CertificateOrigin::Certifi, "/venv/certifi/cacert.pem")],
    }
}

/// An existing file that may hold certificates, shown by its canonical path.
fn cert_file(origin: CertificateOrigin, path: &str) -> CertificateFile {
    CertificateFile {
        origin,
        file_name: path.rsplit('/').next().unwrap_or("").to_string(),
        display: path.to_string(),
        key: path.to_string(),
    }
}

fn graph(calls: &[&str]) -> CallGraph {
    let mut g = CallGraph::new();
    for c in calls {
        g.add_call_edge(CallEdge { caller: "main".to_string(), callee_expr_text: c.to_string(), callee: None, kind: CallKind::Unresolved });
    }
    g
}

fn strings(v: &[&str]) -> Vec<String> {
    v.iter().map(|s| s.to_string()).collect()
}

#[test]
fn library_calls_are_followed_into_the_source() {
    let mut t = DeepCallTracker::new();
    let g = graph(&["requests.get(url)"]);
    t.analyze_external_calls(&g, &SymbolStore::new(), &vec![requests_source()]).unwrap();
    let chains = t.get_call_chains();
    assert_eq!(chains.len(), 1);
    let c = &chains[0];
    assert_eq!(c.external_call, "requests.get(url)");
    assert_eq!(c.library, "requests");
    assert!(c.source_available);
    assert_eq!(c.source_file.as_deref(), Some("/real/venv/requests/api.py"));
    assert_eq!(c.internal_calls, strings(&["request"]));
    assert_eq!(c.call_expressions, strings(&["request('get', url, params=params, **kwargs)"]));
    assert_eq!(c.certificates, strings(&["verify=True", BUNDLE]));
    assert_eq!(c.nested_chains.len(), 1);
    let n = &c.nested_chains[0];
    assert_eq!(n.external_call, "requests.request");
    assert_eq!(n.source_file.as_deref(), Some("/venv/requests/api.py"));
    assert_eq!(n.internal_calls, strings(&["prepare_request", "send"]));
    assert_eq!(n.nested_chains.len(), 1);
    assert_eq!(n.nested_chains[0].external_call, "requests.send");
    assert_eq!(n.nested_chains[0].source_file.as_deref(), Some("/venv/requests/sessions.py"));
    assert_eq!(n.nested_chains[0].call_expressions, strings(&["adapter.send(request, verify=True)"]));
    assert!(n.nested_chains[0].nested_chains.is_empty());
}

#[test]
fn depth_limit_zero_follows_nothing() {
    let mut t = DeepCallTracker::with_workspace_path("/work".to_string()).with_max_depth(0);
    t.analyze_external_calls(&graph(&["requests.get(url)"]), &SymbolStore::new(), &vec![requests_source()]).unwrap();
    let c = &t.get_call_chains()[0];
    assert!(c.internal_calls.is_empty() && c.call_expressions.is_empty() && c.nested_chains.is_empty());
    assert_eq!(c.certificates, strings(&[BUNDLE]));
    assert_eq!(t.workspace_path().map(|s| s.as_str()), Some("/work"));
}

#[test]
fn libraries_without_source_give_empty_chains() {
    let mut t = DeepCallTracker::default();
    t.analyze_external_calls(&graph(&["numpy.array(x)", "print(x)", "len(y)"]), &SymbolStore::new(), &vec![requests_source()])
        .unwrap();
    let chains = t.get_call_chains();
    assert_eq!(chains.len(), 1);
    assert_eq!(chains[0].library, "numpy");
    assert!(!chains[0].source_available);
    assert!(chains[0].source_file.is_none());
    assert!(chains[0].certificates.is_empty());
    assert!(t.get_call_chain("numpy.array(x)").is_some());
    assert!(t.get_call_chain("print(x)").is_none());
}

#[test]
fn called_function_names_come_after_the_first_dot() {
    let name = |s: &str| called_function_name_exec(&s.chars().collect::<Vec<_>>()).map(|v| v.iter().collect::<String>());
    assert_eq!(name("requests.get(url)"), Some("get".to_string()));
    assert_eq!(name("requests.adapters.send"), Some("adapters".to_string()));
    assert_eq!(name("plain(x)"), None);
}

#[test]
fn preferred_files_are_searched_first() {
    let src = requests_source();
    assert_eq!(find_function_file(&src, "requests.get(url)"), Some(0));
    assert_eq!(find_function_file(&src, "requests.send"), Some(1));
    assert_eq!(find_function_file(&src, "requests.missing"), None);
    assert_eq!(find_function_file(&src, "nodot"), None);
}

#[test]
fn chain_certificates_resolve_named_files_then_bundles() {
    let src = requests_source();
    let calls = strings(&["ctx.load_cert_chain(\"/srv/cert/client.pem\")", "open(\"/nowhere/x.pem\")"]);
    let certs = find_certificates_from_call_chain(&src, &calls);
    assert_eq!(certs, strings(&["Certificate file: /srv/cert/client.pem", BUNDLE]));
    let mut twice = requests_source();
    twice.bundled_certificates.push(cert_file(CertificateOrigin::Nearby, "/venv/certifi/cacert.pem"));
    assert_eq!(find_certificates_from_call_chain(&twice, &[]), strings(&[BUNDLE]));
}

#[test]
fn bundles_are_reported_by_origin_and_nearby_files_by_extension() {
    let mut src = requests_source();
    src.resolved_paths.clear();
    src.bundled_certificates = vec![
        cert_file(CertificateOrigin::SslLibrary("urllib3".to_string()), "/venv/urllib3/cert.pem"),
        cert_file(CertificateOrigin::Nearby, "/venv/README.txt"),
        cert_file(CertificateOrigin::Nearby, "/venv/keys/server.key"),
        cert_file(CertificateOrigin::Nearby, "/venv/keys/root.cer"),
        cert_file(CertificateOrigin::Nearby, "/venv/keys/ca.crt"),
        cert_file(CertificateOrigin::Certifi, "/venv/urllib3/cert.pem"),
    ];
    assert_eq!(
        find_certificates_from_call_chain(&src, &[]),
        strings(&[
            "Certificate from urllib3: /venv/urllib3/cert.pem",
            "Certificate file: /venv/keys/server.key",
            "Certificate file: /venv/keys/root.cer",
            "Certificate file: /venv/keys/ca.crt",
        ])
    );
}

#[test]
fn bundle_search_lists() {
    assert_eq!(ssl_library_names(), strings(&["urllib3", "ssl", "OpenSSL", "cryptography"]));
    assert_eq!(bundle_names(), strings(&["cacert.pem", "cert.pem", "ca-bundle.crt", "ca-certificates.crt"]));
}

#[test]
fn calls_are_read_from_the_bodies_of_matching_definitions() {
    let mut t = Vec::new();
    let m = push(&mut t, "module", "...", None, 0);
    // def run(): a.b(x); print(y); len(z)   with an attribute under the first call
    let f = push(&mut t, "function_definition", "def run(): ...", Some(m), 1);
    push(&mut t, "identifier", " run ", Some(f), 2);
    let b = push(&mut t, "block", "...", Some(f), 2);
    let c = push(&mut t, "call", " a.b(x) ", Some(b), 3);
    push(&mut t, "attribute", "a.b", Some(c), 4);
    push(&mut t, "call", "print(y)", Some(b), 3);
    push(&mut t, "call", "len(z)", Some(b), 3);
    // a nested definition of the same name is not searched on its own
    let inner = push(&mut t, "function_definition", "def run(): ...", Some(b), 3);
    push(&mut t, "identifier", "run", Some(inner), 4);
    let ib = push(&mut t, "block", "...", Some(inner), 4);
    push(&mut t, "call", "inner()", Some(ib), 5);
    // a later sibling definition of the same name is searched, through its expression statement
    let g = push(&mut t, "function_definition", "def run(): go()", Some(m), 1);
    push(&mut t, "identifier", "run", Some(g), 2);
    let e = push(&mut t, "expression_statement", "go()", Some(g), 2);
    push(&mut t, "call", "go()", Some(e), 3);
    // another function is skipped
    let h = push(&mut t, "function_definition", "def other(): ...", Some(m), 1);
    push(&mut t, "identifier", "other", Some(h), 2);
    let hb = push(&mut t, "block", "...", Some(h), 2);
    push(&mut t, "call", "skipped()", Some(hb), 3);
    assert_eq!(calls_of_function(&t, "run"), strings(&["a.b(x)", "a.b(x)", "inner()", "go()"]));
    assert_eq!(calls_of_function(&t, "other"), strings(&["skipped()"]));
    assert!(calls_of_function(&t, "missing").is_empty());
}

#[test]
fn paths_written_in_calls_are_collected_for_resolution() {
    let mut t = Vec::new();
    let m = push(&mut t, "module", "...", None, 0);
    push(&mut t, "call", "  ctx.load_cert_chain(\"/srv/cert/client.pem\")  ", Some(m), 1);
    push(&mut t, "string", "ctx.load_cert_chain(\"/srv/other.pem\")", Some(m), 1);
    push(&mut t, "call", "f(x)", Some(m), 1);
    let files = vec![
        lib_file("a.py", "", Some(t)),
        lib_file("b.py", "", None),
    ];
    assert_eq!(paths_written_in(&files), strings(&["/srv/cert/client.pem"]));
    assert!(paths_written_in(&Vec::new()).is_empty());
}

#[test]
fn top_level_function_bodies_are_named_by_their_callers() {
    let mut t = Vec::new();
    let m = push(&mut t, "module", "...", None, 0);
    let f = push(&mut t, "function_definition", "def run(): ...", Some(m), 1);
    push(&mut t, "identifier", " run ", Some(f), 2);
    let run_body = push(&mut t, "block", "...", Some(f), 2);
    let inner = push(&mut t, "function_definition", "def inner(): ...", Some(run_body), 3);
    push(&mut t, "identifier", "inner", Some(inner), 4);
    push(&mut t, "block", "...", Some(inner), 4);
    let g = push(&mut t, "function_definition", "def short(): go()", Some(m), 1);
    push(&mut t, "identifier", "short", Some(g), 2);
    push(&mut t, "expression_statement", "go()", Some(g), 2);
    let h = push(&mut t, "function_definition", "def helper(): ...", Some(m), 1);
    push(&mut t, "identifier", "helper", Some(h), 2);
    let helper_body = push(&mut t, "block", "...", Some(h), 2);
    let a = push(&mut t, "function_definition", "def (): ...", Some(m), 1);
    let anon_body = push(&mut t, "block", "...", Some(a), 2);
    let mut store = SymbolStore::new();
    store.add_symbol(TopLevelSymbol::new(
        "app.py".to_string(),
        "helper".to_string(),
        "function".to_string(),
        "sym-7".to_string(),
        "1:1".to_string(),
    ));
    assert_eq!(
        call_site_bodies(&t, "app.py", &store),
        vec![
            ("app.py::run".to_string(), run_body),
            ("sym-7".to_string(), helper_body),
            ("app.py::unknown".to_string(), anon_body),
        ]
    );
    assert!(call_site_bodies(&Vec::new(), "app.py", &store).is_empty());
}
