use ntree::call_text::{file_path_in_exec, function_name_from_call_exec, library_name_exec};
use ntree::certs::{certificates_from_calls, certificates_from_source, has_function_definition};

fn chars(s: &str) -> Vec<char> {
    s.chars().collect()
}

fn text(v: &[char]) -> String {
    v.iter().collect()
}

fn function_name(call: &str) -> String {
    text(&function_name_from_call_exec(&chars(call)))
}

fn library(call: &str) -> Option<String> {
    library_name_exec(&chars(call)).map(|v| text(&v))
}

#[test]
fn function_names_of_documented_calls() {
    assert_eq!(function_name("self._find_no_duplicates(name, domain, path)"), "_find_no_duplicates");
    assert_eq!(function_name("session.request(method=method, url=url, **kwargs)"), "request");
    assert_eq!(function_name("requests.get(url)"), "get");
    assert_eq!(function_name("merge_setting(a, b)"), "merge_setting");
    assert_eq!(function_name("  plain  "), "plain");
}

#[test]
fn library_names_of_documented_calls() {
    assert_eq!(library("requests.get(url)"), Some("requests".to_string()));
    assert_eq!(library("print(requests.get(url).text)"), Some("requests".to_string()));
    assert_eq!(library("std::vec::Vec::new"), Some("std".to_string()));
    assert_eq!(library("len(x)"), None);
    assert_eq!(library("str.join(x)"), None);
}

#[test]
fn library_names_need_a_leading_letter() {
    assert_eq!(library("_private.call(x)"), None);
    assert_eq!(library("9lives.call(x)"), None);
    assert_eq!(library("x = numpy.array(y)"), Some("numpy".to_string()));
}

#[test]
fn file_paths_are_found_quoted_or_bare() {
    let q = file_path_in_exec(&chars("open(\"/etc/ssl/client.pem\")")).map(|v| text(&v));
    assert_eq!(q, Some("/etc/ssl/client.pem".to_string()));
    let bare = file_path_in_exec(&chars("cert=/tmp/ca.crt, x")).map(|v| text(&v));
    assert_eq!(bare, Some("/tmp/ca.crt".to_string()));
    assert_eq!(file_path_in_exec(&chars("open(\"readme.txt\")")), None);
}

#[test]
fn verify_flag_is_a_certificate_parameter() {
    let certs = certificates_from_calls(&["requests.get(url, verify=False)".to_string()]);
    assert_eq!(certs, vec!["verify=False".to_string()]);
}

#[test]
fn ssl_context_files_are_reported_twice_over() {
    let certs = certificates_from_calls(&["ctx.load_cert_chain(\"/etc/ssl/client.pem\")".to_string()]);
    assert_eq!(
        certs,
        vec![
            "Certificate file: /etc/ssl/client.pem".to_string(),
            "SSL Certificate: /etc/ssl/client.pem".to_string(),
        ]
    );
}

#[test]
fn variables_are_not_certificates() {
    let certs = certificates_from_calls(&["session.get(url, cert=self.cert)".to_string()]);
    assert!(certs.is_empty());
}

#[test]
fn source_lines_give_certificates() {
    let certs = certificates_from_source("x = 1\nverify=True\n");
    assert_eq!(certs, vec!["verify=True".to_string()]);
    let files = certificates_from_source("BUNDLE = '/opt/certs/bundle.pem'\n");
    assert_eq!(files, vec!["Certificate file in source: /opt/certs/bundle.pem".to_string()]);
    let bare = certificates_from_source("ssl_cert=/opt/certs/server.crt\n");
    assert_eq!(bare, vec!["Certificate file in source: /opt/certs/server.crt".to_string()]);
}

#[test]
fn function_definitions_at_module_level_and_in_classes() {
    let module = "def get(url):\n    return request(url)\n";
    assert!(has_function_definition(module, "get", true));
    assert!(!has_function_definition(module, "post", true));
    let class = "class Session:\n    def request(self):\n        pass\n";
    assert!(!has_function_definition(class, "request", true));
    assert!(has_function_definition(class, "request", false));
}

#[test]
fn unquoted_paths_are_taken_whole() {
    let path = |s: &str| file_path_in_exec(&chars(s)).map(|v| text(&v));
    assert_eq!(path("cert=/path/to/cert.pem"), Some("/path/to/cert.pem".to_string()));
    assert_eq!(path("open(path=C:\\certs\\ca.crt)"), Some("C:\\certs\\ca.crt".to_string()));
    assert_eq!(path("é cert=/a/b.pem"), Some("/a/b.pem".to_string()));
    assert_eq!(path("éé=x.pem"), Some("x.pem".to_string()));
}

#[test]
fn a_longer_name_is_not_a_definition() {
    let module = "def request_all():\n    pass\n";
    assert!(!has_function_definition(module, "request", true));
    assert!(has_function_definition("def request (x):\n", "request", true));
    assert!(has_function_definition("def request", "request", true));
    assert!(!has_function_definition("def request2():\n", "request", false));
}

#[test]
fn certificates_found_in_more_calls_extend_those_found_in_fewer() {
    let calls: Vec<String> = vec![
        "ctx.load_cert_chain(\"/srv/a.pem\")".to_string(),
        "requests.get(url, verify=False)".to_string(),
        "open(\"/srv/b.crt\")".to_string(),
    ];
    let all = certificates_from_calls(&calls);
    for k in 0..=calls.len() {
        let some = certificates_from_calls(&calls[..k]);
        assert_eq!(&all[..some.len()], &some[..]);
    }
    assert!(certificates_from_calls(&[]).is_empty());
    let forms = ["Certificate file: ", "SSL Certificate: ", "cert=", "verify=", "ca_certs=", "certfile=", "keyfile="];
    assert!(all.iter().all(|e| forms.iter().any(|f| e.starts_with(f))));
    assert!(!all.is_empty());
}
