use ntree::locate::{join_path_exec, library_candidates};

fn strings(v: &[&str]) -> Vec<String> {
    v.iter().map(|s| s.to_string()).collect()
}

#[test]
fn paths_are_joined_as_on_unix() {
    assert_eq!(join_path_exec("a", "b"), "a/b");
    assert_eq!(join_path_exec("a/", "b"), "a/b");
    assert_eq!(join_path_exec("", "b"), "b");
    assert_eq!(join_path_exec("a", "/b"), "/b");
    assert_eq!(join_path_exec("a", ""), "a/");
    assert_eq!(join_path_exec("/", ".venv"), "/.venv");
}

#[test]
fn virtual_environments_are_searched_from_each_start_upwards() {
    let starts = vec![strings(&["/w/p", "/w", "/"])];
    let c = library_candidates("requests", &starts, &None, &None, &None);
    assert_eq!(c.len(), 3 * 3 * 8);
    assert_eq!(c[0], "/w/p/.venv/lib/site-packages/requests");
    assert_eq!(c[1], "/w/p/.venv/Lib/site-packages/requests");
    assert_eq!(c[2], "/w/p/.venv/lib/python3.12/site-packages/requests");
    assert_eq!(c[6], "/w/p/.venv/lib/python3.8/site-packages/requests");
    assert_eq!(c[7], "/w/p/.venv/lib/python3/site-packages/requests");
    assert_eq!(c[8], "/w/p/venv/lib/site-packages/requests");
    assert_eq!(c[16], "/w/p/env/lib/site-packages/requests");
    assert_eq!(c[24], "/w/.venv/lib/site-packages/requests");
    assert_eq!(c[48], "/.venv/lib/site-packages/requests");
    assert_eq!(c[71], "/env/lib/python3/site-packages/requests");
}

#[test]
fn at_most_five_directories_are_searched_per_start() {
    let deep = vec![strings(&["/a/b/c/d/e/f", "/a/b/c/d/e", "/a/b/c/d", "/a/b/c", "/a/b", "/a", "/"])];
    let c = library_candidates("x", &deep, &None, &None, &None);
    assert_eq!(c.len(), 5 * 24);
    assert_eq!(c[4 * 24], "/a/b/.venv/lib/site-packages/x");
    let two = vec![strings(&["/w"]), strings(&["/cwd", "/"])];
    let c = library_candidates("x", &two, &None, &None, &None);
    assert_eq!(c.len(), 3 * 24);
    assert_eq!(c[24], "/cwd/.venv/lib/site-packages/x");
}

#[test]
fn search_path_then_user_site_packages_follow() {
    let pp = Some("a::/b:".to_string());
    let home = Some("/home/u".to_string());
    let appdata = Some("C:/Users/u/AppData".to_string());
    let c = library_candidates("x", &Vec::new(), &pp, &home, &appdata);
    assert_eq!(
        c,
        strings(&[
            "a/x",
            "x",
            "/b/x",
            "x",
            "/home/u/.local/lib/python3.12/site-packages/x",
            "/home/u/.local/lib/python3.11/site-packages/x",
            "/home/u/.local/lib/python3.10/site-packages/x",
            "/home/u/.local/lib/python3.9/site-packages/x",
            "/home/u/.local/lib/python3.8/site-packages/x",
            "C:/Users/u/AppData/Python/Python312/site-packages/x",
            "C:/Users/u/AppData/Python/Python311/site-packages/x",
            "C:/Users/u/AppData/Python/Python310/site-packages/x",
            "C:/Users/u/AppData/Python/Python39/site-packages/x",
            "C:/Users/u/AppData/Python/Python38/site-packages/x",
        ])
    );
    let empty = Some(String::new());
    assert_eq!(library_candidates("x", &Vec::new(), &empty, &None, &None), strings(&["x"]));
}
