//! Where an installed Python library may lie: the paths searched for it, in
//! the order they are searched. Which of them exists is for the caller to
//! find out; the first one that exists holds the library.
use vstd::prelude::*;
use crate::complexity::string_views;
use crate::symbols::opt_view;
use crate::text::{chars_of, concat2, concat3, copy_str, find_from, find_from_exec, lemma_find_from, string_of_range};

verus! {

// ---------------------------------------------------------------------------
// Paths
// ---------------------------------------------------------------------------

/// `part` appended to the path `base`, as `Path::join` does on Unix: an
/// absolute `part` replaces `base`; otherwise a `/` goes between them unless
/// `base` is empty or already ends with one.
pub open spec fn join_path(base: Seq<char>, part: Seq<char>) -> Seq<char> {
    if part.len() > 0 && part[0] == '/' {
        part
    } else if base.len() == 0 || base.last() == '/' {
        base + part
    } else {
        base + seq!['/'] + part
    }
}

/// `part` appended to the path `base`, as `join_path` states it.
pub fn join_path_exec(base: &str, part: &str) -> (r: String)
    ensures
        r@ == join_path(base@, part@),
{
    let p = chars_of(part);
    if p.len() > 0 && p[0] == '/' {
        return copy_str(part);
    }
    let b = chars_of(base);
    if b.len() == 0 || b[b.len() - 1] == '/' {
        concat2(base, part)
    } else {
        proof {
            reveal_strlit("/");
        }
        concat3(base, "/", part)
    }
}

// ---------------------------------------------------------------------------
// Site-packages directories
// ---------------------------------------------------------------------------

/// `dir/name/site-packages`.
pub open spec fn site_dir(dir: Seq<char>, name: Seq<char>) -> Seq<char> {
    join_path(join_path(dir, name), "site-packages"@)
}

/// The site-packages directories of the virtual environment `venv`, in the
/// order they are tried: under `lib` and `Lib`, then under `lib` by Python
/// version, newest first.
pub open spec fn venv_sites(venv: Seq<char>) -> Seq<Seq<char>> {
    let lib = join_path(venv, "lib"@);
    seq![
        site_dir(venv, "lib"@),
        site_dir(venv, "Lib"@),
        site_dir(lib, "python3.12"@),
        site_dir(lib, "python3.11"@),
        site_dir(lib, "python3.10"@),
        site_dir(lib, "python3.9"@),
        site_dir(lib, "python3.8"@),
        site_dir(lib, "python3"@),
    ]
}

/// The user site-packages directories under the home directory `home`, by
/// Python version, newest first.
pub open spec fn home_sites(home: Seq<char>) -> Seq<Seq<char>> {
    let local = join_path(home, ".local/lib"@);
    seq![
        site_dir(local, "python3.12"@),
        site_dir(local, "python3.11"@),
        site_dir(local, "python3.10"@),
        site_dir(local, "python3.9"@),
        site_dir(local, "python3.8"@),
    ]
}

/// The Windows user site-packages directories under the application-data
/// directory `appdata`, by Python version, newest first.
pub open spec fn appdata_sites(appdata: Seq<char>) -> Seq<Seq<char>> {
    let python = join_path(appdata, "Python"@);
    seq![
        site_dir(python, "Python312"@),
        site_dir(python, "Python311"@),
        site_dir(python, "Python310"@),
        site_dir(python, "Python39"@),
        site_dir(python, "Python38"@),
    ]
}

fn site_dir_exec(dir: &str, name: &str) -> (r: String)
    ensures
        r@ == site_dir(dir@, name@),
{
    join_path_exec(&join_path_exec(dir, name), "site-packages")
}

fn venv_sites_exec(venv: &str) -> (r: Vec<String>)
    ensures
        string_views(r@) == venv_sites(venv@),
{
    let lib = join_path_exec(venv, "lib");
    let mut r: Vec<String> = Vec::new();
    r.push(site_dir_exec(venv, "lib"));
    r.push(site_dir_exec(venv, "Lib"));
    r.push(site_dir_exec(&lib, "python3.12"));
    r.push(site_dir_exec(&lib, "python3.11"));
    r.push(site_dir_exec(&lib, "python3.10"));
    r.push(site_dir_exec(&lib, "python3.9"));
    r.push(site_dir_exec(&lib, "python3.8"));
    r.push(site_dir_exec(&lib, "python3"));
    assert(string_views(r@) =~= venv_sites(venv@));
    r
}

fn home_sites_exec(home: &str) -> (r: Vec<String>)
    ensures
        string_views(r@) == home_sites(home@),
{
    let local = join_path_exec(home, ".local/lib");
    let mut r: Vec<String> = Vec::new();
    r.push(site_dir_exec(&local, "python3.12"));
    r.push(site_dir_exec(&local, "python3.11"));
    r.push(site_dir_exec(&local, "python3.10"));
    r.push(site_dir_exec(&local, "python3.9"));
    r.push(site_dir_exec(&local, "python3.8"));
    assert(string_views(r@) =~= home_sites(home@));
    r
}

fn appdata_sites_exec(appdata: &str) -> (r: Vec<String>)
    ensures
        string_views(r@) == appdata_sites(appdata@),
{
    let python = join_path_exec(appdata, "Python");
    let mut r: Vec<String> = Vec::new();
    r.push(site_dir_exec(&python, "Python312"));
    r.push(site_dir_exec(&python, "Python311"));
    r.push(site_dir_exec(&python, "Python310"));
    r.push(site_dir_exec(&python, "Python39"));
    r.push(site_dir_exec(&python, "Python38"));
    assert(string_views(r@) =~= appdata_sites(appdata@));
    r
}

// ---------------------------------------------------------------------------
// The search order
// ---------------------------------------------------------------------------

/// `library` in each of the directories `dirs`, in order.
pub open spec fn in_each(dirs: Seq<Seq<char>>, library: Seq<char>) -> Seq<Seq<char>> {
    dirs.map_values(|d: Seq<char>| join_path(d, library))
}

/// Where `library` may lie in the virtual environments `.venv`, `venv` and
/// `env` of the directory `dir`.
pub open spec fn dir_candidates(dir: Seq<char>, library: Seq<char>) -> Seq<Seq<char>> {
    in_each(venv_sites(join_path(dir, ".venv"@)), library) + in_each(
        venv_sites(join_path(dir, "venv"@)),
        library,
    ) + in_each(venv_sites(join_path(dir, "env"@)), library)
}

/// The directories searched from a start directory, given the start
/// directory and its ancestors, nearest first: at most five of them.
pub open spec fn searched_dirs(ancestors: Seq<Seq<char>>) -> Seq<Seq<char>> {
    if ancestors.len() <= 5 {
        ancestors
    } else {
        ancestors.take(5)
    }
}

/// Where `library` may lie in the virtual environments of the directories `dirs`.
pub open spec fn dirs_candidates(dirs: Seq<Seq<char>>, library: Seq<char>) -> Seq<Seq<char>>
    decreases dirs.len(),
{
    if dirs.len() == 0 {
        Seq::empty()
    } else {
        dirs_candidates(dirs.drop_last(), library) + dir_candidates(dirs.last(), library)
    }
}

/// Where `library` may lie in the virtual environments found from each start
/// directory, each given with its ancestors.
pub open spec fn starts_candidates(starts: Seq<Seq<Seq<char>>>, library: Seq<char>) -> Seq<Seq<char>>
    decreases starts.len(),
{
    if starts.len() == 0 {
        Seq::empty()
    } else {
        starts_candidates(starts.drop_last(), library) + dirs_candidates(
            searched_dirs(starts.last()),
            library,
        )
    }
}

/// The pieces of `s[i..]` between the occurrences of `c`, as `str::split` gives them.
pub open spec fn pieces_from(s: Seq<char>, c: char, i: int) -> Seq<Seq<char>>
    decreases s.len() - i,
{
    if i < 0 || i > s.len() {
        Seq::empty()
    } else {
        match find_from(s, seq![c], i) {
            Some(j) => {
                proof {
                    lemma_find_from(s, seq![c], i);
                }
                seq![s.subrange(i, j)] + pieces_from(s, c, j + 1)
            },
            None => seq![s.subrange(i, s.len() as int)],
        }
    }
}

/// The pieces of `s` between the occurrences of `c` (`str::split`).
pub open spec fn split_at(s: Seq<char>, c: char) -> Seq<Seq<char>> {
    pieces_from(s, c, 0)
}

/// Where `library` may lie, in the order searched: the virtual environments
/// found from each start directory and its ancestors, then each entry of the
/// search path `python_path` (split at `:`), then the user site-packages
/// under `home`, then those under `appdata`.
pub open spec fn search_order(
    library: Seq<char>,
    starts: Seq<Seq<Seq<char>>>,
    python_path: Option<Seq<char>>,
    home: Option<Seq<char>>,
    appdata: Option<Seq<char>>,
) -> Seq<Seq<char>> {
    starts_candidates(starts, library) + match python_path {
        Some(p) => in_each(split_at(p, ':'), library),
        None => Seq::empty(),
    } + match home {
        Some(h) => in_each(home_sites(h), library),
        None => Seq::empty(),
    } + match appdata {
        Some(a) => in_each(appdata_sites(a), library),
        None => Seq::empty(),
    }
}

// ---------------------------------------------------------------------------
// Where a library is looked for, written out
// ---------------------------------------------------------------------------

/// The places of `library` in the virtual environment `venv`, written out in
/// the order they are tried: `lib/site-packages`, `Lib/site-packages`, then
/// `lib/python3.X/site-packages` for X = 12, 11, 10, 9, 8, then
/// `lib/python3/site-packages`.
pub open spec fn venv_layout(venv: Seq<char>, library: Seq<char>) -> Seq<Seq<char>> {
    seq![
        venv + "/lib/site-packages/"@ + library,
        venv + "/Lib/site-packages/"@ + library,
        venv + "/lib/python3.12/site-packages/"@ + library,
        venv + "/lib/python3.11/site-packages/"@ + library,
        venv + "/lib/python3.10/site-packages/"@ + library,
        venv + "/lib/python3.9/site-packages/"@ + library,
        venv + "/lib/python3.8/site-packages/"@ + library,
        venv + "/lib/python3/site-packages/"@ + library,
    ]
}

proof fn lemma_join(a: Seq<char>, b: Seq<char>)
    requires
        a.len() > 0,
        a.last() != '/',
        b.len() > 0,
        b[0] != '/',
    ensures
        join_path(a, b) =~= a + seq!['/'] + b,
        join_path(a, b).len() > 0,
        join_path(a, b).last() == b.last(),
{
}

/// In a virtual environment `venv` (a path not ending in `/`), a library
/// (a relative name) is looked for exactly in the places `venv_layout`
/// writes out, in that order.
pub proof fn lemma_venv_places(venv: Seq<char>, library: Seq<char>)
    requires
        venv.len() > 0,
        venv.last() != '/',
        library.len() > 0,
        library[0] != '/',
    ensures
        in_each(venv_sites(venv), library) == venv_layout(venv, library),
{
    reveal_strlit("lib");
    reveal_strlit("Lib");
    reveal_strlit("site-packages");
    reveal_strlit("python3.12");
    reveal_strlit("python3.11");
    reveal_strlit("python3.10");
    reveal_strlit("python3.9");
    reveal_strlit("python3.8");
    reveal_strlit("python3");
    reveal_strlit("/lib/site-packages/");
    reveal_strlit("/Lib/site-packages/");
    reveal_strlit("/lib/python3.12/site-packages/");
    reveal_strlit("/lib/python3.11/site-packages/");
    reveal_strlit("/lib/python3.10/site-packages/");
    reveal_strlit("/lib/python3.9/site-packages/");
    reveal_strlit("/lib/python3.8/site-packages/");
    reveal_strlit("/lib/python3/site-packages/");
    let out = in_each(venv_sites(venv), library);
    let want = venv_layout(venv, library);
    lemma_join(venv, "lib"@);
    let lib = join_path(venv, "lib"@);
    lemma_join(venv, "lib"@);
    lemma_join(join_path(venv, "lib"@), "site-packages"@);
    lemma_join(site_dir(venv, "lib"@), library);
    assert(out[0] =~= want[0]);
    lemma_join(venv, "Lib"@);
    lemma_join(join_path(venv, "Lib"@), "site-packages"@);
    lemma_join(site_dir(venv, "Lib"@), library);
    assert(out[1] =~= want[1]);
    lemma_join(lib, "python3.12"@);
    lemma_join(join_path(lib, "python3.12"@), "site-packages"@);
    lemma_join(site_dir(lib, "python3.12"@), library);
    assert(out[2] =~= want[2]);
    lemma_join(lib, "python3.11"@);
    lemma_join(join_path(lib, "python3.11"@), "site-packages"@);
    lemma_join(site_dir(lib, "python3.11"@), library);
    assert(out[3] =~= want[3]);
    lemma_join(lib, "python3.10"@);
    lemma_join(join_path(lib, "python3.10"@), "site-packages"@);
    lemma_join(site_dir(lib, "python3.10"@), library);
    assert(out[4] =~= want[4]);
    lemma_join(lib, "python3.9"@);
    lemma_join(join_path(lib, "python3.9"@), "site-packages"@);
    lemma_join(site_dir(lib, "python3.9"@), library);
    assert(out[5] =~= want[5]);
    lemma_join(lib, "python3.8"@);
    lemma_join(join_path(lib, "python3.8"@), "site-packages"@);
    lemma_join(site_dir(lib, "python3.8"@), library);
    assert(out[6] =~= want[6]);
    lemma_join(lib, "python3"@);
    lemma_join(join_path(lib, "python3"@), "site-packages"@);
    lemma_join(site_dir(lib, "python3"@), library);
    assert(out[7] =~= want[7]);
    assert(out =~= want);
}

/// Searching from one directory `dir` (a path not ending in `/`), with no
/// search path and no user directories, looks for a library (a relative
/// name) in the virtual environments `dir/.venv`, `dir/venv` and `dir/env`,
/// each in the places `venv_layout` writes out, and nowhere else.
pub proof fn lemma_single_directory_search(dir: Seq<char>, library: Seq<char>)
    requires
        dir.len() > 0,
        dir.last() != '/',
        library.len() > 0,
        library[0] != '/',
    ensures
        search_order(library, seq![seq![dir]], None, None, None) == venv_layout(dir + "/.venv"@, library)
            + venv_layout(dir + "/venv"@, library) + venv_layout(dir + "/env"@, library),
{
    reveal_strlit(".venv");
    reveal_strlit("venv");
    reveal_strlit("env");
    reveal_strlit("/.venv");
    reveal_strlit("/venv");
    reveal_strlit("/env");
    lemma_join(dir, ".venv"@);
    lemma_join(dir, "venv"@);
    lemma_join(dir, "env"@);
    assert(join_path(dir, ".venv"@) =~= dir + "/.venv"@);
    assert(join_path(dir, "venv"@) =~= dir + "/venv"@);
    assert(join_path(dir, "env"@) =~= dir + "/env"@);
    lemma_venv_places(dir + "/.venv"@, library);
    lemma_venv_places(dir + "/venv"@, library);
    lemma_venv_places(dir + "/env"@, library);
    let starts = seq![seq![dir]];
    assert(searched_dirs(seq![dir]) == seq![dir]);
    assert(seq![dir].drop_last() =~= Seq::<Seq<char>>::empty());
    assert(seq![dir].last() == dir);
    assert(dirs_candidates(Seq::<Seq<char>>::empty(), library) == Seq::<Seq<char>>::empty());
    assert(dirs_candidates(seq![dir], library) == dirs_candidates(seq![dir].drop_last(), library)
        + dir_candidates(dir, library));
    assert(dirs_candidates(seq![dir], library) =~= dir_candidates(dir, library));
    assert(starts.drop_last() =~= Seq::<Seq<Seq<char>>>::empty());
    assert(starts.last() == seq![dir]);
    assert(starts_candidates(Seq::<Seq<Seq<char>>>::empty(), library) == Seq::<Seq<char>>::empty());
    assert(starts_candidates(starts, library) == starts_candidates(starts.drop_last(), library)
        + dirs_candidates(searched_dirs(starts.last()), library));
    assert(starts_candidates(starts, library) =~= dir_candidates(dir, library));
    assert(search_order(library, starts, None, None, None) =~= dir_candidates(dir, library));
}

/// The views of lists of strings.
pub open spec fn path_lists(v: Seq<Vec<String>>) -> Seq<Seq<Seq<char>>> {
    v.map_values(|l: Vec<String>| string_views(l@))
}

fn push_each(out: &mut Vec<String>, dirs: &Vec<String>, library: &str)
    ensures
        string_views(final(out)@) == string_views(old(out)@) + in_each(string_views(dirs@), library@),
{
    let ghost start = string_views(out@);
    let ghost d = string_views(dirs@);
    let mut i: usize = 0;
    while i < dirs.len()
        invariant
            i <= dirs@.len(),
            d == string_views(dirs@),
            string_views(out@) == start + in_each(d.take(i as int), library@),
        decreases dirs.len() - i,
    {
        let p = join_path_exec(dirs[i].as_str(), library);
        let ghost before = string_views(out@);
        out.push(p);
        proof {
            assert(string_views(out@) == before.push(p@));
            assert(in_each(d.take(i + 1), library@) =~= in_each(d.take(i as int), library@).push(p@));
        }
        i = i + 1;
    }
    assert(d.take(dirs@.len() as int) == d);
}

fn split_exec(s: &str, c: char) -> (r: Vec<String>)
    ensures
        string_views(r@) == split_at(s@, c),
{
    let text = chars_of(s);
    let sep = [c];
    assert(sep@ == seq![c]);
    let mut out: Vec<String> = Vec::new();
    let mut i: usize = 0;
    loop
        invariant
            i <= text@.len(),
            text@ == s@,
            sep@ == seq![c],
            split_at(s@, c) == string_views(out@) + pieces_from(s@, c, i as int),
        decreases text@.len() - i,
    {
        match find_from_exec(&text, &sep, i) {
            Some(j) => {
                proof {
                    lemma_find_from(s@, seq![c], i as int);
                }
                let piece = string_of_range(&text, i, j);
                let ghost before = string_views(out@);
                out.push(piece);
                assert(string_views(out@) == before.push(piece@));
                assert(pieces_from(s@, c, i as int) == seq![piece@] + pieces_from(s@, c, j + 1));
                assert(string_views(out@) + pieces_from(s@, c, j + 1) =~= before + pieces_from(
                    s@,
                    c,
                    i as int,
                ));
                i = j + 1;
            },
            None => {
                let piece = string_of_range(&text, i, text.len());
                let ghost before = string_views(out@);
                out.push(piece);
                assert(string_views(out@) == before.push(piece@));
                assert(pieces_from(s@, c, i as int) == seq![piece@]);
                assert(string_views(out@) =~= before + pieces_from(s@, c, i as int));
                return out;
            },
        }
    }
}

fn push_dir(out: &mut Vec<String>, dir: &str, library: &str)
    ensures
        string_views(final(out)@) == string_views(old(out)@) + dir_candidates(dir@, library@),
{
    let ghost start = string_views(out@);
    let dot_venv = venv_sites_exec(&join_path_exec(dir, ".venv"));
    push_each(out, &dot_venv, library);
    let venv = venv_sites_exec(&join_path_exec(dir, "venv"));
    push_each(out, &venv, library);
    let env = venv_sites_exec(&join_path_exec(dir, "env"));
    push_each(out, &env, library);
    assert(string_views(out@) =~= start + dir_candidates(dir@, library@));
}

fn push_start(out: &mut Vec<String>, ancestors: &Vec<String>, library: &str)
    ensures
        string_views(final(out)@) == string_views(old(out)@) + dirs_candidates(
            searched_dirs(string_views(ancestors@)),
            library@,
        ),
{
    let ghost start = string_views(out@);
    let ghost dirs = searched_dirs(string_views(ancestors@));
    let n: usize = if ancestors.len() <= 5 { ancestors.len() } else { 5 };
    assert(dirs.len() == n);
    let mut i: usize = 0;
    while i < n
        invariant
            i <= n <= ancestors@.len(),
            dirs == searched_dirs(string_views(ancestors@)),
            dirs.len() == n,
            forall|k: int| 0 <= k < n ==> #[trigger] dirs[k] == ancestors@[k]@,
            string_views(out@) == start + dirs_candidates(dirs.take(i as int), library@),
        decreases n - i,
    {
        let ghost before = string_views(out@);
        push_dir(out, ancestors[i].as_str(), library);
        proof {
            assert(dirs.take(i + 1).drop_last() == dirs.take(i as int));
            assert(dirs.take(i + 1).last() == ancestors@[i as int]@);
        }
        i = i + 1;
    }
    assert(dirs.take(n as int) == dirs);
}

fn push_starts(out: &mut Vec<String>, starts: &Vec<Vec<String>>, library: &str)
    ensures
        string_views(final(out)@) == string_views(old(out)@) + starts_candidates(
            path_lists(starts@),
            library@,
        ),
{
    let ghost start = string_views(out@);
    let ghost all = path_lists(starts@);
    let mut i: usize = 0;
    while i < starts.len()
        invariant
            i <= starts@.len(),
            all == path_lists(starts@),
            string_views(out@) == start + starts_candidates(all.take(i as int), library@),
        decreases starts.len() - i,
    {
        push_start(out, &starts[i], library);
        proof {
            assert(all.take(i + 1).drop_last() == all.take(i as int));
            assert(all.take(i + 1).last() == string_views(starts@[i as int]@));
        }
        i = i + 1;
    }
    assert(all.take(starts@.len() as int) == all);
}

/// Where `library` may lie, in the order it is searched for, as
/// `search_order` states it: `starts` holds each start directory with its
/// ancestors, nearest first; `python_path`, `home` and `appdata` are the
/// search path and the user directories, where they are set.
pub fn library_candidates(
    library: &str,
    starts: &Vec<Vec<String>>,
    python_path: &Option<String>,
    home: &Option<String>,
    appdata: &Option<String>,
) -> (r: Vec<String>)
    ensures
        string_views(r@) == search_order(
            library@,
            path_lists(starts@),
            opt_view(*python_path),
            opt_view(*home),
            opt_view(*appdata),
        ),
{
    let mut out: Vec<String> = Vec::new();
    push_starts(&mut out, starts, library);
    match python_path {
        Some(p) => {
            let pieces = split_exec(p.as_str(), ':');
            push_each(&mut out, &pieces, library);
        },
        None => {},
    }
    match home {
        Some(h) => {
            let sites = home_sites_exec(h.as_str());
            push_each(&mut out, &sites, library);
        },
        None => {},
    }
    match appdata {
        Some(d) => {
            let sites = appdata_sites_exec(d.as_str());
            push_each(&mut out, &sites, library);
        },
        None => {},
    }
    assert(string_views(out@) =~= search_order(
        library@,
        path_lists(starts@),
        opt_view(*python_path),
        opt_view(*home),
        opt_view(*appdata),
    ));
    out
}

}
