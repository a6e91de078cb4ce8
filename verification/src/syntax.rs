//! Syntax trees held as plain values: the calls made in the body of a
//! function found in one, and the bodies of its top-level functions with the
//! callers that their call sites are made from.
//!
//! A tree is a sequence of nodes in preorder; each node records its kind, the
//! source text it spans, its parent's position and its depth, so that the
//! subtree of a node is the run of nodes after it that lie deeper.
use vstd::prelude::*;
use crate::call_text::{function_name_from_call, function_name_from_call_exec};
use crate::complexity::string_views;
use crate::deep_call::{first_from, lemma_first_from};
use crate::models::TopLevelSymbol;
use crate::symbols::{symbol_named, SymbolStore};
use crate::text::{chars_eq, chars_of, concat3, starts_with, starts_with_exec, string_of, trim, trim_chars};

verus! {

/// A node of a syntax tree held in preorder.
#[derive(Debug, Clone)]
pub struct SyntaxNode {
    /// The grammar's name for the node, such as `call` or `block`.
    pub kind: String,
    /// The source text that the node spans.
    pub text: String,
    /// The position of the parent node; `None` for the root.
    pub parent: Option<usize>,
    /// The number of ancestors.
    pub depth: usize,
}

/// The end of the subtree of node `i`, searched from position `j`: the first
/// node from `j` on that is not deeper than `i`.
pub open spec fn end_from(nodes: Seq<SyntaxNode>, i: int, j: int) -> int
    decreases nodes.len() - j,
{
    if j >= nodes.len() {
        nodes.len() as int
    } else if nodes[j].depth <= nodes[i].depth {
        j
    } else {
        end_from(nodes, i, j + 1)
    }
}

/// The position just past the subtree of node `i`.
pub open spec fn subtree_end(nodes: Seq<SyntaxNode>, i: int) -> int {
    end_from(nodes, i, i + 1)
}

pub proof fn lemma_end_from(nodes: Seq<SyntaxNode>, i: int, j: int)
    requires
        0 <= j <= nodes.len(),
    ensures
        j <= end_from(nodes, i, j) <= nodes.len(),
    decreases nodes.len() - j,
{
    if j < nodes.len() && nodes[j].depth > nodes[i].depth {
        lemma_end_from(nodes, i, j + 1);
    }
}

/// Node `j` is a child of node `i`.
pub open spec fn is_child(nodes: Seq<SyntaxNode>, i: int, j: int) -> bool {
    nodes[j].parent matches Some(p) && p == i
}

/// The first child of node `i` of kind `kind` among the nodes `j..end`.
pub open spec fn child_of_kind_from(nodes: Seq<SyntaxNode>, i: int, kind: Seq<char>, j: int, end: int) -> Option<int>
    decreases end - j,
{
    if j >= end || j < 0 || j >= nodes.len() {
        None
    } else if is_child(nodes, i, j) && nodes[j].kind@ == kind {
        Some(j)
    } else {
        child_of_kind_from(nodes, i, kind, j + 1, end)
    }
}

/// The first child of node `i` of kind `kind`.
pub open spec fn child_of_kind(nodes: Seq<SyntaxNode>, i: int, kind: Seq<char>) -> Option<int> {
    child_of_kind_from(nodes, i, kind, i + 1, subtree_end(nodes, i))
}

/// Some child of node `i` among `j..end` is an identifier reading `name`.
pub open spec fn named_from(nodes: Seq<SyntaxNode>, i: int, name: Seq<char>, j: int, end: int) -> bool
    decreases end - j,
{
    if j >= end || j < 0 || j >= nodes.len() {
        false
    } else if is_child(nodes, i, j) && nodes[j].kind@ == "identifier"@ && trim(nodes[j].text@) == name {
        true
    } else {
        named_from(nodes, i, name, j + 1, end)
    }
}

/// Node `i` defines a function called `name`.
pub open spec fn defines(nodes: Seq<SyntaxNode>, i: int, name: Seq<char>) -> bool {
    nodes[i].kind@ == "function_definition"@ && named_from(nodes, i, name, i + 1, subtree_end(nodes, i))
}

/// The call expression that node `j` adds: a call's text, unless it is empty,
/// starts with `print` or `len`, or names no function; for an attribute whose
/// parent is a call, that call's text, unless it is empty or starts with `print`.
pub open spec fn call_at(nodes: Seq<SyntaxNode>, j: int) -> Seq<Seq<char>> {
    let n = nodes[j];
    if n.kind@ == "call"@ {
        let t = trim(n.text@);
        if t.len() > 0 && !starts_with(t, "print"@) && !starts_with(t, "len"@)
            && function_name_from_call(t).len() > 0 {
            seq![t]
        } else {
            Seq::empty()
        }
    } else if n.kind@ == "attribute"@ {
        match n.parent {
            Some(p) => if p < nodes.len() && nodes[p as int].kind@ == "call"@ {
                let t = trim(nodes[p as int].text@);
                if t.len() > 0 && !starts_with(t, "print"@) {
                    seq![t]
                } else {
                    Seq::empty()
                }
            } else {
                Seq::empty()
            },
            None => Seq::empty(),
        }
    } else {
        Seq::empty()
    }
}

/// The call expressions that the nodes `a..b` add, in order.
pub open spec fn range_calls(nodes: Seq<SyntaxNode>, a: int, b: int) -> Seq<Seq<char>>
    decreases b - a,
{
    if a >= b || a < 0 || a >= nodes.len() {
        Seq::empty()
    } else {
        call_at(nodes, a) + range_calls(nodes, a + 1, b)
    }
}

/// The calls in the body (a block, else an expression statement) of the
/// function definition at node `i`.
pub open spec fn body_calls(nodes: Seq<SyntaxNode>, i: int) -> Seq<Seq<char>> {
    match child_of_kind(nodes, i, "block"@) {
        Some(b) => range_calls(nodes, b, subtree_end(nodes, b)),
        None => match child_of_kind(nodes, i, "expression_statement"@) {
            Some(b) => range_calls(nodes, b, subtree_end(nodes, b)),
            None => Seq::empty(),
        },
    }
}

/// The calls made in the bodies of the definitions of `name` met from node
/// `i` on: a definition's subtree is not searched further, its siblings are.
pub open spec fn function_calls_from(nodes: Seq<SyntaxNode>, name: Seq<char>, i: int) -> Seq<Seq<char>>
    decreases nodes.len() - i,
{
    if i < 0 || i >= nodes.len() {
        Seq::empty()
    } else if defines(nodes, i, name) {
        proof {
            lemma_end_from(nodes, i, i + 1);
        }
        body_calls(nodes, i) + function_calls_from(nodes, name, subtree_end(nodes, i))
    } else {
        function_calls_from(nodes, name, i + 1)
    }
}

/// The calls made in the bodies of the functions called `name` in a tree.
pub open spec fn function_calls(nodes: Seq<SyntaxNode>, name: Seq<char>) -> Seq<Seq<char>> {
    function_calls_from(nodes, name, 0)
}

fn subtree_end_exec(nodes: &Vec<SyntaxNode>, i: usize) -> (e: usize)
    requires
        i < nodes@.len(),
    ensures
        e == subtree_end(nodes@, i as int),
        i < e <= nodes@.len(),
{
    let n = nodes.len();
    let mut j = i + 1;
    while j < nodes.len() && nodes[j].depth > nodes[i].depth
        invariant
            i < j <= nodes@.len(),
            end_from(nodes@, i as int, i + 1) == end_from(nodes@, i as int, j as int),
        decreases nodes.len() - j,
    {
        j = j + 1;
    }
    j
}

pub(crate) fn child_of_kind_exec(nodes: &Vec<SyntaxNode>, i: usize, kind: &str) -> (r: Option<usize>)
    requires
        i < nodes@.len(),
    ensures
        match child_of_kind(nodes@, i as int, kind@) {
            Some(b) => r matches Some(j) && j == b && i < b < nodes@.len(),
            None => r is None,
        },
{
    let end = subtree_end_exec(nodes, i);
    let mut j = i + 1;
    while j < end
        invariant
            i < j <= end <= nodes@.len(),
            end == subtree_end(nodes@, i as int),
            child_of_kind(nodes@, i as int, kind@) == child_of_kind_from(nodes@, i as int, kind@, j as int, end as int),
        decreases end - j,
    {
        let child = match nodes[j].parent {
            Some(p) => p == i,
            None => false,
        };
        if child && crate::text::str_eq(nodes[j].kind.as_str(), kind) {
            return Some(j);
        }
        j = j + 1;
    }
    None
}

fn defines_exec(nodes: &Vec<SyntaxNode>, i: usize, name: &[char]) -> (b: bool)
    requires
        i < nodes@.len(),
    ensures
        b == defines(nodes@, i as int, name@),
{
    if !crate::text::str_eq(nodes[i].kind.as_str(), "function_definition") {
        return false;
    }
    let end = subtree_end_exec(nodes, i);
    let mut j = i + 1;
    while j < end
        invariant
            i < j <= end <= nodes@.len(),
            end == subtree_end(nodes@, i as int),
            nodes@[i as int].kind@ == "function_definition"@,
            defines(nodes@, i as int, name@) == named_from(nodes@, i as int, name@, j as int, end as int),
        decreases end - j,
    {
        let child = match nodes[j].parent {
            Some(p) => p == i,
            None => false,
        };
        if child && crate::text::str_eq(nodes[j].kind.as_str(), "identifier") {
            let t = trim_chars(&chars_of(nodes[j].text.as_str()));
            if chars_eq(&t, name) {
                return true;
            }
        }
        j = j + 1;
    }
    false
}

fn call_at_exec(nodes: &Vec<SyntaxNode>, j: usize, calls: &mut Vec<String>)
    requires
        j < nodes@.len(),
    ensures
        string_views(final(calls)@) == string_views(old(calls)@) + call_at(nodes@, j as int),
{
    let ghost c0 = string_views(calls@);
    let n = &nodes[j];
    if crate::text::str_eq(n.kind.as_str(), "call") {
        let t = trim_chars(&chars_of(n.text.as_str()));
        if t.len() > 0 && !starts_with_exec(&t, &chars_of("print")) && !starts_with_exec(&t, &chars_of("len"))
            && function_name_from_call_exec(&t).len() > 0 {
            calls.push(string_of(&t));
            assert(string_views(calls@) == c0.push(t@));
            assert(c0.push(t@) == c0 + seq![t@]);
        } else {
            assert(c0 + Seq::<Seq<char>>::empty() == c0);
        }
    } else if crate::text::str_eq(n.kind.as_str(), "attribute") {
        match n.parent {
            Some(p) => {
                if p < nodes.len() && crate::text::str_eq(nodes[p].kind.as_str(), "call") {
                    let t = trim_chars(&chars_of(nodes[p].text.as_str()));
                    if t.len() > 0 && !starts_with_exec(&t, &chars_of("print")) {
                        calls.push(string_of(&t));
                        assert(string_views(calls@) == c0.push(t@));
                        assert(c0.push(t@) == c0 + seq![t@]);
                    } else {
                        assert(c0 + Seq::<Seq<char>>::empty() == c0);
                    }
                } else {
                    assert(c0 + Seq::<Seq<char>>::empty() == c0);
                }
            },
            None => {
                assert(c0 + Seq::<Seq<char>>::empty() == c0);
            },
        }
    } else {
        assert(c0 + Seq::<Seq<char>>::empty() == c0);
    }
}

fn range_calls_exec(nodes: &Vec<SyntaxNode>, a: usize, b: usize, calls: &mut Vec<String>)
    requires
        a <= b <= nodes@.len(),
    ensures
        string_views(final(calls)@) == string_views(old(calls)@) + range_calls(nodes@, a as int, b as int),
{
    let ghost c0 = string_views(calls@);
    let mut j = a;
    assert(c0 + range_calls(nodes@, a as int, b as int) == c0 + range_calls(nodes@, a as int, b as int));
    while j < b
        invariant
            a <= j <= b <= nodes@.len(),
            string_views(calls@) + range_calls(nodes@, j as int, b as int) == c0 + range_calls(
                nodes@,
                a as int,
                b as int,
            ),
        decreases b - j,
    {
        let ghost before = string_views(calls@);
        call_at_exec(nodes, j, calls);
        assert(before + range_calls(nodes@, j as int, b as int) == before + call_at(nodes@, j as int)
            + range_calls(nodes@, j + 1, b as int));
        j = j + 1;
    }
    assert(range_calls(nodes@, b as int, b as int) == Seq::<Seq<char>>::empty());
    assert(string_views(calls@) + Seq::<Seq<char>>::empty() == string_views(calls@));
}

/// The calls made in the bodies of the functions called `name` in a tree, as
/// `function_calls` states them.
pub fn calls_of_function(nodes: &Vec<SyntaxNode>, name: &str) -> (calls: Vec<String>)
    ensures
        string_views(calls@) == function_calls(nodes@, name@),
{
    let target = chars_of(name);
    let mut calls: Vec<String> = Vec::new();
    let mut i: usize = 0;
    assert(string_views(calls@) =~= Seq::<Seq<char>>::empty());
    while i < nodes.len()
        invariant
            i <= nodes@.len(),
            target@ == name@,
            string_views(calls@) + function_calls_from(nodes@, name@, i as int) == function_calls(nodes@, name@),
        decreases nodes.len() - i,
    {
        if defines_exec(nodes, i, &target) {
            let ghost before = string_views(calls@);
            let e = subtree_end_exec(nodes, i);
            match child_of_kind_exec(nodes, i, "block") {
                Some(b) => {
                    let be = subtree_end_exec(nodes, b);
                    range_calls_exec(nodes, b, be, &mut calls);
                },
                None => match child_of_kind_exec(nodes, i, "expression_statement") {
                    Some(b) => {
                        let be = subtree_end_exec(nodes, b);
                        range_calls_exec(nodes, b, be, &mut calls);
                    },
                    None => {
                        assert(before + Seq::<Seq<char>>::empty() == before);
                    },
                },
            }
            assert(string_views(calls@) == before + body_calls(nodes@, i as int));
            assert(before + function_calls_from(nodes@, name@, i as int) == before + body_calls(nodes@, i as int)
                + function_calls_from(nodes@, name@, e as int));
            i = e;
        } else {
            i = i + 1;
        }
    }
    assert(function_calls_from(nodes@, name@, i as int) == Seq::<Seq<char>>::empty());
    assert(string_views(calls@) + Seq::<Seq<char>>::empty() == string_views(calls@));
    calls
}

/// The name of the function that node `i` defines, as call edges name their
/// caller: the text of its first identifier child, trimmed; `unknown`
/// without one.
pub open spec fn definition_name(nodes: Seq<SyntaxNode>, i: int) -> Seq<char> {
    match child_of_kind(nodes, i, "identifier"@) {
        Some(j) => trim(nodes[j].text@),
        None => "unknown"@,
    }
}

/// The caller that the calls of a function called `name`, defined in the file
/// at `path`, are made from: the id of the first symbol of that name, else
/// `path::name`.
pub open spec fn caller_id(symbols: Seq<TopLevelSymbol>, path: Seq<char>, name: Seq<char>) -> Seq<char> {
    match first_from(symbols, symbol_named(name), 0) {
        Some(k) => symbols[k].id@,
        None => path + "::"@ + name,
    }
}

/// For each function defined at the top level of a tree, from node `k` on and
/// in order, its caller and the position of its body block; a definition
/// without a block is left out.
pub open spec fn bodies_from(nodes: Seq<SyntaxNode>, symbols: Seq<TopLevelSymbol>, path: Seq<char>, k: int) -> Seq<(Seq<char>, int)>
    decreases nodes.len() - k,
{
    if k < 0 || k >= nodes.len() {
        Seq::empty()
    } else {
        let rest = bodies_from(nodes, symbols, path, k + 1);
        if is_child(nodes, 0, k) && nodes[k].kind@ == "function_definition"@ {
            match child_of_kind(nodes, k, "block"@) {
                Some(b) => seq![(caller_id(symbols, path, definition_name(nodes, k)), b)] + rest,
                None => rest,
            }
        } else {
            rest
        }
    }
}

/// The views of caller and body pairs.
pub open spec fn body_views(v: Seq<(String, usize)>) -> Seq<(Seq<char>, int)> {
    v.map_values(|p: (String, usize)| (p.0@, p.1 as int))
}

fn first_symbol_named(symbols: &Vec<TopLevelSymbol>, name: &[char]) -> (r: Option<usize>)
    ensures
        match first_from(symbols@, symbol_named(name@), 0) {
            Some(k) => r matches Some(i) && i == k && k < symbols@.len(),
            None => r is None,
        },
{
    let mut i: usize = 0;
    while i < symbols.len()
        invariant
            i <= symbols@.len(),
            forall|j: int| 0 <= j < i ==> !symbol_named(name@)(#[trigger] symbols@[j]),
        decreases symbols.len() - i,
    {
        let n = chars_of(symbols[i].name.as_str());
        if chars_eq(&n, name) {
            proof {
                lemma_first_from(symbols@, symbol_named(name@), 0);
            }
            return Some(i);
        }
        i = i + 1;
    }
    proof {
        lemma_first_from(symbols@, symbol_named(name@), 0);
    }
    None
}

fn definition_name_exec(nodes: &Vec<SyntaxNode>, i: usize) -> (r: Vec<char>)
    requires
        i < nodes@.len(),
    ensures
        r@ == definition_name(nodes@, i as int),
{
    let found = child_of_kind_exec(nodes, i, "identifier");
    match found {
        Some(j) => trim_chars(&chars_of(nodes[j].text.as_str())),
        None => chars_of("unknown"),
    }
}

/// The functions defined at the top level of a file's syntax tree, in order,
/// each as the caller that its call edges name and the position of its body
/// block, as `bodies_from` states them: the call sites of these bodies are
/// the file's call edges.
pub fn call_site_bodies(nodes: &Vec<SyntaxNode>, file_path: &str, symbol_store: &SymbolStore) -> (r: Vec<(String, usize)>)
    ensures
        body_views(r@) == bodies_from(nodes@, symbol_store.symbols@, file_path@, 0),
{
    let mut out: Vec<(String, usize)> = Vec::new();
    let mut k: usize = 0;
    while k < nodes.len()
        invariant
            k <= nodes@.len(),
            bodies_from(nodes@, symbol_store.symbols@, file_path@, 0) == body_views(out@) + bodies_from(
                nodes@,
                symbol_store.symbols@,
                file_path@,
                k as int,
            ),
        decreases nodes.len() - k,
    {
        let ghost before = body_views(out@);
        let top = match nodes[k].parent {
            Some(p) => p == 0,
            None => false,
        };
        if top && crate::text::str_eq(nodes[k].kind.as_str(), "function_definition") {
            match child_of_kind_exec(nodes, k, "block") {
                Some(b) => {
                    let name = definition_name_exec(nodes, k);
                    let caller = match first_symbol_named(&symbol_store.symbols, &name) {
                        Some(i) => crate::text::copy_str(symbol_store.symbols[i].id.as_str()),
                        None => {
                            let n = string_of(&name);
                            concat3(file_path, "::", n.as_str())
                        },
                    };
                    out.push((caller, b));
                    proof {
                        assert(body_views(out@) == before.push((caller@, b as int)));
                        assert(before.push((caller@, b as int)) + bodies_from(nodes@, symbol_store.symbols@, file_path@, k + 1)
                            =~= before + bodies_from(nodes@, symbol_store.symbols@, file_path@, k as int));
                    }
                },
                None => {},
            }
        }
        k = k + 1;
    }
    assert(bodies_from(nodes@, symbol_store.symbols@, file_path@, k as int) == Seq::<(Seq<char>, int)>::empty());
    assert(body_views(out@) + Seq::<(Seq<char>, int)>::empty() == body_views(out@));
    out
}

} // verus!
