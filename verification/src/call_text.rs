//! Reading library names, function names and file paths out of the text of
//! call expressions.
use vstd::prelude::*;
use crate::text::{
    chars_eq, chars_of, contains_exec, contains_seq, find_char_exec,
    find_exec, find_seq, lemma_find_seq, rfind_char,
    rfind_char_exec, strip_prefix_all, strip_prefix_all_exec, sub_chars,
    trim, trim_chars,
};

verus! {

// ---------------------------------------------------------------------------
// Character classes of `char`
// ---------------------------------------------------------------------------

/// What `char::is_alphanumeric` answers for `c`.
pub uninterp spec fn alphanumeric(c: char) -> bool;

/// What `char::is_alphabetic` answers for `c`.
pub uninterp spec fn alphabetic(c: char) -> bool;

/// `c` is an ASCII letter.
pub open spec fn ascii_letter(c: char) -> bool {
    ('a' <= c && c <= 'z') || ('A' <= c && c <= 'Z')
}

/// `c` is an ASCII digit.
pub open spec fn ascii_digit(c: char) -> bool {
    '0' <= c && c <= '9'
}

/// `char::is_alphanumeric`: whether `c` is alphabetic or numeric in Unicode.
/// The contract names the answer and states it for ASCII characters only,
/// which the documentation's definition (the Alphabetic and Numeric
/// properties) settles; for other characters it leaves the answer unstated.
#[verifier::external_body]
pub(crate) fn char_is_alphanumeric(c: char) -> (b: bool)
    ensures
        b == alphanumeric(c),
        (c as u32) < 128 ==> (b <==> ascii_letter(c) || ascii_digit(c)),
{
    c.is_alphanumeric()
}

/// `char::is_alphabetic`: whether `c` has the Unicode Alphabetic property.
/// The contract names the answer and states it for ASCII characters only.
#[verifier::external_body]
pub(crate) fn char_is_alphabetic(c: char) -> (b: bool)
    ensures
        b == alphabetic(c),
        (c as u32) < 128 ==> (b <==> ascii_letter(c)),
{
    c.is_alphabetic()
}

// ---------------------------------------------------------------------------
// Function names
// ---------------------------------------------------------------------------

/// The function that a call expression calls: the text before its first `(`
/// (all of it when there is none), after any leading `self.`, trimmed, and
/// then only the part after its last `.`.
pub open spec fn function_name_from_call(call: Seq<char>) -> Seq<char> {
    let cleaned = trim(strip_prefix_all(call, "self."@));
    match find_seq(cleaned, seq!['(']) {
        Some(p) => {
            let b = trim(cleaned.take(p));
            match rfind_char(b, '.') {
                Some(d) => b.subrange(d + 1, b.len() as int),
                None => b,
            }
        },
        None => cleaned,
    }
}

/// The function that a call expression calls, as `function_name_from_call` states it.
pub fn function_name_from_call_exec(call: &[char]) -> (r: Vec<char>)
    ensures
        r@ == function_name_from_call(call@),
{
    let self_dot = chars_of("self.");
    let stripped = strip_prefix_all_exec(call, &self_dot);
    let cleaned = trim_chars(&stripped);
    match find_char_exec(&cleaned, '(') {
        Some(p) => {
            let head = sub_chars(&cleaned, 0, p);
            assert(head@ == cleaned@.take(p as int));
            let b = trim_chars(&head);
            match rfind_char_exec(&b, '.') {
                Some(d) => {
                    proof {
                        crate::text::lemma_rfind_before(b@, '.', b@.len() as int);
                    }
                    sub_chars(&b, d + 1, b.len())
                },
                None => b,
            }
        },
        None => cleaned,
    }
}

// ---------------------------------------------------------------------------
// Library names
// ---------------------------------------------------------------------------

/// `c` may stand in an identifier: alphanumeric or `_`.
pub open spec fn ident_char(c: char) -> bool {
    alphanumeric(c) || c == '_'
}

/// How many identifier characters end `s[..j]`.
pub open spec fn ident_run(s: Seq<char>, j: int) -> int
    decreases j,
{
    if 0 < j <= s.len() && ident_char(s[j - 1]) {
        1 + ident_run(s, j - 1)
    } else {
        0
    }
}

/// Where the trailing identifier of `s` begins when `s` is scanned backwards
/// from its end while identifier characters last; the scan starts from 0, so
/// it stays 0 when `s` does not end with one.
pub open spec fn ident_start(s: Seq<char>) -> int {
    let run = ident_run(s, s.len() as int);
    if run == 0 {
        0
    } else {
        s.len() - run
    }
}

/// The names that are builtins, not libraries.
pub open spec fn is_builtin_name(s: Seq<char>) -> bool {
    ||| s == "print"@ || s == "len"@ || s == "str"@ || s == "int"@ || s == "float"@
    ||| s == "bool"@ || s == "list"@ || s == "dict"@ || s == "tuple"@ || s == "set"@
}

/// The identifier that ends `before`, where it is a library name: not empty,
/// starting with a letter, not a builtin.
pub open spec fn library_candidate(before: Seq<char>) -> Option<Seq<char>> {
    let name = before.subrange(ident_start(before), before.len() as int);
    if name.len() > 0 && alphabetic(name[0]) && !is_builtin_name(name) {
        Some(name)
    } else {
        None
    }
}

/// The text before the first `::`, trimmed, where it starts with a letter.
pub open spec fn path_root(call: Seq<char>) -> Option<Seq<char>> {
    if contains_seq(call, "::"@) {
        let first = match find_seq(call, "::"@) {
            Some(i) => call.take(i),
            None => call,
        };
        let t = trim(first);
        if t.len() > 0 && alphabetic(t[0]) {
            Some(t)
        } else {
            None
        }
    } else {
        None
    }
}

/// The library that a call expression uses: the identifier before its first
/// `.`; else the identifier before the last `.` that precedes its first `(`;
/// else the root of a `::` path.
pub open spec fn library_name(call: Seq<char>) -> Option<Seq<char>> {
    let by_dot = match find_seq(call, seq!['.']) {
        Some(d) => library_candidate(call.take(d)),
        None => None,
    };
    let by_paren = match find_seq(call, seq!['(']) {
        Some(p) => match rfind_char(call.take(p), '.') {
            Some(d) => library_candidate(call.take(d)),
            None => None,
        },
        None => None,
    };
    if by_dot is Some {
        by_dot
    } else if by_paren is Some {
        by_paren
    } else {
        path_root(call)
    }
}

/// A call's library is never a Python builtin: for a call that writes no
/// `::` path, the library found is none of `print`, `len`, `str`, `int`,
/// `float`, `bool`, `list`, `dict`, `tuple` and `set`. (A `::` path names
/// its first segment as the library whatever it is, as `std::vec::Vec::new`
/// names `std`.)
pub proof fn lemma_library_never_builtin(call: Seq<char>)
    requires
        !contains_seq(call, "::"@),
    ensures
        library_name(call) matches Some(l) ==> {
            &&& l != "print"@ && l != "len"@ && l != "str"@ && l != "int"@ && l != "float"@
            &&& l != "bool"@ && l != "list"@ && l != "dict"@ && l != "tuple"@ && l != "set"@
        },
{
    assert(path_root(call) is None);
}

proof fn lemma_ident_run(s: Seq<char>, j: int)
    requires
        0 <= j <= s.len(),
    ensures
        0 <= ident_run(s, j) <= j,
    decreases j,
{
    if 0 < j && ident_char(s[j - 1]) {
        lemma_ident_run(s, j - 1);
    }
}

fn ident_char_exec(c: char) -> (b: bool)
    ensures
        b == ident_char(c),
{
    char_is_alphanumeric(c) || c == '_'
}

fn is_builtin_exec(s: &[char]) -> (b: bool)
    ensures
        b == is_builtin_name(s@),
{
    chars_eq(s, &chars_of("print")) || chars_eq(s, &chars_of("len")) || chars_eq(s, &chars_of("str"))
        || chars_eq(s, &chars_of("int")) || chars_eq(s, &chars_of("float")) || chars_eq(
        s,
        &chars_of("bool"),
    ) || chars_eq(s, &chars_of("list")) || chars_eq(s, &chars_of("dict")) || chars_eq(
        s,
        &chars_of("tuple"),
    ) || chars_eq(s, &chars_of("set"))
}

fn library_candidate_exec(before: &[char]) -> (r: Option<Vec<char>>)
    ensures
        match r {
            Some(v) => library_candidate(before@) == Some(v@),
            None => library_candidate(before@) is None,
        },
{
    let mut j = before.len();
    let mut run: usize = 0;
    while j > 0 && ident_char_exec(before[j - 1])
        invariant
            j <= before@.len(),
            run + j == before@.len(),
            ident_run(before@, before@.len() as int) == run + ident_run(before@, j as int),
        decreases j,
    {
        run = run + 1;
        j = j - 1;
    }
    proof {
        lemma_ident_run(before@, before@.len() as int);
    }
    let start = if run == 0 {
        0
    } else {
        before.len() - run
    };
    let name = sub_chars(before, start, before.len());
    if name.len() > 0 && char_is_alphabetic(name[0]) && !is_builtin_exec(&name) {
        Some(name)
    } else {
        None
    }
}

fn path_root_exec(call: &[char]) -> (r: Option<Vec<char>>)
    ensures
        match r {
            Some(v) => path_root(call@) == Some(v@),
            None => path_root(call@) is None,
        },
{
    let sep = chars_of("::");
    match find_exec(call, &sep) {
        Some(i) => {
            proof {
                lemma_find_seq(call@, sep@);
            }
            let first = sub_chars(call, 0, i);
            let t = trim_chars(&first);
            if t.len() > 0 && char_is_alphabetic(t[0]) {
                Some(t)
            } else {
                None
            }
        },
        None => {
            proof {
                lemma_find_seq(call@, sep@);
            }
            None
        },
    }
}

/// The library that a call expression uses, as `library_name` states it.
pub fn library_name_exec(call: &[char]) -> (r: Option<Vec<char>>)
    ensures
        match r {
            Some(v) => library_name(call@) == Some(v@),
            None => library_name(call@) is None,
        },
{
    let by_dot = match find_char_exec(call, '.') {
        Some(d) => library_candidate_exec(&sub_chars(call, 0, d)),
        None => None,
    };
    if by_dot.is_some() {
        return by_dot;
    }
    let by_paren = match find_char_exec(call, '(') {
        Some(p) => {
            let head = sub_chars(call, 0, p);
            match rfind_char_exec(&head, '.') {
                Some(d) => {
                    proof {
                        crate::text::lemma_rfind_before(head@, '.', head@.len() as int);
                    }
                    assert(head@.take(d as int) == call@.take(d as int));
                    library_candidate_exec(&sub_chars(&head, 0, d))
                },
                None => None,
            }
        },
        None => None,
    };
    if by_paren.is_some() {
        return by_paren;
    }
    path_root_exec(call)
}

// ---------------------------------------------------------------------------
// File paths
// ---------------------------------------------------------------------------

/// The extensions of certificate and key files.
pub open spec fn cert_exts() -> Seq<Seq<char>> {
    seq![".pem"@, ".crt"@, ".cer"@, ".key"@, ".p12"@, ".pfx"@, ".cert"@]
}

/// `s` mentions a certificate or key extension.
pub open spec fn has_cert_ext(s: Seq<char>) -> bool {
    exists|k: int| 0 <= k < cert_exts().len() && contains_seq(s, #[trigger] cert_exts()[k])
}

/// The text between the first two `q` characters of `s`.
pub open spec fn quoted_between(s: Seq<char>, q: char) -> Option<Seq<char>> {
    match find_seq(s, seq![q]) {
        Some(start) => {
            let rest = s.subrange(start + 1, s.len() as int);
            match find_seq(rest, seq![q]) {
                Some(end) => Some(rest.take(end)),
                None => None,
            }
        },
        None => None,
    }
}

/// A character at which the backward scan for a path stops: the space,
/// `=` or quote before the path, so that `cert=/path/to/cert.pem` gives the
/// whole path `/path/to/cert.pem`.
pub open spec fn back_stop(c: char) -> bool {
    c == ' ' || c == '=' || c == '"' || c == '\''
}

/// A character at which the forward scan for a path stops.
pub open spec fn fwd_stop(c: char) -> bool {
    c == ' ' || c == ',' || c == ')' || c == '\n' || c == '\t'
}

/// Moves `i` back over characters that are not back stops.
pub open spec fn scan_back(s: Seq<char>, i: int) -> int
    decreases i,
{
    if 0 < i <= s.len() && !back_stop(s[i - 1]) {
        scan_back(s, i - 1)
    } else {
        i
    }
}

/// Moves `j` forward over characters that are not forward stops.
pub open spec fn scan_fwd(s: Seq<char>, j: int) -> int
    decreases s.len() - j,
{
    if 0 <= j < s.len() && !fwd_stop(s[j]) {
        scan_fwd(s, j + 1)
    } else {
        j
    }
}

/// The unquoted path around the first occurrence of `ext`: back to a space,
/// `=` or quote, forward to a space, comma, `)`, newline or tab, trimmed.
pub open spec fn path_around(s: Seq<char>, ext: Seq<char>) -> Option<Seq<char>> {
    match find_seq(s, ext) {
        Some(pos) => {
            let p = trim(s.subrange(scan_back(s, pos), scan_fwd(s, pos + ext.len())));
            if p.len() > 0 {
                Some(p)
            } else {
                None
            }
        },
        None => None,
    }
}

/// The first unquoted path, trying the extensions from the `k`-th on in turn.
pub open spec fn path_around_from(s: Seq<char>, k: int) -> Option<Seq<char>>
    decreases cert_exts().len() - k,
{
    if k < 0 || k >= cert_exts().len() {
        None
    } else {
        match path_around(s, cert_exts()[k]) {
            Some(p) => Some(p),
            None => path_around_from(s, k + 1),
        }
    }
}

/// A quoted text, where it mentions a certificate extension.
pub open spec fn quoted_cert(s: Seq<char>, q: char) -> Option<Seq<char>> {
    match quoted_between(s, q) {
        Some(p) => if has_cert_ext(p) {
            Some(p)
        } else {
            None
        },
        None => None,
    }
}

/// The certificate file path that a call expression mentions: the first
/// double-quoted text, else the first single-quoted text, that mentions a
/// certificate extension; else the unquoted path around the first extension
/// found, the extensions tried in the order `.pem .crt .cer .key .p12 .pfx .cert`.
pub open spec fn file_path_in(s: Seq<char>) -> Option<Seq<char>> {
    if quoted_cert(s, '"') is Some {
        quoted_cert(s, '"')
    } else if quoted_cert(s, '\'') is Some {
        quoted_cert(s, '\'')
    } else {
        path_around_from(s, 0)
    }
}

/// The certificate extensions, each as characters.
pub fn cert_exts_exec() -> (v: Vec<Vec<char>>)
    ensures
        v@.len() == cert_exts().len(),
        forall|k: int| 0 <= k < v@.len() ==> #[trigger] v@[k]@ == cert_exts()[k],
{
    let mut v: Vec<Vec<char>> = Vec::new();
    v.push(chars_of(".pem"));
    v.push(chars_of(".crt"));
    v.push(chars_of(".cer"));
    v.push(chars_of(".key"));
    v.push(chars_of(".p12"));
    v.push(chars_of(".pfx"));
    v.push(chars_of(".cert"));
    v
}

/// Whether `s` mentions a certificate or key extension.
pub fn has_cert_ext_exec(s: &[char]) -> (b: bool)
    ensures
        b == has_cert_ext(s@),
{
    let exts = cert_exts_exec();
    let mut k: usize = 0;
    while k < exts.len()
        invariant
            exts@.len() == cert_exts().len(),
            forall|m: int| 0 <= m < exts@.len() ==> #[trigger] exts@[m]@ == cert_exts()[m],
            k <= exts@.len(),
            forall|m: int| 0 <= m < k ==> !contains_seq(s@, #[trigger] cert_exts()[m]),
        decreases exts.len() - k,
    {
        if contains_exec(s, &exts[k]) {
            return true;
        }
        k = k + 1;
    }
    false
}

fn quoted_between_exec(s: &[char], q: char) -> (r: Option<Vec<char>>)
    ensures
        match r {
            Some(v) => quoted_between(s@, q) == Some(v@),
            None => quoted_between(s@, q) is None,
        },
{
    match find_char_exec(s, q) {
        Some(start) => {
            let rest = sub_chars(s, start + 1, s.len());
            match find_char_exec(&rest, q) {
                Some(end) => {
                    let v = sub_chars(&rest, 0, end);
                    assert(v@ == rest@.take(end as int));
                    Some(v)
                },
                None => None,
            }
        },
        None => None,
    }
}

fn quoted_cert_exec(s: &[char], q: char) -> (r: Option<Vec<char>>)
    ensures
        match r {
            Some(v) => quoted_cert(s@, q) == Some(v@),
            None => quoted_cert(s@, q) is None,
        },
{
    match quoted_between_exec(s, q) {
        Some(p) => if has_cert_ext_exec(&p) {
            Some(p)
        } else {
            None
        },
        None => None,
    }
}

fn back_stop_exec(c: char) -> (b: bool)
    ensures
        b == back_stop(c),
{
    c == ' ' || c == '=' || c == '"' || c == '\''
}

fn fwd_stop_exec(c: char) -> (b: bool)
    ensures
        b == fwd_stop(c),
{
    c == ' ' || c == ',' || c == ')' || c == '\n' || c == '\t'
}

proof fn lemma_scan_back(s: Seq<char>, i: int)
    requires
        0 <= i <= s.len(),
    ensures
        0 <= scan_back(s, i) <= i,
    decreases i,
{
    if 0 < i && !back_stop(s[i - 1]) {
        lemma_scan_back(s, i - 1);
    }
}

proof fn lemma_scan_fwd(s: Seq<char>, j: int)
    requires
        0 <= j <= s.len(),
    ensures
        j <= scan_fwd(s, j) <= s.len(),
    decreases s.len() - j,
{
    if j < s.len() && !fwd_stop(s[j]) {
        lemma_scan_fwd(s, j + 1);
    }
}

fn path_around_exec(s: &[char], ext: &[char]) -> (r: Option<Vec<char>>)
    ensures
        match r {
            Some(v) => path_around(s@, ext@) == Some(v@),
            None => path_around(s@, ext@) is None,
        },
{
    match find_exec(s, ext) {
        Some(pos) => {
            let mut start = pos;
            while start > 0 && !back_stop_exec(s[start - 1])
                invariant
                    start <= pos < s@.len() || (start <= pos && pos <= s@.len()),
                    scan_back(s@, pos as int) == scan_back(s@, start as int),
                decreases start,
            {
                start = start - 1;
            }
            let mut end = pos + ext.len();
            while end < s.len() && !fwd_stop_exec(s[end])
                invariant
                    pos + ext@.len() <= end <= s@.len(),
                    scan_fwd(s@, pos + ext@.len()) == scan_fwd(s@, end as int),
                decreases s.len() - end,
            {
                end = end + 1;
            }
            let p = trim_chars(&sub_chars(s, start, end));
            if p.len() > 0 {
                Some(p)
            } else {
                None
            }
        },
        None => None,
    }
}

/// The certificate file path that a call expression mentions, as `file_path_in` states it.
pub fn file_path_in_exec(s: &[char]) -> (r: Option<Vec<char>>)
    ensures
        match r {
            Some(v) => file_path_in(s@) == Some(v@),
            None => file_path_in(s@) is None,
        },
{
    let dq = quoted_cert_exec(s, '"');
    if dq.is_some() {
        return dq;
    }
    let sq = quoted_cert_exec(s, '\'');
    if sq.is_some() {
        return sq;
    }
    let exts = cert_exts_exec();
    let mut k: usize = 0;
    while k < exts.len()
        invariant
            exts@.len() == cert_exts().len(),
            forall|m: int| 0 <= m < exts@.len() ==> #[trigger] exts@[m]@ == cert_exts()[m],
            k <= exts@.len(),
            file_path_in(s@) == path_around_from(s@, k as int),
        decreases exts.len() - k,
    {
        let found = path_around_exec(s, &exts[k]);
        assert(exts@[k as int]@ == cert_exts()[k as int]);
        if found.is_some() {
            assert(0 <= k < cert_exts().len());
            assert(path_around_from(s@, k as int) == path_around(s@, cert_exts()[k as int]));

            return found;
        }
        k = k + 1;
    }
    None
}

} // verus!
