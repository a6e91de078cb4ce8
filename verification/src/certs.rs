//! Finding certificate files and certificate parameters in call expressions
//! and in source text, and function definitions in Python source.
use vstd::prelude::*;
use crate::call_text::{
    alphanumeric, char_is_alphanumeric, cert_exts, file_path_in, file_path_in_exec, has_cert_ext, has_cert_ext_exec,
};
use crate::complexity::string_views;
use crate::text::{
    chars_eq, chars_of, contains_exec, contains_seq, find_char_exec, find_from, find_from_exec,
    find_seq, lemma_find_from, starts_with, starts_with_exec,
    string_of, sub_chars, trim, trim_char, trim_char_exec, trim_chars, trim_end_char,
    trim_end_char_exec, trim_start_char, trim_start_char_exec, back_char,
};

verus! {

// ---------------------------------------------------------------------------
// Lines
// ---------------------------------------------------------------------------

/// `l` without one trailing carriage return.
pub open spec fn strip_cr(l: Seq<char>) -> Seq<char> {
    if l.len() > 0 && l.last() == '\r' {
        l.drop_last()
    } else {
        l
    }
}

/// The lines of `s[i..]` as `str::lines` gives them: split at `\n`, a `\r`
/// just before a `\n` dropped, no empty line after a final `\n`.
pub open spec fn lines_from(s: Seq<char>, i: int) -> Seq<Seq<char>>
    decreases s.len() - i,
{
    if i < 0 || i >= s.len() {
        Seq::empty()
    } else {
        match find_from(s, seq!['\n'], i) {
            Some(j) => {
                proof {
                    lemma_find_from(s, seq!['\n'], i);
                }
                seq![strip_cr(s.subrange(i, j))] + lines_from(s, j + 1)
            },
            None => seq![s.subrange(i, s.len() as int)],
        }
    }
}

/// The lines of `s` (`str::lines`).
pub open spec fn lines(s: Seq<char>) -> Seq<Seq<char>> {
    lines_from(s, 0)
}

/// The views of a sequence of character vectors.
pub open spec fn char_views(v: Seq<Vec<char>>) -> Seq<Seq<char>> {
    v.map_values(|l: Vec<char>| l@)
}

/// The lines of `s`, as `lines` states them.
pub fn lines_exec(s: &[char]) -> (r: Vec<Vec<char>>)
    ensures
        char_views(r@) == lines(s@),
{
    let mut out: Vec<Vec<char>> = Vec::new();
    let mut i: usize = 0;
    while i < s.len()
        invariant
            i <= s@.len(),
            lines(s@) == char_views(out@) + lines_from(s@, i as int),
        decreases s.len() - i,
    {
        let nl = ['\n'];
        assert(nl@ == seq!['\n']);
        match find_from_exec(s, &nl, i) {
            Some(j) => {
                proof {
                    lemma_find_from(s@, seq!['\n'], i as int);
                }
                let mut line = sub_chars(s, i, j);
                if line.len() > 0 && line[line.len() - 1] == '\r' {
                    line.pop();
                    assert(line@ == s@.subrange(i as int, j as int).drop_last());
                }
                assert(line@ == strip_cr(s@.subrange(i as int, j as int)));
                let ghost before = out@;
                out.push(line);
                assert(char_views(out@) == char_views(before).push(line@));
                assert(lines_from(s@, i as int) == seq![line@] + lines_from(s@, j + 1));
                i = j + 1;
            },
            None => {
                let line = sub_chars(s, i, s.len());
                let ghost before = out@;
                out.push(line);
                assert(char_views(out@) == char_views(before).push(line@));
                assert(lines_from(s@, i as int) == seq![line@]);
                assert(lines_from(s@, s@.len() as int) == Seq::<Seq<char>>::empty());
                i = s.len();
            },
        }
    }
    assert(lines_from(s@, i as int) == Seq::<Seq<char>>::empty());
    out
}

// ---------------------------------------------------------------------------
// Certificate parameters in one call
// ---------------------------------------------------------------------------

/// A value that looks like a path or a boolean literal.
pub open spec fn looks_like_value(v: Seq<char>) -> bool {
    ||| contains_seq(v, "/"@) || contains_seq(v, "\\"@)
    ||| contains_seq(v, ".pem"@) || contains_seq(v, ".crt"@) || contains_seq(v, ".key"@)
    ||| v == "True"@ || v == "False"@
}

/// `v` parses as a Rust `bool`.
pub open spec fn parses_as_bool(v: Seq<char>) -> bool {
    v == "true"@ || v == "false"@
}

/// `keyword` without its trailing `=`, an `=`, and `value`.
pub open spec fn cert_entry(keyword: Seq<char>, value: Seq<char>) -> Seq<char> {
    trim_end_char(keyword, '=') + "="@ + value
}

/// The quoted value right after a keyword, for text that starts `="` or `='`.
pub open spec fn quoted_value_after(after: Seq<char>) -> Option<Seq<char>> {
    if starts_with(after, "=\""@) || starts_with(after, "='"@) {
        let q = if starts_with(after, "=\""@) {
            '"'
        } else {
            '\''
        };
        match find_seq(after, seq![q]) {
            Some(start) => {
                let rest = after.subrange(start + 1, after.len() as int);
                match find_seq(rest, seq![q]) {
                    Some(end) => {
                        let v = rest.take(end);
                        if looks_like_value(v) || parses_as_bool(v) {
                            Some(v)
                        } else {
                            None
                        }
                    },
                    None => None,
                }
            },
            None => None,
        }
    } else {
        None
    }
}

/// A character that ends an unquoted value.
pub open spec fn value_stop(c: char) -> bool {
    c == ',' || c == ')' || c == ' ' || c == '\n' || c == '\t'
}

/// The first position at or after `i` that holds a value stop, or the length.
pub open spec fn first_value_stop(s: Seq<char>, i: int) -> int
    decreases s.len() - i,
{
    if i < 0 || i >= s.len() {
        s.len() as int
    } else if value_stop(s[i]) {
        i
    } else {
        first_value_stop(s, i + 1)
    }
}

/// The unquoted value after a keyword.
pub open spec fn bare_value_after(after: Seq<char>) -> Option<Seq<char>> {
    let t = trim(trim_start_char(after, '='));
    if t.len() > 0 {
        let v = trim(t.take(first_value_stop(t, 0)));
        if v.len() > 0 && v[0] != '*' && (looks_like_value(v) || parses_as_bool(v) || starts_with(
            v,
            "\""@,
        ) || starts_with(v, "'"@)) {
            Some(v)
        } else {
            None
        }
    } else {
        None
    }
}

/// The certificate parameter that a call passes for `keyword`, such as `cert=/a.pem`.
pub open spec fn cert_from_call(call: Seq<char>, keyword: Seq<char>) -> Option<Seq<char>> {
    match find_seq(call, keyword) {
        Some(p) => {
            let after = call.subrange(p + keyword.len(), call.len() as int);
            match quoted_value_after(after) {
                Some(v) => Some(cert_entry(keyword, v)),
                None => match bare_value_after(after) {
                    Some(v) => Some(cert_entry(keyword, v)),
                    None => None,
                },
            }
        },
        None => None,
    }
}

fn looks_like_value_exec(v: &[char]) -> (b: bool)
    ensures
        b == looks_like_value(v@),
{
    contains_exec(v, &chars_of("/")) || contains_exec(v, &chars_of("\\")) || contains_exec(
        v,
        &chars_of(".pem"),
    ) || contains_exec(v, &chars_of(".crt")) || contains_exec(v, &chars_of(".key")) || chars_eq(
        v,
        &chars_of("True"),
    ) || chars_eq(v, &chars_of("False"))
}

fn parses_as_bool_exec(v: &[char]) -> (b: bool)
    ensures
        b == parses_as_bool(v@),
{
    chars_eq(v, &chars_of("true")) || chars_eq(v, &chars_of("false"))
}

fn cert_entry_exec(keyword: &[char], value: &[char]) -> (r: Vec<char>)
    ensures
        r@ == cert_entry(keyword@, value@),
{
    let mut r = trim_end_char_exec(keyword, '=');
    let eq = chars_of("=");
    let ghost r0 = r@;
    let mut k: usize = 0;
    while k < eq.len()
        invariant
            k <= eq@.len(),
            r@ == r0 + eq@.take(k as int),
        decreases eq.len() - k,
    {
        r.push(eq[k]);
        assert(eq@.take(k + 1) == eq@.take(k as int).push(eq@[k as int]));
        k = k + 1;
    }
    assert(eq@.take(eq@.len() as int) == eq@);
    let ghost r1 = r@;
    let mut m: usize = 0;
    while m < value.len()
        invariant
            m <= value@.len(),
            r@ == r1 + value@.take(m as int),
        decreases value.len() - m,
    {
        r.push(value[m]);
        assert(value@.take(m + 1) == value@.take(m as int).push(value@[m as int]));
        m = m + 1;
    }
    assert(value@.take(value@.len() as int) == value@);
    r
}

fn quoted_value_after_exec(after: &[char]) -> (r: Option<Vec<char>>)
    ensures
        match r {
            Some(v) => quoted_value_after(after@) == Some(v@),
            None => quoted_value_after(after@) is None,
        },
{
    let dq = starts_with_exec(after, &chars_of("=\""));
    let sq = starts_with_exec(after, &chars_of("='"));
    if !(dq || sq) {
        return None;
    }
    let q = if dq {
        '"'
    } else {
        '\''
    };
    match find_char_exec(after, q) {
        Some(start) => {
            let rest = sub_chars(after, start + 1, after.len());
            match find_char_exec(&rest, q) {
                Some(end) => {
                    let v = sub_chars(&rest, 0, end);
                    assert(v@ == rest@.take(end as int));
                    if looks_like_value_exec(&v) || parses_as_bool_exec(&v) {
                        Some(v)
                    } else {
                        None
                    }
                },
                None => None,
            }
        },
        None => None,
    }
}

fn bare_value_after_exec(after: &[char]) -> (r: Option<Vec<char>>)
    ensures
        match r {
            Some(v) => bare_value_after(after@) == Some(v@),
            None => bare_value_after(after@) is None,
        },
{
    let t = trim_chars(&trim_start_char_exec(after, '='));
    if t.len() == 0 {
        return None;
    }
    let mut e: usize = 0;
    while e < t.len() && !(t[e] == ',' || t[e] == ')' || t[e] == ' ' || t[e] == '\n' || t[e]
        == '\t')
        invariant
            e <= t@.len(),
            first_value_stop(t@, 0) == first_value_stop(t@, e as int),
        decreases t.len() - e,
    {
        e = e + 1;
    }
    let head = sub_chars(&t, 0, e);
    assert(head@ == t@.take(e as int));
    let v = trim_chars(&head);
    if v.len() > 0 && v[0] != '*' && (looks_like_value_exec(&v) || parses_as_bool_exec(&v)
        || starts_with_exec(&v, &chars_of("\"")) || starts_with_exec(&v, &chars_of("'"))) {
        Some(v)
    } else {
        None
    }
}

/// The certificate parameter that a call passes for `keyword`, as `cert_from_call` states it.
pub fn cert_from_call_exec(call: &[char], keyword: &[char]) -> (r: Option<Vec<char>>)
    ensures
        match r {
            Some(v) => cert_from_call(call@, keyword@) == Some(v@),
            None => cert_from_call(call@, keyword@) is None,
        },
{
    match crate::text::find_exec(call, keyword) {
        Some(p) => {
            let after = sub_chars(call, p + keyword.len(), call.len());
            match quoted_value_after_exec(&after) {
                Some(v) => Some(cert_entry_exec(keyword, &v)),
                None => match bare_value_after_exec(&after) {
                    Some(v) => Some(cert_entry_exec(keyword, &v)),
                    None => None,
                },
            }
        },
        None => None,
    }
}

// ---------------------------------------------------------------------------
// Certificates in call expressions
// ---------------------------------------------------------------------------

/// `p` with surrounding double quotes, then surrounding single quotes, removed.
pub open spec fn clean_path(p: Seq<char>) -> Seq<char> {
    trim_char(trim_char(p, '"'), '\'')
}

/// A path that is neither an attribute nor a print, and that has a separator or a quote.
pub open spec fn plausible_path(p: Seq<char>) -> bool {
    &&& !contains_seq(p, "self."@)
    &&& !contains_seq(p, "print"@)
    &&& (contains_seq(p, "/"@) || contains_seq(p, "\\"@) || starts_with(p, "\""@) || starts_with(
        p,
        "'"@,
    ))
}

/// `certs` with `entry` added at the end unless `certs` already holds `key`.
pub open spec fn add_unless_present(certs: Seq<Seq<char>>, key: Seq<char>, entry: Seq<char>) -> Seq<
    Seq<char>,
> {
    if certs.contains(key) {
        certs
    } else {
        certs.push(entry)
    }
}

/// The text after the first `=` up to the next `=` (`split('=').nth(1)`), empty without an `=`.
pub open spec fn second_field(s: Seq<char>) -> Seq<char> {
    match find_seq(s, seq!['=']) {
        Some(i) => {
            let rest = s.subrange(i + 1, s.len() as int);
            match find_seq(rest, seq!['=']) {
                Some(j) => rest.take(j),
                None => rest,
            }
        },
        None => Seq::empty(),
    }
}

/// The keywords under which calls pass certificates.
pub open spec fn cert_keywords() -> Seq<Seq<char>> {
    seq!["cert="@, "verify="@, "ca_certs="@, "certfile="@, "keyfile="@]
}

/// A keyword's value that names a file or a boolean and no variable.
pub open spec fn call_value_accepted(v: Seq<char>) -> bool {
    &&& (contains_seq(v, "/"@) || contains_seq(v, "\\"@) || contains_seq(v, ".pem"@)
        || contains_seq(v, ".crt"@) || contains_seq(v, ".key"@) || starts_with(v, "\""@)
        || starts_with(v, "'"@) || v == "True"@ || v == "False"@)
    &&& !contains_seq(v, "self."@)
    &&& !contains_seq(v, "cert"@)
    &&& !contains_seq(v, "verify"@)
    &&& !contains_seq(v, "print"@)
}

/// First rule: a certificate file path written in the call.
pub open spec fn file_rule(certs: Seq<Seq<char>>, call: Seq<char>) -> Seq<Seq<char>> {
    if has_cert_ext(call) {
        match file_path_in(call) {
            Some(p) => if plausible_path(p) {
                add_unless_present(certs, clean_path(p), "Certificate file: "@ + clean_path(p))
            } else {
                certs
            },
            None => certs,
        }
    } else {
        certs
    }
}

/// Second rule, for one keyword: the parameter passed under it.
pub open spec fn keyword_rule(certs: Seq<Seq<char>>, call: Seq<char>, kw: Seq<char>) -> Seq<
    Seq<char>,
> {
    if contains_seq(call, kw) {
        match cert_from_call(call, kw) {
            Some(info) => {
                let v = if contains_seq(info, "="@) {
                    second_field(info)
                } else {
                    info
                };
                if call_value_accepted(v) {
                    add_unless_present(certs, info, info)
                } else {
                    certs
                }
            },
            None => certs,
        }
    } else {
        certs
    }
}

/// The second rule for the keywords from the `k`-th on.
pub open spec fn keyword_rules_from(certs: Seq<Seq<char>>, call: Seq<char>, k: int) -> Seq<
    Seq<char>,
>
    decreases cert_keywords().len() - k,
{
    if k < 0 || k >= cert_keywords().len() {
        certs
    } else {
        keyword_rules_from(keyword_rule(certs, call, cert_keywords()[k]), call, k + 1)
    }
}

/// Third rule: the file that an SSL context loads.
pub open spec fn ssl_rule(certs: Seq<Seq<char>>, call: Seq<char>) -> Seq<Seq<char>> {
    if contains_seq(call, "load_cert_chain"@) || contains_seq(call, "load_verify_locations"@) {
        match file_path_in(call) {
            Some(p) => if !contains_seq(p, "self."@) && !contains_seq(p, "print"@) {
                add_unless_present(certs, clean_path(p), "SSL Certificate: "@ + clean_path(p))
            } else {
                certs
            },
            None => certs,
        }
    } else {
        certs
    }
}

/// What one call adds to the certificates found so far.
pub open spec fn call_cert_step(certs: Seq<Seq<char>>, call: Seq<char>) -> Seq<Seq<char>> {
    ssl_rule(keyword_rules_from(file_rule(certs, call), call, 0), call)
}

/// The certificates found in `calls`, in the order found.
pub open spec fn certs_from_calls(calls: Seq<Seq<char>>) -> Seq<Seq<char>>
    decreases calls.len(),
{
    if calls.len() == 0 {
        Seq::empty()
    } else {
        call_cert_step(certs_from_calls(calls.drop_last()), calls.last())
    }
}

/// An entry that reports a certificate file, an SSL certificate, or the
/// parameter passed under one of the certificate keywords.
pub open spec fn certificate_entry_form(e: Seq<char>) -> bool {
    ||| starts_with(e, "Certificate file: "@)
    ||| starts_with(e, "SSL Certificate: "@)
    ||| exists|k: int| 0 <= k < cert_keywords().len() && starts_with(e, #[trigger] cert_keywords()[k])
}

/// Every entry of `certs` has the form of a certificate entry.
pub open spec fn all_entry_forms(certs: Seq<Seq<char>>) -> bool {
    forall|i: int| 0 <= i < certs.len() ==> certificate_entry_form(#[trigger] certs[i])
}

proof fn lemma_add_unless_present(certs: Seq<Seq<char>>, key: Seq<char>, entry: Seq<char>)
    requires
        all_entry_forms(certs),
        certificate_entry_form(entry),
    ensures
        certs.is_prefix_of(add_unless_present(certs, key, entry)),
        all_entry_forms(add_unless_present(certs, key, entry)),
{
    let r = add_unless_present(certs, key, entry);
    if !certs.contains(key) {
        assert forall|i: int| 0 <= i < r.len() implies certificate_entry_form(#[trigger] r[i]) by {
            if i < certs.len() {
                assert(r[i] == certs[i]);
            }
        }
    }
}

proof fn lemma_prefix_entry(p: Seq<char>, rest: Seq<char>)
    ensures
        starts_with(p + rest, p),
{
    assert((p + rest).subrange(0, p.len() as int) =~= p);
}

/// A keyword's parameter entry starts with the keyword.
proof fn lemma_keyword_entry(k: int, v: Seq<char>)
    requires
        0 <= k < cert_keywords().len(),
    ensures
        starts_with(cert_entry(cert_keywords()[k], v), cert_keywords()[k]),
{
    let kw = cert_keywords()[k];
    reveal_strlit("cert=");
    reveal_strlit("verify=");
    reveal_strlit("ca_certs=");
    reveal_strlit("certfile=");
    reveal_strlit("keyfile=");
    reveal_strlit("=");
    assert(kw.len() >= 2 && kw.last() == '=' && kw[kw.len() - 2] != '=');
    assert(back_char(kw, '=', 0, kw.len() - 1) == kw.len() - 1);
    assert(back_char(kw, '=', 0, kw.len() as int) == kw.len() - 1);
    assert(trim_end_char(kw, '=') =~= kw.drop_last());
    assert(kw.drop_last() + "="@ =~= kw);
    lemma_prefix_entry(kw, v);
    assert(cert_entry(kw, v) =~= kw + v);
}

proof fn lemma_file_rule(certs: Seq<Seq<char>>, call: Seq<char>)
    requires
        all_entry_forms(certs),
    ensures
        certs.is_prefix_of(file_rule(certs, call)),
        all_entry_forms(file_rule(certs, call)),
{
    if has_cert_ext(call) {
        match file_path_in(call) {
            Some(p) => if plausible_path(p) {
                lemma_prefix_entry("Certificate file: "@, clean_path(p));
                lemma_add_unless_present(certs, clean_path(p), "Certificate file: "@ + clean_path(p));
            },
            None => {},
        }
    }
}

proof fn lemma_keyword_rules_from(certs: Seq<Seq<char>>, call: Seq<char>, k: int)
    requires
        all_entry_forms(certs),
    ensures
        certs.is_prefix_of(keyword_rules_from(certs, call, k)),
        all_entry_forms(keyword_rules_from(certs, call, k)),
    decreases cert_keywords().len() - k,
{
    if 0 <= k < cert_keywords().len() {
        let kw = cert_keywords()[k];
        let next = keyword_rule(certs, call, kw);
        if contains_seq(call, kw) {
            match cert_from_call(call, kw) {
                Some(info) => {
                    let v = if contains_seq(info, "="@) {
                        second_field(info)
                    } else {
                        info
                    };
                    if call_value_accepted(v) {
                        let p = find_seq(call, kw)->0;
                        let after = call.subrange(p + kw.len(), call.len() as int);
                        let value = match quoted_value_after(after) {
                            Some(x) => x,
                            None => bare_value_after(after)->0,
                        };
                        assert(info == cert_entry(kw, value));
                        lemma_keyword_entry(k, value);
                        assert(certificate_entry_form(info));
                        lemma_add_unless_present(certs, info, info);
                    }
                },
                None => {},
            }
        }
        lemma_keyword_rules_from(next, call, k + 1);
    }
}

proof fn lemma_ssl_rule(certs: Seq<Seq<char>>, call: Seq<char>)
    requires
        all_entry_forms(certs),
    ensures
        certs.is_prefix_of(ssl_rule(certs, call)),
        all_entry_forms(ssl_rule(certs, call)),
{
    if contains_seq(call, "load_cert_chain"@) || contains_seq(call, "load_verify_locations"@) {
        match file_path_in(call) {
            Some(p) => if !contains_seq(p, "self."@) && !contains_seq(p, "print"@) {
                lemma_prefix_entry("SSL Certificate: "@, clean_path(p));
                lemma_add_unless_present(certs, clean_path(p), "SSL Certificate: "@ + clean_path(p));
            },
            None => {},
        }
    }
}

/// What one call adds comes after what was found before, in entry form.
proof fn lemma_call_cert_step(certs: Seq<Seq<char>>, call: Seq<char>)
    requires
        all_entry_forms(certs),
    ensures
        certs.is_prefix_of(call_cert_step(certs, call)),
        all_entry_forms(call_cert_step(certs, call)),
{
    lemma_file_rule(certs, call);
    let a = file_rule(certs, call);
    lemma_keyword_rules_from(a, call, 0);
    let b = keyword_rules_from(a, call, 0);
    lemma_ssl_rule(b, call);
}

/// Certificates are only ever added: those found in a list of calls begin
/// with those found in any prefix of it, none are found in no calls, and each
/// reports a certificate file, an SSL certificate, or a certificate keyword's
/// parameter.
pub proof fn lemma_certs_from_calls_extend(xs: Seq<Seq<char>>, ys: Seq<Seq<char>>)
    ensures
        certs_from_calls(xs).is_prefix_of(certs_from_calls(xs + ys)),
        certs_from_calls(Seq::<Seq<char>>::empty()) == Seq::<Seq<char>>::empty(),
        all_entry_forms(certs_from_calls(xs + ys)),
    decreases ys.len(),
{
    if ys.len() == 0 {
        assert(xs + ys =~= xs);
        lemma_entry_forms(xs);
    } else {
        let zs = ys.drop_last();
        lemma_certs_from_calls_extend(xs, zs);
        assert((xs + ys).drop_last() =~= xs + zs);
        assert((xs + ys).last() == ys.last());
        lemma_call_cert_step(certs_from_calls(xs + zs), ys.last());
    }
}

/// A call that loads an SSL context's certificates, with `load_cert_chain`
/// or with `load_verify_locations` alike, and names a certificate file
/// reports it as an SSL certificate: the certificates found once the call is
/// read hold `SSL Certificate: ` and the file's path, unless they already
/// held the path itself.
pub proof fn lemma_ssl_context_files_reported(calls: Seq<Seq<char>>, call: Seq<char>, p: Seq<char>)
    requires
        contains_seq(call, "load_cert_chain"@) || contains_seq(call, "load_verify_locations"@),
        file_path_in(call) == Some(p),
        !contains_seq(p, "self."@),
        !contains_seq(p, "print"@),
    ensures
        certs_from_calls(calls.push(call)).contains("SSL Certificate: "@ + clean_path(p))
            || certs_from_calls(calls.push(call)).contains(clean_path(p)),
{
    assert(calls.push(call).drop_last() =~= calls);
    let before = certs_from_calls(calls);
    let b = keyword_rules_from(file_rule(before, call), call, 0);
    let found = certs_from_calls(calls.push(call));
    assert(found == ssl_rule(b, call));
    if b.contains(clean_path(p)) {
        assert(found == b);
    } else {
        assert(found == b.push("SSL Certificate: "@ + clean_path(p)));
        assert(found[found.len() - 1] == "SSL Certificate: "@ + clean_path(p));
    }
}

proof fn lemma_entry_forms(xs: Seq<Seq<char>>)
    ensures
        all_entry_forms(certs_from_calls(xs)),
    decreases xs.len(),
{
    if xs.len() > 0 {
        lemma_entry_forms(xs.drop_last());
        lemma_call_cert_step(certs_from_calls(xs.drop_last()), xs.last());
    }
}

/// Whether the found entries hold `key`.
pub fn holds_entry(certs: &Vec<String>, key: &[char]) -> (b: bool)
    ensures
        b == string_views(certs@).contains(key@),
{
    let mut i: usize = 0;
    while i < certs.len()
        invariant
            i <= certs@.len(),
            forall|j: int| 0 <= j < i ==> certs@[j]@ != key@,
        decreases certs.len() - i,
    {
        let c = chars_of(certs[i].as_str());
        if chars_eq(&c, key) {
            assert(string_views(certs@)[i as int] == key@);
            return true;
        }
        i = i + 1;
    }
    proof {
        if string_views(certs@).contains(key@) {
            let j = choose|j: int| 0 <= j < string_views(certs@).len() && string_views(certs@)[j]
                == key@;
            assert(certs@[j]@ == key@);
        }
    }
    false
}

fn add_unless_present_exec(certs: &mut Vec<String>, key: &[char], entry: &[char])
    ensures
        string_views(final(certs)@) == add_unless_present(string_views(old(certs)@), key@, entry@),
{
    if !holds_entry(certs, key) {
        let ghost before = certs@;
        certs.push(string_of(entry));
        assert(string_views(certs@) == string_views(before).push(entry@));
    }
}

fn prefixed(prefix: &str, body: &[char]) -> (r: Vec<char>)
    ensures
        r@ == prefix@ + body@,
{
    let mut r = chars_of(prefix);
    let ghost r0 = r@;
    let mut i: usize = 0;
    while i < body.len()
        invariant
            i <= body@.len(),
            r@ == r0 + body@.take(i as int),
        decreases body.len() - i,
    {
        r.push(body[i]);
        assert(body@.take(i + 1) == body@.take(i as int).push(body@[i as int]));
        i = i + 1;
    }
    assert(body@.take(body@.len() as int) == body@);
    r
}

pub fn clean_path_exec(p: &[char]) -> (r: Vec<char>)
    ensures
        r@ == clean_path(p@),
{
    let a = trim_char_exec(p, '"');
    trim_char_exec(&a, '\'')
}

pub fn plausible_path_exec(p: &[char]) -> (b: bool)
    ensures
        b == plausible_path(p@),
{
    !contains_exec(p, &chars_of("self.")) && !contains_exec(p, &chars_of("print")) && (
    contains_exec(p, &chars_of("/")) || contains_exec(p, &chars_of("\\")) || starts_with_exec(
        p,
        &chars_of("\""),
    ) || starts_with_exec(p, &chars_of("'")))
}

fn second_field_exec(s: &[char]) -> (r: Vec<char>)
    ensures
        r@ == second_field(s@),
{
    match find_char_exec(s, '=') {
        Some(i) => {
            let rest = sub_chars(s, i + 1, s.len());
            match find_char_exec(&rest, '=') {
                Some(j) => {
                    let v = sub_chars(&rest, 0, j);
                    assert(v@ == rest@.take(j as int));
                    v
                },
                None => rest,
            }
        },
        None => Vec::new(),
    }
}

fn call_value_accepted_exec(v: &[char]) -> (b: bool)
    ensures
        b == call_value_accepted(v@),
{
    (contains_exec(v, &chars_of("/")) || contains_exec(v, &chars_of("\\")) || contains_exec(
        v,
        &chars_of(".pem"),
    ) || contains_exec(v, &chars_of(".crt")) || contains_exec(v, &chars_of(".key"))
        || starts_with_exec(v, &chars_of("\"")) || starts_with_exec(v, &chars_of("'")) || chars_eq(
        v,
        &chars_of("True"),
    ) || chars_eq(v, &chars_of("False"))) && !contains_exec(v, &chars_of("self."))
        && !contains_exec(v, &chars_of("cert")) && !contains_exec(v, &chars_of("verify"))
        && !contains_exec(v, &chars_of("print"))
}

fn file_rule_exec(certs: &mut Vec<String>, call: &[char])
    ensures
        string_views(final(certs)@) == file_rule(string_views(old(certs)@), call@),
{
    if has_cert_ext_exec(call) {
        match file_path_in_exec(call) {
            Some(p) => {
                if plausible_path_exec(&p) {
                    let clean = clean_path_exec(&p);
                    let entry = prefixed("Certificate file: ", &clean);
                    add_unless_present_exec(certs, &clean, &entry);
                }
            },
            None => {},
        }
    }
}

fn keyword_rule_exec(certs: &mut Vec<String>, call: &[char], kw: &[char])
    ensures
        string_views(final(certs)@) == keyword_rule(string_views(old(certs)@), call@, kw@),
{
    if contains_exec(call, kw) {
        match cert_from_call_exec(call, kw) {
            Some(info) => {
                let v = if contains_exec(&info, &chars_of("=")) {
                    second_field_exec(&info)
                } else {
                    let w = sub_chars(&info, 0, info.len());
                    assert(w@ =~= info@);
                    w
                };
                if call_value_accepted_exec(&v) {
                    add_unless_present_exec(certs, &info, &info);
                }
            },
            None => {},
        }
    }
}

fn cert_keywords_exec() -> (v: Vec<Vec<char>>)
    ensures
        char_views(v@) == cert_keywords(),
{
    let mut v: Vec<Vec<char>> = Vec::new();
    v.push(chars_of("cert="));
    v.push(chars_of("verify="));
    v.push(chars_of("ca_certs="));
    v.push(chars_of("certfile="));
    v.push(chars_of("keyfile="));
    assert(char_views(v@) =~= cert_keywords());
    v
}

fn ssl_rule_exec(certs: &mut Vec<String>, call: &[char])
    ensures
        string_views(final(certs)@) == ssl_rule(string_views(old(certs)@), call@),
{
    if contains_exec(call, &chars_of("load_cert_chain")) || contains_exec(
        call,
        &chars_of("load_verify_locations"),
    ) {
        match file_path_in_exec(call) {
            Some(p) => {
                if !contains_exec(&p, &chars_of("self.")) && !contains_exec(&p, &chars_of("print")) {
                    let clean = clean_path_exec(&p);
                    let entry = prefixed("SSL Certificate: ", &clean);
                    add_unless_present_exec(certs, &clean, &entry);
                }
            },
            None => {},
        }
    }
}

fn call_cert_step_exec(certs: &mut Vec<String>, call: &[char])
    ensures
        string_views(final(certs)@) == call_cert_step(string_views(old(certs)@), call@),
{
    file_rule_exec(certs, call);
    let ghost after_file = string_views(certs@);
    let kws = cert_keywords_exec();
    let mut k: usize = 0;
    while k < kws.len()
        invariant
            char_views(kws@) == cert_keywords(),
            k <= kws@.len(),
            keyword_rules_from(after_file, call@, 0) == keyword_rules_from(
                string_views(certs@),
                call@,
                k as int,
            ),
        decreases kws.len() - k,
    {
        assert(kws@[k as int]@ == cert_keywords()[k as int]);
        keyword_rule_exec(certs, call, &kws[k]);
        k = k + 1;
    }
    ssl_rule_exec(certs, call);
}

/// The certificates and certificate parameters that a list of call
/// expressions mentions, each found once, in the order found.
pub fn certificates_from_calls(calls: &[String]) -> (certs: Vec<String>)
    ensures
        string_views(certs@) == certs_from_calls(string_views(calls@)),
{
    let mut certs: Vec<String> = Vec::new();
    let mut i: usize = 0;
    while i < calls.len()
        invariant
            i <= calls@.len(),
            string_views(certs@) == certs_from_calls(string_views(calls@.take(i as int))),
        decreases calls.len() - i,
    {
        let call = chars_of(calls[i].as_str());
        call_cert_step_exec(&mut certs, &call);
        assert(string_views(calls@.take(i + 1)).drop_last() == string_views(calls@.take(i as int)));
        assert(string_views(calls@.take(i + 1)).last() == calls@[i as int]@);
        i = i + 1;
    }
    assert(calls@.take(calls@.len() as int) == calls@);
    certs
}

// ---------------------------------------------------------------------------
// Certificates in source text
// ---------------------------------------------------------------------------

/// For one certificate extension: the certificate file path on a source line.
pub open spec fn source_ext_rule(certs: Seq<Seq<char>>, t: Seq<char>, ext: Seq<char>) -> Seq<
    Seq<char>,
> {
    if contains_seq(t, ext) {
        match file_path_in(t) {
            Some(p) => if plausible_path(p) {
                add_unless_present(
                    certs,
                    clean_path(p),
                    "Certificate file in source: "@ + clean_path(p),
                )
            } else {
                certs
            },
            None => certs,
        }
    } else {
        certs
    }
}

/// The extension rule for the extensions from the `k`-th on.
pub open spec fn source_ext_rules_from(certs: Seq<Seq<char>>, t: Seq<char>, k: int) -> Seq<
    Seq<char>,
>
    decreases cert_exts().len() - k,
{
    if k < 0 || k >= cert_exts().len() {
        certs
    } else {
        source_ext_rules_from(source_ext_rule(certs, t, cert_exts()[k]), t, k + 1)
    }
}

/// A `cert=` value on a source line that names a file and no variable.
pub open spec fn source_cert_accepted(v: Seq<char>) -> bool {
    &&& (contains_seq(v, "/"@) || contains_seq(v, "\\"@) || contains_seq(v, ".pem"@)
        || contains_seq(v, ".crt"@) || contains_seq(v, ".key"@) || starts_with(v, "\""@)
        || starts_with(v, "'"@))
    &&& !contains_seq(v, "self."@)
    &&& !contains_seq(v, "cert"@)
}

/// A `verify=` value on a source line that is a boolean or a file, not a variable.
pub open spec fn source_verify_accepted(v: Seq<char>) -> bool {
    &&& (v == "True"@ || v == "False"@ || contains_seq(v, "/"@) || contains_seq(v, "\\"@)
        || starts_with(v, "\""@) || starts_with(v, "'"@))
    &&& !contains_seq(v, "self."@)
    &&& !contains_seq(v, "verify"@)
}

/// The `cert=` rule on a source line.
pub open spec fn source_cert_rule(certs: Seq<Seq<char>>, t: Seq<char>) -> Seq<Seq<char>> {
    if contains_seq(t, "cert="@) {
        match cert_from_call(t, "cert="@) {
            Some(info) => if source_cert_accepted(second_field(info)) && !certs.contains(info) {
                certs.push(info)
            } else {
                certs
            },
            None => certs,
        }
    } else {
        certs
    }
}

/// The `verify=` rule on a source line.
pub open spec fn source_verify_rule(certs: Seq<Seq<char>>, t: Seq<char>) -> Seq<Seq<char>> {
    if contains_seq(t, "verify="@) {
        match cert_from_call(t, "verify="@) {
            Some(info) => if source_verify_accepted(second_field(info)) && !certs.contains(info) {
                certs.push(info)
            } else {
                certs
            },
            None => certs,
        }
    } else {
        certs
    }
}

/// What one source line adds to the certificates found so far.
pub open spec fn source_line_step(certs: Seq<Seq<char>>, line: Seq<char>) -> Seq<Seq<char>> {
    let t = trim(line);
    source_verify_rule(source_cert_rule(source_ext_rules_from(certs, t, 0), t), t)
}

/// The certificates found in the first `k` of `ls`.
pub open spec fn certs_from_lines(ls: Seq<Seq<char>>) -> Seq<Seq<char>>
    decreases ls.len(),
{
    if ls.len() == 0 {
        Seq::empty()
    } else {
        source_line_step(certs_from_lines(ls.drop_last()), ls.last())
    }
}

/// The certificates found in a source text, line by line.
pub open spec fn certs_from_source(source: Seq<char>) -> Seq<Seq<char>> {
    certs_from_lines(lines(source))
}

fn source_ext_rule_exec(certs: &mut Vec<String>, t: &[char], ext: &[char])
    ensures
        string_views(final(certs)@) == source_ext_rule(string_views(old(certs)@), t@, ext@),
{
    if contains_exec(t, ext) {
        match file_path_in_exec(t) {
            Some(p) => {
                if plausible_path_exec(&p) {
                    let clean = clean_path_exec(&p);
                    let entry = prefixed("Certificate file in source: ", &clean);
                    add_unless_present_exec(certs, &clean, &entry);
                }
            },
            None => {},
        }
    }
}

fn source_value_rule_exec(certs: &mut Vec<String>, t: &[char], verify: bool)
    ensures
        verify ==> string_views(final(certs)@) == source_verify_rule(string_views(old(certs)@), t@),
        !verify ==> string_views(final(certs)@) == source_cert_rule(string_views(old(certs)@), t@),
{
    let kw = if verify {
        chars_of("verify=")
    } else {
        chars_of("cert=")
    };
    if contains_exec(t, &kw) {
        match cert_from_call_exec(t, &kw) {
            Some(info) => {
                let v = second_field_exec(&info);
                let accepted = if verify {
                    (chars_eq(&v, &chars_of("True")) || chars_eq(&v, &chars_of("False"))
                        || contains_exec(&v, &chars_of("/")) || contains_exec(
                        &v,
                        &chars_of("\\"),
                    ) || starts_with_exec(&v, &chars_of("\"")) || starts_with_exec(
                        &v,
                        &chars_of("'"),
                    )) && !contains_exec(&v, &chars_of("self.")) && !contains_exec(
                        &v,
                        &chars_of("verify"),
                    )
                } else {
                    (contains_exec(&v, &chars_of("/")) || contains_exec(&v, &chars_of("\\"))
                        || contains_exec(&v, &chars_of(".pem")) || contains_exec(
                        &v,
                        &chars_of(".crt"),
                    ) || contains_exec(&v, &chars_of(".key")) || starts_with_exec(
                        &v,
                        &chars_of("\""),
                    ) || starts_with_exec(&v, &chars_of("'"))) && !contains_exec(
                        &v,
                        &chars_of("self."),
                    ) && !contains_exec(&v, &chars_of("cert"))
                };
                if accepted && !holds_entry(certs, &info) {
                    let ghost before = certs@;
                    certs.push(string_of(&info));
                    assert(string_views(certs@) == string_views(before).push(info@));
                }
            },
            None => {},
        }
    }
}

fn source_line_step_exec(certs: &mut Vec<String>, line: &[char])
    ensures
        string_views(final(certs)@) == source_line_step(string_views(old(certs)@), line@),
{
    let t = trim_chars(line);
    let ghost start = string_views(certs@);
    let exts = crate::call_text::cert_exts_exec();
    let mut k: usize = 0;
    while k < exts.len()
        invariant
            exts@.len() == cert_exts().len(),
            forall|m: int| 0 <= m < exts@.len() ==> #[trigger] exts@[m]@ == cert_exts()[m],
            k <= exts@.len(),
            source_ext_rules_from(start, t@, 0) == source_ext_rules_from(
                string_views(certs@),
                t@,
                k as int,
            ),
        decreases exts.len() - k,
    {
        assert(exts@[k as int]@ == cert_exts()[k as int]);
        source_ext_rule_exec(certs, &t, &exts[k]);
        k = k + 1;
    }
    source_value_rule_exec(certs, &t, false);
    source_value_rule_exec(certs, &t, true);
}

/// The certificate files and parameters written in a source text, line by
/// line, in the order found.
pub fn certificates_from_source(source: &str) -> (certs: Vec<String>)
    ensures
        string_views(certs@) == certs_from_source(source@),
{
    let text = chars_of(source);
    let ls = lines_exec(&text);
    let mut certs: Vec<String> = Vec::new();
    let mut i: usize = 0;
    while i < ls.len()
        invariant
            i <= ls@.len(),
            char_views(ls@) == lines(source@),
            string_views(certs@) == certs_from_lines(char_views(ls@).take(i as int)),
        decreases ls.len() - i,
    {
        source_line_step_exec(&mut certs, &ls[i]);
        assert(char_views(ls@).take(i + 1).drop_last() == char_views(ls@).take(i as int));
        assert(char_views(ls@).take(i + 1).last() == ls@[i as int]@);
        i = i + 1;
    }
    assert(char_views(ls@).take(ls@.len() as int) == char_views(ls@));
    certs
}

// ---------------------------------------------------------------------------
// Function definitions in Python source
// ---------------------------------------------------------------------------

/// A character that can continue a Python identifier.
pub open spec fn ident_char(c: char) -> bool {
    alphanumeric(c) || c == '_'
}

/// The trimmed line `t` starts a definition of the function `name`: it
/// starts with `def` and the name, which no further identifier character
/// continues (so `def request_all` does not define `request`).
pub open spec fn names_definition(t: Seq<char>, name: Seq<char>) -> bool {
    let head = "def "@ + name;
    &&& starts_with(t, head)
    &&& (t.len() == head.len() || !ident_char(t[head.len() as int]))
}

/// Scans `ls` from line `i` on for a `def` of `name`, `in_class` telling
/// whether a `class` line opened a class body that is still open.
///
/// A line whose trimmed text begins `def <name>` counts when the line itself
/// begins `def ` (module level) or, unless `module_level`, when it begins with
/// four spaces or a tab before `def ` inside a class. An empty line inside a
/// class closes it when the next line is neither empty nor indented.
pub open spec fn def_scan(ls: Seq<Seq<char>>, name: Seq<char>, module_level: bool, i: int, in_class: bool) -> bool
    decreases ls.len() - i,
{
    if i < 0 || i >= ls.len() {
        false
    } else {
        let line = ls[i];
        let t = trim(line);
        let in_class1 = if starts_with(t, "class "@) {
            true
        } else {
            in_class
        };
        let is_def = names_definition(t, name);
        let hit = is_def && if module_level {
            starts_with(line, "def "@)
        } else {
            ((starts_with(line, "    def "@) || starts_with(line, "\tdef "@)) && in_class1)
                || starts_with(line, "def "@)
        };
        if hit {
            true
        } else {
            let closes = t.len() == 0 && in_class1 && i + 1 < ls.len() && trim(ls[i + 1]).len()
                > 0 && !starts_with(ls[i + 1], "    "@) && !starts_with(ls[i + 1], "\t"@);
            def_scan(ls, name, module_level, i + 1, if closes {
                false
            } else {
                in_class1
            })
        }
    }
}

/// A Python source text defines `name`, as `def_scan` reads its lines.
pub open spec fn defines_function(content: Seq<char>, name: Seq<char>, module_level: bool) -> bool {
    def_scan(lines(content), name, module_level, 0, false)
}

pub fn concat_chars(a: &[char], b: &[char]) -> (r: Vec<char>)
    ensures
        r@ == a@ + b@,
{
    let mut r = sub_chars(a, 0, a.len());
    assert(r@ =~= a@);
    let ghost r0 = r@;
    let mut i: usize = 0;
    while i < b.len()
        invariant
            i <= b@.len(),
            r@ == r0 + b@.take(i as int),
        decreases b.len() - i,
    {
        r.push(b[i]);
        assert(b@.take(i + 1) == b@.take(i as int).push(b@[i as int]));
        i = i + 1;
    }
    assert(b@.take(b@.len() as int) == b@);
    r
}

/// Whether a Python source text defines `function_name`, at module level
/// only or also as a method, as `defines_function` states it.
pub fn has_function_definition(content: &str, function_name: &str, module_level: bool) -> (b: bool)
    ensures
        b == defines_function(content@, function_name@, module_level),
{
    let text = chars_of(content);
    let ls = lines_exec(&text);
    let name = chars_of(function_name);
    let def_name = concat_chars(&chars_of("def "), &name);
    let mut in_class = false;
    let mut i: usize = 0;
    while i < ls.len()
        invariant
            i <= ls@.len(),
            char_views(ls@) == lines(content@),
            name@ == function_name@,
            def_name@ == "def "@ + name@,
            defines_function(content@, function_name@, module_level) == def_scan(
                char_views(ls@),
                name@,
                module_level,
                i as int,
                in_class,
            ),
        decreases ls.len() - i,
    {
        let ghost lsv = char_views(ls@);
        let line = &ls[i];
        assert(lsv[i as int] == line@);
        let t = trim_chars(line);
        if starts_with_exec(&t, &chars_of("class ")) {
            in_class = true;
        }
        let is_def = starts_with_exec(&t, &def_name) && (t.len() == def_name.len() || !(
        char_is_alphanumeric(t[def_name.len()]) || t[def_name.len()] == '_'));
        let hit = is_def && if module_level {
            starts_with_exec(line, &chars_of("def "))
        } else {
            ((starts_with_exec(line, &chars_of("    def ")) || starts_with_exec(
                line,
                &chars_of("\tdef "),
            )) && in_class) || starts_with_exec(line, &chars_of("def "))
        };
        if hit {
            return true;
        }
        if t.len() == 0 && in_class && i + 1 < ls.len() {
            let next = &ls[i + 1];
            assert(lsv[i + 1] == next@);
            let nt = trim_chars(next);
            if nt.len() > 0 && !starts_with_exec(next, &chars_of("    ")) && !starts_with_exec(
                next,
                &chars_of("\t"),
            ) {
                in_class = false;
            }
        }
        i = i + 1;
    }
    false
}

} // verus!
