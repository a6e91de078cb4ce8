//! JSON Lines framing of analysis results.
use vstd::prelude::*;
use crate::complexity::string_views;
use crate::models::ComplexityResult;
use crate::text::push_char;

verus! {

/// The lowercase hexadecimal digit of `d`, below sixteen.
pub open spec fn hex_digit(d: int) -> char {
    seq!['0', '1', '2', '3', '4', '5', '6', '7', '8', '9', 'a', 'b', 'c', 'd', 'e', 'f'][d]
}

/// How `serde_json` writes the character `c` inside a string literal: a
/// quote, a backslash and the control characters below U+0020 are escaped
/// (`\b \t \n \f \r` where they have a short form, `\u00XX` in
/// lowercase hexadecimal otherwise); every other character stands as it is.
pub open spec fn json_escaped(c: char) -> Seq<char> {
    let n = c as u32;
    if c == '"' {
        seq!['\\', '"']
    } else if c == '\\' {
        seq!['\\', '\\']
    } else if n == 0x08 {
        seq!['\\', 'b']
    } else if n == 0x09 {
        seq!['\\', 't']
    } else if n == 0x0A {
        seq!['\\', 'n']
    } else if n == 0x0C {
        seq!['\\', 'f']
    } else if n == 0x0D {
        seq!['\\', 'r']
    } else if n < 0x20 {
        seq!['\\', 'u', '0', '0', hex_digit((n / 16) as int), hex_digit((n % 16) as int)]
    } else {
        seq![c]
    }
}

/// The characters of `s`, each as `serde_json` writes it inside a string literal.
pub open spec fn json_escaped_text(s: Seq<char>) -> Seq<char>
    decreases s.len(),
{
    if s.len() == 0 {
        Seq::empty()
    } else {
        json_escaped_text(s.drop_last()) + json_escaped(s.last())
    }
}

/// The JSON string literal that `serde_json` writes for the text `s`: the
/// escaped text between double quotes.
pub open spec fn json_string(s: Seq<char>) -> Seq<char> {
    seq!['"'] + json_escaped_text(s) + seq!['"']
}

/// `serde_json::to_string` on a string slice: the JSON string literal for
/// `s`, as `json_string` states its escaping (the compact formatter's
/// `format_escaped_str`). Serialising a `str` does not fail.
#[verifier::external_body]
pub(crate) fn json_quote(s: &str) -> (r: String)
    ensures
        r@ == json_string(s@),
{
    match serde_json::to_string(s) {
        Ok(j) => j,
        Err(_) => String::new(),
    }
}

/// The decimal digits of `n`, most significant first.
pub open spec fn decimal(n: nat) -> Seq<char>
    decreases n,
{
    if n < 10 {
        seq![digit_char(n)]
    } else {
        decimal(n / 10) + seq![digit_char(n % 10)]
    }
}

/// The character of a digit below ten.
pub open spec fn digit_char(d: nat) -> char {
    if d == 0 {
        '0'
    } else if d == 1 {
        '1'
    } else if d == 2 {
        '2'
    } else if d == 3 {
        '3'
    } else if d == 4 {
        '4'
    } else if d == 5 {
        '5'
    } else if d == 6 {
        '6'
    } else if d == 7 {
        '7'
    } else if d == 8 {
        '8'
    } else {
        '9'
    }
}

fn digit_char_exec(d: u64) -> (c: char)
    requires
        d < 10,
    ensures
        c == digit_char(d as nat),
{
    if d == 0 {
        '0'
    } else if d == 1 {
        '1'
    } else if d == 2 {
        '2'
    } else if d == 3 {
        '3'
    } else if d == 4 {
        '4'
    } else if d == 5 {
        '5'
    } else if d == 6 {
        '6'
    } else if d == 7 {
        '7'
    } else if d == 8 {
        '8'
    } else {
        '9'
    }
}

/// Appends the decimal digits of `n`.
pub fn push_decimal(out: &mut String, n: u64)
    ensures
        final(out)@ == old(out)@ + decimal(n as nat),
    decreases n,
{
    if n < 10 {
        push_char(out, digit_char_exec(n));
    } else {
        push_decimal(out, n / 10);
        push_char(out, digit_char_exec(n % 10));
        assert(decimal(n as nat) == decimal((n / 10) as nat) + seq![digit_char((n % 10) as nat)]);
    }
}

/// Appends all of `s`.
pub fn push_all(out: &mut String, s: &str)
    ensures
        final(out)@ == old(out)@ + s@,
{
    out.append(s);
}

/// The items of `items` with `sep` between each two.
pub open spec fn join(items: Seq<Seq<char>>, sep: Seq<char>) -> Seq<char>
    decreases items.len(),
{
    if items.len() == 0 {
        Seq::empty()
    } else if items.len() == 1 {
        items[0]
    } else {
        join(items.drop_last(), sep) + sep + items.last()
    }
}

/// Each item followed by a newline.
pub open spec fn lines_text(items: Seq<Seq<char>>) -> Seq<char>
    decreases items.len(),
{
    if items.len() == 0 {
        Seq::empty()
    } else {
        lines_text(items.drop_last()) + items.last() + seq!['\n']
    }
}

/// The items joined with `sep`.
pub fn join_strings(items: &Vec<String>, sep: &str) -> (r: String)
    ensures
        r@ == join(string_views(items@), sep@),
{
    let mut r = String::new();
    let mut i: usize = 0;
    while i < items.len()
        invariant
            i <= items@.len(),
            r@ == join(string_views(items@.take(i as int)), sep@),
        decreases items.len() - i,
    {
        assert(string_views(items@.take(i + 1)).drop_last() == string_views(items@.take(i as int)));
        assert(string_views(items@.take(i + 1)).last() == items@[i as int]@);
        if i > 0 {
            r.append(sep);
        } else {
            assert(string_views(items@.take(1)) == seq![items@[0]@]);
        }
        r.append(items[i].as_str());
        i = i + 1;
    }
    assert(items@.take(items@.len() as int) == items@);
    r
}

/// The JSON object of a complexity result, as `serde_json` writes it:
/// `{"function":…,"cyclomatic":…,"unreachable":[…]}`.
pub open spec fn complexity_json(r: ComplexityResult) -> Seq<char> {
    "{\"function\":"@ + json_string(r.function@) + ",\"cyclomatic\":"@ + decimal(
        r.cyclomatic as nat,
    ) + ",\"unreachable\":["@ + join(string_views(r.unreachable@).map_values(|s: Seq<char>| json_string(s)), ","@)
        + "]}"@
}

/// Appends the JSON object of a complexity result.
pub fn push_complexity_json(out: &mut String, r: &ComplexityResult)
    ensures
        final(out)@ == old(out)@ + complexity_json(*r),
{
    let ghost start = out@;
    push_all(out, "{\"function\":");
    let f = json_quote(r.function.as_str());
    push_all(out, f.as_str());
    push_all(out, ",\"cyclomatic\":");
    push_decimal(out, r.cyclomatic as u64);
    push_all(out, ",\"unreachable\":[");
    let ghost mid = out@;
    let ghost items = string_views(r.unreachable@).map_values(|s: Seq<char>| json_string(s));
    let mut i: usize = 0;
    while i < r.unreachable.len()
        invariant
            i <= r.unreachable@.len(),
            items == string_views(r.unreachable@).map_values(|s: Seq<char>| json_string(s)),
            out@ == mid + join(items.take(i as int), ","@),
        decreases r.unreachable.len() - i,
    {
        assert(items.take(i + 1).drop_last() == items.take(i as int));
        assert(items.take(i + 1).last() == json_string(r.unreachable@[i as int]@));
        if i > 0 {
            push_all(out, ",");
        } else {
            assert(items.take(1) == seq![items[0]]);
        }
        let q = json_quote(r.unreachable[i].as_str());
        push_all(out, q.as_str());
        i = i + 1;
    }
    assert(items.take(items.len() as int) == items);
    push_all(out, "]}");
    assert(out@ == start + complexity_json(*r));
}

} // verus!
