//! Filtered views of the per-function analysis results.
use vstd::prelude::*;
use crate::complexity::string_views;
use crate::error::NTreeError;
use crate::json::{complexity_json, join, join_strings, lines_text, push_complexity_json};
use crate::models::{BasicBlockResult, CfgResult, ComplexityResult, FunctionSpan};
use crate::text::{contains_seq, str_contains, str_eq};

verus! {

/// The values behind a sequence of references.
pub open spec fn deref_all<T>(s: Seq<&T>) -> Seq<T> {
    s.map_values(|x: &T| *x)
}

/// `r` is the first element of `s` that satisfies `pred`, or there is none and `r` is `None`.
pub open spec fn first_where<T>(s: Seq<T>, pred: spec_fn(T) -> bool, r: Option<T>) -> bool {
    match r {
        Some(x) => exists|i: int|
            0 <= i < s.len() && s[i] == x && pred(s[i]) && forall|j: int| 0 <= j < i ==> !pred(s[j]),
        None => forall|i: int| 0 <= i < s.len() ==> !pred(s[i]),
    }
}

/// The value behind an optional reference.
pub open spec fn deref_opt<T>(o: Option<&T>) -> Option<T> {
    match o {
        Some(x) => Some(*x),
        None => None,
    }
}

/// A complexity result of at least `min` complexity.
pub open spec fn complexity_at_least(min: u32) -> spec_fn(ComplexityResult) -> bool {
    |r: ComplexityResult| r.cyclomatic >= min
}

/// A complexity result whose function name contains `pattern`.
pub open spec fn complexity_named(pattern: Seq<char>) -> spec_fn(ComplexityResult) -> bool {
    |r: ComplexityResult| contains_seq(r.function@, pattern)
}

/// A complexity result that lists unreachable nodes.
pub open spec fn has_unreachable() -> spec_fn(ComplexityResult) -> bool {
    |r: ComplexityResult| r.unreachable@.len() > 0
}

/// A CFG result whose function name contains `pattern`.
pub open spec fn cfg_named(pattern: Seq<char>) -> spec_fn(CfgResult) -> bool {
    |r: CfgResult| contains_seq(r.function_name@, pattern)
}

/// A CFG result for exactly the function `name`.
pub open spec fn cfg_for(name: Seq<char>) -> spec_fn(CfgResult) -> bool {
    |r: CfgResult| r.function_name@ == name
}

/// A function whose name contains `pattern`.
pub open spec fn function_named(pattern: Seq<char>) -> spec_fn(FunctionSpan) -> bool {
    |f: FunctionSpan| contains_seq(f.function@, pattern)
}

/// The function called exactly `name`.
pub open spec fn function_is(name: Seq<char>) -> spec_fn(FunctionSpan) -> bool {
    |f: FunctionSpan| f.function@ == name
}

/// A basic-block result whose function name contains `pattern`.
pub open spec fn blocks_named(pattern: Seq<char>) -> spec_fn(BasicBlockResult) -> bool {
    |r: BasicBlockResult| contains_seq(r.function_name@, pattern)
}

/// The basic-block result for exactly the function `name`.
pub open spec fn blocks_for(name: Seq<char>) -> spec_fn(BasicBlockResult) -> bool {
    |r: BasicBlockResult| r.function_name@ == name
}

/// Filtered view of complexity analysis results.
#[derive(Debug)]
pub struct ComplexityResultSet<'a> {
    pub data: &'a [ComplexityResult],
}

impl<'a> ComplexityResultSet<'a> {
    /// Filter complexity results by minimum cyclomatic complexity.
    pub fn filter_by_complexity(self, min_complexity: u32) -> (r: Vec<&'a ComplexityResult>)
        ensures
            deref_all(r@) == self.data@.filter(complexity_at_least(min_complexity)),
    {
        let ghost pred = complexity_at_least(min_complexity);
        let mut r: Vec<&'a ComplexityResult> = Vec::new();
        for i in 0..self.data.len()
            invariant
                pred == complexity_at_least(min_complexity),
                deref_all(r@) == self.data@.take(i as int).filter(pred),
        {
            reveal_with_fuel(Seq::<ComplexityResult>::filter, 1);
            assert(self.data@.take(i + 1).drop_last() == self.data@.take(i as int));
            let x = &self.data[i];
            if x.cyclomatic >= min_complexity {
                r.push(x);
            }
            assert(deref_all(r@) == self.data@.take(i + 1).filter(pred));
        }
        assert(self.data@.take(self.data@.len() as int) == self.data@);
        r
    }

    /// Filter complexity results by function name pattern.
    pub fn filter_by_name(self, pattern: &str) -> (r: Vec<&'a ComplexityResult>)
        ensures
            deref_all(r@) == self.data@.filter(complexity_named(pattern@)),
    {
        let ghost pred = complexity_named(pattern@);
        let mut r: Vec<&'a ComplexityResult> = Vec::new();
        for i in 0..self.data.len()
            invariant
                pred == complexity_named(pattern@),
                deref_all(r@) == self.data@.take(i as int).filter(pred),
        {
            reveal_with_fuel(Seq::<ComplexityResult>::filter, 1);
            assert(self.data@.take(i + 1).drop_last() == self.data@.take(i as int));
            let x = &self.data[i];
            if str_contains(x.function.as_str(), pattern) {
                r.push(x);
            }
            assert(deref_all(r@) == self.data@.take(i + 1).filter(pred));
        }
        assert(self.data@.take(self.data@.len() as int) == self.data@);
        r
    }

    /// Get results with unreachable code.
    pub fn with_unreachable_code(self) -> (r: Vec<&'a ComplexityResult>)
        ensures
            deref_all(r@) == self.data@.filter(has_unreachable()),
    {
        let ghost pred = has_unreachable();
        let mut r: Vec<&'a ComplexityResult> = Vec::new();
        for i in 0..self.data.len()
            invariant
                pred == has_unreachable(),
                deref_all(r@) == self.data@.take(i as int).filter(pred),
        {
            reveal_with_fuel(Seq::<ComplexityResult>::filter, 1);
            assert(self.data@.take(i + 1).drop_last() == self.data@.take(i as int));
            let x = &self.data[i];
            if !x.unreachable.is_empty() {
                r.push(x);
            }
            assert(deref_all(r@) == self.data@.take(i + 1).filter(pred));
        }
        assert(self.data@.take(self.data@.len() as int) == self.data@);
        r
    }

    /// Export to JSONL format: one JSON object per result, each on its own line.
    pub fn to_jsonl(&self) -> (res: Result<String, NTreeError>)
        ensures
            res matches Ok(s) && s@ == lines_text(self.data@.map_values(|r: ComplexityResult| complexity_json(r))),
    {
        let ghost items = self.data@.map_values(|r: ComplexityResult| complexity_json(r));
        let mut out = String::new();
        for i in 0..self.data.len()
            invariant
                items == self.data@.map_values(|r: ComplexityResult| complexity_json(r)),
                out@ == lines_text(items.take(i as int)),
        {
            assert(items.take(i + 1).drop_last() == items.take(i as int));
            push_complexity_json(&mut out, &self.data[i]);
            crate::text::push_char(&mut out, '\n');
        }
        assert(items.take(items.len() as int) == items);
        Ok(out)
    }

    /// Get all results as a slice.
    pub fn all(&self) -> (r: &'a [ComplexityResult])
        ensures
            r@ == self.data@,
    {
        self.data
    }

    /// Get number of results.
    pub fn len(&self) -> (n: usize)
        ensures
            n == self.data@.len(),
    {
        self.data.len()
    }

    /// Check if empty.
    pub fn is_empty(&self) -> (b: bool)
        ensures
            b == (self.data@.len() == 0),
    {
        self.data.len() == 0
    }
}

/// Filtered view of CFG analysis results.
#[derive(Debug)]
pub struct CfgResultSet<'a> {
    pub data: &'a [CfgResult],
}

impl<'a> CfgResultSet<'a> {
    /// Filter CFG results by function name pattern.
    pub fn filter_by_name(self, pattern: &str) -> (r: Vec<&'a CfgResult>)
        ensures
            deref_all(r@) == self.data@.filter(cfg_named(pattern@)),
    {
        let ghost pred = cfg_named(pattern@);
        let mut r: Vec<&'a CfgResult> = Vec::new();
        for i in 0..self.data.len()
            invariant
                pred == cfg_named(pattern@),
                deref_all(r@) == self.data@.take(i as int).filter(pred),
        {
            reveal_with_fuel(Seq::<CfgResult>::filter, 1);
            assert(self.data@.take(i + 1).drop_last() == self.data@.take(i as int));
            let x = &self.data[i];
            if str_contains(x.function_name.as_str(), pattern) {
                r.push(x);
            }
            assert(deref_all(r@) == self.data@.take(i + 1).filter(pred));
        }
        assert(self.data@.take(self.data@.len() as int) == self.data@);
        r
    }

    /// Get CFG for a specific function: the first result with exactly that name.
    pub fn for_function(self, function_name: &str) -> (r: Option<&'a CfgResult>)
        ensures
            first_where(self.data@, cfg_for(function_name@), deref_opt(r)),
    {
        let ghost pred = cfg_for(function_name@);
        for i in 0..self.data.len()
            invariant
                pred == cfg_for(function_name@),
                forall|j: int| 0 <= j < i ==> !pred(self.data@[j]),
        {
            if str_eq(self.data[i].function_name.as_str(), function_name) {
                return Some(&self.data[i]);
            }
        }
        None
    }

    /// Export all CFGs to Mermaid format: the diagrams separated by a blank line.
    pub fn to_mermaid(&self) -> (s: String)
        ensures
            s@ == join(self.data@.map_values(|c: CfgResult| c.mermaid@), "\n\n"@),
    {
        let mut parts: Vec<String> = Vec::new();
        for i in 0..self.data.len()
            invariant
                parts@.len() == i,
                forall|j: int| 0 <= j < i ==> #[trigger] parts@[j]@ == self.data@[j].mermaid@,
        {
            parts.push(self.data[i].mermaid.clone());
        }
        assert(string_views(parts@) =~= self.data@.map_values(|c: CfgResult| c.mermaid@));
        join_strings(&parts, "\n\n")
    }

    /// Export to JSONL format: the functions' JSONL separated by newlines.
    pub fn to_jsonl(&self) -> (s: String)
        ensures
            s@ == join(self.data@.map_values(|c: CfgResult| c.jsonl@), "\n"@),
    {
        let mut parts: Vec<String> = Vec::new();
        for i in 0..self.data.len()
            invariant
                parts@.len() == i,
                forall|j: int| 0 <= j < i ==> #[trigger] parts@[j]@ == self.data@[j].jsonl@,
        {
            parts.push(self.data[i].jsonl.clone());
        }
        assert(string_views(parts@) =~= self.data@.map_values(|c: CfgResult| c.jsonl@));
        join_strings(&parts, "\n")
    }

    /// Get all results as a slice.
    pub fn all(&self) -> (r: &'a [CfgResult])
        ensures
            r@ == self.data@,
    {
        self.data
    }

    /// Get number of results.
    pub fn len(&self) -> (n: usize)
        ensures
            n == self.data@.len(),
    {
        self.data.len()
    }

    /// Check if empty.
    pub fn is_empty(&self) -> (b: bool)
        ensures
            b == (self.data@.len() == 0),
    {
        self.data.len() == 0
    }
}

/// Filtered view of function analysis results.
#[derive(Debug)]
pub struct FunctionResultSet<'a> {
    pub data: &'a [FunctionSpan],
}

impl<'a> FunctionResultSet<'a> {
    /// Filter functions by name pattern.
    pub fn filter_by_name(self, pattern: &str) -> (r: Vec<&'a FunctionSpan>)
        ensures
            deref_all(r@) == self.data@.filter(function_named(pattern@)),
    {
        let ghost pred = function_named(pattern@);
        let mut r: Vec<&'a FunctionSpan> = Vec::new();
        for i in 0..self.data.len()
            invariant
                pred == function_named(pattern@),
                deref_all(r@) == self.data@.take(i as int).filter(pred),
        {
            reveal_with_fuel(Seq::<FunctionSpan>::filter, 1);
            assert(self.data@.take(i + 1).drop_last() == self.data@.take(i as int));
            let x = &self.data[i];
            if str_contains(x.function.as_str(), pattern) {
                r.push(x);
            }
            assert(deref_all(r@) == self.data@.take(i + 1).filter(pred));
        }
        assert(self.data@.take(self.data@.len() as int) == self.data@);
        r
    }

    /// Get function by exact name: the first function with that name.
    pub fn find_by_name(self, name: &str) -> (r: Option<&'a FunctionSpan>)
        ensures
            first_where(self.data@, function_is(name@), deref_opt(r)),
    {
        let ghost pred = function_is(name@);
        for i in 0..self.data.len()
            invariant
                pred == function_is(name@),
                forall|j: int| 0 <= j < i ==> !pred(self.data@[j]),
        {
            if str_eq(self.data[i].function.as_str(), name) {
                return Some(&self.data[i]);
            }
        }
        None
    }

    /// Get all function names, in order.
    pub fn names(&self) -> (r: Vec<&'a str>)
        ensures
            r@.map_values(|s: &str| s@) == self.data@.map_values(|f: FunctionSpan| f.function@),
    {
        let mut r: Vec<&'a str> = Vec::new();
        for i in 0..self.data.len()
            invariant
                r@.len() == i,
                forall|j: int| 0 <= j < i ==> #[trigger] r@[j]@ == self.data@[j].function@,
        {
            r.push(self.data[i].function.as_str());
        }
        assert(r@.map_values(|s: &str| s@) =~= self.data@.map_values(|f: FunctionSpan| f.function@));
        r
    }

    /// Get all results as a slice.
    pub fn all(&self) -> (r: &'a [FunctionSpan])
        ensures
            r@ == self.data@,
    {
        self.data
    }

    /// Get number of functions.
    pub fn len(&self) -> (n: usize)
        ensures
            n == self.data@.len(),
    {
        self.data.len()
    }

    /// Check if empty.
    pub fn is_empty(&self) -> (b: bool)
        ensures
            b == (self.data@.len() == 0),
    {
        self.data.len() == 0
    }
}

/// Filtered view of basic block analysis results.
#[derive(Debug)]
pub struct BasicBlockResultSet<'a> {
    pub data: &'a [BasicBlockResult],
}

impl<'a> BasicBlockResultSet<'a> {
    /// Filter basic blocks by function name pattern.
    pub fn filter_by_name(self, pattern: &str) -> (r: Vec<&'a BasicBlockResult>)
        ensures
            deref_all(r@) == self.data@.filter(blocks_named(pattern@)),
    {
        let ghost pred = blocks_named(pattern@);
        let mut r: Vec<&'a BasicBlockResult> = Vec::new();
        for i in 0..self.data.len()
            invariant
                pred == blocks_named(pattern@),
                deref_all(r@) == self.data@.take(i as int).filter(pred),
        {
            reveal_with_fuel(Seq::<BasicBlockResult>::filter, 1);
            assert(self.data@.take(i + 1).drop_last() == self.data@.take(i as int));
            let x = &self.data[i];
            if str_contains(x.function_name.as_str(), pattern) {
                r.push(x);
            }
            assert(deref_all(r@) == self.data@.take(i + 1).filter(pred));
        }
        assert(self.data@.take(self.data@.len() as int) == self.data@);
        r
    }

    /// Get basic blocks for a specific function: the first result with exactly that name.
    pub fn for_function(self, function_name: &str) -> (r: Option<&'a BasicBlockResult>)
        ensures
            first_where(self.data@, blocks_for(function_name@), deref_opt(r)),
    {
        let ghost pred = blocks_for(function_name@);
        for i in 0..self.data.len()
            invariant
                pred == blocks_for(function_name@),
                forall|j: int| 0 <= j < i ==> !pred(self.data@[j]),
        {
            if str_eq(self.data[i].function_name.as_str(), function_name) {
                return Some(&self.data[i]);
            }
        }
        None
    }

    /// Export to JSONL format: the functions' JSONL separated by newlines.
    pub fn to_jsonl(&self) -> (s: String)
        ensures
            s@ == join(self.data@.map_values(|b: BasicBlockResult| b.jsonl@), "\n"@),
    {
        let mut parts: Vec<String> = Vec::new();
        for i in 0..self.data.len()
            invariant
                parts@.len() == i,
                forall|j: int| 0 <= j < i ==> #[trigger] parts@[j]@ == self.data@[j].jsonl@,
        {
            parts.push(self.data[i].jsonl.clone());
        }
        assert(string_views(parts@) =~= self.data@.map_values(|b: BasicBlockResult| b.jsonl@));
        join_strings(&parts, "\n")
    }

    /// Get all results as a slice.
    pub fn all(&self) -> (r: &'a [BasicBlockResult])
        ensures
            r@ == self.data@,
    {
        self.data
    }

    /// Get number of results.
    pub fn len(&self) -> (n: usize)
        ensures
            n == self.data@.len(),
    {
        self.data.len()
    }

    /// Check if empty.
    pub fn is_empty(&self) -> (b: bool)
        ensures
            b == (self.data@.len() == 0),
    {
        self.data.len() == 0
    }
}

} // verus!
