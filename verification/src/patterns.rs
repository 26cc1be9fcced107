//! The pattern library: recognisers for import statements, function
//! declarations and annotation markers, one set per language family.
//!
//! Each pattern is defined by a spec function over a line's characters and
//! computed by an executable scanner proved equal to it.  Searches are
//! leftmost: the earliest start position at which the whole pattern goes
//! through wins, as with the usual regular-expression semantics.  Captured
//! names are runs of ASCII word characters (see `is_word_char`); names
//! holding characters beyond ASCII are not recognised.

use vstd::prelude::*;

use crate::text::{
    find_char2_from, find_char_from, is_space_char, matches_at, skip_spaces, skip_word,
    spec_trim, find_char2_x, find_char_x, is_space, match_lit_at, skip_spaces_x, skip_word_x,
    sub_vec, trim_vec,
};

verus! {

// ---------------------------------------------------------------------------
// Keywords and fixed tokens
// ---------------------------------------------------------------------------

pub open spec fn kw_import() -> Seq<char> {
    seq!['i', 'm', 'p', 'o', 'r', 't']
}

pub open spec fn kw_from() -> Seq<char> {
    seq!['f', 'r', 'o', 'm']
}

pub open spec fn kw_require_open() -> Seq<char> {
    seq!['r', 'e', 'q', 'u', 'i', 'r', 'e', '(']
}

pub open spec fn kw_function() -> Seq<char> {
    seq!['f', 'u', 'n', 'c', 't', 'i', 'o', 'n']
}

pub open spec fn kw_const() -> Seq<char> {
    seq!['c', 'o', 'n', 's', 't']
}

pub open spec fn kw_let() -> Seq<char> {
    seq!['l', 'e', 't']
}

pub open spec fn kw_var() -> Seq<char> {
    seq!['v', 'a', 'r']
}

pub open spec fn kw_async() -> Seq<char> {
    seq!['a', 's', 'y', 'n', 'c']
}

pub open spec fn kw_arrow() -> Seq<char> {
    seq!['=', '>']
}

pub open spec fn kw_fn() -> Seq<char> {
    seq!['f', 'n']
}

pub open spec fn kw_def() -> Seq<char> {
    seq!['d', 'e', 'f']
}

pub open spec fn kw_use() -> Seq<char> {
    seq!['u', 's', 'e']
}

pub open spec fn op_line_comment() -> Seq<char> {
    seq!['/', '/']
}

pub open spec fn op_hash() -> Seq<char> {
    seq!['#']
}

pub open spec fn op_block_open() -> Seq<char> {
    seq!['/', '*']
}

pub open spec fn op_block_close() -> Seq<char> {
    seq!['*', '/']
}

pub open spec fn kw_todo() -> Seq<char> {
    seq!['T', 'O', 'D', 'O']
}

pub open spec fn kw_fixme() -> Seq<char> {
    seq!['F', 'I', 'X', 'M', 'E']
}

pub open spec fn kw_note() -> Seq<char> {
    seq!['N', 'O', 'T', 'E']
}

pub open spec fn kw_hack() -> Seq<char> {
    seq!['H', 'A', 'C', 'K']
}

pub open spec fn kw_xxx() -> Seq<char> {
    seq!['X', 'X', 'X']
}

// Executable checks that a keyword occurs at an index.

pub fn at_import(s: &Vec<char>, i: usize) -> (r: bool)
    ensures
        r == matches_at(s@, i as int, kw_import()),
{
    proof {
        reveal_strlit("import");
        assert("import"@ =~= kw_import());
    }
    match_lit_at(s, i, "import")
}

pub fn at_from(s: &Vec<char>, i: usize) -> (r: bool)
    ensures
        r == matches_at(s@, i as int, kw_from()),
{
    proof {
        reveal_strlit("from");
        assert("from"@ =~= kw_from());
    }
    match_lit_at(s, i, "from")
}

pub fn at_require_open(s: &Vec<char>, i: usize) -> (r: bool)
    ensures
        r == matches_at(s@, i as int, kw_require_open()),
{
    proof {
        reveal_strlit("require(");
        assert("require("@ =~= kw_require_open());
    }
    match_lit_at(s, i, "require(")
}

pub fn at_function(s: &Vec<char>, i: usize) -> (r: bool)
    ensures
        r == matches_at(s@, i as int, kw_function()),
{
    proof {
        reveal_strlit("function");
        assert("function"@ =~= kw_function());
    }
    match_lit_at(s, i, "function")
}

pub fn at_const(s: &Vec<char>, i: usize) -> (r: bool)
    ensures
        r == matches_at(s@, i as int, kw_const()),
{
    proof {
        reveal_strlit("const");
        assert("const"@ =~= kw_const());
    }
    match_lit_at(s, i, "const")
}

pub fn at_let(s: &Vec<char>, i: usize) -> (r: bool)
    ensures
        r == matches_at(s@, i as int, kw_let()),
{
    proof {
        reveal_strlit("let");
        assert("let"@ =~= kw_let());
    }
    match_lit_at(s, i, "let")
}

pub fn at_var(s: &Vec<char>, i: usize) -> (r: bool)
    ensures
        r == matches_at(s@, i as int, kw_var()),
{
    proof {
        reveal_strlit("var");
        assert("var"@ =~= kw_var());
    }
    match_lit_at(s, i, "var")
}

pub fn at_async(s: &Vec<char>, i: usize) -> (r: bool)
    ensures
        r == matches_at(s@, i as int, kw_async()),
{
    proof {
        reveal_strlit("async");
        assert("async"@ =~= kw_async());
    }
    match_lit_at(s, i, "async")
}

pub fn at_arrow(s: &Vec<char>, i: usize) -> (r: bool)
    ensures
        r == matches_at(s@, i as int, kw_arrow()),
{
    proof {
        reveal_strlit("=>");
        assert("=>"@ =~= kw_arrow());
    }
    match_lit_at(s, i, "=>")
}

pub fn at_fn_kw(s: &Vec<char>, i: usize) -> (r: bool)
    ensures
        r == matches_at(s@, i as int, kw_fn()),
{
    proof {
        reveal_strlit("fn");
        assert("fn"@ =~= kw_fn());
    }
    match_lit_at(s, i, "fn")
}

pub fn at_def_kw(s: &Vec<char>, i: usize) -> (r: bool)
    ensures
        r == matches_at(s@, i as int, kw_def()),
{
    proof {
        reveal_strlit("def");
        assert("def"@ =~= kw_def());
    }
    match_lit_at(s, i, "def")
}

pub fn at_use_kw(s: &Vec<char>, i: usize) -> (r: bool)
    ensures
        r == matches_at(s@, i as int, kw_use()),
{
    proof {
        reveal_strlit("use");
        assert("use"@ =~= kw_use());
    }
    match_lit_at(s, i, "use")
}

// ---------------------------------------------------------------------------
// Brace-family imports: `import ... from "spec"` and `require("spec")`
// ---------------------------------------------------------------------------

/// A quoted specifier follows after optional white space: a quote, one or
/// more non-quote characters, and a closing quote of either kind.
pub open spec fn quoted_spec_after(s: Seq<char>, p: int) -> Option<Seq<char>> {
    let q = skip_spaces(s, p);
    if !(q < s.len() && (s[q] == '\'' || s[q] == '"')) {
        None
    } else {
        match find_char2_from(s, '\'', '"', q + 1) {
            Some(e) => if e > q + 1 {
                Some(s.subrange(q + 1, e))
            } else {
                None
            },
            None => None,
        }
    }
}

pub fn quoted_spec_after_x(s: &Vec<char>, p: usize) -> (r: Option<(usize, usize)>)
    requires
        p <= s.len(),
    ensures
        r matches Some(c) ==> c.0 <= c.1 <= s.len() && quoted_spec_after(s@, p as int) == Some(
            s@.subrange(c.0 as int, c.1 as int),
        ),
        r is None ==> quoted_spec_after(s@, p as int) is None,
{
    let q = skip_spaces_x(s, p);
    if !(q < s.len() && (s[q] == '\'' || s[q] == '"')) {
        return None;
    }
    match find_char2_x(s, '\'', '"', q + 1) {
        Some(e) => {
            if e > q + 1 {
                Some((q + 1, e))
            } else {
                None
            }
        },
        None => None,
    }
}

/// The word `from` surrounded by white space on both sides at index `j`.
pub open spec fn from_kw_at(s: Seq<char>, j: int) -> bool {
    &&& matches_at(s, j, kw_from())
    &&& j >= 1
    &&& is_space_char(s[j - 1])
    &&& j + 4 < s.len()
    &&& is_space_char(s[j + 4])
}

/// First `from` clause at or after `j` whose quoted specifier also parses.
pub open spec fn find_from_clause(s: Seq<char>, j: int) -> Option<Seq<char>>
    decreases s.len() - j,
{
    if j < 0 || j + 4 > s.len() {
        None
    } else if from_kw_at(s, j) && quoted_spec_after(s, j + 5) is Some {
        quoted_spec_after(s, j + 5)
    } else {
        find_from_clause(s, j + 1)
    }
}

pub fn find_from_clause_x(s: &Vec<char>, j: usize) -> (r: Option<(usize, usize)>)
    ensures
        r matches Some(c) ==> c.0 <= c.1 <= s.len() && find_from_clause(s@, j as int) == Some(
            s@.subrange(c.0 as int, c.1 as int),
        ),
        r is None ==> find_from_clause(s@, j as int) is None,
{
    let mut i: usize = j;
    loop
        invariant
            j <= i,
            find_from_clause(s@, j as int) == find_from_clause(s@, i as int),
        decreases s.len() + 1 - i,
    {
        if i > s.len() || s.len() - i < 4 {
            assert(find_from_clause(s@, i as int) is None);
            return None;
        }
        let ok = at_from(s, i) && i >= 1 && is_space(s[i - 1]) && i + 4 < s.len() && is_space(
            s[i + 4],
        );
        if ok {
            match quoted_spec_after_x(s, i + 5) {
                Some(c) => {
                    assert(find_from_clause(s@, i as int) == quoted_spec_after(s@, i as int + 5));
                    return Some(c);
                },
                None => {
                    assert(find_from_clause(s@, i as int) == find_from_clause(
                        s@,
                        i as int + 1,
                    ));
                },
            }
        } else {
            assert(find_from_clause(s@, i as int) == find_from_clause(s@, i as int + 1));
        }
        i += 1;
    }
}

/// A brace-family `import ... from "spec"` statement beginning at `i`:
/// `import`, white space, anything, white space, `from`, white space, then
/// a quoted specifier.  The capture is the specifier.
pub open spec fn js_import_at(s: Seq<char>, i: int) -> Option<Seq<char>> {
    if matches_at(s, i, kw_import()) && i + 6 < s.len() && is_space_char(s[i + 6]) {
        find_from_clause(s, i + 8)
    } else {
        None
    }
}

/// Leftmost `import ... from` match in the line.
pub open spec fn js_import_search(s: Seq<char>, i: int) -> Option<Seq<char>>
    decreases s.len() - i,
{
    if i < 0 || i + 6 > s.len() {
        None
    } else if js_import_at(s, i) is Some {
        js_import_at(s, i)
    } else {
        js_import_search(s, i + 1)
    }
}

pub fn js_import_scan(s: &Vec<char>) -> (r: Option<Vec<char>>)
    ensures
        r matches Some(v) ==> js_import_search(s@, 0) == Some(v@),
        r is None ==> js_import_search(s@, 0) is None,
{
    let mut i: usize = 0;
    loop
        invariant
            js_import_search(s@, 0) == js_import_search(s@, i as int),
        decreases s.len() + 1 - i,
    {
        if i > s.len() || s.len() - i < 6 {
            assert(js_import_search(s@, i as int) is None);
            return None;
        }
        if at_import(s, i) && i + 6 < s.len() && is_space(s[i + 6]) {
            if s.len() - i >= 8 {
                match find_from_clause_x(s, i + 8) {
                    Some(c) => {
                        assert(js_import_at(s@, i as int) == find_from_clause(s@, i as int + 8));
                        return Some(sub_vec(s, c.0, c.1));
                    },
                    None => {
                        assert(js_import_at(s@, i as int) is None);
                        assert(js_import_search(s@, i as int) == js_import_search(
                            s@,
                            i as int + 1,
                        ));
                    },
                }
            } else {
                assert(find_from_clause(s@, i as int + 8) is None);
                assert(js_import_at(s@, i as int) is None);
                assert(js_import_search(s@, i as int) == js_import_search(s@, i as int + 1));
            }
        } else {
            assert(js_import_at(s@, i as int) is None);
            assert(js_import_search(s@, i as int) == js_import_search(s@, i as int + 1));
        }
        i += 1;
    }
}

/// A `require("spec")` call beginning at `i`; the capture is the specifier.
pub open spec fn js_require_at(s: Seq<char>, i: int) -> Option<Seq<char>> {
    if !matches_at(s, i, kw_require_open()) {
        None
    } else {
        let q = i + 8;
        if !(q < s.len() && (s[q] == '\'' || s[q] == '"')) {
            None
        } else {
            match find_char2_from(s, '\'', '"', q + 1) {
                Some(e) => if e > q + 1 && e + 1 < s.len() && s[e + 1] == ')' {
                    Some(s.subrange(q + 1, e))
                } else {
                    None
                },
                None => None,
            }
        }
    }
}

pub open spec fn js_require_search(s: Seq<char>, i: int) -> Option<Seq<char>>
    decreases s.len() - i,
{
    if i < 0 || i + 8 > s.len() {
        None
    } else if js_require_at(s, i) is Some {
        js_require_at(s, i)
    } else {
        js_require_search(s, i + 1)
    }
}

pub fn js_require_scan(s: &Vec<char>) -> (r: Option<Vec<char>>)
    ensures
        r matches Some(v) ==> js_require_search(s@, 0) == Some(v@),
        r is None ==> js_require_search(s@, 0) is None,
{
    let mut i: usize = 0;
    loop
        invariant
            js_require_search(s@, 0) == js_require_search(s@, i as int),
        decreases s.len() + 1 - i,
    {
        if i > s.len() || s.len() - i < 8 {
            assert(js_require_search(s@, i as int) is None);
            return None;
        }
        if at_require_open(s, i) {
            let q = i + 8;
            if q < s.len() && (s[q] == '\'' || s[q] == '"') {
                match find_char2_x(s, '\'', '"', q + 1) {
                    Some(e) => {
                        if e > q + 1 && e + 1 < s.len() && s[e + 1] == ')' {
                            assert(js_require_at(s@, i as int) == Some(s@.subrange(
                                q + 1 as int,
                                e as int,
                            )));
                            return Some(sub_vec(s, q + 1, e));
                        }
                        assert(js_require_at(s@, i as int) is None);
                    },
                    None => {
                        assert(js_require_at(s@, i as int) is None);
                    },
                }
            } else {
                assert(js_require_at(s@, i as int) is None);
            }
        } else {
            assert(js_require_at(s@, i as int) is None);
        }
        assert(js_require_search(s@, i as int) == js_require_search(s@, i as int + 1));
        i += 1;
    }
}

// ---------------------------------------------------------------------------
// Indentation-family imports: `import spec` and `from spec import`
// ---------------------------------------------------------------------------

/// `import <spec>` anchored at the start of a trimmed line; the capture is
/// everything after the white space that follows the keyword.
pub open spec fn py_import_at(t: Seq<char>) -> Option<Seq<char>> {
    if matches_at(t, 0, kw_import()) && 6 < t.len() && is_space_char(t[6]) {
        let b = skip_spaces(t, 6);
        if b < t.len() {
            Some(t.subrange(b, t.len() as int))
        } else {
            None
        }
    } else {
        None
    }
}

pub fn py_import_match(t: &Vec<char>) -> (r: Option<Vec<char>>)
    ensures
        r matches Some(v) ==> py_import_at(t@) == Some(v@),
        r is None ==> py_import_at(t@) is None,
{
    if at_import(t, 0) && 6 < t.len() && is_space(t[6]) {
        let b = skip_spaces_x(t, 6);
        if b < t.len() {
            return Some(sub_vec(t, b, t.len()));
        }
        return None;
    }
    None
}

/// First index `e >= j` holding white space that is followed (after more
/// white space) by the keyword `import`.
pub open spec fn find_import_stop(t: Seq<char>, j: int) -> Option<int>
    decreases t.len() - j,
{
    if j < 0 || j >= t.len() {
        None
    } else if is_space_char(t[j]) && matches_at(t, skip_spaces(t, j), kw_import()) {
        Some(j)
    } else {
        find_import_stop(t, j + 1)
    }
}

pub fn find_import_stop_x(t: &Vec<char>, j: usize) -> (r: Option<usize>)
    requires
        j <= t.len(),
    ensures
        r matches Some(e) ==> find_import_stop(t@, j as int) == Some(e as int) && j <= e
            < t.len(),
        r is None ==> find_import_stop(t@, j as int) is None,
{
    let mut i: usize = j;
    loop
        invariant
            j <= i,
            find_import_stop(t@, j as int) == find_import_stop(t@, i as int),
        decreases t.len() + 1 - i,
    {
        if i >= t.len() {
            return None;
        }
        if is_space(t[i]) {
            let k = skip_spaces_x(t, i);
            if at_import(t, k) {
                return Some(i);
            }
        }
        assert(find_import_stop(t@, i as int) == find_import_stop(t@, i as int + 1));
        i += 1;
    }
}

/// `from <spec> import` anchored at the start of a trimmed line; the capture
/// is the shortest non-empty span followed by white space and `import`.
pub open spec fn py_from_at(t: Seq<char>) -> Option<Seq<char>> {
    if matches_at(t, 0, kw_from()) && 4 < t.len() && is_space_char(t[4]) {
        let a = skip_spaces(t, 4);
        if a < t.len() {
            match find_import_stop(t, a + 1) {
                Some(e) => Some(t.subrange(a, e)),
                None => None,
            }
        } else {
            None
        }
    } else {
        None
    }
}

pub fn py_from_match(t: &Vec<char>) -> (r: Option<Vec<char>>)
    ensures
        r matches Some(v) ==> py_from_at(t@) == Some(v@),
        r is None ==> py_from_at(t@) is None,
{
    if at_from(t, 0) && 4 < t.len() && is_space(t[4]) {
        let a = skip_spaces_x(t, 4);
        if a < t.len() {
            match find_import_stop_x(t, a + 1) {
                Some(e) => {
                    return Some(sub_vec(t, a, e));
                },
                None => {
                    return None;
                },
            }
        }
        return None;
    }
    None
}

// ---------------------------------------------------------------------------
// Other-family imports: `use <spec>;` and `import "spec"`
// ---------------------------------------------------------------------------

/// `use <spec>;` anchored at the start of a trimmed line; the capture is
/// everything between the white space after `use` and the first semicolon.
pub open spec fn rust_use_at(t: Seq<char>) -> Option<Seq<char>> {
    if matches_at(t, 0, kw_use()) && 3 < t.len() && is_space_char(t[3]) {
        let b = skip_spaces(t, 3);
        match find_char_from(t, ';', b) {
            Some(e) => if e > b {
                Some(t.subrange(b, e))
            } else {
                None
            },
            None => None,
        }
    } else {
        None
    }
}

pub fn rust_use_match(t: &Vec<char>) -> (r: Option<Vec<char>>)
    ensures
        r matches Some(v) ==> rust_use_at(t@) == Some(v@),
        r is None ==> rust_use_at(t@) is None,
{
    if at_use_kw(t, 0) && 3 < t.len() && is_space(t[3]) {
        let b = skip_spaces_x(t, 3);
        match find_char_x(t, ';', b) {
            Some(e) => {
                if e > b {
                    return Some(sub_vec(t, b, e));
                }
                return None;
            },
            None => {
                return None;
            },
        }
    }
    None
}

/// `import "spec"` at index `i`: `import`, white space, then a
/// double-quoted non-empty specifier.
pub open spec fn go_import_at(s: Seq<char>, i: int) -> Option<Seq<char>> {
    if matches_at(s, i, kw_import()) && i + 6 < s.len() && is_space_char(s[i + 6]) {
        let q = skip_spaces(s, i + 6);
        if q < s.len() && s[q] == '"' {
            match find_char_from(s, '"', q + 1) {
                Some(e) => if e > q + 1 {
                    Some(s.subrange(q + 1, e))
                } else {
                    None
                },
                None => None,
            }
        } else {
            None
        }
    } else {
        None
    }
}

pub open spec fn go_import_search(s: Seq<char>, i: int) -> Option<Seq<char>>
    decreases s.len() - i,
{
    if i < 0 || i + 6 > s.len() {
        None
    } else if go_import_at(s, i) is Some {
        go_import_at(s, i)
    } else {
        go_import_search(s, i + 1)
    }
}

pub fn go_import_scan(s: &Vec<char>) -> (r: Option<Vec<char>>)
    ensures
        r matches Some(v) ==> go_import_search(s@, 0) == Some(v@),
        r is None ==> go_import_search(s@, 0) is None,
{
    let mut i: usize = 0;
    loop
        invariant
            go_import_search(s@, 0) == go_import_search(s@, i as int),
        decreases s.len() + 1 - i,
    {
        if i > s.len() || s.len() - i < 6 {
            assert(go_import_search(s@, i as int) is None);
            return None;
        }
        if at_import(s, i) && i + 6 < s.len() && is_space(s[i + 6]) {
            let q = skip_spaces_x(s, i + 6);
            if q < s.len() && s[q] == '"' {
                match find_char_x(s, '"', q + 1) {
                    Some(e) => {
                        if e > q + 1 {
                            assert(go_import_at(s@, i as int) == Some(s@.subrange(
                                q + 1 as int,
                                e as int,
                            )));
                            return Some(sub_vec(s, q + 1, e));
                        }
                        assert(go_import_at(s@, i as int) is None);
                    },
                    None => {
                        assert(go_import_at(s@, i as int) is None);
                    },
                }
            } else {
                assert(go_import_at(s@, i as int) is None);
            }
        } else {
            assert(go_import_at(s@, i as int) is None);
        }
        assert(go_import_search(s@, i as int) == go_import_search(s@, i as int + 1));
        i += 1;
    }
}

// ---------------------------------------------------------------------------
// Function declarations
// ---------------------------------------------------------------------------

/// Length of the declaration keyword found at `i`, or 0 if none is there.
pub open spec fn js_kw_len_at(s: Seq<char>, i: int) -> int {
    if matches_at(s, i, kw_function()) {
        8
    } else if matches_at(s, i, kw_const()) {
        5
    } else if matches_at(s, i, kw_let()) {
        3
    } else if matches_at(s, i, kw_var()) {
        3
    } else {
        0
    }
}

/// A brace-family declaration at `i`: a binding keyword, the bound name,
/// an optional `=`, an optional `async`, a parenthesised parameter list, an
/// optional arrow, and an opening brace.  The capture is the name.
pub open spec fn js_func_at(s: Seq<char>, i: int) -> Option<Seq<char>> {
    let kl = js_kw_len_at(s, i);
    if kl == 0 {
        None
    } else {
        let a = i + kl;
        if !(a < s.len() && is_space_char(s[a])) {
            None
        } else {
            let b = skip_spaces(s, a);
            let ne = skip_word(s, b);
            if !(ne > b) {
                None
            } else {
                let j = skip_spaces(s, ne);
                let j2 = if j < s.len() && s[j] == '=' {
                    skip_spaces(s, j + 1)
                } else {
                    j
                };
                let j3 = if matches_at(s, j2, kw_async()) {
                    skip_spaces(s, j2 + 5)
                } else {
                    j2
                };
                if !(j3 < s.len() && s[j3] == '(') {
                    None
                } else {
                    match find_char_from(s, ')', j3 + 1) {
                        Some(p) => {
                            let k = skip_spaces(s, p + 1);
                            let k2 = if matches_at(s, k, kw_arrow()) {
                                skip_spaces(s, k + 2)
                            } else {
                                k
                            };
                            if k2 < s.len() && s[k2] == '{' {
                                Some(s.subrange(b, ne))
                            } else {
                                None
                            }
                        },
                        None => None,
                    }
                }
            }
        }
    }
}

pub open spec fn js_func_search(s: Seq<char>, i: int) -> Option<Seq<char>>
    decreases s.len() - i,
{
    if i < 0 || i + 3 > s.len() {
        None
    } else if js_func_at(s, i) is Some {
        js_func_at(s, i)
    } else {
        js_func_search(s, i + 1)
    }
}

fn js_func_at_x(s: &Vec<char>, i: usize) -> (r: Option<(usize, usize)>)
    requires
        i + 3 <= s.len(),
    ensures
        r matches Some(c) ==> c.0 <= c.1 <= s.len() && js_func_at(s@, i as int) == Some(
            s@.subrange(c.0 as int, c.1 as int),
        ),
        r is None ==> js_func_at(s@, i as int) is None,
{
    let kl: usize = if at_function(s, i) {
        8
    } else if at_const(s, i) {
        5
    } else if at_let(s, i) {
        3
    } else if at_var(s, i) {
        3
    } else {
        0
    };
    if kl == 0 {
        return None;
    }
    let a = i + kl;
    if !(a < s.len() && is_space(s[a])) {
        return None;
    }
    let b = skip_spaces_x(s, a);
    let ne = skip_word_x(s, b);
    if !(ne > b) {
        return None;
    }
    let j = skip_spaces_x(s, ne);
    let j2 = if j < s.len() && s[j] == '=' {
        skip_spaces_x(s, j + 1)
    } else {
        j
    };
    let j3 = if at_async(s, j2) {
        skip_spaces_x(s, j2 + 5)
    } else {
        j2
    };
    if !(j3 < s.len() && s[j3] == '(') {
        return None;
    }
    match find_char_x(s, ')', j3 + 1) {
        Some(p) => {
            let k = skip_spaces_x(s, p + 1);
            let k2 = if at_arrow(s, k) {
                skip_spaces_x(s, k + 2)
            } else {
                k
            };
            if k2 < s.len() && s[k2] == '{' {
                Some((b, ne))
            } else {
                None
            }
        },
        None => None,
    }
}

pub fn js_func_scan(s: &Vec<char>) -> (r: Option<Vec<char>>)
    ensures
        r matches Some(v) ==> js_func_search(s@, 0) == Some(v@),
        r is None ==> js_func_search(s@, 0) is None,
{
    let mut i: usize = 0;
    loop
        invariant
            js_func_search(s@, 0) == js_func_search(s@, i as int),
        decreases s.len() + 1 - i,
    {
        if i > s.len() || s.len() - i < 3 {
            assert(js_func_search(s@, i as int) is None);
            return None;
        }
        match js_func_at_x(s, i) {
            Some(c) => {
                return Some(sub_vec(s, c.0, c.1));
            },
            None => {
                assert(js_func_search(s@, i as int) == js_func_search(s@, i as int + 1));
            },
        }
        i += 1;
    }
}

/// A `fn` declaration at `i`: `fn`, white space, the name, and a
/// parenthesised parameter list.  The capture is the name.
pub open spec fn rust_func_at(s: Seq<char>, i: int) -> Option<Seq<char>> {
    if !matches_at(s, i, kw_fn()) {
        None
    } else {
        let a = i + 2;
        if !(a < s.len() && is_space_char(s[a])) {
            None
        } else {
            let b = skip_spaces(s, a);
            let ne = skip_word(s, b);
            if !(ne > b) {
                None
            } else {
                let j = skip_spaces(s, ne);
                if !(j < s.len() && s[j] == '(') {
                    None
                } else {
                    match find_char_from(s, ')', j + 1) {
                        Some(_) => Some(s.subrange(b, ne)),
                        None => None,
                    }
                }
            }
        }
    }
}

pub open spec fn rust_func_search(s: Seq<char>, i: int) -> Option<Seq<char>>
    decreases s.len() - i,
{
    if i < 0 || i + 2 > s.len() {
        None
    } else if rust_func_at(s, i) is Some {
        rust_func_at(s, i)
    } else {
        rust_func_search(s, i + 1)
    }
}

fn rust_func_at_x(s: &Vec<char>, i: usize) -> (r: Option<(usize, usize)>)
    requires
        i + 2 <= s.len(),
    ensures
        r matches Some(c) ==> c.0 <= c.1 <= s.len() && rust_func_at(s@, i as int) == Some(
            s@.subrange(c.0 as int, c.1 as int),
        ),
        r is None ==> rust_func_at(s@, i as int) is None,
{
    if !at_fn_kw(s, i) {
        return None;
    }
    let a = i + 2;
    if !(a < s.len() && is_space(s[a])) {
        return None;
    }
    let b = skip_spaces_x(s, a);
    let ne = skip_word_x(s, b);
    if !(ne > b) {
        return None;
    }
    let j = skip_spaces_x(s, ne);
    if !(j < s.len() && s[j] == '(') {
        return None;
    }
    match find_char_x(s, ')', j + 1) {
        Some(_) => Some((b, ne)),
        None => None,
    }
}

pub fn rust_func_scan(s: &Vec<char>) -> (r: Option<Vec<char>>)
    ensures
        r matches Some(v) ==> rust_func_search(s@, 0) == Some(v@),
        r is None ==> rust_func_search(s@, 0) is None,
{
    let mut i: usize = 0;
    loop
        invariant
            rust_func_search(s@, 0) == rust_func_search(s@, i as int),
        decreases s.len() + 1 - i,
    {
        if i > s.len() || s.len() - i < 2 {
            assert(rust_func_search(s@, i as int) is None);
            return None;
        }
        match rust_func_at_x(s, i) {
            Some(c) => {
                return Some(sub_vec(s, c.0, c.1));
            },
            None => {
                assert(rust_func_search(s@, i as int) == rust_func_search(s@, i as int + 1));
            },
        }
        i += 1;
    }
}

/// A `def` declaration anchored at the start of a trimmed line: `def`,
/// white space, the name, a parameter list, and a colon right after the
/// closing parenthesis.  The capture is the name.
pub open spec fn py_func_at(t: Seq<char>) -> Option<Seq<char>> {
    if matches_at(t, 0, kw_def()) && 3 < t.len() && is_space_char(t[3]) {
        let b = skip_spaces(t, 3);
        let ne = skip_word(t, b);
        if !(ne > b) {
            None
        } else {
            let j = skip_spaces(t, ne);
            if !(j < t.len() && t[j] == '(') {
                None
            } else {
                match find_char_from(t, ')', j + 1) {
                    Some(p) => if p + 1 < t.len() && t[p + 1] == ':' {
                        Some(t.subrange(b, ne))
                    } else {
                        None
                    },
                    None => None,
                }
            }
        }
    } else {
        None
    }
}

pub fn py_func_match(t: &Vec<char>) -> (r: Option<Vec<char>>)
    ensures
        r matches Some(v) ==> py_func_at(t@) == Some(v@),
        r is None ==> py_func_at(t@) is None,
{
    if at_def_kw(t, 0) && 3 < t.len() && is_space(t[3]) {
        let b = skip_spaces_x(t, 3);
        let ne = skip_word_x(t, b);
        if !(ne > b) {
            return None;
        }
        let j = skip_spaces_x(t, ne);
        if !(j < t.len() && t[j] == '(') {
            return None;
        }
        match find_char_x(t, ')', j + 1) {
            Some(p) => {
                if p + 1 < t.len() && t[p + 1] == ':' {
                    return Some(sub_vec(t, b, ne));
                }
                return None;
            },
            None => {
                return None;
            },
        }
    }
    None
}

// ---------------------------------------------------------------------------
// Annotation markers
// ---------------------------------------------------------------------------

/// Length of the comment opener found at `i`, or 0 if none is there.
pub open spec fn opener_len_at(s: Seq<char>, i: int) -> int {
    if matches_at(s, i, op_line_comment()) {
        2
    } else if matches_at(s, i, op_hash()) {
        1
    } else if matches_at(s, i, op_block_open()) {
        2
    } else {
        0
    }
}

/// The marker keywords, numbered in the order they are tried.
pub open spec fn marker_text(m: int) -> Seq<char> {
    if m == 0 {
        kw_todo()
    } else if m == 1 {
        kw_fixme()
    } else if m == 2 {
        kw_note()
    } else if m == 3 {
        kw_hack()
    } else {
        kw_xxx()
    }
}

/// Which marker keyword occurs at `w`, or -1 if none does.
pub open spec fn marker_id_at(s: Seq<char>, w: int) -> int {
    if matches_at(s, w, kw_todo()) {
        0
    } else if matches_at(s, w, kw_fixme()) {
        1
    } else if matches_at(s, w, kw_note()) {
        2
    } else if matches_at(s, w, kw_hack()) {
        3
    } else if matches_at(s, w, kw_xxx()) {
        4
    } else {
        -1
    }
}

/// An annotation at `i`: a comment opener, white space, a marker keyword,
/// an optional colon, then the message, which is the trimmed remainder of
/// the line.
pub open spec fn todo_at(s: Seq<char>, i: int) -> Option<(int, Seq<char>)> {
    let ol = opener_len_at(s, i);
    if ol == 0 {
        None
    } else {
        let w = skip_spaces(s, i + ol);
        let m = marker_id_at(s, w);
        if m < 0 {
            None
        } else {
            let e = w + marker_text(m).len();
            let e2 = if e < s.len() && s[e] == ':' {
                e + 1
            } else {
                e
            };
            let ms = skip_spaces(s, e2);
            Some((m, spec_trim(s.subrange(ms, s.len() as int))))
        }
    }
}

pub open spec fn todo_search(s: Seq<char>, i: int) -> Option<(int, Seq<char>)>
    decreases s.len() - i,
{
    if i < 0 || i >= s.len() {
        None
    } else if todo_at(s, i) is Some {
        todo_at(s, i)
    } else {
        todo_search(s, i + 1)
    }
}

fn at_marker(s: &Vec<char>, w: usize) -> (r: i32)
    ensures
        r as int == marker_id_at(s@, w as int),
        r >= -1 && r < 5,
        r >= 0 ==> w + marker_text(r as int).len() <= s.len(),
{
    proof {
        reveal_strlit("TODO");
        reveal_strlit("FIXME");
        reveal_strlit("NOTE");
        reveal_strlit("HACK");
        reveal_strlit("XXX");
        assert("TODO"@ =~= kw_todo());
        assert("FIXME"@ =~= kw_fixme());
        assert("NOTE"@ =~= kw_note());
        assert("HACK"@ =~= kw_hack());
        assert("XXX"@ =~= kw_xxx());
    }
    if match_lit_at(s, w, "TODO") {
        0
    } else if match_lit_at(s, w, "FIXME") {
        1
    } else if match_lit_at(s, w, "NOTE") {
        2
    } else if match_lit_at(s, w, "HACK") {
        3
    } else if match_lit_at(s, w, "XXX") {
        4
    } else {
        -1
    }
}

fn marker_len_x(m: usize) -> (r: usize)
    requires
        m < 5,
    ensures
        r as int == marker_text(m as int).len(),
        r <= 5,
{
    if m == 0 {
        4
    } else if m == 1 {
        5
    } else if m == 2 {
        4
    } else if m == 3 {
        4
    } else {
        3
    }
}

/// The marker keyword as a string.
pub fn marker_string(m: usize) -> (r: String)
    requires
        m < 5,
    ensures
        r@ == marker_text(m as int),
{
    proof {
        reveal_strlit("TODO");
        reveal_strlit("FIXME");
        reveal_strlit("NOTE");
        reveal_strlit("HACK");
        reveal_strlit("XXX");
        assert("TODO"@ =~= kw_todo());
        assert("FIXME"@ =~= kw_fixme());
        assert("NOTE"@ =~= kw_note());
        assert("HACK"@ =~= kw_hack());
        assert("XXX"@ =~= kw_xxx());
    }
    if m == 0 {
        String::from_str("TODO")
    } else if m == 1 {
        String::from_str("FIXME")
    } else if m == 2 {
        String::from_str("NOTE")
    } else if m == 3 {
        String::from_str("HACK")
    } else {
        String::from_str("XXX")
    }
}

fn todo_at_x(s: &Vec<char>, i: usize) -> (r: Option<(usize, Vec<char>)>)
    requires
        i < s.len(),
    ensures
        r matches Some(c) ==> c.0 < 5 && todo_at(s@, i as int) == Some(
            (c.0 as int, c.1@),
        ),
        r is None ==> todo_at(s@, i as int) is None,
{
    proof {
        reveal_strlit("//");
        reveal_strlit("#");
        reveal_strlit("/*");
        assert("//"@ =~= op_line_comment());
        assert("#"@ =~= op_hash());
        assert("/*"@ =~= op_block_open());
    }
    let ol: usize = if match_lit_at(s, i, "//") {
        2
    } else if match_lit_at(s, i, "#") {
        1
    } else if match_lit_at(s, i, "/*") {
        2
    } else {
        0
    };
    if ol == 0 {
        return None;
    }
    let w = skip_spaces_x(s, i + ol);
    let m = at_marker(s, w);
    if m < 0 {
        return None;
    }
    let mu = m as usize;
    let e = w + marker_len_x(mu);
    let e2 = if e < s.len() && s[e] == ':' {
        e + 1
    } else {
        e
    };
    let ms = skip_spaces_x(s, e2);
    let tail = sub_vec(s, ms, s.len());
    let msg = trim_vec(&tail);
    Some((mu, msg))
}

pub fn todo_scan(s: &Vec<char>) -> (r: Option<(usize, Vec<char>)>)
    ensures
        r matches Some(c) ==> c.0 < 5 && todo_search(s@, 0) == Some((c.0 as int, c.1@)),
        r is None ==> todo_search(s@, 0) is None,
{
    let mut i: usize = 0;
    loop
        invariant
            todo_search(s@, 0) == todo_search(s@, i as int),
        decreases s.len() + 1 - i,
    {
        if i >= s.len() {
            assert(todo_search(s@, i as int) is None);
            return None;
        }
        match todo_at_x(s, i) {
            Some(c) => {
                return Some(c);
            },
            None => {
                assert(todo_search(s@, i as int) == todo_search(s@, i as int + 1));
            },
        }
        i += 1;
    }
}

} // verus!
