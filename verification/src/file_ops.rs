//! File-selection rules: which paths a directory walk skips, how a binary
//! file is recognised, and how a path is shown relative to a base
//! directory.  Walking directories and reading files is the caller's
//! business; these functions work on the names and bytes it hands in.

use vstd::prelude::*;

use crate::resolve::{last_comp, rfind_char, rfind_x};
use crate::text::{
    find_char_from, find_pat_from, matches_at, strs_view, find_char_x, find_vec_from,
    chars_to_string, match_vec_at, str_to_chars, sub_vec,
};

verus! {

/// One entry of a scanned directory tree.
#[derive(Debug)]
pub struct FileNode {
    pub name: String,
    pub path: String,
    pub is_dir: bool,
    pub size: u64,
    pub children: Option<Vec<FileNode>>,
}

/// A request to read and aggregate a set of files.
#[derive(Debug)]
pub struct CopyRequest {
    pub files: Vec<String>,
    pub base_path: String,
    pub format: String,
    pub max_file_size_mb: Option<u64>,
}

/// A request to write aggregated content to a file.
#[derive(Debug)]
pub struct ExportRequest {
    pub content: String,
    pub path: String,
}

// ---------------------------------------------------------------------------
// Ignore rules
// ---------------------------------------------------------------------------

/// The fixed ignore tokens, in the order they are tried.
pub open spec fn default_pattern_spec(i: int) -> Seq<char> {
    if i == 0 {
        "node_modules"@
    } else if i == 1 {
        ".git"@
    } else if i == 2 {
        "dist"@
    } else if i == 3 {
        "build"@
    } else if i == 4 {
        "target"@
    } else if i == 5 {
        ".next"@
    } else if i == 6 {
        "out"@
    } else if i == 7 {
        "coverage"@
    } else if i == 8 {
        ".cache"@
    } else if i == 9 {
        ".vscode"@
    } else if i == 10 {
        ".idea"@
    } else if i == 11 {
        "__pycache__"@
    } else if i == 12 {
        "*.pyc"@
    } else if i == 13 {
        ".DS_Store"@
    } else {
        "Thumbs.db"@
    }
}

fn default_pattern(i: usize) -> (r: &'static str)
    requires
        i < 15,
    ensures
        r@ == default_pattern_spec(i as int),
{
    if i == 0 {
        "node_modules"
    } else if i == 1 {
        ".git"
    } else if i == 2 {
        "dist"
    } else if i == 3 {
        "build"
    } else if i == 4 {
        "target"
    } else if i == 5 {
        ".next"
    } else if i == 6 {
        "out"
    } else if i == 7 {
        "coverage"
    } else if i == 8 {
        ".cache"
    } else if i == 9 {
        ".vscode"
    } else if i == 10 {
        ".idea"
    } else if i == 11 {
        "__pycache__"
    } else if i == 12 {
        "*.pyc"
    } else if i == 13 {
        ".DS_Store"
    } else {
        "Thumbs.db"
    }
}

/// The fixed ignore tokens as strings.
pub fn default_ignore_patterns() -> (r: Vec<String>)
    ensures
        r@.len() == 15,
        forall|i: int| 0 <= i < 15 ==> strs_view(r@)[i] == default_pattern_spec(i),
{
    let mut out: Vec<String> = Vec::new();
    let mut i: usize = 0;
    while i < 15
        invariant
            i <= 15,
            out@.len() == i,
            forall|k: int| 0 <= k < i ==> strs_view(out@)[k] == default_pattern_spec(k),
        decreases 15 - i,
    {
        out.push(String::from_str(default_pattern(i)));
        i += 1;
    }
    out
}

/// A path's extension: what follows the last dot of its final component,
/// provided that dot is not the component's first character.
pub open spec fn extension_of(path: Seq<char>) -> Option<Seq<char>> {
    let comp = last_comp(path);
    let dc = rfind_char(comp, '.');
    if dc > 0 {
        Some(comp.skip(dc + 1))
    } else {
        None
    }
}

fn extension_x(path: &Vec<char>) -> (r: Option<Vec<char>>)
    ensures
        r matches Some(v) ==> extension_of(path@) == Some(v@),
        r is None ==> extension_of(path@) is None,
{
    let comp_start: usize = match rfind_x(path, '/') {
        Some(j) => j + 1,
        None => 0,
    };
    assert(comp_start as int == rfind_char(path@, '/') + 1);
    let comp = sub_vec(path, comp_start, path.len());
    assert(comp@ =~= last_comp(path@));
    match rfind_x(&comp, '.') {
        Some(dc) if dc > 0 => Some(sub_vec(&comp, dc + 1, comp.len())),
        r => {
            proof {
                match r {
                    Some(d) => {
                        assert(rfind_char(comp@, '.') == d as int);
                    },
                    None => {
                        assert(rfind_char(comp@, '.') == -1);
                    },
                }
            }
            None
        },
    }
}

/// A pattern with every leading `*.` removed.
pub open spec fn strip_star_prefix(pat: Seq<char>) -> Seq<char>
    decreases pat.len(),
{
    if pat.len() >= 2 && pat[0] == '*' && pat[1] == '.' {
        strip_star_prefix(pat.skip(2))
    } else {
        pat
    }
}

/// Whether the pattern holds a `*`.
pub open spec fn has_star(pat: Seq<char>) -> bool {
    find_char_from(pat, '*', 0) is Some
}

/// A star pattern matches a path whose extension equals the pattern minus
/// its `*.` prefixes; a plain token matches any path that contains it.
pub open spec fn pattern_matches(path: Seq<char>, pat: Seq<char>) -> bool {
    if has_star(pat) {
        extension_of(path) == Some(strip_star_prefix(pat))
    } else {
        find_pat_from(path, pat, 0) is Some
    }
}

fn pattern_matches_x(path: &Vec<char>, pat: &Vec<char>) -> (r: bool)
    ensures
        r == pattern_matches(path@, pat@),
{
    let star = match find_char_x(pat, '*', 0) {
        Some(_) => true,
        None => false,
    };
    if star {
        let mut from: usize = 0;
        proof {
            assert(pat@.skip(0) =~= pat@);
        }
        while pat.len() - from >= 2 && pat[from] == '*' && pat[from + 1] == '.'
            invariant
                from <= pat.len(),
                strip_star_prefix(pat@) == strip_star_prefix(pat@.skip(from as int)),
            decreases pat.len() - from,
        {
            proof {
                let t = pat@.skip(from as int);
                assert(t[0] == pat@[from as int] && t[1] == pat@[from as int + 1]);
                assert(t.skip(2) =~= pat@.skip(from as int + 2));
            }
            from += 2;
        }
        proof {
            let t = pat@.skip(from as int);
            assert(!(t.len() >= 2 && t[0] == '*' && t[1] == '.'));
            assert(strip_star_prefix(pat@) == t);
        }
        let clean = sub_vec(pat, from, pat.len());
        assert(clean@ =~= pat@.skip(from as int));
        match extension_x(path) {
            Some(e) => {
                let mut eq = e.len() == clean.len();
                let mut k: usize = 0;
                while eq && k < e.len()
                    invariant
                        k <= e.len(),
                        eq ==> e@.len() == clean@.len(),
                        eq ==> forall|m: int| 0 <= m < k ==> e@[m] == clean@[m],
                        !eq ==> e@ != clean@,
                    decreases e.len() - k,
                {
                    if e[k] != clean[k] {
                        proof {
                            assert(e@[k as int] != clean@[k as int]);
                        }
                        eq = false;
                    }
                    k += 1;
                }
                proof {
                    if eq {
                        assert(e@ =~= clean@);
                    }
                }
                if eq {
                    assert(extension_of(path@) == Some(strip_star_prefix(pat@)));
                    return true;
                }
                assert(extension_of(path@) != Some(strip_star_prefix(pat@)));
                false
            },
            None => false,
        }
    } else {
        match find_vec_from(path, pat, 0) {
            Some(_) => true,
            None => false,
        }
    }
}

/// Does any default token from `i` on match?
pub open spec fn any_default_matches(path: Seq<char>, i: int) -> bool
    decreases 15 - i,
{
    if i < 0 || i >= 15 {
        false
    } else {
        pattern_matches(path, default_pattern_spec(i)) || any_default_matches(path, i + 1)
    }
}

/// Does any custom pattern from `i` on match?
pub open spec fn any_custom_matches(path: Seq<char>, pats: Seq<Seq<char>>, i: int) -> bool
    decreases pats.len() - i,
{
    if i < 0 || i >= pats.len() {
        false
    } else {
        pattern_matches(path, pats[i]) || any_custom_matches(path, pats, i + 1)
    }
}

/// What `should_ignore` decides.
pub open spec fn spec_should_ignore(path: Seq<char>, customs: Seq<Seq<char>>) -> bool {
    any_default_matches(path, 0) || any_custom_matches(path, customs, 0)
}

/// Should a directory walk skip this path?  It should when any default
/// token or any caller-supplied pattern matches it: a `*.`-style token by
/// the path's extension, a plain token by substring.
pub fn should_ignore(path: &str, custom_patterns: &Vec<String>) -> (r: bool)
    ensures
        r == spec_should_ignore(path@, strs_view(custom_patterns@)),
{
    let path_chars = str_to_chars(path);
    let mut i: usize = 0;
    while i < 15
        invariant
            i <= 15,
            path_chars@ == path@,
            !any_default_matches(path@, 0) || any_default_matches(path@, i as int),
            forall|k: int|
                0 <= k < i ==> !pattern_matches(path@, default_pattern_spec(k)),
        decreases 15 - i,
    {
        let pat = str_to_chars(default_pattern(i));
        if pattern_matches_x(&path_chars, &pat) {
            proof {
                lemma_any_default_intro(path@, i as int);
            }
            return true;
        }
        i += 1;
    }
    proof {
        lemma_any_default_none(path@, 0);
    }
    let ghost customs = strs_view(custom_patterns@);
    let mut j: usize = 0;
    while j < custom_patterns.len()
        invariant
            j <= custom_patterns.len(),
            path_chars@ == path@,
            customs == strs_view(custom_patterns@),
            customs.len() == custom_patterns@.len(),
            !any_default_matches(path@, 0),
            any_custom_matches(path@, customs, 0) == any_custom_matches(
                path@,
                customs,
                j as int,
            ),
        decreases custom_patterns.len() - j,
    {
        let pat = str_to_chars(custom_patterns[j].as_str());
        assert(pat@ == customs[j as int]);
        if pattern_matches_x(&path_chars, &pat) {
            assert(any_custom_matches(path@, customs, j as int));
            return true;
        }
        assert(any_custom_matches(path@, customs, j as int) == any_custom_matches(
            path@,
            customs,
            j as int + 1,
        ));
        j += 1;
    }
    assert(!any_custom_matches(path@, customs, j as int));
    false
}

proof fn lemma_any_default_intro(path: Seq<char>, i: int)
    requires
        0 <= i < 15,
        pattern_matches(path, default_pattern_spec(i)),
    ensures
        any_default_matches(path, 0),
{
    lemma_any_default_intro_from(path, 0, i);
}

proof fn lemma_any_default_intro_from(path: Seq<char>, k: int, i: int)
    requires
        0 <= k <= i < 15,
        pattern_matches(path, default_pattern_spec(i)),
    ensures
        any_default_matches(path, k),
    decreases i - k,
{
    if k < i {
        lemma_any_default_intro_from(path, k + 1, i);
    }
}

proof fn lemma_any_default_none(path: Seq<char>, k: int)
    requires
        0 <= k,
        forall|m: int| k <= m < 15 ==> !pattern_matches(path, default_pattern_spec(m)),
    ensures
        !any_default_matches(path, k),
    decreases 15 - k,
{
    if k < 15 {
        lemma_any_default_none(path, k + 1);
    }
}

// ---------------------------------------------------------------------------
// Binary detection
// ---------------------------------------------------------------------------

/// A file counts as binary when a zero byte stands among its first 8000
/// bytes.
pub open spec fn spec_is_binary(data: Seq<u8>) -> bool {
    exists|j: int| 0 <= j < vstd::math::min(data.len() as int, 8000) && data[j] == 0
}

pub fn is_binary_content(data: &Vec<u8>) -> (r: bool)
    ensures
        r == spec_is_binary(data@),
{
    let check_len: usize = if data.len() < 8000 {
        data.len()
    } else {
        8000
    };
    let mut j: usize = 0;
    while j < check_len
        invariant
            j <= check_len,
            check_len as int == vstd::math::min(data@.len() as int, 8000),
            forall|k: int| 0 <= k < j ==> data@[k] != 0,
        decreases check_len - j,
    {
        if data[j] == 0 {
            assert(spec_is_binary(data@));
            return true;
        }
        j += 1;
    }
    proof {
        if spec_is_binary(data@) {
            let w = choose|w: int|
                0 <= w < vstd::math::min(data@.len() as int, 8000) && data@[w] == 0;
            assert(data@[w] != 0);
        }
    }
    false
}

// ---------------------------------------------------------------------------
// Relative paths
// ---------------------------------------------------------------------------

/// A path shown relative to a base directory: the remainder after the base
/// and a separator, the empty string for the base itself, and the path's
/// final component when the base is no prefix of it.
pub open spec fn spec_relative_path(path: Seq<char>, base: Seq<char>) -> Seq<char> {
    if base.len() == 0 {
        path
    } else if path == base {
        Seq::empty()
    } else if base[base.len() - 1] == '/' && matches_at(path, 0, base) {
        path.skip(base.len() as int)
    } else if matches_at(path, 0, base) && path.len() > base.len() && path[base.len() as int]
        == '/' {
        path.skip(base.len() as int + 1)
    } else {
        last_comp(path)
    }
}

pub fn get_relative_path(path: &str, base_path: &str) -> (r: String)
    ensures
        r@ == spec_relative_path(path@, base_path@),
{
    let p = str_to_chars(path);
    let b = str_to_chars(base_path);
    if b.len() == 0 {
        return chars_to_string(&p);
    }
    let prefix = match_vec_at(&p, 0, &b);
    if prefix && p.len() == b.len() {
        proof {
            assert forall|k: int| 0 <= k < p@.len() implies p@[k] == b@[k] by {}
            assert(p@ =~= b@);
        }
        let empty: Vec<char> = Vec::new();
        return chars_to_string(&empty);
    }
    proof {
        if p@ == b@ {
            assert(matches_at(p@, 0, b@));
        }
    }
    if b[b.len() - 1] == '/' && prefix {
        let rest = sub_vec(&p, b.len(), p.len());
        assert(rest@ =~= p@.skip(b@.len() as int));
        return chars_to_string(&rest);
    }
    if prefix && p.len() > b.len() && p[b.len()] == '/' {
        let rest = sub_vec(&p, b.len() + 1, p.len());
        assert(rest@ =~= p@.skip(b@.len() as int + 1));
        return chars_to_string(&rest);
    }
    let comp_start: usize = match rfind_x(&p, '/') {
        Some(j) => j + 1,
        None => 0,
    };
    assert(comp_start as int == rfind_char(p@, '/') + 1);
    let comp = sub_vec(&p, comp_start, p.len());
    assert(comp@ =~= last_comp(p@));
    chars_to_string(&comp)
}

} // verus!
