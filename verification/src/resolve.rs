//! Import resolution: map the relative dependency specifiers of one file
//! to candidate files on disk.
//!
//! Which paths exist is the caller's knowledge: it hands in the list of
//! candidate paths that exist as regular files, and the resolver picks,
//! for each relative specifier, the first candidate in convention order
//! that is among them: the exact path, then each known extension appended,
//! then each `index.<ext>` file under the path taken as a directory.  The
//! result is deduplicated and sorted.  All path arithmetic is textual.

use vstd::prelude::*;

use crate::code_analysis::{
    deps_view, spec_detect_dependencies, DepModel, Dependency, detect_dependencies,
};
use crate::text::{
    strs_view, chars_to_string, push_all, str_to_chars, sub_vec,
};

verus! {

// ---------------------------------------------------------------------------
// Textual path arithmetic
// ---------------------------------------------------------------------------

/// Greatest index `<= j` holding `c`, or -1 if there is none.
pub open spec fn rfind_from(s: Seq<char>, c: char, j: int) -> int
    decreases j + 1,
{
    if j < 0 || j >= s.len() {
        -1
    } else if s[j] == c {
        j
    } else {
        rfind_from(s, c, j - 1)
    }
}

pub open spec fn rfind_char(s: Seq<char>, c: char) -> int {
    rfind_from(s, c, s.len() - 1)
}

pub fn rfind_x(s: &Vec<char>, c: char) -> (r: Option<usize>)
    ensures
        r matches Some(j) ==> j < s.len() && rfind_char(s@, c) == j as int,
        r is None ==> rfind_char(s@, c) == -1,
{
    let mut j: usize = s.len();
    loop
        invariant
            j <= s.len(),
            rfind_char(s@, c) == rfind_from(s@, c, j - 1),
        decreases j,
    {
        if j == 0 {
            return None;
        }
        if s[j - 1] == c {
            return Some(j - 1);
        }
        assert(rfind_from(s@, c, j - 1) == rfind_from(s@, c, j - 2));
        j -= 1;
    }
}

/// Any occurrence bounds the result from below.
proof fn lemma_rfind_ge(s: Seq<char>, c: char, j: int, occ: int)
    requires
        0 <= occ <= j < s.len(),
        s[occ] == c,
    ensures
        rfind_from(s, c, j) >= occ,
    decreases j,
{
    if s[j] != c {
        lemma_rfind_ge(s, c, j - 1, occ);
    }
}

/// Join a path onto a base directory: an absolute path wins, an empty base
/// disappears, and otherwise exactly one separator stands between them.
pub open spec fn join_path(b: Seq<char>, r: Seq<char>) -> Seq<char> {
    if r.len() > 0 && r[0] == '/' {
        r
    } else if b.len() == 0 {
        r
    } else if b[b.len() - 1] == '/' {
        b + r
    } else {
        b + seq!['/'] + r
    }
}

pub fn join_path_chars(b: &Vec<char>, r: &Vec<char>) -> (out: Vec<char>)
    ensures
        out@ == join_path(b@, r@),
{
    if r.len() > 0 && r[0] == '/' {
        return sub_vec(r, 0, r.len());
    }
    if b.len() == 0 {
        return sub_vec(r, 0, r.len());
    }
    let mut out = sub_vec(b, 0, b.len());
    if b[b.len() - 1] != '/' {
        out.push('/');
    }
    push_all(&mut out, r);
    proof {
        assert(r@.subrange(0, r@.len() as int) =~= r@);
        assert(b@.subrange(0, b@.len() as int) =~= b@);
        if b@.len() > 0 && !(r@.len() > 0 && r@[0] == '/') && b@[b@.len() - 1] != '/' {
            assert(out@ =~= b@ + seq!['/'] + r@);
        }
    }
    out
}

/// The final component of a path: everything after its last separator.
pub open spec fn last_comp(s: Seq<char>) -> Seq<char> {
    s.skip(rfind_char(s, '/') + 1)
}

/// Replace (or append) the extension of a path's final component.  A path
/// whose final component is empty or a dot component is left unchanged, as
/// it names no file.
pub open spec fn with_ext(s: Seq<char>, e: Seq<char>) -> Seq<char> {
    let sl = rfind_char(s, '/');
    let comp = s.skip(sl + 1);
    if comp.len() == 0 || comp == seq!['.'] || comp == seq!['.', '.'] {
        s
    } else {
        let dc = rfind_char(comp, '.');
        if dc > 0 {
            s.take(sl + 1 + dc) + seq!['.'] + e
        } else {
            s + seq!['.'] + e
        }
    }
}

fn with_ext_x(s: &Vec<char>, e: &str) -> (out: Vec<char>)
    ensures
        out@ == with_ext(s@, e@),
{
    let sl_opt = rfind_x(s, '/');
    let comp_start: usize = match sl_opt {
        Some(j) => j + 1,
        None => 0,
    };
    assert(comp_start as int == rfind_char(s@, '/') + 1);
    let comp = sub_vec(s, comp_start, s.len());
    assert(comp@ =~= s@.skip(rfind_char(s@, '/') + 1));
    let is_dot = comp.len() == 1 && comp[0] == '.';
    let is_dotdot = comp.len() == 2 && comp[0] == '.' && comp[1] == '.';
    proof {
        if comp@.len() == 1 && comp@[0] == '.' {
            assert(comp@ =~= seq!['.']);
        }
        if comp@.len() == 2 && comp@[0] == '.' && comp@[1] == '.' {
            assert(comp@ =~= seq!['.', '.']);
        }
        if comp@ == seq!['.'] {
            assert(comp@.len() == 1 && comp@[0] == '.');
        }
        if comp@ == seq!['.', '.'] {
            assert(comp@.len() == 2 && comp@[0] == '.' && comp@[1] == '.');
        }
    }
    if comp.len() == 0 || is_dot || is_dotdot {
        return sub_vec(s, 0, s.len());
    }
    let ext_chars = str_to_chars(e);
    match rfind_x(&comp, '.') {
        Some(dc) if dc > 0 => {
            let mut out = sub_vec(s, 0, comp_start + dc);
            out.push('.');
            push_all(&mut out, &ext_chars);
            proof {
                assert(out@ =~= s@.take(rfind_char(s@, '/') + 1 + rfind_char(comp@, '.'))
                    + seq!['.'] + e@);
            }
            out
        },
        r => {
            proof {
                match r {
                    Some(d) => {
                        assert(rfind_char(comp@, '.') == d as int);
                    },
                    None => {
                        assert(rfind_char(comp@, '.') == -1);
                    },
                }
            }
            let mut out = sub_vec(s, 0, s.len());
            out.push('.');
            push_all(&mut out, &ext_chars);
            proof {
                assert(out@ =~= s@ + seq!['.'] + e@);
            }
            out
        },
    }
}

/// The directory of a path: what stands before its last separator.  The
/// root and the empty path have none.
pub open spec fn parent_of(s: Seq<char>) -> Option<Seq<char>> {
    if s.len() == 0 || s == seq!['/'] {
        None
    } else {
        let sl = rfind_char(s, '/');
        if sl == -1 {
            Some(Seq::empty())
        } else if sl == 0 {
            Some(seq!['/'])
        } else {
            Some(s.take(sl))
        }
    }
}

fn parent_x(s: &Vec<char>) -> (r: Option<Vec<char>>)
    ensures
        r matches Some(v) ==> parent_of(s@) == Some(v@),
        r is None ==> parent_of(s@) is None,
{
    if s.len() == 0 || (s.len() == 1 && s[0] == '/') {
        proof {
            if s@.len() == 1 && s@[0] == '/' {
                assert(s@ =~= seq!['/']);
            }
        }
        return None;
    }
    proof {
        if s@ == seq!['/'] {
            assert(s@.len() == 1 && s@[0] == '/');
        }
    }
    match rfind_x(s, '/') {
        None => {
            let empty: Vec<char> = Vec::new();
            Some(empty)
        },
        Some(0) => {
            let mut v: Vec<char> = Vec::new();
            v.push('/');
            proof {
                assert(v@ =~= seq!['/']);
            }
            Some(v)
        },
        Some(sl) => Some(sub_vec(s, 0, sl)),
    }
}

// ---------------------------------------------------------------------------
// Candidate paths
// ---------------------------------------------------------------------------

/// The extensions tried, in order.
pub open spec fn ext_spec(t: int) -> Seq<char> {
    if t == 0 {
        "js"@
    } else if t == 1 {
        "jsx"@
    } else if t == 2 {
        "ts"@
    } else if t == 3 {
        "tsx"@
    } else if t == 4 {
        "css"@
    } else if t == 5 {
        "scss"@
    } else if t == 6 {
        "json"@
    } else if t == 7 {
        "py"@
    } else {
        "rs"@
    }
}

fn ext_str(t: usize) -> (r: &'static str)
    requires
        t < 9,
    ensures
        r@ == ext_spec(t as int),
{
    if t == 0 {
        "js"
    } else if t == 1 {
        "jsx"
    } else if t == 2 {
        "ts"
    } else if t == 3 {
        "tsx"
    } else if t == 4 {
        "css"
    } else if t == 5 {
        "scss"
    } else if t == 6 {
        "json"
    } else if t == 7 {
        "py"
    } else {
        "rs"
    }
}

/// The `index.<ext>` file name.
pub open spec fn index_name(e: Seq<char>) -> Seq<char> {
    "index."@ + e
}

/// Candidates for one joined path from extension `t` on: for each
/// extension, the path with that extension, then the index file under it.
pub open spec fn cand_tail(joined: Seq<char>, t: int) -> Seq<Seq<char>>
    decreases 9 - t,
{
    if t < 0 || t >= 9 {
        Seq::empty()
    } else {
        seq![with_ext(joined, ext_spec(t)), join_path(joined, index_name(ext_spec(t)))]
            + cand_tail(joined, t + 1)
    }
}

/// All candidate paths for a specifier, in the order they are tried.
pub open spec fn candidates(base: Seq<char>, dep: Seq<char>) -> Seq<Seq<char>> {
    seq![join_path(base, dep)] + cand_tail(join_path(base, dep), 0)
}

fn candidates_x(base: &Vec<char>, dep: &Vec<char>) -> (r: Vec<Vec<char>>)
    ensures
        crate::text::lines_view(r@) == candidates(base@, dep@),
{
    let joined = join_path_chars(base, dep);
    let mut out: Vec<Vec<char>> = Vec::new();
    out.push(sub_vec(&joined, 0, joined.len()));
    proof {
        assert(joined@.subrange(0, joined@.len() as int) =~= joined@);
        assert(crate::text::lines_view(out@) =~= seq![join_path(base@, dep@)]);
    }
    let mut t: usize = 0;
    while t < 9
        invariant
            t <= 9,
            joined@ == join_path(base@, dep@),
            candidates(base@, dep@) =~= crate::text::lines_view(out@) + cand_tail(
                joined@,
                t as int,
            ),
        decreases 9 - t,
    {
        let ghost pre = crate::text::lines_view(out@);
        let e = ext_str(t);
        let we = with_ext_x(&joined, e);
        out.push(we);
        let mut idx_name: Vec<char> = str_to_chars("index.");
        push_all(&mut idx_name, &str_to_chars(e));
        proof {
            reveal_strlit("index.");
            assert(idx_name@ =~= index_name(ext_spec(t as int)));
        }
        let idx = join_path_chars(&joined, &idx_name);
        out.push(idx);
        proof {
            assert(crate::text::lines_view(out@) =~= pre + seq![
                with_ext(joined@, ext_spec(t as int)),
                join_path(joined@, index_name(ext_spec(t as int))),
            ]);
            assert(cand_tail(joined@, t as int) =~= seq![
                with_ext(joined@, ext_spec(t as int)),
                join_path(joined@, index_name(ext_spec(t as int))),
            ] + cand_tail(joined@, t as int + 1));
        }
        t += 1;
    }
    proof {
        assert(cand_tail(joined@, 9).len() == 0);
        assert(crate::text::lines_view(out@) =~= candidates(base@, dep@));
    }
    out
}

// ---------------------------------------------------------------------------
// Selection
// ---------------------------------------------------------------------------

/// A specifier the resolver tries to resolve: one that is written as a
/// relative or absolute filesystem path.
pub open spec fn is_path_spec(dep: Seq<char>) -> bool {
    dep.len() > 0 && (dep[0] == '.' || dep[0] == '/')
}

/// First candidate from `i` on that is among the existing paths.
pub open spec fn first_existing(cands: Seq<Seq<char>>, ex: Seq<Seq<char>>, i: int) -> Option<
    Seq<char>,
>
    decreases cands.len() - i,
{
    if i < 0 || i >= cands.len() {
        None
    } else if ex.contains(cands[i]) {
        Some(cands[i])
    } else {
        first_existing(cands, ex, i + 1)
    }
}

/// The resolved path of each dependency from `k` on, in dependency order:
/// the first existing candidate of each path-like specifier.
pub open spec fn selected(
    deps: Seq<DepModel>,
    base: Seq<char>,
    ex: Seq<Seq<char>>,
    k: int,
) -> Seq<Seq<char>>
    decreases deps.len() - k,
{
    if k < 0 || k >= deps.len() {
        Seq::empty()
    } else {
        let rest = selected(deps, base, ex, k + 1);
        if is_path_spec(deps[k].dependency) {
            match first_existing(candidates(base, deps[k].dependency), ex, 0) {
                Some(p) => seq![p] + rest,
                None => rest,
            }
        } else {
            rest
        }
    }
}

fn chars_eq_str(a: &String, v: &Vec<char>) -> (r: bool)
    ensures
        r == (a@ == v@),
{
    let n = a.as_str().unicode_len();
    if n != v.len() {
        return false;
    }
    let mut i: usize = 0;
    while i < n
        invariant
            i <= n,
            n == a@.len(),
            n == v@.len(),
            forall|k: int| 0 <= k < i ==> a@[k] == v@[k],
        decreases n - i,
    {
        if a.as_str().get_char(i) != v[i] {
            return false;
        }
        i += 1;
    }
    proof {
        assert(a@ =~= v@);
    }
    true
}

fn in_existing(existing: &Vec<String>, cand: &Vec<char>) -> (r: bool)
    ensures
        r == strs_view(existing@).contains(cand@),
{
    let mut j: usize = 0;
    while j < existing.len()
        invariant
            j <= existing.len(),
            forall|k: int| 0 <= k < j ==> strs_view(existing@)[k] != cand@,
        decreases existing.len() - j,
    {
        if chars_eq_str(&existing[j], cand) {
            assert(strs_view(existing@)[j as int] == cand@);
            return true;
        }
        j += 1;
    }
    proof {
        if strs_view(existing@).contains(cand@) {
            let w = choose|w: int|
                0 <= w < strs_view(existing@).len() && strs_view(existing@)[w] == cand@;
            assert(strs_view(existing@)[w] != cand@);
        }
    }
    false
}

fn first_existing_x(cands: &Vec<Vec<char>>, existing: &Vec<String>) -> (r: Option<Vec<char>>)
    ensures
        r matches Some(v) ==> first_existing(
            crate::text::lines_view(cands@),
            strs_view(existing@),
            0,
        ) == Some(v@),
        r is None ==> first_existing(
            crate::text::lines_view(cands@),
            strs_view(existing@),
            0,
        ) is None,
{
    let ghost cv = crate::text::lines_view(cands@);
    let ghost ex = strs_view(existing@);
    let mut i: usize = 0;
    while i < cands.len()
        invariant
            i <= cands.len(),
            cv == crate::text::lines_view(cands@),
            ex == strs_view(existing@),
            cands.len() == cv.len(),
            first_existing(cv, ex, 0) == first_existing(cv, ex, i as int),
        decreases cands.len() - i,
    {
        if in_existing(existing, &cands[i]) {
            assert(first_existing(cv, ex, i as int) == Some(cv[i as int]));
            return Some(sub_vec(&cands[i], 0, cands[i].len()));
        }
        assert(first_existing(cv, ex, i as int) == first_existing(cv, ex, i as int + 1));
        i += 1;
    }
    assert(first_existing(cv, ex, i as int) is None);
    None
}

// ---------------------------------------------------------------------------
// Order, deduplication
// ---------------------------------------------------------------------------

/// Lexicographic order on character sequences, by code point.
pub open spec fn str_le(a: Seq<char>, b: Seq<char>) -> bool
    decreases a.len(),
{
    if a.len() == 0 {
        true
    } else if b.len() == 0 {
        false
    } else if (a[0] as u32) < (b[0] as u32) {
        true
    } else if (a[0] as u32) > (b[0] as u32) {
        false
    } else {
        str_le(a.drop_first(), b.drop_first())
    }
}

pub open spec fn str_lt(a: Seq<char>, b: Seq<char>) -> bool {
    str_le(a, b) && a != b
}

/// Strictly ascending, hence free of duplicates.
pub open spec fn strict_sorted(v: Seq<Seq<char>>) -> bool {
    forall|i: int| 0 <= i < v.len() - 1 ==> str_lt(#[trigger] v[i], v[i + 1])
}

proof fn lemma_str_le_total(a: Seq<char>, b: Seq<char>)
    ensures
        str_le(a, b) || str_le(b, a),
        str_le(a, b) && str_le(b, a) ==> a == b,
    decreases a.len(),
{
    if a.len() > 0 && b.len() > 0 && a[0] == b[0] {
        lemma_str_le_total(a.drop_first(), b.drop_first());
        if str_le(a, b) && str_le(b, a) {
            assert(a.drop_first() == b.drop_first());
            assert forall|k: int| 0 <= k < a.len() implies a[k] == b[k] by {
                if k > 0 {
                    assert(a.drop_first()[k - 1] == b.drop_first()[k - 1]);
                }
            }
            assert(a =~= b);
        }
    } else if a.len() > 0 && b.len() > 0 {
        assert((a[0] as u32) != (b[0] as u32)) by {
            if (a[0] as u32) == (b[0] as u32) {
                vstd::utf8::char_u32_cast(a[0], a[0] as u32);
                vstd::utf8::char_u32_cast(b[0], b[0] as u32);
            }
        }
    } else if a.len() == 0 && b.len() == 0 {
        assert(a =~= b);
    }
}

fn str_le_x(a: &Vec<char>, b: &Vec<char>) -> (r: bool)
    ensures
        r == str_le(a@, b@),
{
    let mut i: usize = 0;
    proof {
        assert(a@.skip(0) =~= a@);
        assert(b@.skip(0) =~= b@);
    }
    loop
        invariant
            i <= a.len(),
            i <= b.len(),
            str_le(a@, b@) == str_le(a@.skip(i as int), b@.skip(i as int)),
        decreases a.len() - i,
    {
        let ghost sa = a@.skip(i as int);
        let ghost sb = b@.skip(i as int);
        if i == a.len() {
            assert(sa.len() == 0);
            return true;
        }
        if i == b.len() {
            assert(sa.len() > 0 && sb.len() == 0);
            return false;
        }
        assert(sa[0] == a@[i as int] && sb[0] == b@[i as int]);
        let ca = a[i] as u32;
        let cb = b[i] as u32;
        if ca < cb {
            return true;
        }
        if ca > cb {
            return false;
        }
        proof {
            assert(sa.drop_first() =~= a@.skip(i as int + 1));
            assert(sb.drop_first() =~= b@.skip(i as int + 1));
        }
        i += 1;
    }
}

proof fn lemma_insert_contains(s: Seq<Seq<char>>, i: int, x: Seq<char>)
    requires
        0 <= i <= s.len(),
    ensures
        forall|y: Seq<char>|
            #[trigger] s.insert(i, x).contains(y) <==> (s.contains(y) || y == x),
{
    let s2 = s.insert(i, x);
    assert forall|y: Seq<char>| #[trigger] s2.contains(y) implies (s.contains(y) || y == x) by {
        let w = choose|w: int| 0 <= w < s2.len() && s2[w] == y;
        if w < i {
            assert(s[w] == y);
        } else if w > i {
            assert(s[w - 1] == y);
        }
    }
    assert forall|y: Seq<char>| (s.contains(y) || y == x) implies #[trigger] s2.contains(y) by {
        if y == x {
            assert(s2[i] == y);
        } else {
            let w = choose|w: int| 0 <= w < s.len() && s[w] == y;
            if w < i {
                assert(s2[w] == y);
            } else {
                assert(s2[w + 1] == y);
            }
        }
    }
}

/// Where `x` belongs in a strictly sorted vector, or the fact that it is
/// already there.
fn find_insert_pos(out: &Vec<String>, x: &Vec<char>) -> (r: (usize, bool))
    requires
        strict_sorted(strs_view(out@)),
    ensures
        r.1 ==> strs_view(out@).contains(x@),
        !r.1 ==> {
            &&& r.0 <= out@.len()
            &&& forall|k: int| 0 <= k < r.0 ==> str_lt(#[trigger] strs_view(out@)[k], x@)
            &&& r.0 < out@.len() ==> str_lt(x@, strs_view(out@)[r.0 as int])
        },
{
    let ghost ov = strs_view(out@);
    let mut idx: usize = 0;
    loop
        invariant
            idx <= out.len(),
            ov == strs_view(out@),
            out.len() == ov.len(),
            strict_sorted(ov),
            forall|k: int| 0 <= k < idx ==> str_lt(#[trigger] ov[k], x@),
        decreases out.len() - idx,
    {
        if idx == out.len() {
            return (idx, false);
        }
        if chars_eq_str(&out[idx], x) {
            proof {
                assert(ov[idx as int] == x@);
                assert(ov.contains(x@));
            }
            return (idx, true);
        }
        let le = str_le_x(x, &sub_vec_of_string(&out[idx]));
        if le {
            proof {
                lemma_str_le_total(x@, ov[idx as int]);
                assert(str_lt(x@, ov[idx as int]));
            }
            return (idx, false);
        }
        proof {
            lemma_str_le_total(x@, ov[idx as int]);
            assert(str_lt(ov[idx as int], x@));
        }
        idx += 1;
    }
}

/// Insert `x` into a strictly sorted vector, keeping it strictly sorted
/// and adding `x` to the set of its elements.
fn sorted_insert(out: &mut Vec<String>, x: Vec<char>)
    requires
        strict_sorted(strs_view(old(out)@)),
    ensures
        strict_sorted(strs_view(final(out)@)),
        forall|y: Seq<char>|
            #[trigger] strs_view(final(out)@).contains(y) <==> (strs_view(
                old(out)@,
            ).contains(y) || y == x@),
{
    let ghost ov = strs_view(out@);
    let (idx, present) = find_insert_pos(out, &x);
    if present {
        return ;
    }
    let xs = chars_to_string(&x);
    out.insert(idx, xs);
    proof {
        assert(strs_view(out@) =~= ov.insert(idx as int, x@));
        lemma_insert_contains(ov, idx as int, x@);
        let nv = strs_view(out@);
        assert forall|i: int| 0 <= i < nv.len() - 1 implies str_lt(#[trigger] nv[i], nv[i + 1]) by {
            if i + 1 < idx {
                assert(nv[i] == ov[i] && nv[i + 1] == ov[i + 1]);
            } else if i + 1 == idx {
                assert(nv[i] == ov[i] && nv[i + 1] == x@);
            } else if i == idx {
                assert(nv[i] == x@ && nv[i + 1] == ov[i]);
            } else {
                assert(nv[i] == ov[i - 1] && nv[i + 1] == ov[i]);
            }
        }
    }
}

fn sub_vec_of_string(s: &String) -> (r: Vec<char>)
    ensures
        r@ == s@,
{
    str_to_chars(s.as_str())
}

// ---------------------------------------------------------------------------
// The resolver
// ---------------------------------------------------------------------------

/// Resolve the relative imports of one file to paths on disk.  `existing`
/// lists the candidate paths that exist as regular files; `content` and
/// `extension` drive the dependency detector.  The result holds, for every
/// path-like specifier whose candidates meet `existing`, the first such
/// candidate, deduplicated and sorted; a file without a directory part is
/// refused.
pub fn resolve_imports(file: &str, content: &str, extension: &str, existing: &Vec<String>) -> (r:
    Result<Vec<String>, String>)
    ensures
        r is Err <==> parent_of(file@) is None,
        r matches Err(m) ==> m@ == "Could not get parent directory"@,
        r matches Ok(v) ==> {
            let base = parent_of(file@)->Some_0;
            let sel = selected(
                spec_detect_dependencies(file@, content@, extension@),
                base,
                strs_view(existing@),
                0,
            );
            &&& strict_sorted(strs_view(v@))
            &&& forall|y: Seq<char>|
                #[trigger] strs_view(v@).contains(y) <==> sel.contains(y)
        },
{
    let file_chars = str_to_chars(file);
    let base = match parent_x(&file_chars) {
        Some(b) => b,
        None => {
            return Err(String::from_str("Could not get parent directory"));
        },
    };
    let deps = detect_dependencies(file, content, extension);
    let ghost dv = spec_detect_dependencies(file@, content@, extension@);
    let ghost ex = strs_view(existing@);
    let mut out: Vec<String> = Vec::new();
    let mut k: usize = 0;
    proof {
        assert(deps_view(deps@) == dv);
        assert(strs_view(out@).len() == 0);
    }
    while k < deps.len()
        invariant
            k <= deps.len(),
            dv == spec_detect_dependencies(file@, content@, extension@),
            deps_view(deps@) == dv,
            deps.len() == dv.len(),
            ex == strs_view(existing@),
            parent_of(file@) == Some(base@),
            strict_sorted(strs_view(out@)),
            forall|y: Seq<char>|
                #[trigger] selected(dv, base@, ex, 0).contains(y) <==> (strs_view(
                    out@,
                ).contains(y) || selected(dv, base@, ex, k as int).contains(y)),
        decreases deps.len() - k,
    {
        let ghost pre = strs_view(out@);
        let dep_chars = str_to_chars(deps[k].dependency.as_str());
        assert(dep_chars@ == dv[k as int].dependency);
        let is_path = dep_chars.len() > 0 && (dep_chars[0] == '.' || dep_chars[0] == '/');
        assert(is_path == is_path_spec(dv[k as int].dependency));
        if is_path {
            let cands = candidates_x(&base, &dep_chars);
            match first_existing_x(&cands, existing) {
                Some(p) => {
                    assert(first_existing(candidates(base@, dv[k as int].dependency), ex, 0)
                        == Some(p@));
                    sorted_insert(&mut out, p);
                    proof {
                        lemma_selected_step(dv, base@, ex, k as int);
                    }
                },
                None => {
                    proof {
                        lemma_selected_step(dv, base@, ex, k as int);
                    }
                },
            }
        } else {
            proof {
                lemma_selected_step(dv, base@, ex, k as int);
            }
        }
        k += 1;
    }
    proof {
        assert(selected(dv, base@, ex, k as int).len() == 0);
        assert forall|y: Seq<char>|
            #[trigger] strs_view(out@).contains(y) <==> selected(dv, base@, ex, 0).contains(
                y,
            ) by {
            assert(!selected(dv, base@, ex, k as int).contains(y));
        }
    }
    Ok(out)
}

/// The candidates of every path-like dependency from `k` on, in order.
pub open spec fn all_candidates(deps: Seq<DepModel>, base: Seq<char>, k: int) -> Seq<Seq<char>>
    decreases deps.len() - k,
{
    if k < 0 || k >= deps.len() {
        Seq::empty()
    } else {
        (if is_path_spec(deps[k].dependency) {
            candidates(base, deps[k].dependency)
        } else {
            Seq::<Seq<char>>::empty()
        }) + all_candidates(deps, base, k + 1)
    }
}

/// Every path a resolution might name: the candidates of each path-like
/// specifier, in the order they would be tried.  The caller checks which
/// of these exist as regular files and hands the existing ones to
/// `resolve_imports`.
pub fn resolution_candidates(file: &str, content: &str, extension: &str) -> (r: Result<
    Vec<String>,
    String,
>)
    ensures
        r is Err <==> parent_of(file@) is None,
        r matches Ok(v) ==> strs_view(v@) == all_candidates(
            spec_detect_dependencies(file@, content@, extension@),
            parent_of(file@)->Some_0,
            0,
        ),
{
    let file_chars = str_to_chars(file);
    let base = match parent_x(&file_chars) {
        Some(b) => b,
        None => {
            return Err(String::from_str("Could not get parent directory"));
        },
    };
    let deps = detect_dependencies(file, content, extension);
    let ghost dv = spec_detect_dependencies(file@, content@, extension@);
    let mut out: Vec<String> = Vec::new();
    let mut k: usize = 0;
    proof {
        assert(strs_view(out@) + all_candidates(dv, base@, 0) =~= all_candidates(dv, base@, 0));
    }
    while k < deps.len()
        invariant
            k <= deps.len(),
            dv == spec_detect_dependencies(file@, content@, extension@),
            deps_view(deps@) == dv,
            deps.len() == dv.len(),
            parent_of(file@) == Some(base@),
            all_candidates(dv, base@, 0) =~= strs_view(out@) + all_candidates(
                dv,
                base@,
                k as int,
            ),
        decreases deps.len() - k,
    {
        let ghost pre = strs_view(out@);
        let dep_chars = str_to_chars(deps[k].dependency.as_str());
        assert(dep_chars@ == dv[k as int].dependency);
        let is_path = dep_chars.len() > 0 && (dep_chars[0] == '.' || dep_chars[0] == '/');
        assert(is_path == is_path_spec(dv[k as int].dependency));
        if is_path {
            let cands = candidates_x(&base, &dep_chars);
            let ghost cv = crate::text::lines_view(cands@);
            let mut ci: usize = 0;
            while ci < cands.len()
                invariant
                    ci <= cands.len(),
                    cv == crate::text::lines_view(cands@),
                    cands.len() == cv.len(),
                    strs_view(out@) =~= pre + cv.take(ci as int),
                decreases cands.len() - ci,
            {
                let ghost mid = strs_view(out@);
                out.push(chars_to_string(&cands[ci]));
                proof {
                    assert(strs_view(out@) =~= mid.push(cv[ci as int]));
                    assert(strs_view(out@) =~= pre + cv.take(ci as int + 1));
                }
                ci += 1;
            }
            proof {
                assert(cv.take(cv.len() as int) =~= cv);
                assert(strs_view(out@) =~= pre + candidates(base@, dv[k as int].dependency));
            }
        }
        proof {
            assert(all_candidates(dv, base@, 0) =~= strs_view(out@) + all_candidates(
                dv,
                base@,
                k as int + 1,
            ));
        }
        k += 1;
    }
    proof {
        assert(all_candidates(dv, base@, k as int).len() == 0);
        assert(strs_view(out@) =~= all_candidates(dv, base@, 0));
    }
    Ok(out)
}

// ---------------------------------------------------------------------------
// Resolved paths stay under the importing directory
// ---------------------------------------------------------------------------

/// `y` lies textually under the directory `base`: it begins with `base`
/// followed by a separator.
pub open spec fn in_dir(y: Seq<char>, base: Seq<char>) -> bool {
    y.len() > base.len() && y.subrange(0, base.len() as int + 1) == base + seq!['/']
}

proof fn lemma_rfind_le(s: Seq<char>, c: char, j: int)
    requires
        -1 <= j,
    ensures
        rfind_from(s, c, j) <= j,
    decreases j + 1,
{
    if !(j < 0 || j >= s.len()) && s[j] != c {
        lemma_rfind_le(s, c, j - 1);
    }
}

proof fn lemma_first_existing_member(cands: Seq<Seq<char>>, ex: Seq<Seq<char>>, i: int, p: Seq<
    char,
>)
    requires
        first_existing(cands, ex, i) == Some(p),
    ensures
        cands.contains(p),
    decreases cands.len() - i,
{
    if 0 <= i && i < cands.len() {
        if ex.contains(cands[i]) {
            assert(cands[i] == p);
        } else {
            lemma_first_existing_member(cands, ex, i + 1, p);
        }
    }
}

proof fn lemma_with_ext_in_dir(joined: Seq<char>, e: Seq<char>, base: Seq<char>)
    requires
        in_dir(joined, base),
    ensures
        in_dir(with_ext(joined, e), base),
{
    let sl = rfind_char(joined, '/');
    let comp = joined.skip(sl + 1);
    assert(joined[base.len() as int] == '/') by {
        assert((base + seq!['/'])[base.len() as int] == '/');
    }
    lemma_rfind_ge(joined, '/', joined.len() - 1, base.len() as int);
    lemma_rfind_le(joined, '/', joined.len() - 1);
    if comp.len() == 0 || comp == seq!['.'] || comp == seq!['.', '.'] {
    } else {
        let dc = rfind_char(comp, '.');
        lemma_rfind_le(comp, '.', comp.len() - 1);
        if dc > 0 {
            let out = joined.take(sl + 1 + dc) + seq!['.'] + e;
            assert(out.len() > base.len());
            assert(out.subrange(0, base.len() as int + 1) =~= joined.subrange(0, base.len() as int + 1));
        } else {
            let out = joined + seq!['.'] + e;
            assert(out.subrange(0, base.len() as int + 1) =~= joined.subrange(0, base.len() as int + 1));
        }
    }
}

proof fn lemma_join_in_dir(joined: Seq<char>, name: Seq<char>, base: Seq<char>)
    requires
        in_dir(joined, base),
        name.len() > 0,
        name[0] != '/',
    ensures
        in_dir(join_path(joined, name), base),
{
    if joined[joined.len() - 1] == '/' {
        let out = joined + name;
        assert(out.subrange(0, base.len() as int + 1) =~= joined.subrange(0, base.len() as int + 1));
    } else {
        let out = joined + seq!['/'] + name;
        assert(out.subrange(0, base.len() as int + 1) =~= joined.subrange(0, base.len() as int + 1));
    }
}

proof fn lemma_cand_tail_in_dir(joined: Seq<char>, t: int, base: Seq<char>)
    requires
        in_dir(joined, base),
    ensures
        forall|ci: int|
            0 <= ci < cand_tail(joined, t).len() ==> in_dir(
                #[trigger] cand_tail(joined, t)[ci],
                base,
            ),
    decreases 9 - t,
{
    if 0 <= t < 9 {
        lemma_with_ext_in_dir(joined, ext_spec(t), base);
        assert(index_name(ext_spec(t)).len() > 0 && index_name(ext_spec(t))[0] != '/') by {
            reveal_strlit("index.");
            assert(index_name(ext_spec(t))[0] == 'i');
        }
        lemma_join_in_dir(joined, index_name(ext_spec(t)), base);
        lemma_cand_tail_in_dir(joined, t + 1, base);
        let whole = cand_tail(joined, t);
        let rest = cand_tail(joined, t + 1);
        assert forall|ci: int| 0 <= ci < whole.len() implies in_dir(
            #[trigger] whole[ci],
            base,
        ) by {
            if ci >= 2 {
                assert(whole[ci] == rest[ci - 2]);
            }
        }
    }
}

proof fn lemma_candidates_in_dir(base: Seq<char>, dep: Seq<char>)
    requires
        base.len() > 0,
        base[base.len() - 1] != '/',
        dep.len() > 0,
        dep[0] == '.',
    ensures
        forall|ci: int|
            0 <= ci < candidates(base, dep).len() ==> in_dir(
                #[trigger] candidates(base, dep)[ci],
                base,
            ),
{
    let joined = join_path(base, dep);
    assert(joined == base + seq!['/'] + dep);
    assert(in_dir(joined, base)) by {
        assert(joined.subrange(0, base.len() as int + 1) =~= base + seq!['/']);
    }
    lemma_cand_tail_in_dir(joined, 0, base);
    let whole = candidates(base, dep);
    let rest = cand_tail(joined, 0);
    assert forall|ci: int| 0 <= ci < whole.len() implies in_dir(#[trigger] whole[ci], base) by {
        if ci >= 1 {
            assert(whole[ci] == rest[ci - 1]);
        }
    }
}

/// The resolver never leaves the importing file's directory: when every
/// path-like specifier is relative (it starts with a dot), every selected
/// path begins with the base directory and a separator.
pub proof fn lemma_resolver_stays_in_subtree(
    deps: Seq<DepModel>,
    base: Seq<char>,
    ex: Seq<Seq<char>>,
    k: int,
)
    requires
        base.len() > 0,
        base[base.len() - 1] != '/',
        forall|d: int|
            0 <= d < deps.len() && is_path_spec(#[trigger] deps[d].dependency) ==> deps[
                d
            ].dependency[0] == '.',
    ensures
        forall|y: Seq<char>|
            #[trigger] selected(deps, base, ex, k).contains(y) ==> in_dir(y, base),
    decreases deps.len() - k,
{
    if 0 <= k && k < deps.len() {
        lemma_resolver_stays_in_subtree(deps, base, ex, k + 1);
        let rest = selected(deps, base, ex, k + 1);
        let whole = selected(deps, base, ex, k);
        if is_path_spec(deps[k].dependency) {
            match first_existing(candidates(base, deps[k].dependency), ex, 0) {
                Some(p) => {
                    lemma_first_existing_member(candidates(base, deps[k].dependency), ex, 0, p);
                    lemma_candidates_in_dir(base, deps[k].dependency);
                    assert(in_dir(p, base)) by {
                        let w = choose|w: int|
                            0 <= w < candidates(base, deps[k].dependency).len() && candidates(
                                base,
                                deps[k].dependency,
                            )[w] == p;
                        assert(in_dir(candidates(base, deps[k].dependency)[w], base));
                    }
                    assert forall|y: Seq<char>| #[trigger] whole.contains(y) implies in_dir(
                        y,
                        base,
                    ) by {
                        let w = choose|w: int| 0 <= w < whole.len() && whole[w] == y;
                        if w > 0 {
                            assert(rest[w - 1] == y);
                            assert(rest.contains(y));
                        }
                    }
                },
                None => {},
            }
        }
    }
}

/// One unfolding of `selected`, phrased for the loop above: what is in the
/// overall selection but not in the tail after `k`, is what was in it but
/// not in the tail after `k+1`, plus this dependency's pick if it is new.
proof fn lemma_selected_step(deps: Seq<DepModel>, base: Seq<char>, ex: Seq<Seq<char>>, k: int)
    requires
        0 <= k < deps.len(),
    ensures
        forall|y: Seq<char>|
            #[trigger] selected(deps, base, ex, k).contains(y) <==> (selected(
                deps,
                base,
                ex,
                k + 1,
            ).contains(y) || (is_path_spec(deps[k].dependency) && first_existing(
                candidates(base, deps[k].dependency),
                ex,
                0,
            ) == Some(y))),
{
    let rest = selected(deps, base, ex, k + 1);
    let whole = selected(deps, base, ex, k);
    if is_path_spec(deps[k].dependency) {
        match first_existing(candidates(base, deps[k].dependency), ex, 0) {
            Some(p) => {
                assert(whole =~= seq![p] + rest);
                assert forall|y: Seq<char>| #[trigger] whole.contains(y) implies (rest.contains(
                    y,
                ) || y == p) by {
                    let w = choose|w: int| 0 <= w < whole.len() && whole[w] == y;
                    if w > 0 {
                        assert(rest[w - 1] == y);
                    }
                }
                assert forall|y: Seq<char>| rest.contains(y) implies #[trigger] whole.contains(
                    y,
                ) by {
                    let w = choose|w: int| 0 <= w < rest.len() && rest[w] == y;
                    assert(whole[w + 1] == y);
                }
                assert(whole.contains(p)) by {
                    assert(whole[0] == p);
                }
            },
            None => {},
        }
    }
}

} // verus!
