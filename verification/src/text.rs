//! Character classes and scanning primitives over sequences of characters.
//!
//! Lines of source text are handled as `Vec<char>` in executable code and as
//! `Seq<char>` in specifications; every scanning routine is specified by a
//! recursive spec function that the executable loop is proved to compute.

use vstd::prelude::*;

verus! {

// ---------------------------------------------------------------------------
// Character classes
// ---------------------------------------------------------------------------

/// Unicode white-space characters (the set used by `char::is_whitespace`).
pub open spec fn is_space_char(c: char) -> bool {
    ||| c as u32 == 0x20
    ||| (0x09 <= c as u32 && c as u32 <= 0x0d)
    ||| c as u32 == 0x85
    ||| c as u32 == 0xa0
    ||| c as u32 == 0x1680
    ||| (0x2000 <= c as u32 && c as u32 <= 0x200a)
    ||| c as u32 == 0x2028
    ||| c as u32 == 0x2029
    ||| c as u32 == 0x202f
    ||| c as u32 == 0x205f
    ||| c as u32 == 0x3000
}

pub fn is_space(c: char) -> (r: bool)
    ensures
        r == is_space_char(c),
{
    let u = c as u32;
    u == 0x20 || (0x09 <= u && u <= 0x0d) || u == 0x85 || u == 0xa0 || u == 0x1680
        || (0x2000 <= u && u <= 0x200a) || u == 0x2028 || u == 0x2029 || u == 0x202f
        || u == 0x205f || u == 0x3000
}

/// Identifier characters recognised by the pattern library: ASCII letters,
/// digits and the underscore.  This is narrower than a Unicode-aware word
/// class, so a declaration whose name holds characters beyond ASCII is not
/// captured -- a deliberate limit of the heuristic.
pub open spec fn is_word_char(c: char) -> bool {
    ||| (0x41 <= c as u32 && c as u32 <= 0x5a)
    ||| (0x61 <= c as u32 && c as u32 <= 0x7a)
    ||| (0x30 <= c as u32 && c as u32 <= 0x39)
    ||| c as u32 == 0x5f
}

pub fn is_word(c: char) -> (r: bool)
    ensures
        r == is_word_char(c),
{
    let u = c as u32;
    (0x41 <= u && u <= 0x5a) || (0x61 <= u && u <= 0x7a) || (0x30 <= u && u <= 0x39) || u == 0x5f
}

// ---------------------------------------------------------------------------
// Substring matching
// ---------------------------------------------------------------------------

/// `pat` occurs in `s` starting at index `i`.
pub open spec fn matches_at(s: Seq<char>, i: int, pat: Seq<char>) -> bool {
    &&& 0 <= i
    &&& i + pat.len() <= s.len()
    &&& forall|k: int| 0 <= k < pat.len() ==> s[i + k] == pat[k]
}

/// Does the literal `pat` occur in `s` at index `i`?
pub fn match_lit_at(s: &Vec<char>, i: usize, pat: &str) -> (r: bool)
    ensures
        r == matches_at(s@, i as int, pat@),
{
    let n = pat.unicode_len();
    if i > s.len() || n > s.len() - i {
        return false;
    }
    let mut k: usize = 0;
    while k < n
        invariant
            k <= n,
            i + n <= s.len(),
            n == pat@.len(),
            forall|m: int| 0 <= m < k ==> s@[i + m] == pat@[m],
        decreases n - k,
    {
        if s[i + k] != pat.get_char(k) {
            return false;
        }
        k += 1;
    }
    true
}

/// Least index `j >= from` at which `pat` occurs in `s`, if any.
pub open spec fn find_pat_from(s: Seq<char>, pat: Seq<char>, from: int) -> Option<int>
    decreases s.len() - from,
{
    if from < 0 || from + pat.len() > s.len() {
        None
    } else if matches_at(s, from, pat) {
        Some(from)
    } else {
        find_pat_from(s, pat, from + 1)
    }
}

pub fn find_lit_from(s: &Vec<char>, pat: &str, from: usize) -> (r: Option<usize>)
    ensures
        r matches Some(j) ==> r == Some(j) && find_pat_from(s@, pat@, from as int) == Some(
            j as int,
        ) && from <= j && matches_at(s@, j as int, pat@),
        r is None ==> find_pat_from(s@, pat@, from as int) is None,
{
    let n = pat.unicode_len();
    let mut i: usize = from;
    loop
        invariant
            from <= i,
            n == pat@.len(),
            find_pat_from(s@, pat@, from as int) == find_pat_from(s@, pat@, i as int),
        decreases s.len() + 1 - i,
    {
        if i > s.len() || n > s.len() - i {
            assert(find_pat_from(s@, pat@, i as int) is None);
            return None;
        }
        if match_lit_at(s, i, pat) {
            assert(find_pat_from(s@, pat@, i as int) == Some(i as int));
            return Some(i);
        }
        assert(find_pat_from(s@, pat@, i as int) == find_pat_from(s@, pat@, i as int + 1));
        i += 1;
    }
}

/// Does the pattern vector occur in `s` at index `i`?
pub fn match_vec_at(s: &Vec<char>, i: usize, pat: &Vec<char>) -> (r: bool)
    ensures
        r == matches_at(s@, i as int, pat@),
{
    let n = pat.len();
    if i > s.len() || n > s.len() - i {
        return false;
    }
    let mut k: usize = 0;
    while k < n
        invariant
            k <= n,
            i + n <= s.len(),
            n == pat@.len(),
            forall|m: int| 0 <= m < k ==> s@[i + m] == pat@[m],
        decreases n - k,
    {
        if s[i + k] != pat[k] {
            return false;
        }
        k += 1;
    }
    true
}

pub fn find_vec_from(s: &Vec<char>, pat: &Vec<char>, from: usize) -> (r: Option<usize>)
    ensures
        r matches Some(j) ==> r == Some(j) && find_pat_from(s@, pat@, from as int) == Some(
            j as int,
        ) && from <= j && matches_at(s@, j as int, pat@),
        r is None ==> find_pat_from(s@, pat@, from as int) is None,
{
    let n = pat.len();
    let mut i: usize = from;
    loop
        invariant
            from <= i,
            n == pat@.len(),
            find_pat_from(s@, pat@, from as int) == find_pat_from(s@, pat@, i as int),
        decreases s.len() + 1 - i,
    {
        if i > s.len() || n > s.len() - i {
            assert(find_pat_from(s@, pat@, i as int) is None);
            return None;
        }
        if match_vec_at(s, i, pat) {
            assert(find_pat_from(s@, pat@, i as int) == Some(i as int));
            return Some(i);
        }
        assert(find_pat_from(s@, pat@, i as int) == find_pat_from(s@, pat@, i as int + 1));
        i += 1;
    }
}

// ---------------------------------------------------------------------------
// Scanning: white space, words, single characters
// ---------------------------------------------------------------------------

/// Least index `j >= i` whose character is not white space (or `s.len()`).
pub open spec fn skip_spaces(s: Seq<char>, i: int) -> int
    decreases s.len() - i,
{
    if i < 0 || i >= s.len() {
        i
    } else if is_space_char(s[i]) {
        skip_spaces(s, i + 1)
    } else {
        i
    }
}

pub fn skip_spaces_x(s: &Vec<char>, i: usize) -> (r: usize)
    requires
        i <= s.len(),
    ensures
        r as int == skip_spaces(s@, i as int),
        i <= r <= s.len(),
        r < s.len() ==> !is_space_char(s@[r as int]),
        forall|k: int| i <= k < r ==> is_space_char(s@[k]),
{
    let mut j: usize = i;
    loop
        invariant
            i <= j <= s.len(),
            skip_spaces(s@, i as int) == skip_spaces(s@, j as int),
            forall|k: int| i <= k < j ==> is_space_char(s@[k]),
        decreases s.len() - j,
    {
        if j == s.len() || !is_space(s[j]) {
            return j;
        }
        j += 1;
    }
}

/// Least index `j >= i` whose character is not a word character (or `s.len()`).
pub open spec fn skip_word(s: Seq<char>, i: int) -> int
    decreases s.len() - i,
{
    if i < 0 || i >= s.len() {
        i
    } else if is_word_char(s[i]) {
        skip_word(s, i + 1)
    } else {
        i
    }
}

pub fn skip_word_x(s: &Vec<char>, i: usize) -> (r: usize)
    requires
        i <= s.len(),
    ensures
        r as int == skip_word(s@, i as int),
        i <= r <= s.len(),
{
    let mut j: usize = i;
    loop
        invariant
            i <= j <= s.len(),
            skip_word(s@, i as int) == skip_word(s@, j as int),
        decreases s.len() - j,
    {
        if j == s.len() || !is_word(s[j]) {
            return j;
        }
        j += 1;
    }
}

/// Least index `j >= i` with `s[j] == c`, if any.
pub open spec fn find_char_from(s: Seq<char>, c: char, i: int) -> Option<int>
    decreases s.len() - i,
{
    if i < 0 || i >= s.len() {
        None
    } else if s[i] == c {
        Some(i)
    } else {
        find_char_from(s, c, i + 1)
    }
}

pub fn find_char_x(s: &Vec<char>, c: char, i: usize) -> (r: Option<usize>)
    ensures
        r matches Some(j) ==> find_char_from(s@, c, i as int) == Some(j as int) && i <= j
            < s.len(),
        r is None ==> find_char_from(s@, c, i as int) is None,
{
    let mut j: usize = i;
    loop
        invariant
            i <= j,
            find_char_from(s@, c, i as int) == find_char_from(s@, c, j as int),
        decreases s.len() + 1 - j,
    {
        if j >= s.len() {
            return None;
        }
        if s[j] == c {
            return Some(j);
        }
        j += 1;
    }
}

/// Least index `j >= i` with `s[j] == c1 || s[j] == c2`, if any.
pub open spec fn find_char2_from(s: Seq<char>, c1: char, c2: char, i: int) -> Option<int>
    decreases s.len() - i,
{
    if i < 0 || i >= s.len() {
        None
    } else if s[i] == c1 || s[i] == c2 {
        Some(i)
    } else {
        find_char2_from(s, c1, c2, i + 1)
    }
}

pub fn find_char2_x(s: &Vec<char>, c1: char, c2: char, i: usize) -> (r: Option<usize>)
    ensures
        r matches Some(j) ==> find_char2_from(s@, c1, c2, i as int) == Some(j as int) && i <= j
            < s.len(),
        r is None ==> find_char2_from(s@, c1, c2, i as int) is None,
{
    let mut j: usize = i;
    loop
        invariant
            i <= j,
            find_char2_from(s@, c1, c2, i as int) == find_char2_from(s@, c1, c2, j as int),
        decreases s.len() + 1 - j,
    {
        if j >= s.len() {
            return None;
        }
        if s[j] == c1 || s[j] == c2 {
            return Some(j);
        }
        j += 1;
    }
}

/// Number of occurrences of `c` in `s[i..]`.
pub open spec fn count_char_from(s: Seq<char>, c: char, i: int) -> int
    decreases s.len() - i,
{
    if i < 0 || i >= s.len() {
        0
    } else if s[i] == c {
        1 + count_char_from(s, c, i + 1)
    } else {
        count_char_from(s, c, i + 1)
    }
}

pub open spec fn count_char(s: Seq<char>, c: char) -> int {
    count_char_from(s, c, 0)
}

pub fn count_char_x(s: &Vec<char>, c: char) -> (r: usize)
    ensures
        r as int == count_char(s@, c),
{
    let mut n: usize = 0;
    let mut j: usize = 0;
    while j < s.len()
        invariant
            j <= s.len(),
            n <= j,
            count_char_from(s@, c, 0) == n + count_char_from(s@, c, j as int),
        decreases s.len() - j,
    {
        if s[j] == c {
            n += 1;
        }
        j += 1;
    }
    n
}

// ---------------------------------------------------------------------------
// Trimming
// ---------------------------------------------------------------------------

/// Index one past the last non-space character of `s[..j]` (0 if none).
pub open spec fn trim_end_idx(s: Seq<char>, j: int) -> int
    decreases j,
{
    if j <= 0 {
        0
    } else if j > s.len() {
        trim_end_idx(s, s.len() as int)
    } else if is_space_char(s[j - 1]) {
        trim_end_idx(s, j - 1)
    } else {
        j
    }
}

/// `s` with leading and trailing white space removed.
pub open spec fn spec_trim(s: Seq<char>) -> Seq<char> {
    let a = skip_spaces(s, 0);
    if a >= s.len() {
        Seq::empty()
    } else {
        s.subrange(a, trim_end_idx(s, s.len() as int))
    }
}

proof fn lemma_trim_end_ge(s: Seq<char>, j: int, a: int)
    requires
        0 <= a < j <= s.len(),
        !is_space_char(s[a]),
    ensures
        trim_end_idx(s, j) > a,
    decreases j,
{
    if j - 1 > a && is_space_char(s[j - 1]) {
        lemma_trim_end_ge(s, j - 1, a);
    }
}

/// The bounds of the trimmed portion of `s`: trimming is `s[r.0 .. r.1]`.
pub fn trim_range(s: &Vec<char>) -> (r: (usize, usize))
    ensures
        r.0 <= r.1 <= s.len(),
        spec_trim(s@) == s@.subrange(r.0 as int, r.1 as int),
{
    let a = skip_spaces_x(s, 0);
    if a >= s.len() {
        assert(s@.subrange(a as int, a as int) =~= Seq::<char>::empty());
        return (a, a);
    }
    let mut j: usize = s.len();
    loop
        invariant
            a < j <= s.len(),
            a as int == skip_spaces(s@, 0),
            a < s@.len() && !is_space_char(s@[a as int]),
            trim_end_idx(s@, s@.len() as int) == trim_end_idx(s@, j as int),
        decreases j,
    {
        if !is_space(s[j - 1]) {
            return (a, j);
        }
        if j - 1 == a {
            // unreachable: s[a] is not a space
            assert(false);
        }
        proof {
            lemma_trim_end_ge(s@, j as int, a as int);
        }
        j -= 1;
    }
}

/// Copy of `s[a..b]`.
pub fn sub_vec(s: &Vec<char>, a: usize, b: usize) -> (r: Vec<char>)
    requires
        a <= b <= s.len(),
    ensures
        r@ == s@.subrange(a as int, b as int),
{
    let mut out: Vec<char> = Vec::new();
    let mut j: usize = a;
    while j < b
        invariant
            a <= j <= b <= s.len(),
            out@ =~= s@.subrange(a as int, j as int),
        decreases b - j,
    {
        out.push(s[j]);
        j += 1;
    }
    assert(out@ =~= s@.subrange(a as int, b as int));
    out
}

pub fn trim_vec(s: &Vec<char>) -> (r: Vec<char>)
    ensures
        r@ == spec_trim(s@),
{
    let (a, b) = trim_range(s);
    sub_vec(s, a, b)
}

// ---------------------------------------------------------------------------
// Splitting into lines and joining
// ---------------------------------------------------------------------------

/// Remove a single trailing carriage return, as the line splitter does for
/// lines ended by a carriage return and a newline.
pub open spec fn chomp_cr(s: Seq<char>) -> Seq<char> {
    if s.len() > 0 && s[s.len() - 1] == '\r' {
        s.take(s.len() - 1)
    } else {
        s
    }
}

/// The sequence of character sequences held by a vector of lines.
pub open spec fn lines_view(ls: Seq<Vec<char>>) -> Seq<Seq<char>> {
    Seq::new(ls.len(), |i: int| ls[i]@)
}

/// The sequence of character sequences held by a vector of strings.
pub open spec fn strs_view(s: Seq<String>) -> Seq<Seq<char>> {
    Seq::new(s.len(), |i: int| s[i]@)
}

/// The lines of `s`: split at newlines, each line stripped of a trailing
/// carriage return; a final newline does not produce an extra empty line,
/// and the empty text has no lines.
pub open spec fn spec_lines(s: Seq<char>) -> Seq<Seq<char>>
    decreases s.len(),
{
    if s.len() == 0 {
        Seq::empty()
    } else {
        match find_char_from(s, '\n', 0) {
            Some(i) => if 0 <= i < s.len() {
                seq![chomp_cr(s.take(i))] + spec_lines(s.skip(i + 1))
            } else {
                seq![s]
            },
            None => seq![s],
        }
    }
}

pub fn split_lines(s: &Vec<char>) -> (r: Vec<Vec<char>>)
    ensures
        lines_view(r@) == spec_lines(s@),
{
    let mut out: Vec<Vec<char>> = Vec::new();
    let mut start: usize = 0;
    proof {
        assert(s@.skip(0) =~= s@);
        assert(lines_view(out@) + spec_lines(s@) =~= spec_lines(s@));
    }
    loop
        invariant
            start <= s.len(),
            spec_lines(s@) == lines_view(out@) + spec_lines(s@.skip(start as int)),
        decreases s.len() - start,
    {
        let ghost rest = s@.skip(start as int);
        if start == s.len() {
            proof {
                assert(rest.len() == 0);
                assert(lines_view(out@) =~= lines_view(out@) + spec_lines(rest));
            }
            return out;
        }
        assert(rest.len() > 0);
        let ghost old_lines = lines_view(out@);
        match find_char_x(s, '\n', start) {
            Some(i) => {
                proof {
                    lemma_find_char_shift(s@, '\n', start as int, i as int);
                    assert(find_char_from(rest, '\n', 0) == Some(i - start));
                }
                let line_end = if i > start && s[i - 1] == '\r' {
                    i - 1
                } else {
                    i
                };
                let ghost mid = s@.subrange(start as int, i as int);
                proof {
                    assert(rest.take(i - start) =~= mid);
                    assert(chomp_cr(mid) =~= s@.subrange(start as int, line_end as int));
                }
                let line = sub_vec(s, start, line_end);
                out.push(line);
                proof {
                    assert(lines_view(out@) =~= old_lines.push(line@));
                    assert(rest.skip(i - start + 1) =~= s@.skip(i + 1));
                    assert(spec_lines(rest) =~= seq![chomp_cr(mid)] + spec_lines(s@.skip(i + 1)));
                    assert(lines_view(out@) + spec_lines(s@.skip(i + 1)) =~= old_lines
                        + spec_lines(rest));
                }
                start = i + 1;
            },
            None => {
                proof {
                    lemma_find_char_none_shift(s@, '\n', start as int);
                    assert(find_char_from(rest, '\n', 0) is None);
                }
                let line = sub_vec(s, start, s.len());
                assert(line@ =~= rest);
                out.push(line);
                proof {
                    assert(lines_view(out@) =~= old_lines.push(rest));
                    assert(spec_lines(s@.skip(s@.len() as int)).len() == 0);
                    assert(lines_view(out@) + spec_lines(s@.skip(s@.len() as int)) =~= old_lines
                        + spec_lines(rest));
                }
                start = s.len();
            },
        }
    }
}

/// What a successful or failed character search means, position by position.
pub proof fn lemma_find_char_props(s: Seq<char>, c: char, from: int)
    requires
        0 <= from,
    ensures
        match find_char_from(s, c, from) {
            Some(x) => from <= x < s.len() && s[x] == c && (forall|k: int|
                from <= k < x ==> s[k] != c),
            None => forall|k: int| from <= k < s.len() ==> s[k] != c,
        },
    decreases s.len() - from,
{
    if from < s.len() && s[from] != c {
        lemma_find_char_props(s, c, from + 1);
    }
}

proof fn lemma_find_char_intro_some(s: Seq<char>, c: char, from: int, x: int)
    requires
        0 <= from <= x < s.len(),
        s[x] == c,
        forall|k: int| from <= k < x ==> s[k] != c,
    ensures
        find_char_from(s, c, from) == Some(x),
    decreases x - from,
{
    if from < x {
        lemma_find_char_intro_some(s, c, from + 1, x);
    }
}

proof fn lemma_find_char_intro_none(s: Seq<char>, c: char, from: int)
    requires
        0 <= from,
        forall|k: int| from <= k < s.len() ==> s[k] != c,
    ensures
        find_char_from(s, c, from) is None,
    decreases s.len() - from,
{
    if from < s.len() {
        lemma_find_char_intro_none(s, c, from + 1);
    }
}

proof fn lemma_find_char_shift(s: Seq<char>, c: char, base: int, i: int)
    requires
        0 <= base <= i,
        base <= s.len(),
        find_char_from(s, c, base) == Some(i),
    ensures
        find_char_from(s.skip(base), c, 0) == Some(i - base),
{
    lemma_find_char_props(s, c, base);
    let t = s.skip(base);
    assert(t[i - base] == s[i]);
    assert forall|k: int| 0 <= k < i - base implies t[k] != c by {
        assert(t[k] == s[base + k]);
    }
    lemma_find_char_intro_some(t, c, 0, i - base);
}

proof fn lemma_find_char_none_shift(s: Seq<char>, c: char, base: int)
    requires
        0 <= base <= s.len(),
        find_char_from(s, c, base) is None,
    ensures
        find_char_from(s.skip(base), c, 0) is None,
{
    lemma_find_char_props(s, c, base);
    let t = s.skip(base);
    assert forall|k: int| 0 <= k < t.len() implies t[k] != c by {
        assert(t[k] == s[base + k]);
    }
    lemma_find_char_intro_none(t, c, 0);
}

/// The lines from index `k` on, each preceded by a newline.
pub open spec fn join_tail(ls: Seq<Seq<char>>, k: int) -> Seq<char>
    decreases ls.len() - k,
{
    if k < 0 || k >= ls.len() {
        Seq::empty()
    } else {
        seq!['\n'] + ls[k] + join_tail(ls, k + 1)
    }
}

/// The lines joined back with single newlines (no trailing newline).
pub open spec fn join_lines(ls: Seq<Seq<char>>) -> Seq<char> {
    if ls.len() == 0 {
        Seq::empty()
    } else {
        ls[0] + join_tail(ls, 1)
    }
}

proof fn lemma_join_tail_push(xs: Seq<Seq<char>>, x: Seq<char>, k: int)
    requires
        0 <= k,
    ensures
        join_tail(xs.push(x), k) =~= if k <= xs.len() {
            join_tail(xs, k) + (seq!['\n'] + x)
        } else {
            Seq::<char>::empty()
        },
    decreases xs.len() + 1 - k,
{
    if k < xs.len() {
        assert(xs.push(x)[k] == xs[k]);
        lemma_join_tail_push(xs, x, k + 1);
    } else if k == xs.len() {
        assert(xs.push(x)[k] == x);
        assert(join_tail(xs.push(x), k + 1).len() == 0);
        assert(join_tail(xs, k).len() == 0);
    }
}

/// Joining one more line appends a newline and that line.
pub proof fn lemma_join_lines_push(xs: Seq<Seq<char>>, x: Seq<char>)
    ensures
        join_lines(xs.push(x)) =~= if xs.len() == 0 {
            x
        } else {
            join_lines(xs) + seq!['\n'] + x
        },
{
    lemma_join_tail_push(xs, x, 1);
    if xs.len() == 0 {
        assert(xs.push(x)[0] == x);
        assert(join_tail(xs.push(x), 1).len() == 0);
    } else {
        assert(xs.push(x)[0] == xs[0]);
    }
}

/// Append all characters of `line` to `out`.
pub fn push_all(out: &mut Vec<char>, line: &Vec<char>)
    ensures
        final(out)@ == old(out)@ + line@,
{
    let ghost pre = out@;
    let mut j: usize = 0;
    while j < line.len()
        invariant
            j <= line.len(),
            out@ =~= pre + line@.take(j as int),
        decreases line.len() - j,
    {
        out.push(line[j]);
        j += 1;
    }
    assert(out@ =~= pre + line@);
}

pub fn join_lines_x(ls: &Vec<Vec<char>>) -> (r: Vec<char>)
    ensures
        r@ == join_lines(lines_view(ls@)),
{
    let ghost lv = lines_view(ls@);
    let mut out: Vec<char> = Vec::new();
    if ls.len() == 0 {
        return out;
    }
    push_all(&mut out, &ls[0]);
    assert(out@ =~= lv[0]);
    let mut k: usize = 1;
    while k < ls.len()
        invariant
            1 <= k <= ls.len(),
            lv == lines_view(ls@),
            ls.len() == lv.len(),
            join_lines(lv) =~= out@ + join_tail(lv, k as int),
        decreases ls.len() - k,
    {
        let ghost pre = out@;
        out.push('\n');
        push_all(&mut out, &ls[k]);
        proof {
            assert(out@ =~= pre + (seq!['\n'] + lv[k as int]));
            assert(join_tail(lv, k as int) =~= (seq!['\n'] + lv[k as int]) + join_tail(
                lv,
                k as int + 1,
            ));
        }
        k += 1;
    }
    proof {
        assert(join_tail(lv, k as int).len() == 0);
        assert(out@ =~= out@ + join_tail(lv, k as int));
    }
    out
}

// ---------------------------------------------------------------------------
// Conversions between strings and character vectors
// ---------------------------------------------------------------------------

pub fn str_to_chars(s: &str) -> (r: Vec<char>)
    ensures
        r@ == s@,
{
    let n = s.unicode_len();
    let mut out: Vec<char> = Vec::new();
    let mut i: usize = 0;
    while i < n
        invariant
            i <= n,
            n == s@.len(),
            out@ =~= s@.take(i as int),
        decreases n - i,
    {
        out.push(s.get_char(i));
        i += 1;
    }
    assert(out@ =~= s@);
    out
}

/// Relies on `String`'s `FromIterator` over characters: collecting the
/// characters of `v` yields the string whose characters are exactly `v`.
#[verifier::external_body]
pub fn chars_to_string(v: &Vec<char>) -> (r: String)
    ensures
        r@ == v@,
{
    v.iter().collect()
}

pub fn str_eq(a: &str, b: &str) -> (r: bool)
    ensures
        r == (a@ == b@),
{
    let na = a.unicode_len();
    let nb = b.unicode_len();
    if na != nb {
        return false;
    }
    let mut i: usize = 0;
    while i < na
        invariant
            i <= na,
            na == a@.len(),
            na == b@.len(),
            forall|k: int| 0 <= k < i ==> a@[k] == b@[k],
        decreases na - i,
    {
        if a.get_char(i) != b.get_char(i) {
            return false;
        }
        i += 1;
    }
    proof {
        assert(a@ =~= b@);
    }
    true
}

} // verus!
