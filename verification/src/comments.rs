//! The comment filter: a pure text transform keyed by language family.
//!
//! Text that holds none of its family's comment syntax passes through
//! unchanged.  Brace-family text with comments loses its block comments
//! first, then its `//` line suffixes, then any line left fully blank;
//! indentation-family text loses every line whose trimmed form starts with
//! `#`.  Any other family passes through unchanged, as does every call
//! made with the keep flag set.

use vstd::prelude::*;

use crate::code_analysis::{is_blank, lead_ws, spec_language_family, LanguageFamily};
use crate::patterns::{op_block_close, op_block_open, op_line_comment};
use crate::text::{
    find_pat_from, join_lines, lines_view, spec_lines, chars_to_string, find_lit_from,
    join_lines_x, push_all, split_lines, str_to_chars, sub_vec,
};
use crate::code_analysis::language_family;

verus! {

// ---------------------------------------------------------------------------
// Brace family
// ---------------------------------------------------------------------------

/// Text from `pos` on with every `/* ... */` pair removed, left to right
/// and shortest-close first; an unclosed opener is kept as it stands.
pub open spec fn strip_blocks_from(s: Seq<char>, pos: int) -> Seq<char>
    decreases s.len() - pos,
{
    match find_pat_from(s, op_block_open(), pos) {
        Some(p) => match find_pat_from(s, op_block_close(), p + 2) {
            Some(q) => if pos <= p && p + 2 <= q && q + 2 <= s.len() {
                s.subrange(pos, p) + strip_blocks_from(s, q + 2)
            } else {
                s.skip(pos)
            },
            None => s.skip(pos),
        },
        None => s.skip(pos),
    }
}

pub open spec fn strip_blocks(s: Seq<char>) -> Seq<char> {
    strip_blocks_from(s, 0)
}

fn strip_blocks_x(s: &Vec<char>) -> (r: Vec<char>)
    ensures
        r@ == strip_blocks(s@),
{
    proof {
        reveal_strlit("/*");
        reveal_strlit("*/");
        assert("/*"@ =~= op_block_open());
        assert("*/"@ =~= op_block_close());
    }
    let mut out: Vec<char> = Vec::new();
    let mut pos: usize = 0;
    proof {
        assert(out@ + strip_blocks_from(s@, 0) =~= strip_blocks_from(s@, 0));
    }
    loop
        invariant
            pos <= s.len(),
            strip_blocks(s@) =~= out@ + strip_blocks_from(s@, pos as int),
        decreases s.len() - pos,
    {
        proof {
            reveal_strlit("/*");
            reveal_strlit("*/");
            assert("/*"@ =~= op_block_open());
            assert("*/"@ =~= op_block_close());
        }
        match find_lit_from(s, "/*", pos) {
            Some(p) => {
                match find_lit_from(s, "*/", p + 2) {
                    Some(q) => {
                        let ghost pre = out@;
                        let piece = sub_vec(s, pos, p);
                        push_all(&mut out, &piece);
                        proof {
                            assert(strip_blocks_from(s@, pos as int) =~= s@.subrange(
                                pos as int,
                                p as int,
                            ) + strip_blocks_from(s@, q + 2 as int));
                            assert(strip_blocks(s@) =~= out@ + strip_blocks_from(
                                s@,
                                q + 2 as int,
                            ));
                        }
                        pos = q + 2;
                    },
                    None => {
                        let tail = sub_vec(s, pos, s.len());
                        push_all(&mut out, &tail);
                        proof {
                            assert(tail@ =~= s@.skip(pos as int));
                            assert(strip_blocks_from(s@, pos as int) == s@.skip(pos as int));
                            assert(out@ =~= strip_blocks(s@));
                        }
                        return out;
                    },
                }
            },
            None => {
                let tail = sub_vec(s, pos, s.len());
                push_all(&mut out, &tail);
                proof {
                    assert(tail@ =~= s@.skip(pos as int));
                    assert(strip_blocks_from(s@, pos as int) == s@.skip(pos as int));
                    assert(out@ =~= strip_blocks(s@));
                }
                return out;
            },
        }
    }
}

/// A line cut at its first `//`, if it has one.
pub open spec fn cut_line(line: Seq<char>) -> Seq<char> {
    match find_pat_from(line, op_line_comment(), 0) {
        Some(p) => line.take(p),
        None => line,
    }
}

/// The lines from `k` on, each cut at `//`, keeping only those not left
/// blank.
pub open spec fn kept_brace_lines(ls: Seq<Seq<char>>, k: int) -> Seq<Seq<char>>
    decreases ls.len() - k,
{
    if k < 0 || k >= ls.len() {
        Seq::empty()
    } else {
        let c = cut_line(ls[k]);
        (if is_blank(c) {
            Seq::<Seq<char>>::empty()
        } else {
            seq![c]
        }) + kept_brace_lines(ls, k + 1)
    }
}

/// No brace-family comment syntax anywhere in the text: neither a block
/// opener nor a line-comment opener.
pub open spec fn brace_comment_free(s: Seq<char>) -> bool {
    &&& find_pat_from(s, op_block_open(), 0) is None
    &&& find_pat_from(s, op_line_comment(), 0) is None
}

/// The whole brace-family filter: comment-free text is returned unchanged;
/// otherwise block comments go first, then `//` suffixes, then blank lines.
pub open spec fn spec_filter_brace(s: Seq<char>) -> Seq<char> {
    if brace_comment_free(s) {
        s
    } else {
        join_lines(kept_brace_lines(spec_lines(strip_blocks(s)), 0))
    }
}

// ---------------------------------------------------------------------------
// Indentation family
// ---------------------------------------------------------------------------

/// A line whose first non-space character is `#`.
pub open spec fn is_hash_line(line: Seq<char>) -> bool {
    lead_ws(line) < line.len() && line[lead_ws(line)] == '#'
}

/// Does any line from `k` on start (after white space) with `#`?
pub open spec fn has_hash_line(ls: Seq<Seq<char>>, k: int) -> bool
    decreases ls.len() - k,
{
    if k < 0 || k >= ls.len() {
        false
    } else {
        is_hash_line(ls[k]) || has_hash_line(ls, k + 1)
    }
}

/// No indentation-family comment syntax: no line's trimmed form starts
/// with `#`.
pub open spec fn hash_comment_free(s: Seq<char>) -> bool {
    !has_hash_line(spec_lines(s), 0)
}

/// The lines from `k` on whose trimmed form does not start with `#`.
pub open spec fn kept_hash_lines(ls: Seq<Seq<char>>, k: int) -> Seq<Seq<char>>
    decreases ls.len() - k,
{
    if k < 0 || k >= ls.len() {
        Seq::empty()
    } else {
        (if is_hash_line(ls[k]) {
            Seq::<Seq<char>>::empty()
        } else {
            seq![ls[k]]
        }) + kept_hash_lines(ls, k + 1)
    }
}

/// The whole indentation-family filter: comment-free text is returned
/// unchanged; otherwise every `#` line is dropped.
pub open spec fn spec_filter_hash(s: Seq<char>) -> Seq<char> {
    if hash_comment_free(s) {
        s
    } else {
        join_lines(kept_hash_lines(spec_lines(s), 0))
    }
}

/// What the comment filter returns for any content, extension and flag.
pub open spec fn spec_filter_comments(
    content: Seq<char>,
    extension: Seq<char>,
    keep: bool,
) -> Seq<char> {
    if keep {
        content
    } else {
        match spec_language_family(extension) {
            LanguageFamily::Brace => spec_filter_brace(content),
            LanguageFamily::Indent => spec_filter_hash(content),
            LanguageFamily::Unsupported => content,
        }
    }
}

// ---------------------------------------------------------------------------
// Executable filter
// ---------------------------------------------------------------------------

fn filter_brace_x(content: &str) -> (r: String)
    ensures
        r@ == spec_filter_brace(content@),
{
    proof {
        reveal_strlit("//");
        reveal_strlit("/*");
        assert("//"@ =~= op_line_comment());
        assert("/*"@ =~= op_block_open());
    }
    let chars = str_to_chars(content);
    let no_block = match find_lit_from(&chars, "/*", 0) {
        Some(_) => false,
        None => true,
    };
    let no_line = match find_lit_from(&chars, "//", 0) {
        Some(_) => false,
        None => true,
    };
    if no_block && no_line {
        assert(brace_comment_free(content@));
        return String::from_str(content);
    }
    assert(!brace_comment_free(content@));
    let stripped = strip_blocks_x(&chars);
    let lines = split_lines(&stripped);
    let ghost lv = spec_lines(strip_blocks(content@));
    let mut kept: Vec<Vec<char>> = Vec::new();
    let mut k: usize = 0;
    proof {
        assert(lines_view(kept@) + kept_brace_lines(lv, 0) =~= kept_brace_lines(lv, 0));
    }
    while k < lines.len()
        invariant
            k <= lines.len(),
            lv == spec_lines(strip_blocks(content@)),
            lines_view(lines@) == lv,
            lines.len() == lv.len(),
            kept_brace_lines(lv, 0) =~= lines_view(kept@) + kept_brace_lines(lv, k as int),
        decreases lines.len() - k,
    {
        proof {
            reveal_strlit("//");
            assert("//"@ =~= op_line_comment());
        }
        let line = &lines[k];
        assert(line@ == lv[k as int]);
        let c: Vec<char> = match find_lit_from(line, "//", 0) {
            Some(p) => sub_vec(line, 0, p),
            None => sub_vec(line, 0, line.len()),
        };
        proof {
            assert(line@.take(line@.len() as int) =~= line@);
            assert(c@ == cut_line(lv[k as int]));
        }
        let lead = crate::text::skip_spaces_x(&c, 0);
        let ghost pre = lines_view(kept@);
        if lead < c.len() {
            kept.push(c);
            proof {
                assert(lines_view(kept@) =~= pre.push(cut_line(lv[k as int])));
                assert(lines_view(kept@) =~= pre + seq![cut_line(lv[k as int])]);
            }
        }
        proof {
            assert(kept_brace_lines(lv, 0) =~= lines_view(kept@) + kept_brace_lines(
                lv,
                k as int + 1,
            ));
        }
        k += 1;
    }
    proof {
        assert(kept_brace_lines(lv, k as int).len() == 0);
        assert(lines_view(kept@) =~= kept_brace_lines(lv, 0));
    }
    let joined = join_lines_x(&kept);
    chars_to_string(&joined)
}

fn filter_hash_x(content: &str) -> (r: String)
    ensures
        r@ == spec_filter_hash(content@),
{
    let chars = str_to_chars(content);
    let lines = split_lines(&chars);
    let ghost lv = spec_lines(content@);
    let mut kept: Vec<Vec<char>> = Vec::new();
    let mut dropped = false;
    let mut k: usize = 0;
    proof {
        assert(lines_view(kept@) + kept_hash_lines(lv, 0) =~= kept_hash_lines(lv, 0));
    }
    while k < lines.len()
        invariant
            k <= lines.len(),
            lv == spec_lines(content@),
            lines_view(lines@) == lv,
            lines.len() == lv.len(),
            kept_hash_lines(lv, 0) =~= lines_view(kept@) + kept_hash_lines(lv, k as int),
            has_hash_line(lv, 0) == (dropped || has_hash_line(lv, k as int)),
        decreases lines.len() - k,
    {
        let line = &lines[k];
        assert(line@ == lv[k as int]);
        let lead = crate::text::skip_spaces_x(line, 0);
        let ghost pre = lines_view(kept@);
        if lead < line.len() && line[lead] == '#' {
            assert(is_hash_line(lv[k as int]));
            dropped = true;
        } else {
            assert(!is_hash_line(lv[k as int]));
            let c = sub_vec(line, 0, line.len());
            proof {
                assert(c@ =~= lv[k as int]);
            }
            kept.push(c);
            proof {
                assert(lines_view(kept@) =~= pre.push(lv[k as int]));
                assert(lines_view(kept@) =~= pre + seq![lv[k as int]]);
            }
        }
        proof {
            assert(kept_hash_lines(lv, 0) =~= lines_view(kept@) + kept_hash_lines(
                lv,
                k as int + 1,
            ));
        }
        k += 1;
    }
    if !dropped {
        assert(hash_comment_free(content@));
        return String::from_str(content);
    }
    assert(!hash_comment_free(content@));
    proof {
        assert(kept_hash_lines(lv, k as int).len() == 0);
        assert(lines_view(kept@) =~= kept_hash_lines(lv, 0));
    }
    let joined = join_lines_x(&kept);
    chars_to_string(&joined)
}

/// Strip comments from `content` according to its extension's family; with
/// `keep` set, hand the content back unchanged.  Content that holds none
/// of the family's comment syntax is never altered.
pub fn filter_comments(content: &str, extension: &str, keep: bool) -> (r: String)
    ensures
        r@ == spec_filter_comments(content@, extension@, keep),
{
    if keep {
        return String::from_str(content);
    }
    match language_family(extension) {
        LanguageFamily::Brace => filter_brace_x(content),
        LanguageFamily::Indent => filter_hash_x(content),
        LanguageFamily::Unsupported => String::from_str(content),
    }
}

// ---------------------------------------------------------------------------
// The filter leaves comment-free text alone, and is hence idempotent on it
// ---------------------------------------------------------------------------

/// Brace-family text with no comment syntax is returned unchanged, so
/// filtering twice is the same as filtering once.
pub proof fn lemma_filter_brace_identity(s: Seq<char>)
    requires
        brace_comment_free(s),
    ensures
        spec_filter_brace(s) == s,
        spec_filter_brace(spec_filter_brace(s)) == spec_filter_brace(s),
{
}

/// Indentation-family text with no comment lines is returned unchanged, so
/// filtering twice is the same as filtering once.
pub proof fn lemma_filter_hash_identity(s: Seq<char>)
    requires
        hash_comment_free(s),
    ensures
        spec_filter_hash(s) == s,
        spec_filter_hash(spec_filter_hash(s)) == spec_filter_hash(s),
{
}

} // verus!
