//! Token estimation for large-model budgets, from integer counts alone:
//! bytes, white-space-separated words and lines.
//!
//! One family of models is estimated from the average of a byte-based and
//! a word-based count; the others are scaled from it by fixed ratios.  All
//! estimates are floored, at least 1, and saturate at the largest 32-bit
//! value.

use vstd::prelude::*;

use crate::text::{is_space_char, spec_lines, is_space, split_lines, str_to_chars};
use vstd::string::StringSliceAdditionalSpecFns;

verus! {

/// Token estimates for one text, for several model families.
#[derive(Debug, Clone)]
pub struct TokenEstimate {
    pub total_tokens: u32,
    pub char_count: usize,
    pub word_count: usize,
    pub line_count: usize,
    pub gpt4_estimate: u32,
    pub claude_estimate: u32,
    pub gemini_estimate: u32,
}

/// Number of maximal runs of non-space characters from `i` on; `in_word`
/// says whether `i` continues a run begun before it.
pub open spec fn word_count_from(s: Seq<char>, i: int, in_word: bool) -> int
    decreases s.len() - i,
{
    if i < 0 || i >= s.len() {
        0
    } else if is_space_char(s[i]) {
        word_count_from(s, i + 1, false)
    } else if !in_word {
        1 + word_count_from(s, i + 1, true)
    } else {
        word_count_from(s, i + 1, true)
    }
}

pub open spec fn word_count(s: Seq<char>) -> int {
    word_count_from(s, 0, false)
}

/// The primary estimate: the average of bytes/4 and words*13/10, at least
/// 1, saturated at the 32-bit cap.
pub open spec fn gpt4_tokens(bytes: int, words: int) -> int {
    let t = (bytes / 4 + words * 13 / 10) / 2;
    let t1 = if t < 1 {
        1
    } else {
        t
    };
    if t1 > 0xffff_ffff {
        0xffff_ffff
    } else {
        t1
    }
}

/// The scaled estimate for the second model family: 5% more tokens.
pub open spec fn claude_tokens(gpt4: int) -> int {
    if gpt4 * 21 / 20 > 0xffff_ffff {
        0xffff_ffff
    } else {
        gpt4 * 21 / 20
    }
}

/// The scaled estimate for the third model family: 10% fewer tokens.
pub open spec fn gemini_tokens(gpt4: int) -> int {
    gpt4 * 9 / 10
}

/// All the facts `estimate_tokens` promises of its result.
pub open spec fn estimate_ok(e: TokenEstimate, text: Seq<char>) -> bool {
    &&& e.char_count == vstd::utf8::encode_utf8(text).len() as usize
    &&& e.word_count as int == word_count(text)
    &&& e.line_count as int == spec_lines(text).len()
    &&& e.gpt4_estimate as int == gpt4_tokens(e.char_count as int, e.word_count as int)
    &&& e.total_tokens == e.gpt4_estimate
    &&& e.claude_estimate as int == claude_tokens(e.gpt4_estimate as int)
    &&& e.gemini_estimate as int == gemini_tokens(e.gpt4_estimate as int)
    &&& e.total_tokens >= 1
}

fn count_words(v: &Vec<char>) -> (r: usize)
    ensures
        r as int == word_count(v@),
{
    let mut n: usize = 0;
    let mut in_word = false;
    let mut i: usize = 0;
    while i < v.len()
        invariant
            i <= v.len(),
            n <= i,
            word_count(v@) == n + word_count_from(v@, i as int, in_word),
        decreases v.len() - i,
    {
        if is_space(v[i]) {
            in_word = false;
        } else {
            if !in_word {
                n += 1;
            }
            in_word = true;
        }
        i += 1;
    }
    n
}

/// Estimate how many tokens `text` costs for several model families.  The
/// counts are exact: bytes, white-space-separated words, and lines; the
/// estimates follow the fixed formulas above, so the primary estimate is
/// never 0, even for empty text.
pub fn estimate_tokens(text: &str) -> (r: TokenEstimate)
    ensures
        estimate_ok(r, text@),
{
    let char_count = text.len();
    proof {
        assert(text.spec_bytes() == vstd::utf8::encode_utf8(text@));
    }
    let chars = str_to_chars(text);
    let word_count_v = count_words(&chars);
    let lines = split_lines(&chars);
    let line_count = lines.len();
    proof {
        assert(crate::text::lines_view(lines@).len() == spec_lines(text@).len());
    }
    let char_tokens: u128 = char_count as u128 / 4;
    let word_tokens: u128 = (word_count_v as u128) * 13 / 10;
    let avg: u128 = (char_tokens + word_tokens) / 2;
    let floored: u128 = if avg < 1 {
        1
    } else {
        avg
    };
    let gpt4_estimate: u32 = if floored > 0xffff_ffff {
        0xffff_ffffu32
    } else {
        floored as u32
    };
    let claude_wide: u64 = (gpt4_estimate as u64) * 21 / 20;
    let claude_estimate: u32 = if claude_wide > 0xffff_ffff {
        0xffff_ffffu32
    } else {
        claude_wide as u32
    };
    let gemini_estimate: u32 = ((gpt4_estimate as u64) * 9 / 10) as u32;
    TokenEstimate {
        total_tokens: gpt4_estimate,
        char_count,
        word_count: word_count_v,
        line_count,
        gpt4_estimate,
        claude_estimate,
        gemini_estimate,
    }
}

/// Estimate tokens for several texts at once, pairing each path with the
/// estimate of its content.
pub fn estimate_tokens_batch(files: &Vec<(String, String)>) -> (r: Vec<(String, TokenEstimate)>)
    ensures
        r@.len() == files@.len(),
        forall|i: int|
            0 <= i < r@.len() ==> (#[trigger] r@[i]).0@ == files@[i].0@ && estimate_ok(
                r@[i].1,
                files@[i].1@,
            ),
{
    let mut out: Vec<(String, TokenEstimate)> = Vec::new();
    let mut i: usize = 0;
    while i < files.len()
        invariant
            i <= files.len(),
            out@.len() == i,
            forall|j: int|
                0 <= j < i ==> (#[trigger] out@[j]).0@ == files@[j].0@ && estimate_ok(
                    out@[j].1,
                    files@[j].1@,
                ),
        decreases files.len() - i,
    {
        let path = files[i].0.clone();
        let est = estimate_tokens(files[i].1.as_str());
        out.push((path, est));
        i += 1;
    }
    out
}

} // verus!
