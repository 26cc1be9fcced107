//! Project-type detection: a fixed table of marker files, each voting for
//! an ecosystem, with a bonus that lets a framework outrank the runtime it
//! is built on.
//!
//! The caller checks which marker files exist directly under a directory
//! and hands the presence flags in, one per table entry, in table order.
//! Scores are integers; the confidence of a guess is its score divided by
//! the number of markers in the table.

use vstd::prelude::*;

use crate::text::strs_view;

verus! {

/// Number of marker files in the table, and the denominator of the
/// confidence ratio.
pub const MARKER_COUNT: usize = 13;

/// The marker file name of each table entry.
pub open spec fn marker_name_spec(i: int) -> Seq<char> {
    if i == 0 {
        "package.json"@
    } else if i == 1 {
        "next.config.js"@
    } else if i == 2 {
        "next.config.ts"@
    } else if i == 3 {
        "Cargo.toml"@
    } else if i == 4 {
        "requirements.txt"@
    } else if i == 5 {
        "pyproject.toml"@
    } else if i == 6 {
        "Pipfile"@
    } else if i == 7 {
        "go.mod"@
    } else if i == 8 {
        "pom.xml"@
    } else if i == 9 {
        "build.gradle"@
    } else if i == 10 {
        "Gemfile"@
    } else if i == 11 {
        "composer.json"@
    } else {
        ".csproj"@
    }
}

/// The ecosystem label each marker votes for.
pub open spec fn label_of_marker(i: int) -> int {
    if i == 0 {
        0
    } else if i == 1 || i == 2 {
        1
    } else if i == 3 {
        2
    } else if i == 4 || i == 5 || i == 6 {
        3
    } else if i == 7 {
        4
    } else if i == 8 {
        5
    } else if i == 9 {
        6
    } else if i == 10 {
        7
    } else if i == 11 {
        8
    } else {
        9
    }
}

/// The name of each ecosystem label.
pub open spec fn label_text(j: int) -> Seq<char> {
    if j == 0 {
        "Node.js"@
    } else if j == 1 {
        "Next.js"@
    } else if j == 2 {
        "Rust"@
    } else if j == 3 {
        "Python"@
    } else if j == 4 {
        "Go"@
    } else if j == 5 {
        "Java/Maven"@
    } else if j == 6 {
        "Java/Gradle"@
    } else if j == 7 {
        "Ruby"@
    } else if j == 8 {
        "PHP"@
    } else {
        "C#/.NET"@
    }
}

/// Votes for label `j` among the markers from `i` on.
pub open spec fn score_base_from(p: Seq<bool>, j: int, i: int) -> int
    decreases 13 - i,
{
    if i < 0 || i >= 13 {
        0
    } else {
        (if label_of_marker(i) == j && (0 <= i < p.len() && p[i]) {
            1int
        } else {
            0int
        }) + score_base_from(p, j, i + 1)
    }
}

/// The framework bonus: a generic manifest together with one of the
/// framework's config files adds 2 to the framework's score.
pub open spec fn framework_bonus(p: Seq<bool>) -> int {
    if p.len() >= 3 && p[0] && (p[1] || p[2]) {
        2
    } else {
        0
    }
}

/// The full score of a label.
pub open spec fn label_score(p: Seq<bool>, j: int) -> int {
    score_base_from(p, j, 0) + if j == 1 {
        framework_bonus(p)
    } else {
        0
    }
}

/// The best score among labels from `j` on.
pub open spec fn max_score_from(p: Seq<bool>, j: int) -> int
    decreases 10 - j,
{
    if j < 0 || j >= 10 {
        0
    } else {
        let rest = max_score_from(p, j + 1);
        if label_score(p, j) >= rest {
            label_score(p, j)
        } else {
            rest
        }
    }
}

pub open spec fn max_score(p: Seq<bool>) -> int {
    max_score_from(p, 0)
}

/// The first label from `j` on whose score equals `m`.
pub open spec fn winner_given(p: Seq<bool>, j: int, m: int) -> int
    decreases 10 - j,
{
    if j < 0 || j >= 10 {
        10
    } else if label_score(p, j) == m {
        j
    } else {
        winner_given(p, j + 1, m)
    }
}

/// The winning label: the first one that attains the best score.  Ties are
/// broken deterministically in table order.
pub open spec fn winner(p: Seq<bool>) -> int {
    winner_given(p, 0, max_score(p))
}

/// The names of the markers present, in table order.
pub open spec fn found_from(p: Seq<bool>, i: int) -> Seq<Seq<char>>
    decreases 13 - i,
{
    if i < 0 || i >= 13 {
        Seq::empty()
    } else {
        (if 0 <= i < p.len() && p[i] {
            seq![marker_name_spec(i)]
        } else {
            Seq::<Seq<char>>::empty()
        }) + found_from(p, i + 1)
    }
}

/// One project-type guess.  The confidence of the guess is
/// `score` / `MARKER_COUNT`, a ratio in [0, 1].
#[derive(Debug, Clone)]
pub struct ProjectType {
    pub detected_type: String,
    pub score: u32,
    pub indicators: Vec<String>,
}

/// The marker file name of table entry `i`.
pub fn marker_name(i: usize) -> (r: String)
    requires
        i < 13,
    ensures
        r@ == marker_name_spec(i as int),
{
    if i == 0 {
        String::from_str("package.json")
    } else if i == 1 {
        String::from_str("next.config.js")
    } else if i == 2 {
        String::from_str("next.config.ts")
    } else if i == 3 {
        String::from_str("Cargo.toml")
    } else if i == 4 {
        String::from_str("requirements.txt")
    } else if i == 5 {
        String::from_str("pyproject.toml")
    } else if i == 6 {
        String::from_str("Pipfile")
    } else if i == 7 {
        String::from_str("go.mod")
    } else if i == 8 {
        String::from_str("pom.xml")
    } else if i == 9 {
        String::from_str("build.gradle")
    } else if i == 10 {
        String::from_str("Gemfile")
    } else if i == 11 {
        String::from_str("composer.json")
    } else {
        String::from_str(".csproj")
    }
}

fn label_name(j: usize) -> (r: String)
    requires
        j < 10,
    ensures
        r@ == label_text(j as int),
{
    if j == 0 {
        String::from_str("Node.js")
    } else if j == 1 {
        String::from_str("Next.js")
    } else if j == 2 {
        String::from_str("Rust")
    } else if j == 3 {
        String::from_str("Python")
    } else if j == 4 {
        String::from_str("Go")
    } else if j == 5 {
        String::from_str("Java/Maven")
    } else if j == 6 {
        String::from_str("Java/Gradle")
    } else if j == 7 {
        String::from_str("Ruby")
    } else if j == 8 {
        String::from_str("PHP")
    } else {
        String::from_str("C#/.NET")
    }
}

fn label_of_marker_x(i: usize) -> (r: usize)
    requires
        i < 13,
    ensures
        r as int == label_of_marker(i as int),
        r < 10,
{
    if i == 0 {
        0
    } else if i == 1 || i == 2 {
        1
    } else if i == 3 {
        2
    } else if i == 4 || i == 5 || i == 6 {
        3
    } else if i == 7 {
        4
    } else if i == 8 {
        5
    } else if i == 9 {
        6
    } else if i == 10 {
        7
    } else if i == 11 {
        8
    } else {
        9
    }
}

/// Guess a directory's ecosystem from which marker files are present
/// directly under it.  `present[i]` says whether the table's marker `i`
/// exists; the guess names the first label with the best score, lists the
/// markers found, and is `Unknown` with score 0 when nothing matches.
pub fn detect_project_type(present: &Vec<bool>) -> (r: ProjectType)
    requires
        present@.len() == 13,
    ensures
        r.score as int == max_score(present@),
        strs_view(r.indicators@) == found_from(present@, 0),
        max_score(present@) > 0 ==> r.detected_type@ == label_text(winner(present@)),
        max_score(present@) == 0 ==> r.detected_type@ == "Unknown"@,
        r.score <= 13,
{
    let ghost p = present@;
    let mut scores: Vec<u32> = Vec::new();
    let mut j0: usize = 0;
    while j0 < 10
        invariant
            j0 <= 10,
            scores@.len() == j0,
            forall|j: int| 0 <= j < j0 ==> scores@[j] == 0,
        decreases 10 - j0,
    {
        scores.push(0);
        j0 += 1;
    }
    let mut indicators: Vec<String> = Vec::new();
    let mut i: usize = 0;
    proof {
        assert(strs_view(indicators@) + found_from(p, 0) =~= found_from(p, 0));
    }
    while i < 13
        invariant
            i <= 13,
            p == present@,
            p.len() == 13,
            present@.len() == 13,
            scores@.len() == 10,
            forall|j: int| 0 <= j < 10 ==> scores@[j] <= i,
            forall|j: int|
                0 <= j < 10 ==> score_base_from(p, j, 0) == scores@[j] + score_base_from(
                    p,
                    j,
                    i as int,
                ),
            found_from(p, 0) =~= strs_view(indicators@) + found_from(p, i as int),
        decreases 13 - i,
    {
        if present[i] {
            let lb = label_of_marker_x(i);
            let ghost old_scores = scores@;
            let s0 = scores[lb];
            scores.set(lb, s0 + 1);
            let ghost old_ind = strs_view(indicators@);
            indicators.push(marker_name(i));
            proof {
                assert(strs_view(indicators@) =~= old_ind.push(marker_name_spec(i as int)));
                assert(strs_view(indicators@) =~= old_ind + seq![marker_name_spec(i as int)]);
                assert forall|j: int|
                    0 <= j < 10 implies score_base_from(p, j, 0) == scores@[j] + score_base_from(
                        p,
                        j,
                        i as int + 1,
                    ) by {
                    assert(score_base_from(p, j, i as int) == (if label_of_marker(i as int) == j {
                        1int
                    } else {
                        0int
                    }) + score_base_from(p, j, i as int + 1));
                }
            }
        } else {
            proof {
                assert forall|j: int|
                    0 <= j < 10 implies score_base_from(p, j, 0) == scores@[j] + score_base_from(
                        p,
                        j,
                        i as int + 1,
                    ) by {
                    assert(score_base_from(p, j, i as int) == score_base_from(p, j, i as int + 1));
                }
                assert(found_from(p, i as int) =~= found_from(p, i as int + 1));
            }
        }
        i += 1;
    }
    proof {
        assert forall|j: int| 0 <= j < 10 implies scores@[j] == score_base_from(p, j, 0) by {
            assert(score_base_from(p, j, 13) == 0);
        }
        assert(found_from(p, 13).len() == 0);
        assert(strs_view(indicators@) =~= found_from(p, 0));
    }
    if present[0] && (present[1] || present[2]) {
        let s1 = scores[1];
        scores.set(1, s1 + 2);
    }
    assert(forall|j: int| 0 <= j < 10 ==> scores@[j] == label_score(p, j));
    assert(forall|j: int| 0 <= j < 10 ==> scores@[j] <= 15);
    let mut best_j: usize = 0;
    let mut best_s: u32 = scores[0];
    let mut j: usize = 1;
    while j < 10
        invariant
            1 <= j <= 10,
            best_j < j,
            scores@.len() == 10,
            forall|j2: int| 0 <= j2 < 10 ==> scores@[j2] == label_score(p, j2),
            scores@[best_j as int] == best_s,
            forall|j2: int| 0 <= j2 < j ==> scores@[j2] <= best_s,
            forall|j2: int| 0 <= j2 < best_j ==> scores@[j2] < best_s,
        decreases 10 - j,
    {
        if scores[j] > best_s {
            best_j = j;
            best_s = scores[j];
        }
        j += 1;
    }
    proof {
        lemma_max_characterize(p, best_j as int, best_s as int);
        lemma_max_score_bound(p);
    }
    let detected_type = if best_s == 0 {
        proof {
            reveal_strlit("Unknown");
        }
        String::from_str("Unknown")
    } else {
        label_name(best_j)
    };
    ProjectType { detected_type, score: best_s, indicators }
}

// ---------------------------------------------------------------------------
// Bounds and characterisations
// ---------------------------------------------------------------------------

proof fn lemma_score_base_bound(p: Seq<bool>, j: int, i: int)
    requires
        0 <= i <= 13,
    ensures
        0 <= score_base_from(p, j, i) <= 13 - i,
    decreases 13 - i,
{
    if i < 13 {
        lemma_score_base_bound(p, j, i + 1);
    }
}

/// Votes for the framework label come only from its two config markers.
proof fn lemma_framework_base_bound(p: Seq<bool>, i: int)
    requires
        0 <= i,
    ensures
        i >= 3 ==> score_base_from(p, 1, i) == 0,
        i >= 2 ==> score_base_from(p, 1, i) <= 1,
        i >= 1 ==> score_base_from(p, 1, i) <= 2,
    decreases 13 - i,
{
    if i < 13 {
        lemma_framework_base_bound(p, i + 1);
    }
}

/// Every label's score is at most the number of markers in the table.
pub proof fn lemma_label_score_bound(p: Seq<bool>, j: int)
    ensures
        0 <= label_score(p, j) <= 13,
{
    lemma_score_base_bound(p, j, 0);
    if j == 1 {
        lemma_framework_base_bound(p, 1);
        assert(score_base_from(p, 1, 0) == (if label_of_marker(0) == 1 && (0 <= 0 < p.len()
            && p[0]) {
            1int
        } else {
            0int
        }) + score_base_from(p, 1, 1));
    }
}

proof fn lemma_max_score_bound_from(p: Seq<bool>, j: int)
    requires
        0 <= j <= 10,
    ensures
        0 <= max_score_from(p, j) <= 13,
    decreases 10 - j,
{
    if j < 10 {
        lemma_label_score_bound(p, j);
        lemma_max_score_bound_from(p, j + 1);
    }
}

/// The best score is between 0 and the marker count, so the confidence
/// ratio `score / MARKER_COUNT` lies in [0, 1].
pub proof fn lemma_max_score_bound(p: Seq<bool>)
    ensures
        0 <= max_score(p) <= 13,
{
    lemma_max_score_bound_from(p, 0);
}

proof fn lemma_max_upper(p: Seq<bool>, j: int, bs: int)
    requires
        0 <= j <= 10,
        0 <= bs,
        forall|j2: int| 0 <= j2 < 10 ==> label_score(p, j2) <= bs,
    ensures
        max_score_from(p, j) <= if j < 10 {
            bs
        } else {
            0
        },
    decreases 10 - j,
{
    if j < 10 {
        lemma_max_upper(p, j + 1, bs);
    }
}

proof fn lemma_max_characterize_from(p: Seq<bool>, k: int, bj: int, bs: int)
    requires
        0 <= k <= bj < 10,
        0 <= bs,
        label_score(p, bj) == bs,
        forall|j: int| 0 <= j < 10 ==> label_score(p, j) <= bs,
        forall|j: int| 0 <= j < bj ==> label_score(p, j) < bs,
    ensures
        max_score_from(p, k) == bs,
        winner_given(p, k, bs) == bj,
    decreases bj - k,
{
    if k == bj {
        lemma_max_upper(p, k + 1, bs);
    } else {
        lemma_max_characterize_from(p, k + 1, bj, bs);
    }
}

/// A label that attains the best score, with every earlier label strictly
/// below it, is the winner, and its score is the best score.
pub proof fn lemma_max_characterize(p: Seq<bool>, bj: int, bs: int)
    requires
        0 <= bj < 10,
        label_score(p, bj) == bs,
        forall|j: int| 0 <= j < 10 ==> label_score(p, j) <= bs,
        forall|j: int| 0 <= j < bj ==> label_score(p, j) < bs,
    ensures
        max_score(p) == bs,
        winner(p) == bj,
{
    lemma_label_score_bound(p, bj);
    lemma_max_characterize_from(p, 0, bj, bs);
}

/// A generic manifest beside one of the framework's config files makes the
/// framework label score strictly higher than the generic label.
pub proof fn lemma_framework_beats_generic(p: Seq<bool>)
    requires
        p.len() == 13,
        p[0],
        p[1] || p[2],
    ensures
        label_score(p, 1) > label_score(p, 0),
{
    lemma_generic_base(p, 1);
    assert(score_base_from(p, 0, 0) == 1 + score_base_from(p, 0, 1));
    lemma_score_base_bound(p, 1, 0);
    assert(framework_bonus(p) == 2);
    assert(score_base_from(p, 1, 0) >= 0);
    assert(label_score(p, 0) == 1);
    assert(label_score(p, 1) >= 2);
}

/// Votes for the generic label come only from its manifest marker.
proof fn lemma_generic_base(p: Seq<bool>, i: int)
    requires
        1 <= i,
    ensures
        score_base_from(p, 0, i) == 0,
    decreases 13 - i,
{
    if i < 13 {
        lemma_generic_base(p, i + 1);
    }
}

} // verus!
