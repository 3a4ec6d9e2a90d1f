//! Combining the ranking agents' reports into one assessment: median score,
//! average file count, the subsystems touched and the decomposability.
use vstd::prelude::*;
use vstd::string::*;
use crate::assessment::{
    sort_scores, score_le, synthesis_matches, sorted_scores, confirmed_in, desc_count, first_with_desc,
    RankingFindings, SynthesisOutcome, ContextBand, DIVERGENCE_THRESHOLD, scores_of, route_for,
};
use crate::compose::string_views;
use crate::text::str_eq;

verus! {

/// The median of the scores: the middle one in ascending order (the upper
/// middle for an even count).
pub open spec fn median_of(scores: Seq<u8>) -> u8 {
    scores.sort_by(score_le())[(scores.len() / 2) as int]
}

/// The median complexity score of the reports.
pub fn median_score(scores: &Vec<u8>) -> (r: u8)
    requires
        scores@.len() > 0,
    ensures
        r == median_of(scores@),
{
    let sorted = sort_scores(scores);
    sorted[sorted.len() / 2]
}

/// The sum of file counts.
pub open spec fn total_files(files: Seq<u32>) -> nat
    decreases files.len(),
{
    if files.len() == 0 {
        0
    } else {
        total_files(files.drop_last()) + files.last() as nat
    }
}

proof fn lemma_total_files_prefix(files: Seq<u32>, i: int)
    requires
        0 <= i <= files.len(),
    ensures
        total_files(files.take(i)) <= total_files(files),
    decreases files.len() - i,
{
    if i < files.len() {
        lemma_total_files_prefix(files, i + 1);
        assert(files.take(i + 1).drop_last() == files.take(i));
    } else {
        assert(files.take(i) == files);
    }
}

/// The reports' average estimate of files touched, rounded down.
pub fn average_files_estimated(files: &Vec<u32>) -> (r: u32)
    requires
        files@.len() > 0,
        files@.len() <= u32::MAX,
        total_files(files@) <= u32::MAX,
    ensures
        r == total_files(files@) / files@.len(),
{
    let mut sum: u32 = 0;
    let mut i: usize = 0;
    while i < files.len()
        invariant
            i <= files@.len(),
            total_files(files@) <= u32::MAX,
            sum == total_files(files@.take(i as int)),
        decreases files@.len() - i,
    {
        proof {
            lemma_total_files_prefix(files@, i + 1);
            assert(files@.take(i + 1).drop_last() == files@.take(i as int));
        }
        sum = sum + files[i];
        i = i + 1;
    }
    assert(files@.take(files@.len() as int) == files@);
    sum / (files.len() as u32)
}

/// All subsystems named by the reports.
pub open spec fn named_subsystems(lists: Seq<Vec<String>>) -> Set<Seq<char>> {
    Set::new(|s: Seq<char>| exists|i: int, j: int| 0 <= i < lists.len() && 0 <= j < lists[i]@.len() && lists[i]@[j]@ == s)
}

/// The subsystems the reports name, each once, in order of first mention.
pub fn distinct_subsystems(lists: &Vec<Vec<String>>) -> (r: Vec<String>)
    ensures
        string_views(r@).no_duplicates(),
        string_views(r@).to_set() == named_subsystems(lists@),
{
    let mut out: Vec<String> = Vec::new();
    let mut i: usize = 0;
    while i < lists.len()
        invariant
            i <= lists@.len(),
            string_views(out@).no_duplicates(),
            forall|s: Seq<char>|
                string_views(out@).contains(s) <==> exists|a: int, b: int|
                    0 <= a < i && 0 <= b < lists@[a]@.len() && lists@[a]@[b]@ == s,
        decreases lists@.len() - i,
    {
        let list = &lists[i];
        let mut j: usize = 0;
        while j < list.len()
            invariant
                i < lists@.len(),
                list == &lists@[i as int],
                j <= list@.len(),
                string_views(out@).no_duplicates(),
                forall|s: Seq<char>|
                    string_views(out@).contains(s) <==> (exists|a: int, b: int|
                        0 <= a < i && 0 <= b < lists@[a]@.len() && lists@[a]@[b]@ == s) || (exists|b: int|
                        0 <= b < j && list@[b]@ == s),
            decreases list@.len() - j,
        {
            let name = list[j].as_str();
            let mut seen = false;
            let mut k: usize = 0;
            while k < out.len()
                invariant
                    k <= out@.len(),
                    seen == exists|x: int| 0 <= x < k && out@[x]@ == name@,
                decreases out@.len() - k,
            {
                if str_eq(out[k].as_str(), name) {
                    seen = true;
                }
                k = k + 1;
            }
            let ghost before = string_views(out@);
            if !seen {
                out.push(list[j].clone());
                proof {
                    assert(string_views(out@) == before.push(name@));
                    assert forall|x: int| 0 <= x < before.len() implies before[x] != name@ by {
                        assert(before[x] == out@[x]@);
                    }
                }
            }
            proof {
                assert forall|s: Seq<char>|
                    string_views(out@).contains(s) <==> (exists|a: int, b: int|
                        0 <= a < i && 0 <= b < lists@[a]@.len() && lists@[a]@[b]@ == s) || (exists|b: int|
                        0 <= b < j + 1 && list@[b]@ == s) by {
                    if string_views(out@).contains(s) {
                        let x = choose|x: int| 0 <= x < string_views(out@).len() && string_views(out@)[x] == s;
                        if x == before.len() && !seen {
                            assert(list@[j as int]@ == s);
                        } else {
                            assert(before.contains(s));
                        }
                    }
                    if exists|b: int| 0 <= b < j + 1 && list@[b]@ == s {
                        let b = choose|b: int| 0 <= b < j + 1 && list@[b]@ == s;
                        if b == j {
                            if seen {
                                let x = choose|x: int| 0 <= x < out@.len() && out@[x]@ == name@;
                                assert(string_views(out@)[x] == s);
                            } else {
                                assert(string_views(out@)[before.len() as int] == s);
                            }
                        } else {
                            assert(before.contains(s));
                            let x = choose|x: int| 0 <= x < before.len() && before[x] == s;
                            assert(string_views(out@)[x] == s);
                        }
                    }
                    if exists|a: int, b: int| 0 <= a < i && 0 <= b < lists@[a]@.len() && lists@[a]@[b]@ == s {
                        assert(before.contains(s));
                        let x = choose|x: int| 0 <= x < before.len() && before[x] == s;
                        assert(string_views(out@)[x] == s);
                    }
                }
            }
            j = j + 1;
        }
        proof {
            assert forall|s: Seq<char>|
                string_views(out@).contains(s) <==> exists|a: int, b: int|
                    0 <= a < i + 1 && 0 <= b < lists@[a]@.len() && lists@[a]@[b]@ == s by {
                if exists|a: int, b: int| 0 <= a < i + 1 && 0 <= b < lists@[a]@.len() && lists@[a]@[b]@ == s {
                    let (a, b) = choose|a: int, b: int|
                        0 <= a < i + 1 && 0 <= b < lists@[a]@.len() && lists@[a]@[b]@ == s;
                    if a == i {
                        assert(exists|b: int| 0 <= b < j && list@[b]@ == s);
                    }
                }
            }
        }
        i = i + 1;
    }
    proof {
        assert forall|s: Seq<char>| string_views(out@).to_set().contains(s) <==> named_subsystems(lists@).contains(s) by {
        }
        assert(string_views(out@).to_set() =~= named_subsystems(lists@));
    }
    out
}

/// The decomposability an assessment reports: the first report's, else `medium`.
pub fn decomposability_of(first_report: Option<&str>) -> (r: String)
    ensures
        r@ == match first_report {
            Some(d) => d@,
            None => "medium"@,
        },
{
    match first_report {
        Some(d) => String::from_str(d),
        None => String::from_str("medium"),
    }
}

/// A routed synthesis never reports both agreement and divergence, and an
/// interview is recommended only when the scores spread beyond the divergence
/// threshold and there is at least one ambiguous section to ask about.
pub proof fn lemma_synthesis_consistent(rs: Seq<RankingFindings>, band: ContextBand, r: SynthesisOutcome)
    requires
        rs.len() > 0,
        synthesis_matches(rs, band, r),
    ensures
        r matches SynthesisOutcome::Routed(res) ==> !(res.consensus && res.divergence_detected),
        r matches SynthesisOutcome::NeedsInterview(rec) ==> sorted_scores(rs).last() - sorted_scores(rs)[0]
            > DIVERGENCE_THRESHOLD && rec.ambiguous_sections@.len() > 0,
{
}

/// How many of the scores are at most `m`.
pub open spec fn count_at_most(s: Seq<u8>, m: u8) -> nat
    decreases s.len(),
{
    if s.len() == 0 {
        0
    } else {
        count_at_most(s.drop_last(), m) + if s.last() <= m {
            1nat
        } else {
            0nat
        }
    }
}

/// How many of the scores are at least `m`.
pub open spec fn count_at_least(s: Seq<u8>, m: u8) -> nat
    decreases s.len(),
{
    if s.len() == 0 {
        0
    } else {
        count_at_least(s.drop_last(), m) + if s.last() >= m {
            1nat
        } else {
            0nat
        }
    }
}

spec fn add_if_at_most(m: u8) -> spec_fn(u8, int) -> int {
    |x: u8, acc: int| if x <= m { acc + 1 } else { acc }
}

spec fn add_if_at_least(m: u8) -> spec_fn(u8, int) -> int {
    |x: u8, acc: int| if x >= m { acc + 1 } else { acc }
}

proof fn lemma_count_at_most_fold(s: Seq<u8>, m: u8, b: int)
    ensures
        s.fold_right(add_if_at_most(m), b) == b + count_at_most(s, m),
    decreases s.len(),
{
    if s.len() > 0 {
        lemma_count_at_most_fold(s.drop_last(), m, (add_if_at_most(m))(s.last(), b));
    }
}

proof fn lemma_count_at_least_fold(s: Seq<u8>, m: u8, b: int)
    ensures
        s.fold_right(add_if_at_least(m), b) == b + count_at_least(s, m),
    decreases s.len(),
{
    if s.len() > 0 {
        lemma_count_at_least_fold(s.drop_last(), m, (add_if_at_least(m))(s.last(), b));
    }
}

/// Counts do not depend on the order of the scores.
proof fn lemma_counts_permutation(s1: Seq<u8>, s2: Seq<u8>, m: u8)
    requires
        s1.to_multiset() == s2.to_multiset(),
    ensures
        count_at_most(s1, m) == count_at_most(s2, m),
        count_at_least(s1, m) == count_at_least(s2, m),
{
    assert(vstd::seq_lib::commutative_foldr(add_if_at_most(m)));
    assert(vstd::seq_lib::commutative_foldr(add_if_at_least(m)));
    vstd::seq_lib::lemma_fold_right_permutation(s1, s2, add_if_at_most(m), 0);
    vstd::seq_lib::lemma_fold_right_permutation(s1, s2, add_if_at_least(m), 0);
    lemma_count_at_most_fold(s1, m, 0);
    lemma_count_at_most_fold(s2, m, 0);
    lemma_count_at_least_fold(s1, m, 0);
    lemma_count_at_least_fold(s2, m, 0);
}

proof fn lemma_count_at_most_prefix(s: Seq<u8>, m: u8, j: int)
    requires
        0 <= j <= s.len(),
        forall|i: int| 0 <= i < j ==> s[i] <= m,
    ensures
        count_at_most(s, m) >= j,
    decreases s.len(),
{
    if s.len() > 0 {
        let d = s.drop_last();
        if j == s.len() {
            lemma_count_at_most_prefix(d, m, j - 1);
        } else {
            lemma_count_at_most_prefix(d, m, j);
        }
    }
}

proof fn lemma_count_at_least_suffix(s: Seq<u8>, m: u8, k: int)
    requires
        0 <= k <= s.len(),
        forall|i: int| k <= i < s.len() ==> s[i] >= m,
    ensures
        count_at_least(s, m) >= s.len() - k,
    decreases s.len(),
{
    if s.len() > k {
        lemma_count_at_least_suffix(s.drop_last(), m, k);
    }
}

/// A routed synthesis is routed by the median score: the median is one of the
/// reported scores, at least half of the scores (`n/2 + 1` of `n`) are at most
/// it and at least `n - n/2` are at least it (which fixes it as the middle
/// score, the upper one of an even count); and the routing decision is the
/// routing table applied to that median and the context band.
pub proof fn lemma_routing_follows_median(rs: Seq<RankingFindings>, band: ContextBand, r: SynthesisOutcome)
    requires
        rs.len() > 0,
        synthesis_matches(rs, band, r),
    ensures
        r matches SynthesisOutcome::Routed(res) ==> {
            let scores = scores_of(rs);
            let m = res.median_complexity_score;
            &&& scores.contains(m)
            &&& count_at_most(scores, m) >= rs.len() / 2 + 1
            &&& count_at_least(scores, m) >= rs.len() - rs.len() / 2
            &&& res.routing_decision == route_for(m, band)
        },
{
    if let SynthesisOutcome::Routed(res) = r {
        let scores = scores_of(rs);
        let sorted = scores.sort_by(score_le());
        assert(vstd::relations::total_ordering(score_le()));
        scores.lemma_sort_by_ensures(score_le());
        assert(sorted.len() == scores.len()) by {
            vstd::seq_lib::to_multiset_len(sorted);
            vstd::seq_lib::to_multiset_len(scores);
        }
        let n = rs.len() as int;
        let k = n / 2;
        let m = sorted[k];
        assert(res.median_complexity_score == m);
        assert(sorted.contains(m));
        assert(scores.contains(m));
        assert forall|i: int| 0 <= i < k + 1 implies sorted[i] <= m by {
            if i < k {
                assert((score_le())(sorted[i], sorted[k]));
            }
        }
        assert forall|i: int| k <= i < sorted.len() implies sorted[i] >= m by {
            if i > k {
                assert((score_le())(sorted[k], sorted[i]));
            }
        }
        lemma_count_at_most_prefix(sorted, m, k + 1);
        lemma_count_at_least_suffix(sorted, m, k);
        lemma_counts_permutation(scores, sorted, m);
    }
}

/// Every confirmed gap was reported at least twice, and no description is confirmed twice.
pub proof fn lemma_confirmed_gaps_repeated(s: Seq<(Seq<char>, Seq<char>)>, n: int)
    requires
        0 <= n <= s.len(),
    ensures
        forall|k: int| 0 <= k < confirmed_in(s, n).len() ==> desc_count(s, #[trigger] confirmed_in(s, n)[k].0) >= 2,
        forall|a: int, b: int|
            0 <= a < b < confirmed_in(s, n).len() ==> #[trigger] confirmed_in(s, n)[a].0 != #[trigger] confirmed_in(
                s,
                n,
            )[b].0,
        forall|k: int| 0 <= k < confirmed_in(s, n).len() ==> exists|j: int| 0 <= j < n && #[trigger] confirmed_in(s, n)[k] == s[j],
    decreases n,
{
    if n > 0 {
        lemma_confirmed_gaps_repeated(s, n - 1);
        let prev = confirmed_in(s, n - 1);
        if first_with_desc(s, n - 1) && desc_count(s, s[n - 1].0) >= 2 {
            assert forall|k: int| 0 <= k < prev.len() implies (#[trigger] prev[k]).0 != s[n - 1].0 by {
                let j = choose|j: int| 0 <= j < n - 1 && prev[k] == s[j];
                assert(s[j].0 != s[n - 1].0);
            }
            assert forall|k: int| 0 <= k < confirmed_in(s, n).len() implies exists|j: int|
                0 <= j < n && #[trigger] confirmed_in(s, n)[k] == s[j] by {
                if k < prev.len() {
                    let j = choose|j: int| 0 <= j < n - 1 && prev[k] == s[j];
                    assert(confirmed_in(s, n)[k] == s[j]);
                } else {
                    assert(confirmed_in(s, n)[k] == s[n - 1]);
                }
            }
        } else {
            assert forall|k: int| 0 <= k < confirmed_in(s, n).len() implies exists|j: int|
                0 <= j < n && #[trigger] confirmed_in(s, n)[k] == s[j] by {
                let j = choose|j: int| 0 <= j < n - 1 && prev[k] == s[j];
                assert(confirmed_in(s, n)[k] == s[j]);
            }
        }
    }
}

} // verus!
