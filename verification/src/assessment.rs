//! Complexity routing and the synthesis of the three ranking agents' reports.
use vstd::prelude::*;
use vstd::string::*;
use vstd::relations::{sorted_by, total_ordering};
use crate::status::{RoutingDecision, routing_decision_name};
use crate::text::{to_chars, str_eq, push_char, push_decimal, decimal};

verus! {

broadcast use vstd::seq_lib::to_multiset_insert, vstd::seq_lib::to_multiset_build;

/// Where an estimate of the context needed falls among the routing thresholds
/// (as a fraction of one agent's context window): below 0.4, from 0.4 to 0.7,
/// above 0.7 up to 2.0, or above 2.0.
#[derive(Debug, Clone, Copy, PartialEq, Eq, Structural)]
pub enum ContextBand {
    Light,
    Moderate,
    Heavy,
    Oversized,
}

/// The routing table: complexity score first, context band as tiebreaker.
pub open spec fn route_for(score: u8, band: ContextBand) -> RoutingDecision {
    if 1 <= score <= 3 {
        if band == ContextBand::Light {
            RoutingDecision::Single
        } else {
            RoutingDecision::SingleVerifier
        }
    } else if 4 <= score <= 5 {
        if band == ContextBand::Heavy || band == ContextBand::Oversized {
            RoutingDecision::VsShallow
        } else {
            RoutingDecision::SingleVerifier
        }
    } else if 6 <= score <= 8 {
        if band == ContextBand::Oversized {
            RoutingDecision::VsDeep
        } else {
            RoutingDecision::VsShallow
        }
    } else {
        RoutingDecision::VsDeep
    }
}

/// Applies the routing table to a complexity score and context band.
pub fn route_from_score(complexity_score: u8, context: ContextBand) -> (r: RoutingDecision)
    ensures
        r == route_for(complexity_score, context),
{
    if 1 <= complexity_score && complexity_score <= 3 {
        if context == ContextBand::Light {
            RoutingDecision::Single
        } else {
            RoutingDecision::SingleVerifier
        }
    } else if 4 <= complexity_score && complexity_score <= 5 {
        if context == ContextBand::Heavy || context == ContextBand::Oversized {
            RoutingDecision::VsShallow
        } else {
            RoutingDecision::SingleVerifier
        }
    } else if 6 <= complexity_score && complexity_score <= 8 {
        if context == ContextBand::Oversized {
            RoutingDecision::VsDeep
        } else {
            RoutingDecision::VsShallow
        }
    } else {
        RoutingDecision::VsDeep
    }
}

/// A greater complexity score never routes to a lighter decision, for a fixed context band.
pub open spec fn decision_rank(d: RoutingDecision) -> int {
    match d {
        RoutingDecision::Single => 0,
        RoutingDecision::SingleVerifier => 1,
        RoutingDecision::VsShallow => 2,
        RoutingDecision::VsDeep => 3,
    }
}

/// Routing is monotone: among scores 1 to 10, a higher complexity score or a
/// heavier context band never yields a lighter decision.
pub proof fn lemma_route_monotone(s1: u8, s2: u8, b1: ContextBand, b2: ContextBand)
    requires
        1 <= s1 <= s2 <= 10,
        band_rank(b1) <= band_rank(b2),
    ensures
        decision_rank(route_for(s1, b1)) <= decision_rank(route_for(s2, b2)),
{
}

/// The routing table, case by case: scores 1 to 3 run a single agent with a
/// light context, else a single agent with a verifier; scores 4 and 5 run a
/// single agent with a verifier, or shallow vs. with a heavy or oversized
/// context; scores 6 to 8 run shallow vs., or deep vs. with an oversized
/// context; every other score runs deep vs. A single agent alone is chosen
/// only for scores 1 to 3 with a light context.
pub proof fn lemma_route_table(score: u8, band: ContextBand)
    ensures
        1 <= score <= 3 && band == ContextBand::Light ==> route_for(score, band) == RoutingDecision::Single,
        1 <= score <= 3 && band != ContextBand::Light ==> route_for(score, band)
            == RoutingDecision::SingleVerifier,
        4 <= score <= 5 && band != ContextBand::Heavy && band != ContextBand::Oversized ==> route_for(score, band)
            == RoutingDecision::SingleVerifier,
        4 <= score <= 5 && (band == ContextBand::Heavy || band == ContextBand::Oversized) ==> route_for(
            score,
            band,
        ) == RoutingDecision::VsShallow,
        6 <= score <= 8 && band != ContextBand::Oversized ==> route_for(score, band) == RoutingDecision::VsShallow,
        6 <= score <= 8 && band == ContextBand::Oversized ==> route_for(score, band) == RoutingDecision::VsDeep,
        (score == 0 || score >= 9) ==> route_for(score, band) == RoutingDecision::VsDeep,
        route_for(score, band) == RoutingDecision::Single <==> (1 <= score <= 3 && band == ContextBand::Light),
{
}

/// Order of the context bands, lightest first.
pub open spec fn band_rank(b: ContextBand) -> int {
    match b {
        ContextBand::Light => 0,
        ContextBand::Moderate => 1,
        ContextBand::Heavy => 2,
        ContextBand::Oversized => 3,
    }
}

/// `<=` on scores.
pub open spec fn score_le() -> spec_fn(u8, u8) -> bool {
    |a: u8, b: u8| a <= b
}

proof fn lemma_score_le_total()
    ensures
        total_ordering(score_le()),
{
}

/// Sorts scores in ascending order.
pub fn sort_scores(v: &Vec<u8>) -> (r: Vec<u8>)
    ensures
        r@ == v@.sort_by(score_le()),
        r@.len() == v@.len(),
{
    let mut out: Vec<u8> = Vec::new();
    let mut i: usize = 0;
    assert(v@.take(0) =~= out@);
    while i < v.len()
        invariant
            i <= v@.len(),
            sorted_by(out@, score_le()),
            out@.to_multiset() == v@.take(i as int).to_multiset(),
            out@.len() == i,
        decreases v@.len() - i,
    {
        let x = v[i];
        let mut pos: usize = 0;
        while pos < out.len() && out[pos] <= x
            invariant
                pos <= out@.len(),
                forall|k: int| 0 <= k < pos ==> out@[k] <= x,
            decreases out@.len() - pos,
        {
            pos = pos + 1;
        }
        let ghost before = out@;
        out.insert(pos, x);
        proof {
            assert(v@.take(i + 1) == v@.take(i as int).push(x));
            assert(out@ == before.insert(pos as int, x));
            assert forall|a: int, b: int| 0 <= a < b < out@.len() implies #[trigger] (score_le())(out@[a], out@[b]) by {
                if b < pos {
                } else if b == pos {
                } else if a < pos {
                    assert(before[a] <= x);
                    if pos < before.len() {
                        assert(x < before[pos as int]);
                        assert((score_le())(before[pos as int], before[b - 1]) || pos == b - 1);
                    }
                } else if a == pos {
                    assert(x < before[pos as int]);
                    assert((score_le())(before[pos as int], before[b - 1]) || pos == b - 1);
                } else {
                    assert((score_le())(before[a - 1], before[b - 1]));
                }
            }
        }
        i = i + 1;
    }
    proof {
        assert(v@.take(v@.len() as int) == v@);
        lemma_score_le_total();
        v@.lemma_sort_by_ensures(score_le());
        vstd::seq_lib::lemma_sorted_unique(out@, v@.sort_by(score_le()), score_le());
    }
    out
}


/// A gap in a specification that a ranking agent found.
#[derive(Debug)]
pub struct GapFinding {
    pub description: String,
    pub severity: String,
}

impl View for GapFinding {
    type V = (Seq<char>, Seq<char>);

    open spec fn view(&self) -> Self::V {
        (self.description@, self.severity@)
    }
}

/// A risk a ranking agent identified, with its mitigation.
#[derive(Debug)]
pub struct RiskFinding {
    pub description: String,
    pub mitigation: String,
}

impl View for RiskFinding {
    type V = (Seq<char>, Seq<char>);

    open spec fn view(&self) -> Self::V {
        (self.description@, self.mitigation@)
    }
}

/// What the synthesis reads of one ranking agent's report.
#[derive(Debug)]
pub struct RankingFindings {
    pub complexity_score: u8,
    pub gaps_found: Vec<GapFinding>,
    pub risks_found: Vec<RiskFinding>,
}

/// A recommendation to go back to the interview: the sections the agents
/// disagree on and the questions to ask about them.
#[derive(Debug)]
pub struct InterviewRecommendation {
    pub ambiguous_sections: Vec<String>,
    pub recommended_questions: Vec<String>,
}

/// The synthesized routing of a specification.
#[derive(Debug)]
pub struct SynthesisResult {
    pub routing_decision: RoutingDecision,
    pub consensus: bool,
    pub divergence_detected: bool,
    pub confirmed_gaps: Vec<GapFinding>,
    pub prioritized_risks: Vec<RiskFinding>,
    pub implementation_brief: String,
    pub median_complexity_score: u8,
    pub score_range: u8,
}

/// Either a routing decision or a signal that the specification needs clarifying first.
#[derive(Debug)]
pub enum SynthesisOutcome {
    Routed(SynthesisResult),
    NeedsInterview(InterviewRecommendation),
}

/// The routing decision a synthesis arrived at.
pub fn route_from_synthesis(synthesis: &SynthesisResult) -> (r: RoutingDecision)
    ensures
        r == synthesis.routing_decision,
{
    synthesis.routing_decision
}

/// Largest score spread that still counts as agreement.
pub const CONSENSUS_THRESHOLD: u8 = 2;

/// Score spread beyond which the agents are said to diverge.
pub const DIVERGENCE_THRESHOLD: u8 = 4;

/// The text of findings.
pub open spec fn pair_views<T: View<V = (Seq<char>, Seq<char>)>>(v: Seq<T>) -> Seq<(Seq<char>, Seq<char>)> {
    v.map_values(|x: T| x@)
}

/// The gaps of all reports, report by report.
pub open spec fn all_gaps(rs: Seq<RankingFindings>) -> Seq<(Seq<char>, Seq<char>)>
    decreases rs.len(),
{
    if rs.len() == 0 {
        seq![]
    } else {
        all_gaps(rs.drop_last()) + pair_views(rs.last().gaps_found@)
    }
}

/// The risks of all reports, report by report.
pub open spec fn all_risks(rs: Seq<RankingFindings>) -> Seq<(Seq<char>, Seq<char>)>
    decreases rs.len(),
{
    if rs.len() == 0 {
        seq![]
    } else {
        all_risks(rs.drop_last()) + pair_views(rs.last().risks_found@)
    }
}

/// The complexity scores of the reports.
pub open spec fn scores_of(rs: Seq<RankingFindings>) -> Seq<u8> {
    rs.map_values(|r: RankingFindings| r.complexity_score)
}

/// How many findings carry the description `d`.
pub open spec fn desc_count(s: Seq<(Seq<char>, Seq<char>)>, d: Seq<char>) -> nat {
    s.filter(|p: (Seq<char>, Seq<char>)| p.0 == d).len()
}

/// Entry `i` is the first with its description.
pub open spec fn first_with_desc(s: Seq<(Seq<char>, Seq<char>)>, i: int) -> bool {
    forall|j: int| 0 <= j < i ==> (#[trigger] s[j]).0 != s[i].0
}

/// Among the first `n` findings, those reported at least twice (first occurrence
/// of each description, with its first severity), in order of first occurrence.
pub open spec fn confirmed_in(s: Seq<(Seq<char>, Seq<char>)>, n: int) -> Seq<(Seq<char>, Seq<char>)>
    decreases n,
{
    if n <= 0 {
        seq![]
    } else {
        let prev = confirmed_in(s, n - 1);
        if first_with_desc(s, n - 1) && desc_count(s, s[n - 1].0) >= 2 {
            prev.push(s[n - 1])
        } else {
            prev
        }
    }
}

/// Entry `i` is high severity and the first high-severity entry with its description.
pub open spec fn first_high(s: Seq<(Seq<char>, Seq<char>)>, i: int) -> bool {
    s[i].1 == "high"@ && forall|j: int| 0 <= j < i ==> !((#[trigger] s[j]).0 == s[i].0 && s[j].1 == "high"@)
}

/// The distinct descriptions of high-severity gaps among the first `n`, in order of first occurrence.
pub open spec fn high_gaps_in(s: Seq<(Seq<char>, Seq<char>)>, n: int) -> Seq<Seq<char>>
    decreases n,
{
    if n <= 0 {
        seq![]
    } else {
        let prev = high_gaps_in(s, n - 1);
        if first_high(s, n - 1) {
            prev.push(s[n - 1].0)
        } else {
            prev
        }
    }
}

/// The question asked about an ambiguous section.
pub open spec fn clarify_question(section: Seq<char>) -> Seq<char> {
    "Can you clarify: "@ + section
}

/// Position and count of each distinct risk among the first `n`, in order of first occurrence.
pub open spec fn risk_keys_in(s: Seq<(Seq<char>, Seq<char>)>, n: int) -> Seq<(usize, usize)>
    decreases n,
{
    if n <= 0 {
        seq![]
    } else {
        let prev = risk_keys_in(s, n - 1);
        if first_with_desc(s, n - 1) {
            prev.push(((n - 1) as usize, desc_count(s, s[n - 1].0) as usize))
        } else {
            prev
        }
    }
}

/// Risks flagged more often come first; among equal counts, the one reported first.
pub open spec fn risk_key_le() -> spec_fn((usize, usize), (usize, usize)) -> bool {
    |a: (usize, usize), b: (usize, usize)| a.1 > b.1 || (a.1 == b.1 && a.0 <= b.0)
}

/// The distinct risks ordered by how many reports flag them.
pub open spec fn prioritized_risks_of(s: Seq<(Seq<char>, Seq<char>)>) -> Seq<(Seq<char>, Seq<char>)> {
    risk_keys_in(s, s.len() as int).sort_by(risk_key_le()).map_values(|k: (usize, usize)| s[k.0 as int])
}

/// The scores in ascending order.
pub open spec fn sorted_scores(rs: Seq<RankingFindings>) -> Seq<u8> {
    scores_of(rs).sort_by(score_le())
}

/// The implementation brief written for a routed synthesis.
pub open spec fn brief_text(
    median: nat,
    min: nat,
    max: nat,
    range: nat,
    decision: RoutingDecision,
    gaps: nat,
    risks: nat,
) -> Seq<char> {
    "Median complexity: "@ + decimal(median) + "/10 (range: "@ + decimal(min) + "-"@ + decimal(max)
        + "). "@ + (if range <= CONSENSUS_THRESHOLD {
        "High consensus among ranking agents. "@
    } else {
        "Moderate divergence (range "@ + decimal(range) + "). "@
    }) + "Routing: "@ + routing_decision_name(decision) + ". "@ + decimal(gaps) + " confirmed gaps, "@
        + decimal(risks) + " risks identified."@
}

/// The text of borrowed findings.
pub open spec fn ref_views<T: View<V = (Seq<char>, Seq<char>)>>(v: Seq<&T>) -> Seq<(Seq<char>, Seq<char>)> {
    v.map_values(|x: &T| x@)
}

fn flatten_gaps(reports: &Vec<RankingFindings>) -> (r: Vec<&GapFinding>)
    ensures
        ref_views(r@) == all_gaps(reports@),
{
    let mut out: Vec<&GapFinding> = Vec::new();
    let mut i: usize = 0;
    while i < reports.len()
        invariant
            i <= reports@.len(),
            ref_views(out@) == all_gaps(reports@.take(i as int)),
        decreases reports@.len() - i,
    {
        let gaps = &reports[i].gaps_found;
        let ghost base = ref_views(out@);
        let mut j: usize = 0;
        while j < gaps.len()
            invariant
                j <= gaps@.len(),
                ref_views(out@) == base + pair_views(gaps@.take(j as int)),
            decreases gaps@.len() - j,
        {
            let ghost before = out@;
            out.push(&gaps[j]);
            assert(ref_views(out@) == ref_views(before).push(gaps@[j as int]@));
            assert(pair_views(gaps@.take(j + 1)) == pair_views(gaps@.take(j as int)).push(gaps@[j as int]@));
            j = j + 1;
        }
        assert(gaps@.take(gaps@.len() as int) == gaps@);
        assert(reports@.take(i + 1).drop_last() == reports@.take(i as int));
        i = i + 1;
    }
    assert(reports@.take(reports@.len() as int) == reports@);
    out
}

fn flatten_risks(reports: &Vec<RankingFindings>) -> (r: Vec<&RiskFinding>)
    ensures
        ref_views(r@) == all_risks(reports@),
{
    let mut out: Vec<&RiskFinding> = Vec::new();
    let mut i: usize = 0;
    while i < reports.len()
        invariant
            i <= reports@.len(),
            ref_views(out@) == all_risks(reports@.take(i as int)),
        decreases reports@.len() - i,
    {
        let risks = &reports[i].risks_found;
        let ghost base = ref_views(out@);
        let mut j: usize = 0;
        while j < risks.len()
            invariant
                j <= risks@.len(),
                ref_views(out@) == base + pair_views(risks@.take(j as int)),
            decreases risks@.len() - j,
        {
            let ghost before = out@;
            out.push(&risks[j]);
            assert(ref_views(out@) == ref_views(before).push(risks@[j as int]@));
            assert(pair_views(risks@.take(j + 1)) == pair_views(risks@.take(j as int)).push(risks@[j as int]@));
            j = j + 1;
        }
        assert(risks@.take(risks@.len() as int) == risks@);
        assert(reports@.take(i + 1).drop_last() == reports@.take(i as int));
        i = i + 1;
    }
    assert(reports@.take(reports@.len() as int) == reports@);
    out
}

fn count_desc<T: View<V = (Seq<char>, Seq<char>)>>(items: &Vec<&T>, d: &String, descs: &Vec<&String>) -> (n: usize)
    requires
        descs@.len() == items@.len(),
        forall|k: int| 0 <= k < items@.len() ==> (*descs@[k])@ == (#[trigger] items@[k])@.0,
    ensures
        n == desc_count(ref_views(items@), d@),
{
    let ghost s = ref_views(items@);
    let ghost pred = |p: (Seq<char>, Seq<char>)| p.0 == d@;
    let mut n: usize = 0;
    let mut j: usize = 0;
    while j < descs.len()
        invariant
            j <= descs@.len() == items@.len(),
            s == ref_views(items@),
            pred == (|p: (Seq<char>, Seq<char>)| p.0 == d@),
            forall|k: int| 0 <= k < items@.len() ==> (*descs@[k])@ == (#[trigger] items@[k])@.0,
            n == s.take(j as int).filter(pred).len(),
            n <= j,
        decreases descs@.len() - j,
    {
        proof {
            reveal(Seq::filter);
            assert(s.take(j + 1).drop_last() == s.take(j as int));
            assert(s[j as int] == items@[j as int]@);
        }
        if *descs[j] == *d {
            n = n + 1;
        }
        j = j + 1;
    }
    assert(s.take(j as int) == s);
    n
}

fn gap_descs<'a>(items: &Vec<&'a GapFinding>) -> (r: Vec<&'a String>)
    ensures
        r@.len() == items@.len(),
        forall|k: int| 0 <= k < items@.len() ==> (*r@[k])@ == (#[trigger] items@[k])@.0,
{
    let mut r: Vec<&String> = Vec::new();
    let mut i: usize = 0;
    while i < items.len()
        invariant
            i <= items@.len(),
            r@.len() == i,
            forall|k: int| 0 <= k < i ==> (*r@[k])@ == (#[trigger] items@[k])@.0,
        decreases items@.len() - i,
    {
        r.push(&items[i].description);
        i = i + 1;
    }
    r
}

fn risk_descs<'a>(items: &Vec<&'a RiskFinding>) -> (r: Vec<&'a String>)
    ensures
        r@.len() == items@.len(),
        forall|k: int| 0 <= k < items@.len() ==> (*r@[k])@ == (#[trigger] items@[k])@.0,
{
    let mut r: Vec<&String> = Vec::new();
    let mut i: usize = 0;
    while i < items.len()
        invariant
            i <= items@.len(),
            r@.len() == i,
            forall|k: int| 0 <= k < i ==> (*r@[k])@ == (#[trigger] items@[k])@.0,
        decreases items@.len() - i,
    {
        r.push(&items[i].description);
        i = i + 1;
    }
    r
}

fn is_first_desc(descs: &Vec<&String>, i: usize) -> (b: bool)
    requires
        i < descs@.len(),
    ensures
        b == forall|j: int| 0 <= j < i ==> (*descs@[j])@ != (*descs@[i as int])@,
{
    let mut j: usize = 0;
    while j < i
        invariant
            j <= i < descs@.len(),
            forall|k: int| 0 <= k < j ==> (*descs@[k])@ != (*descs@[i as int])@,
        decreases i - j,
    {
        if *descs[j] == *descs[i] {
            return false;
        }
        j = j + 1;
    }
    true
}

fn copy_gap(g: &GapFinding) -> (r: GapFinding)
    ensures
        r@ == g@,
{
    GapFinding { description: g.description.clone(), severity: g.severity.clone() }
}

fn copy_risk(g: &RiskFinding) -> (r: RiskFinding)
    ensures
        r@ == g@,
{
    RiskFinding { description: g.description.clone(), mitigation: g.mitigation.clone() }
}

/// The gaps that more than one finding reports, once each, in order of first occurrence.
fn confirm_gaps(gaps: &Vec<&GapFinding>) -> (r: Vec<GapFinding>)
    ensures
        pair_views(r@) == confirmed_in(ref_views(gaps@), gaps@.len() as int),
{
    let ghost s = ref_views(gaps@);
    let descs = gap_descs(gaps);
    let mut out: Vec<GapFinding> = Vec::new();
    let mut i: usize = 0;
    while i < gaps.len()
        invariant
            i <= gaps@.len() == descs@.len(),
            s == ref_views(gaps@),
            forall|k: int| 0 <= k < gaps@.len() ==> (*descs@[k])@ == (#[trigger] gaps@[k])@.0,
            pair_views(out@) == confirmed_in(s, i as int),
        decreases gaps@.len() - i,
    {
        let first = is_first_desc(&descs, i);
        proof {
            assert(s[i as int] == gaps@[i as int]@);
            assert((*descs@[i as int])@ == gaps@[i as int]@.0);
            if first {
                assert forall|j: int| 0 <= j < i implies (#[trigger] s[j]).0 != s[i as int].0 by {
                    assert(s[j] == gaps@[j]@);
                    assert((*descs@[j])@ == gaps@[j]@.0);
                }
            } else {
                let j = choose|j: int| 0 <= j < i && (*descs@[j])@ == (*descs@[i as int])@;
                assert(s[j] == gaps@[j]@);
                assert((*descs@[j])@ == gaps@[j]@.0);
                assert(s[j].0 == s[i as int].0);
            }
            assert(first == first_with_desc(s, i as int));
        }
        if first {
            let c = count_desc(gaps, descs[i], &descs);
            assert(s[i as int].0 == (*descs@[i as int])@);
            if c >= 2 {
                let ghost before = out@;
                out.push(copy_gap(gaps[i]));
                assert(pair_views(out@) == pair_views(before).push(s[i as int]));
            }
        }
        i = i + 1;
    }
    out
}

/// The distinct high-severity gap descriptions, in order of first occurrence.
fn ambiguous_sections_of(gaps: &Vec<&GapFinding>) -> (r: Vec<String>)
    ensures
        r@.map_values(|x: String| x@) == high_gaps_in(ref_views(gaps@), gaps@.len() as int),
{
    let ghost s = ref_views(gaps@);
    let mut out: Vec<String> = Vec::new();
    let mut i: usize = 0;
    while i < gaps.len()
        invariant
            i <= gaps@.len(),
            s == ref_views(gaps@),
            out@.map_values(|x: String| x@) == high_gaps_in(s, i as int),
        decreases gaps@.len() - i,
    {
        assert(s[i as int] == gaps@[i as int]@);
        if str_eq(gaps[i].severity.as_str(), "high") {
            let mut seen = false;
            let mut j: usize = 0;
            while j < i && !seen
                invariant
                    j <= i < gaps@.len(),
                    s == ref_views(gaps@),
                    seen ==> exists|k: int| 0 <= k < j && (#[trigger] s[k]).0 == s[i as int].0 && s[k].1 == "high"@,
                    !seen ==> forall|k: int| 0 <= k < j ==> !((#[trigger] s[k]).0 == s[i as int].0 && s[k].1 == "high"@),
                decreases i - j,
            {
                assert(s[j as int] == gaps@[j as int]@);
                assert(s[i as int] == gaps@[i as int]@);
                if gaps[j].description == gaps[i].description && str_eq(gaps[j].severity.as_str(), "high") {
                    seen = true;
                }
                j = j + 1;
            }
            if !seen {
                assert(first_high(s, i as int));
                let ghost before = out@;
                out.push(gaps[i].description.clone());
                assert(out@.map_values(|x: String| x@) == before.map_values(|x: String| x@).push(s[i as int].0));
            } else {
                assert(!first_high(s, i as int));
            }
        }
        i = i + 1;
    }
    out
}


proof fn lemma_risk_key_le_total()
    ensures
        total_ordering(risk_key_le()),
{
}

fn key_le(a: (usize, usize), b: (usize, usize)) -> (r: bool)
    ensures
        r == (risk_key_le())(a, b),
{
    a.1 > b.1 || (a.1 == b.1 && a.0 <= b.0)
}

/// Sorts risk keys: higher count first, then earlier first occurrence.
fn sort_risk_keys(v: &Vec<(usize, usize)>) -> (r: Vec<(usize, usize)>)
    ensures
        r@ == v@.sort_by(risk_key_le()),
{
    let ghost le = risk_key_le();
    let mut out: Vec<(usize, usize)> = Vec::new();
    let mut i: usize = 0;
    assert(v@.take(0) =~= out@);
    while i < v.len()
        invariant
            i <= v@.len(),
            le == risk_key_le(),
            sorted_by(out@, le),
            out@.to_multiset() == v@.take(i as int).to_multiset(),
        decreases v@.len() - i,
    {
        let x = v[i];
        let mut pos: usize = 0;
        while pos < out.len() && key_le(out[pos], x)
            invariant
                pos <= out@.len(),
                le == risk_key_le(),
                forall|k: int| 0 <= k < pos ==> le(out@[k], x),
            decreases out@.len() - pos,
        {
            pos = pos + 1;
        }
        let ghost before = out@;
        out.insert(pos, x);
        proof {
            lemma_risk_key_le_total();
            assert(v@.take(i + 1) == v@.take(i as int).push(x));
            assert(out@ == before.insert(pos as int, x));
            assert forall|a: int, b: int| 0 <= a < b < out@.len() implies #[trigger] le(out@[a], out@[b]) by {
                if b < pos {
                    assert(le(before[a], before[b]));
                } else if b == pos {
                } else if a < pos {
                    assert(le(before[a], x));
                    assert(!le(before[pos as int], x));
                    assert(le(x, before[pos as int]));
                    if pos < b - 1 {
                        assert(le(before[pos as int], before[b - 1]));
                    }
                } else if a == pos {
                    assert(!le(before[pos as int], x));
                    assert(le(x, before[pos as int]));
                    if pos < b - 1 {
                        assert(le(before[pos as int], before[b - 1]));
                    }
                } else {
                    assert(le(before[a - 1], before[b - 1]));
                }
            }
        }
        i = i + 1;
    }
    proof {
        assert(v@.take(v@.len() as int) == v@);
        lemma_risk_key_le_total();
        v@.lemma_sort_by_ensures(risk_key_le());
        vstd::seq_lib::lemma_sorted_unique(out@, v@.sort_by(risk_key_le()), risk_key_le());
    }
    out
}

/// The distinct risks, most often flagged first.
fn prioritize_risks(risks: &Vec<&RiskFinding>) -> (r: Vec<RiskFinding>)
    ensures
        pair_views(r@) == prioritized_risks_of(ref_views(risks@)),
{
    let ghost s = ref_views(risks@);
    let descs = risk_descs(risks);
    let mut keys: Vec<(usize, usize)> = Vec::new();
    let mut i: usize = 0;
    while i < risks.len()
        invariant
            i <= risks@.len() == descs@.len(),
            s == ref_views(risks@),
            forall|k: int| 0 <= k < risks@.len() ==> (*descs@[k])@ == (#[trigger] risks@[k])@.0,
            keys@ == risk_keys_in(s, i as int),
            forall|k: int| 0 <= k < keys@.len() ==> (#[trigger] keys@[k]).0 < i,
        decreases risks@.len() - i,
    {
        let first = is_first_desc(&descs, i);
        proof {
            assert(s[i as int] == risks@[i as int]@);
            assert((*descs@[i as int])@ == risks@[i as int]@.0);
            if first {
                assert forall|j: int| 0 <= j < i implies (#[trigger] s[j]).0 != s[i as int].0 by {
                    assert(s[j] == risks@[j]@);
                    assert((*descs@[j])@ == risks@[j]@.0);
                }
            } else {
                let j = choose|j: int| 0 <= j < i && (*descs@[j])@ == (*descs@[i as int])@;
                assert(s[j] == risks@[j]@);
                assert((*descs@[j])@ == risks@[j]@.0);
                assert(s[j].0 == s[i as int].0);
            }
        }
        if first {
            let c = count_desc(risks, descs[i], &descs);
            keys.push((i, c));
        }
        i = i + 1;
    }
    let sorted = sort_risk_keys(&keys);
    proof {
        lemma_risk_key_le_total();
        keys@.lemma_sort_by_ensures(risk_key_le());
        assert forall|k: int| 0 <= k < sorted@.len() implies (#[trigger] sorted@[k]).0 < risks@.len() by {
            vstd::seq_lib::to_multiset_contains(sorted@, sorted@[k]);
            vstd::seq_lib::to_multiset_contains(keys@, sorted@[k]);
            assert(sorted@.contains(sorted@[k]));
            assert(keys@.contains(sorted@[k]));
        }
    }
    let mut out: Vec<RiskFinding> = Vec::new();
    let mut j: usize = 0;
    while j < sorted.len()
        invariant
            j <= sorted@.len(),
            s == ref_views(risks@),
            forall|k: int| 0 <= k < sorted@.len() ==> (#[trigger] sorted@[k]).0 < risks@.len(),
            pair_views(out@) == sorted@.take(j as int).map_values(|k: (usize, usize)| s[k.0 as int]),
        decreases sorted@.len() - j,
    {
        let idx = sorted[j].0;
        let ghost before = out@;
        out.push(copy_risk(risks[idx]));
        proof {
            assert(s[idx as int] == risks@[idx as int]@);
            assert(sorted@.take(j + 1) == sorted@.take(j as int).push(sorted@[j as int]));
            assert(pair_views(out@) == pair_views(before).push(s[idx as int]));
        }
        j = j + 1;
    }
    assert(sorted@.take(sorted@.len() as int) == sorted@);
    out
}


fn build_brief(median: u8, min: u8, max: u8, range: u8, decision: RoutingDecision, gaps: usize, risks: usize) -> (r: String)
    ensures
        r@ == brief_text(median as nat, min as nat, max as nat, range as nat, decision, gaps as nat, risks as nat),
{
    let mut p = String::new();
    p.append("Median complexity: ");
    push_decimal(&mut p, median as u64);
    p.append("/10 (range: ");
    push_decimal(&mut p, min as u64);
    p.append("-");
    push_decimal(&mut p, max as u64);
    p.append("). ");
    if range <= CONSENSUS_THRESHOLD {
        p.append("High consensus among ranking agents. ");
    } else {
        p.append("Moderate divergence (range ");
        push_decimal(&mut p, range as u64);
        p.append("). ");
    }
    p.append("Routing: ");
    p.append(decision.as_str());
    p.append(". ");
    push_decimal(&mut p, gaps as u64);
    p.append(" confirmed gaps, ");
    push_decimal(&mut p, risks as u64);
    p.append(" risks identified.");
    p
}

/// The questions for ambiguous sections.
pub open spec fn clarify_questions(sections: Seq<Seq<char>>) -> Seq<Seq<char>> {
    sections.map_values(|x: Seq<char>| clarify_question(x))
}

/// The texts of strings.
pub open spec fn texts(v: Seq<String>) -> Seq<Seq<char>> {
    v.map_values(|x: String| x@)
}

/// What the synthesis of non-empty reports yields, given the context band of
/// their average context estimate: when the scores spread beyond the divergence
/// threshold and some high-severity gap is reported, an interview recommendation;
/// otherwise the routing of the median score with the confirmed gaps, the
/// prioritized risks and a brief.
pub open spec fn synthesis_matches(rs: Seq<RankingFindings>, band: ContextBand, r: SynthesisOutcome) -> bool {
    let sorted = sorted_scores(rs);
    let n = sorted.len() as int;
    let min = sorted[0];
    let max = sorted[n - 1];
    let median = sorted[n / 2];
    let range = max - min;
    let gaps = all_gaps(rs);
    let risks = all_risks(rs);
    let amb = high_gaps_in(gaps, gaps.len() as int);
    if range > DIVERGENCE_THRESHOLD && amb.len() > 0 {
        match r {
            SynthesisOutcome::NeedsInterview(rec) => texts(rec.ambiguous_sections@) == amb && texts(
                rec.recommended_questions@,
            ) == clarify_questions(amb),
            _ => false,
        }
    } else {
        match r {
            SynthesisOutcome::Routed(res) => {
                &&& res.routing_decision == route_for(median, band)
                &&& res.median_complexity_score == median
                &&& res.score_range == range
                &&& res.consensus == (range <= CONSENSUS_THRESHOLD)
                &&& res.divergence_detected == (range > DIVERGENCE_THRESHOLD)
                &&& pair_views(res.confirmed_gaps@) == confirmed_in(gaps, gaps.len() as int)
                &&& pair_views(res.prioritized_risks@) == prioritized_risks_of(risks)
                &&& res.implementation_brief@ == brief_text(
                    median as nat,
                    min as nat,
                    max as nat,
                    range as nat,
                    res.routing_decision,
                    res.confirmed_gaps@.len(),
                    res.prioritized_risks@.len(),
                )
            },
            _ => false,
        }
    }
}

/// What the synthesis of no reports yields: a single-agent routing with nothing found.
pub open spec fn empty_synthesis(r: SynthesisOutcome) -> bool {
    match r {
        SynthesisOutcome::Routed(res) => {
            &&& res.routing_decision == RoutingDecision::Single
            &&& res.median_complexity_score == 1
            &&& res.score_range == 0
            &&& res.consensus
            &&& !res.divergence_detected
            &&& res.confirmed_gaps@.len() == 0
            &&& res.prioritized_risks@.len() == 0
            &&& res.implementation_brief@ == "No ranking reports available."@
        },
        _ => false,
    }
}

/// Synthesizes the ranking agents' reports into one routing decision, or into a
/// recommendation to clarify the specification when the agents disagree widely
/// and report high-severity gaps. `context` is the band of the reports' average
/// context estimate.
pub fn run_synthesis(reports: &Vec<RankingFindings>, context: ContextBand) -> (r: SynthesisOutcome)
    ensures
        reports@.len() == 0 ==> empty_synthesis(r),
        reports@.len() > 0 ==> synthesis_matches(reports@, context, r),
{
    if reports.len() == 0 {
        return SynthesisOutcome::Routed(
            SynthesisResult {
                routing_decision: RoutingDecision::Single,
                consensus: true,
                divergence_detected: false,
                confirmed_gaps: Vec::new(),
                prioritized_risks: Vec::new(),
                implementation_brief: String::from_str("No ranking reports available."),
                median_complexity_score: 1,
                score_range: 0,
            },
        );
    }
    let mut scores: Vec<u8> = Vec::new();
    let mut i: usize = 0;
    while i < reports.len()
        invariant
            i <= reports@.len(),
            scores@ == scores_of(reports@.take(i as int)),
        decreases reports@.len() - i,
    {
        scores.push(reports[i].complexity_score);
        assert(scores_of(reports@.take(i + 1)) == scores_of(reports@.take(i as int)).push(reports@[i as int].complexity_score));
        i = i + 1;
    }
    assert(reports@.take(reports@.len() as int) == reports@);
    let sorted = sort_scores(&scores);
    let n = sorted.len();
    let min_score = sorted[0];
    let max_score = sorted[n - 1];
    let median_score = sorted[n / 2];
    proof {
        lemma_score_le_total();
        scores@.lemma_sort_by_ensures(score_le());
        assert((score_le())(sorted@[0], sorted@[n - 1]) || n == 1);
    }
    let score_range = max_score - min_score;
    let gaps = flatten_gaps(reports);
    let risks = flatten_risks(reports);
    if score_range > DIVERGENCE_THRESHOLD {
        let ambiguous_sections = ambiguous_sections_of(&gaps);
        if ambiguous_sections.len() > 0 {
            let mut recommended_questions: Vec<String> = Vec::new();
            let mut k: usize = 0;
            while k < ambiguous_sections.len()
                invariant
                    k <= ambiguous_sections@.len(),
                    texts(recommended_questions@) == clarify_questions(texts(ambiguous_sections@).take(k as int)),
                decreases ambiguous_sections@.len() - k,
            {
                let mut q = String::from_str("Can you clarify: ");
                q.append(ambiguous_sections[k].as_str());
                let ghost before = recommended_questions@;
                recommended_questions.push(q);
                assert(texts(recommended_questions@) == texts(before).push(q@));
                assert(texts(ambiguous_sections@).take(k + 1) == texts(ambiguous_sections@).take(k as int).push(ambiguous_sections@[k as int]@));
                k = k + 1;
            }
            assert(texts(ambiguous_sections@).take(ambiguous_sections@.len() as int) == texts(ambiguous_sections@));
            return SynthesisOutcome::NeedsInterview(
                InterviewRecommendation { ambiguous_sections, recommended_questions },
            );
        }
    }
    let confirmed_gaps = confirm_gaps(&gaps);
    let prioritized_risks = prioritize_risks(&risks);
    let routing_decision = route_from_score(median_score, context);
    let implementation_brief = build_brief(
        median_score,
        min_score,
        max_score,
        score_range,
        routing_decision,
        confirmed_gaps.len(),
        prioritized_risks.len(),
    );
    SynthesisOutcome::Routed(
        SynthesisResult {
            routing_decision,
            consensus: score_range <= CONSENSUS_THRESHOLD,
            divergence_detected: score_range > DIVERGENCE_THRESHOLD,
            confirmed_gaps,
            prioritized_risks,
            implementation_brief,
            median_complexity_score: median_score,
            score_range,
        },
    )
}

} // verus!
