//! Recovery after an agent hits its context limit, and summaries of agent errors.
use vstd::prelude::*;
use vstd::string::*;
use crate::status::RecoveryStrategy;
use crate::text::{has_infix, lowercase_of, to_lowercase, to_chars, contains, byte_len};

verus! {

broadcast use vstd::utf8::encode_utf8_valid_utf8, vstd::utf8::is_char_boundary_start_end_of_seq;

/// Where a verifier's confidence in a predecessor's progress falls: below 0.3,
/// from 0.3 to below 0.5, at least 0.5, or not a number.
#[derive(Debug, Clone, Copy, PartialEq, Eq, Structural)]
pub enum ConfidenceBand {
    Low,
    Moderate,
    High,
    Undefined,
}

/// Successions after which a struggling agent's task is decomposed again.
pub const REDECOMPOSITION_SUCCESSION_THRESHOLD: i64 = 2;

/// Phrases in a lower-cased issue that mark a blocker outside the agent's reach.
pub open spec fn names_external_blocker(lower: Seq<char>) -> bool {
    ||| has_infix(lower, "external blocker"@)
    ||| has_infix(lower, "blocked by"@)
    ||| has_infix(lower, "permission denied"@)
    ||| has_infix(lower, "access denied"@)
    ||| has_infix(lower, "authentication"@)
    ||| has_infix(lower, "rate limit"@)
}

fn has_phrase(v: &[char], phrase: &str) -> (r: bool)
    ensures
        r == has_infix(v@, phrase@),
{
    let pv = to_chars(phrase);
    assert(v@.subrange(0, v@.len() as int) == v@);
    contains(v, 0, v.len(), &pv)
}

/// Whether a lower-cased issue names a blocker outside the agent's reach.
pub fn is_external_blocker(lower: &str) -> (r: bool)
    ensures
        r == names_external_blocker(lower@),
{
    let v = to_chars(lower);
    has_phrase(&v, "external blocker") || has_phrase(&v, "blocked by") || has_phrase(&v, "permission denied")
        || has_phrase(&v, "access denied") || has_phrase(&v, "authentication") || has_phrase(&v, "rate limit")
}

/// The recovery strategy: escalate an external blocker; decompose again after
/// repeated successions with confidence below one half; otherwise correct course
/// from at least 0.3 confidence, else restart cleanly.
pub open spec fn recovery_for(blocked: bool, succession_count: i64, confidence: ConfidenceBand) -> RecoveryStrategy {
    if blocked {
        RecoveryStrategy::Escalation
    } else if succession_count >= REDECOMPOSITION_SUCCESSION_THRESHOLD && (confidence == ConfidenceBand::Low
        || confidence == ConfidenceBand::Moderate) {
        RecoveryStrategy::Redecomposition
    } else if confidence == ConfidenceBand::Moderate || confidence == ConfidenceBand::High {
        RecoveryStrategy::Corrective
    } else {
        RecoveryStrategy::CleanRestart
    }
}

/// The recovery table, case by case: an external blocker always escalates;
/// otherwise two or more successions with confidence below one half (low or
/// moderate) always decompose again; otherwise a confidence of at least 0.3
/// (moderate or high) corrects course, and a low or undefined one restarts
/// cleanly.
pub proof fn lemma_recovery_table(blocked: bool, succession_count: i64, confidence: ConfidenceBand)
    ensures
        blocked ==> recovery_for(blocked, succession_count, confidence) == RecoveryStrategy::Escalation,
        !blocked && succession_count >= 2 && (confidence == ConfidenceBand::Low || confidence
            == ConfidenceBand::Moderate) ==> recovery_for(blocked, succession_count, confidence)
            == RecoveryStrategy::Redecomposition,
        !blocked && succession_count < 2 && confidence == ConfidenceBand::Moderate ==> recovery_for(
            blocked,
            succession_count,
            confidence,
        ) == RecoveryStrategy::Corrective,
        !blocked && confidence == ConfidenceBand::High ==> recovery_for(blocked, succession_count, confidence)
            == RecoveryStrategy::Corrective,
        !blocked && succession_count < 2 && confidence == ConfidenceBand::Low ==> recovery_for(
            blocked,
            succession_count,
            confidence,
        ) == RecoveryStrategy::CleanRestart,
        !blocked && confidence == ConfidenceBand::Undefined ==> recovery_for(blocked, succession_count, confidence)
            == RecoveryStrategy::CleanRestart,
        recovery_for(blocked, succession_count, confidence) == RecoveryStrategy::Redecomposition ==> !blocked
            && succession_count >= 2,
{
}

/// Some issue, lower-cased, names an external blocker.
pub open spec fn any_external_blocker(issues: Seq<String>) -> bool {
    exists|i: int| 0 <= i < issues.len() && names_external_blocker(lowercase_of((#[trigger] issues[i])@))
}

/// Chooses how a successor recovers, from the agent's succession count and the
/// verifier's issues and confidence.
pub fn determine_recovery_strategy(succession_count: i64, issues: &Vec<String>, confidence: ConfidenceBand) -> (r:
    RecoveryStrategy)
    ensures
        r == recovery_for(any_external_blocker(issues@), succession_count, confidence),
{
    let mut blocked = false;
    let mut i: usize = 0;
    while i < issues.len() && !blocked
        invariant
            i <= issues@.len(),
            blocked ==> any_external_blocker(issues@),
            !blocked ==> forall|j: int| 0 <= j < i ==> !names_external_blocker(lowercase_of((#[trigger] issues@[j])@)),
        decreases issues@.len() - i,
    {
        let lower = to_lowercase(issues[i].as_str());
        if is_external_blocker(lower.as_str()) {
            blocked = true;
        }
        i = i + 1;
    }
    if blocked {
        return RecoveryStrategy::Escalation;
    }
    if succession_count >= REDECOMPOSITION_SUCCESSION_THRESHOLD && (confidence == ConfidenceBand::Low
        || confidence == ConfidenceBand::Moderate) {
        return RecoveryStrategy::Redecomposition;
    }
    if confidence == ConfidenceBand::Moderate || confidence == ConfidenceBand::High {
        RecoveryStrategy::Corrective
    } else {
        RecoveryStrategy::CleanRestart
    }
}

/// The messages joined with single spaces.
pub open spec fn join_spaces(ls: Seq<Seq<char>>) -> Seq<char>
    decreases ls.len(),
{
    if ls.len() == 0 {
        seq![]
    } else if ls.len() == 1 {
        ls[0]
    } else {
        join_spaces(ls.drop_last()) + seq![' '] + ls.last()
    }
}

/// The user-facing category of lower-cased error text, if one applies.
pub open spec fn error_category(lower: Seq<char>) -> Option<Seq<char>> {
    if has_infix(lower, "429"@) || has_infix(lower, "rate limit"@) {
        Some("API rate limit reached"@)
    } else if has_infix(lower, "401"@) || has_infix(lower, "403"@) || has_infix(lower, "unauthorized"@) {
        Some("API authentication failed"@)
    } else if has_infix(lower, "500"@) || has_infix(lower, "502"@) || has_infix(lower, "503"@) {
        Some("API server error"@)
    } else if has_infix(lower, "econnrefused"@) || has_infix(lower, "enotfound"@) {
        Some("Network connection error"@)
    } else if has_infix(lower, "aborted"@) || has_infix(lower, "timeout"@) || has_infix(lower, "timed out"@) {
        Some("Request timed out"@)
    } else {
        None
    }
}

/// The error categories by their markers, in priority order: a rate limit
/// (`429`, "rate limit"), then failed authentication (`401`, `403`,
/// "unauthorized"), then a server error (`500`, `502`, `503`), then a network
/// error ("econnrefused", "enotfound"), then a timeout ("aborted", "timeout",
/// "timed out"); text with none of the markers has no category.
pub proof fn lemma_error_category_markers(lower: Seq<char>)
    ensures
        ({
            let rate = has_infix(lower, "429"@) || has_infix(lower, "rate limit"@);
            let auth = has_infix(lower, "401"@) || has_infix(lower, "403"@) || has_infix(lower, "unauthorized"@);
            let server = has_infix(lower, "500"@) || has_infix(lower, "502"@) || has_infix(lower, "503"@);
            let network = has_infix(lower, "econnrefused"@) || has_infix(lower, "enotfound"@);
            let timeout = has_infix(lower, "aborted"@) || has_infix(lower, "timeout"@) || has_infix(
                lower,
                "timed out"@,
            );
            &&& rate ==> error_category(lower) == Some("API rate limit reached"@)
            &&& !rate && auth ==> error_category(lower) == Some("API authentication failed"@)
            &&& !rate && !auth && server ==> error_category(lower) == Some("API server error"@)
            &&& !rate && !auth && !server && network ==> error_category(lower) == Some("Network connection error"@)
            &&& !rate && !auth && !server && !network && timeout ==> error_category(lower) == Some(
                "Request timed out"@,
            )
            &&& error_category(lower) is None <==> !rate && !auth && !server && !network && !timeout
        }),
{
}

/// A summary of errors that fall in a category is that category's text, and
/// only errors in no category are quoted.
pub proof fn lemma_summary_of_categorized(errors: Seq<String>, r: Seq<char>)
    requires
        errors.len() > 0,
    ensures
        error_category(joined_lower(errors)) matches Some(c) ==> (is_error_summary(errors, r) <==> r == c),
        error_category(joined_lower(errors)) is None && byte_len(errors[0]@) <= ERROR_SUMMARY_CAP ==> (
        is_error_summary(errors, r) <==> r == errors[0]@),
{
}

/// Longest error text quoted when no category applies, in bytes.
pub const ERROR_SUMMARY_CAP: usize = 120;

/// Classifies lower-cased error text into a user-facing category.
pub fn categorize_lowercase_errors(lower: &str) -> (r: Option<&'static str>)
    ensures
        match r {
            Some(t) => error_category(lower@) == Some(t@),
            None => error_category(lower@) is None,
        },
{
    let v = to_chars(lower);
    if has_phrase(&v, "429") || has_phrase(&v, "rate limit") {
        Some("API rate limit reached")
    } else if has_phrase(&v, "401") || has_phrase(&v, "403") || has_phrase(&v, "unauthorized") {
        Some("API authentication failed")
    } else if has_phrase(&v, "500") || has_phrase(&v, "502") || has_phrase(&v, "503") {
        Some("API server error")
    } else if has_phrase(&v, "econnrefused") || has_phrase(&v, "enotfound") {
        Some("Network connection error")
    } else if has_phrase(&v, "aborted") || has_phrase(&v, "timeout") || has_phrase(&v, "timed out") {
        Some("Request timed out")
    } else {
        None
    }
}

/// The texts of strings.
pub open spec fn string_texts(v: Seq<String>) -> Seq<Seq<char>> {
    v.map_values(|x: String| x@)
}

/// The messages joined with single spaces and lower-cased.
pub open spec fn joined_lower(errors: Seq<String>) -> Seq<char> {
    lowercase_of(join_spaces(string_texts(errors)))
}

/// Where no category applies, the first error can be cut at the summary cap: the
/// cap falls on a character boundary. (The length bound is a machine limit.)
pub open spec fn summary_cut_ok(errors: Seq<String>) -> bool {
    &&& errors.len() > 0
    &&& byte_len(errors[0]@) <= usize::MAX
    &&& (error_category(joined_lower(errors)) is None && byte_len(errors[0]@) > ERROR_SUMMARY_CAP
        ==> vstd::utf8::is_char_boundary(vstd::utf8::encode_utf8(errors[0]@), ERROR_SUMMARY_CAP as int))
}

/// `r` summarizes `errors`: the category of all messages joined and lower-cased,
/// else the first message (cut to its first 120 bytes and `...`).
pub open spec fn is_error_summary(errors: Seq<String>, r: Seq<char>) -> bool {
    match error_category(joined_lower(errors)) {
        Some(c) => r == c,
        None => if byte_len(errors[0]@) > ERROR_SUMMARY_CAP {
            vstd::utf8::encode_utf8(r) == vstd::utf8::encode_utf8(errors[0]@).take(ERROR_SUMMARY_CAP as int)
                + vstd::utf8::encode_utf8("..."@)
        } else {
            r == errors[0]@
        },
    }
}

/// Joins the messages with single spaces and lower-cases them.
fn join_lowercase(errors: &Vec<String>) -> (r: String)
    ensures
        r@ == joined_lower(errors@),
{
    let mut joined = String::new();
    let mut i: usize = 0;
    while i < errors.len()
        invariant
            i <= errors@.len(),
            joined@ == join_spaces(string_texts(errors@).take(i as int)),
        decreases errors@.len() - i,
    {
        proof {
            reveal_strlit(" ");
        }
        if i > 0 {
            joined.append(" ");
        }
        joined.append(errors[i].as_str());
        assert(string_texts(errors@).take(i + 1).drop_last() == string_texts(errors@).take(i as int));
        assert(string_texts(errors@).take(1) =~= seq![errors@[0]@]);
        i = i + 1;
    }
    assert(string_texts(errors@).take(errors@.len() as int) == string_texts(errors@));
    to_lowercase(joined.as_str())
}

/// A user-facing summary of agent errors: the category of all messages joined
/// and lower-cased, else the first message (cut to its first 120 bytes and `...`).
pub fn categorize_error_messages(errors: &Vec<String>) -> (r: String)
    requires
        summary_cut_ok(errors@),
    ensures
        is_error_summary(errors@, r@),
{
    let lower = join_lowercase(errors);
    match categorize_lowercase_errors(lower.as_str()) {
        Some(c) => String::from_str(c),
        None => {
            let first = errors[0].as_str();
            if first.len() > ERROR_SUMMARY_CAP {
                let (head, _tail) = first.split_at(ERROR_SUMMARY_CAP);
                let mut out = String::from_str(head);
                out.append("...");
                proof {
                    crate::text::lemma_encode_concat(head@, "..."@);
                }
                out
            } else {
                String::from_str(first)
            }
        },
    }
}

/// The summary of the errors an agent reported: `None` when there are none, or
/// when no category applies and the first error cannot be cut at the cap (its
/// 120th byte falls inside a character).
pub fn error_summary(errors: &Vec<String>) -> (r: Option<String>)
    requires
        errors@.len() > 0 ==> byte_len(errors@[0]@) <= usize::MAX,
    ensures
        r matches Some(s) ==> is_error_summary(errors@, s@),
        r is None <==> !summary_cut_ok(errors@),
{
    if errors.len() == 0 {
        return None;
    }
    let first = errors[0].as_str();
    if first.len() > ERROR_SUMMARY_CAP && !first.is_char_boundary(ERROR_SUMMARY_CAP) {
        let lower = join_lowercase(errors);
        if categorize_lowercase_errors(lower.as_str()).is_none() {
            return None;
        }
    }
    Some(categorize_error_messages(errors))
}

} // verus!
