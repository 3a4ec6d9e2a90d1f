//! Interview phase: open questions found in a plan, and the answers collected for them.
use vstd::prelude::*;
use vstd::string::*;
use crate::text::{
    has_infix, has_prefix, has_suffix, byte_len, trim, lines_of, join_lines, lowercase_of, to_chars,
    to_lowercase, line_ranges, trim_bounds, slice_eq, push_chars, push_char, contains, starts_with,
    ends_with, string_from_chars, range_texts, ranges_in,
};

verus! {

/// How urgently an open question needs an answer.
#[derive(Debug, Clone, Copy, PartialEq, Eq, Structural)]
pub enum InterviewPriority {
    Critical,
    High,
    Medium,
    Low,
}

/// Where an interview stands.
#[derive(Debug, Clone, Copy, PartialEq, Eq, Structural)]
pub enum InterviewStatus {
    Pending,
    AwaitingAnswers,
    Completed,
    Skipped,
}

/// An open question extracted from a plan, with a few lines of context.
#[derive(Debug, Clone)]
pub struct InterviewQuestion {
    pub question: String,
    pub context: String,
    pub priority: InterviewPriority,
}

impl View for InterviewQuestion {
    type V = (Seq<char>, Seq<char>, InterviewPriority);

    open spec fn view(&self) -> Self::V {
        (self.question@, self.context@, self.priority)
    }
}

/// An answered question.
#[derive(Debug, Clone)]
pub struct InterviewAnswer {
    pub question: String,
    pub answer: String,
}

impl View for InterviewAnswer {
    type V = (Seq<char>, Seq<char>);

    open spec fn view(&self) -> Self::V {
        (self.question@, self.answer@)
    }
}

/// The interview state of a task.
#[derive(Debug, Clone)]
pub struct InterviewPhase {
    pub open_questions: Vec<InterviewQuestion>,
    pub answers: Vec<InterviewAnswer>,
    pub status: InterviewStatus,
}

/// Whether some answer is recorded for the question text `q`.
pub open spec fn is_answered(answers: Seq<InterviewAnswer>, q: Seq<char>) -> bool {
    exists|j: int| 0 <= j < answers.len() && (#[trigger] answers[j]).question@ == q
}

/// The status an interview has after its questions are set.
pub open spec fn status_for_questions(n: nat) -> InterviewStatus {
    if n == 0 {
        InterviewStatus::Skipped
    } else {
        InterviewStatus::AwaitingAnswers
    }
}

impl InterviewPhase {
    /// A pending interview with no questions or answers.
    pub fn new() -> (r: Self)
        ensures
            r.open_questions@.len() == 0,
            r.answers@.len() == 0,
            r.status == InterviewStatus::Pending,
    {
        InterviewPhase { open_questions: Vec::new(), answers: Vec::new(), status: InterviewStatus::Pending }
    }

    /// An interview over `questions`; skipped when there are none.
    pub fn with_questions(questions: Vec<InterviewQuestion>) -> (r: Self)
        ensures
            r.open_questions@ == questions@,
            r.answers@.len() == 0,
            r.status == status_for_questions(questions@.len()),
    {
        let status = if questions.len() == 0 {
            InterviewStatus::Skipped
        } else {
            InterviewStatus::AwaitingAnswers
        };
        InterviewPhase { open_questions: questions, answers: Vec::new(), status }
    }

    /// Records an answer; the interview completes once there are at least as
    /// many answers as questions.
    pub fn add_answer(&mut self, question: String, answer: String)
        ensures
            final(self).open_questions@ == old(self).open_questions@,
            final(self).answers@.len() == old(self).answers@.len() + 1,
            final(self).answers@.take(old(self).answers@.len() as int) == old(self).answers@,
            final(self).answers@.last().question@ == question@,
            final(self).answers@.last().answer@ == answer@,
            final(self).status == (if final(self).answers@.len() >= old(self).open_questions@.len() {
                InterviewStatus::Completed
            } else {
                old(self).status
            }),
    {
        self.answers.push(InterviewAnswer { question, answer });
        if self.answers.len() >= self.open_questions.len() {
            self.status = InterviewStatus::Completed;
        }
        assert(self.answers@.take(old(self).answers@.len() as int) == old(self).answers@);
    }

    /// Completed or skipped.
    pub fn is_complete(&self) -> (r: bool)
        ensures
            r == (self.status == InterviewStatus::Completed || self.status == InterviewStatus::Skipped),
    {
        self.status == InterviewStatus::Completed || self.status == InterviewStatus::Skipped
    }

    /// The open questions, in order, whose text no answer repeats.
    pub fn unanswered_questions(&self) -> (r: Vec<&InterviewQuestion>)
        ensures
            r@.map_values(|q: &InterviewQuestion| *q) == self.open_questions@.filter(
                |q: InterviewQuestion| !is_answered(self.answers@, q.question@),
            ),
    {
        let ghost pred = |q: InterviewQuestion| !is_answered(self.answers@, q.question@);
        let mut r: Vec<&InterviewQuestion> = Vec::new();
        let mut i: usize = 0;
        while i < self.open_questions.len()
            invariant
                i <= self.open_questions@.len(),
                pred == (|q: InterviewQuestion| !is_answered(self.answers@, q.question@)),
                r@.map_values(|q: &InterviewQuestion| *q) == self.open_questions@.take(i as int).filter(pred),
            decreases self.open_questions@.len() - i,
        {
            let q = &self.open_questions[i];
            let mut found = false;
            let mut j: usize = 0;
            while j < self.answers.len()
                invariant
                    j <= self.answers@.len(),
                    found == exists|k: int| 0 <= k < j && (#[trigger] self.answers@[k]).question@ == q.question@,
                decreases self.answers@.len() - j,
            {
                if self.answers[j].question == q.question {
                    found = true;
                }
                j = j + 1;
            }
            let ghost old_r = r@;
            if !found {
                r.push(q);
            }
            proof {
                reveal(Seq::filter);
                assert(self.open_questions@.take(i + 1).drop_last() == self.open_questions@.take(i as int));
                assert(found == is_answered(self.answers@, q.question@));
                if !found {
                    assert(r@.map_values(|q: &InterviewQuestion| *q) == old_r.map_values(|q: &InterviewQuestion| *q).push(*q));
                } else {
                    assert(r@ == old_r);
                }
            }
            i = i + 1;
        }
        assert(self.open_questions@.take(self.open_questions@.len() as int) == self.open_questions@);
        r
    }
}


/// A marker line: starts with `todo:`, `tbd:` or `clarify:` (case-insensitively)
/// and is longer than five bytes.
pub open spec fn is_marker_line(t: Seq<char>, lower: Seq<char>) -> bool {
    (has_prefix(lower, "todo:"@) || has_prefix(lower, "tbd:"@) || has_prefix(lower, "clarify:"@))
        && byte_len(t) > 5
}

/// The priority of a trimmed plan line `t` (with lower-cased form `lower`) if it
/// is an open question: markers are high; a line ending in `?`, not a comment or
/// heading and longer than ten bytes, is critical, high or medium by its words.
pub open spec fn question_line_priority(t: Seq<char>, lower: Seq<char>) -> Option<InterviewPriority> {
    if is_marker_line(t, lower) {
        Some(InterviewPriority::High)
    } else if has_suffix(t, "?"@) && !has_prefix(t, "//"@) && !has_prefix(t, "#"@) && byte_len(t)
        > 10 {
        if has_infix(lower, "critical"@) || has_infix(lower, "must"@) || has_infix(lower, "block"@) {
            Some(InterviewPriority::Critical)
        } else if has_infix(lower, "important"@) || has_infix(lower, "should"@) {
            Some(InterviewPriority::High)
        } else {
            Some(InterviewPriority::Medium)
        }
    } else {
        None
    }
}

/// How a plan line is classified, by its words: a line whose lower-cased text
/// starts with `todo:`, `tbd:` or `clarify:` (and is longer than five bytes) is
/// a high-priority marker. Any other line ending in `?` that is not a comment
/// (`//`) or heading (`#`) and is longer than ten bytes is a question: critical
/// exactly when it mentions "critical", "must" or "block"; else high exactly
/// when it mentions "important" or "should"; else medium. No other line is an
/// open question.
pub proof fn lemma_question_priority_words(t: Seq<char>, lower: Seq<char>)
    ensures
        ({
            let marker = (has_prefix(lower, "todo:"@) || has_prefix(lower, "tbd:"@) || has_prefix(
                lower,
                "clarify:"@,
            )) && byte_len(t) > 5;
            let question = has_suffix(t, "?"@) && !has_prefix(t, "//"@) && !has_prefix(t, "#"@) && byte_len(t)
                > 10;
            let critical = has_infix(lower, "critical"@) || has_infix(lower, "must"@) || has_infix(
                lower,
                "block"@,
            );
            let high = has_infix(lower, "important"@) || has_infix(lower, "should"@);
            &&& marker ==> question_line_priority(t, lower) == Some(InterviewPriority::High)
            &&& !marker && question ==> (question_line_priority(t, lower) == Some(InterviewPriority::Critical)
                <==> critical)
            &&& !marker && question && !critical ==> (question_line_priority(t, lower) == Some(
                InterviewPriority::High,
            ) <==> high)
            &&& !marker && question && !critical && !high ==> question_line_priority(t, lower) == Some(
                InterviewPriority::Medium,
            )
            &&& question_line_priority(t, lower) is None <==> !marker && !question
        }),
{
}

fn has_word(v: &[char], w: &str) -> (r: bool)
    ensures
        r == has_infix(v@, w@),
{
    let wv = to_chars(w);
    assert(v@.subrange(0, v@.len() as int) == v@);
    contains(v, 0, v.len(), &wv)
}

/// Classifies one trimmed plan line given its lower-cased form.
pub fn classify_question_line(trimmed: &str, lower: &str) -> (r: Option<InterviewPriority>)
    requires
        trimmed.spec_bytes().len() <= usize::MAX,
    ensures
        r == question_line_priority(trimmed@, lower@),
{
    let tv = to_chars(trimmed);
    let lv = to_chars(lower);
    let n = tv.len();
    let ln = lv.len();
    let blen = trimmed.len();
    assert(tv@.subrange(0, n as int) == tv@);
    assert(lv@.subrange(0, ln as int) == lv@);
    let todo = to_chars("todo:");
    let tbd = to_chars("tbd:");
    let clarify = to_chars("clarify:");
    let is_marker = (starts_with(&lv, 0, ln, &todo) || starts_with(&lv, 0, ln, &tbd)
        || starts_with(&lv, 0, ln, &clarify)) && blen > 5;
    if is_marker {
        return Some(InterviewPriority::High);
    }
    let q = to_chars("?");
    let slashes = to_chars("//");
    let hash = to_chars("#");
    if ends_with(&tv, 0, n, &q) && !starts_with(&tv, 0, n, &slashes) && !starts_with(&tv, 0, n, &hash)
        && blen > 10 {
        if has_word(&lv, "critical") || has_word(&lv, "must") || has_word(&lv, "block") {
            Some(InterviewPriority::Critical)
        } else if has_word(&lv, "important") || has_word(&lv, "should") {
            Some(InterviewPriority::High)
        } else {
            Some(InterviewPriority::Medium)
        }
    } else {
        None
    }
}

/// Index of the first line whose trimmed text is `target`.
pub open spec fn is_first_line_match(ls: Seq<Seq<char>>, target: Seq<char>, i: int) -> bool {
    0 <= i < ls.len() && trim(ls[i]) == target && forall|j: int|
        0 <= j < i ==> trim(#[trigger] ls[j]) != target
}

/// Up to two lines before and after the first line that trims to `target`,
/// joined by newlines; empty when no line matches.
pub open spec fn surrounding_context(text: Seq<char>, target: Seq<char>) -> Seq<char> {
    let ls = lines_of(text);
    if exists|i: int| is_first_line_match(ls, target, i) {
        let i = choose|i: int| is_first_line_match(ls, target, i);
        let start = if i >= 2 { i - 2 } else { 0 };
        let end = if i + 3 <= ls.len() { i + 3 } else { ls.len() as int };
        join_lines(ls.subrange(start, end))
    } else {
        seq![]
    }
}

proof fn lemma_first_match_unique(ls: Seq<Seq<char>>, target: Seq<char>, i: int, k: int)
    requires
        is_first_line_match(ls, target, i),
        is_first_line_match(ls, target, k),
    ensures
        i == k,
{
    if i < k {
        assert(trim(ls[i]) != target);
    } else if k < i {
        assert(trim(ls[k]) != target);
    }
}

fn join_ranges(v: &[char], ranges: &Vec<(usize, usize)>, from: usize, to: usize) -> (s: String)
    requires
        from <= to <= ranges@.len(),
        ranges_in(v@, ranges@),
    ensures
        s@ == join_lines(range_texts(v@, ranges@).subrange(from as int, to as int)),
{
    let mut s = String::new();
    let mut j = from;
    while j < to
        invariant
            from <= j <= to <= ranges@.len(),
            ranges_in(v@, ranges@),
            s@ == join_lines(range_texts(v@, ranges@).subrange(from as int, j as int)),
        decreases to - j,
    {
        let ghost texts = range_texts(v@, ranges@);
        let ghost before = s@;
        if j > from {
            push_char(&mut s, '\n');
        }
        let (a, b) = ranges[j];
        assert(ranges@[j as int].0 <= ranges@[j as int].1 <= v@.len());
        push_chars(&mut s, v, a, b);
        proof {
            let next = texts.subrange(from as int, j + 1);
            assert(next.drop_last() == texts.subrange(from as int, j as int));
            assert(next.last() == v@.subrange(a as int, b as int));
            if j == from {
                assert(next.len() == 1);
                assert(before == Seq::<char>::empty());
                assert(s@ == next[0]);
            }
        }
        j = j + 1;
    }
    s
}

/// A few lines of `text` around the first line that trims to `target`.
pub fn extract_surrounding_context(text: &str, target: &str) -> (r: String)
    ensures
        r@ == surrounding_context(text@, target@),
{
    let v = to_chars(text);
    let tv = to_chars(target);
    let ranges = line_ranges(&v);
    let ghost ls = lines_of(text@);
    let mut i: usize = 0;
    while i < ranges.len()
        invariant
            v@ == text@,
            tv@ == target@,
            i <= ranges@.len(),
            ranges_in(v@, ranges@),
            range_texts(v@, ranges@) == ls,
            ls == lines_of(text@),
            forall|j: int| 0 <= j < i ==> trim(#[trigger] ls[j]) != target@,
        decreases ranges@.len() - i,
    {
        let (a, b) = ranges[i];
        assert(ranges@[i as int].0 <= ranges@[i as int].1 <= v@.len());
        let (ta, tb) = trim_bounds(&v, a, b);
        assert(ls.len() == ranges@.len());
        assert(ls[i as int] == v@.subrange(a as int, b as int));
        let eq = slice_eq(&v, ta, tb, &tv);
        assert(eq == (trim(ls[i as int]) == target@));
        if eq {
            let start = if i >= 2 {
                i - 2
            } else {
                0
            };
            let end = if ranges.len() - i >= 3 {
                i + 3
            } else {
                ranges.len()
            };
            proof {
                assert(is_first_line_match(ls, target@, i as int));
                let c = choose|c: int| is_first_line_match(ls, target@, c);
                lemma_first_match_unique(ls, target@, i as int, c);
            }
            return join_ranges(&v, &ranges, start, end);
        }
        i = i + 1;
    }
    proof {
        assert forall|c: int| !is_first_line_match(ls, target@, c) by {}
    }
    String::new()
}

/// The open questions of `text` given its lines `ls`, in line order.
pub open spec fn questions_in_lines(text: Seq<char>, ls: Seq<Seq<char>>) -> Seq<
    (Seq<char>, Seq<char>, InterviewPriority),
>
    decreases ls.len(),
{
    if ls.len() == 0 {
        seq![]
    } else {
        let prev = questions_in_lines(text, ls.drop_last());
        let t = trim(ls.last());
        match question_line_priority(t, lowercase_of(t)) {
            Some(p) => prev.push((t, surrounding_context(text, t), p)),
            None => prev,
        }
    }
}

/// Extracts the open questions of a plan: marker lines (TODO/TBD/CLARIFY) and
/// question lines, each with its surrounding context.
pub fn extract_open_questions(plan_text: &str) -> (r: Vec<InterviewQuestion>)
    requires
        plan_text.spec_bytes().len() <= usize::MAX,
    ensures
        r@.map_values(|q: InterviewQuestion| q@) == questions_in_lines(plan_text@, lines_of(plan_text@)),
{
    let v = to_chars(plan_text);
    let ranges = line_ranges(&v);
    let ghost ls = lines_of(plan_text@);
    let mut out: Vec<InterviewQuestion> = Vec::new();
    let mut i: usize = 0;
    while i < ranges.len()
        invariant
            v@ == plan_text@,
            plan_text.spec_bytes().len() <= usize::MAX,
            i <= ranges@.len(),
            ranges_in(v@, ranges@),
            range_texts(v@, ranges@) == ls,
            ls == lines_of(plan_text@),
            out@.map_values(|q: InterviewQuestion| q@) == questions_in_lines(plan_text@, ls.take(i as int)),
        decreases ranges@.len() - i,
    {
        let (a, b) = ranges[i];
        assert(ranges@[i as int].0 <= ranges@[i as int].1 <= v@.len());
        let (ta, tb) = trim_bounds(&v, a, b);
        assert(ls[i as int] == v@.subrange(a as int, b as int));
        let trimmed = plan_text.substring_char(ta, tb);
        proof {
            lemma_byte_len_sub(plan_text, trimmed, ta as int, tb as int);
        }
        let lower = to_lowercase(trimmed);
        let ghost prev = out@;
        match classify_question_line(trimmed, lower.as_str()) {
            Some(priority) => {
                let question = string_from_chars(&v, ta, tb);
                let context = extract_surrounding_context(plan_text, trimmed);
                out.push(InterviewQuestion { question, context, priority });
                proof {
                    assert(out@.map_values(|q: InterviewQuestion| q@) == prev.map_values(|q: InterviewQuestion| q@).push(out@.last()@));
                }
            },
            None => {},
        }
        proof {
            assert(ls.take(i + 1).drop_last() == ls.take(i as int));
            assert(ls.take(i + 1).last() == ls[i as int]);
        }
        i = i + 1;
    }
    assert(ls.take(ranges@.len() as int) == ls);
    out
}

proof fn lemma_byte_len_sub(whole: &str, part: &str, i: int, j: int)
    requires
        0 <= i <= j <= whole@.len(),
        part@ == whole@.subrange(i, j),
        whole.spec_bytes().len() <= usize::MAX,
    ensures
        part.spec_bytes().len() <= usize::MAX,
{
    crate::text::lemma_byte_len_subrange(whole@, i, j);
}

} // verus!
