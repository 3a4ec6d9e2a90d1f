//! Prompts handed to coding agents: planning, specification, decomposition,
//! assessment, ranking and execution.
use vstd::prelude::*;
use vstd::string::*;
use crate::text::{trim, to_chars, trim_bounds, push_chars, byte_len, has_infix, occurs_at};

verus! {

broadcast use vstd::utf8::encode_utf8_valid_utf8, vstd::utf8::is_char_boundary_start_end_of_seq;

/// The text of an optional borrowed string.
pub open spec fn opt_str(o: Option<&str>) -> Option<Seq<char>> {
    match o {
        Some(s) => Some(s@),
        None => None,
    }
}

/// The text of an optional owned string.
pub open spec fn opt_string(o: Option<String>) -> Option<Seq<char>> {
    match o {
        Some(s) => Some(s@),
        None => None,
    }
}

/// `heading`, the text and a blank line, when the text is present and not blank.
pub open spec fn nonblank_section(heading: Seq<char>, o: Option<Seq<char>>) -> Seq<char> {
    match o {
        Some(d) => if trim(d).len() > 0 {
            heading + d + "\n\n"@
        } else {
            seq![]
        },
        None => seq![],
    }
}

/// `heading`, the text and a blank line, when the text is present.
pub open spec fn text_section(heading: Seq<char>, o: Option<Seq<char>>) -> Seq<char> {
    match o {
        Some(d) => heading + d + "\n\n"@,
        None => seq![],
    }
}

/// One `- item` line per item.
pub open spec fn bullet_lines(items: Seq<Seq<char>>) -> Seq<char>
    decreases items.len(),
{
    if items.len() == 0 {
        seq![]
    } else {
        bullet_lines(items.drop_last()) + "- "@ + items.last() + "\n"@
    }
}

/// The result of `serde_json::from_str::<Vec<String>>`: the strings of a JSON
/// array of strings, or `None` when the text is not one.
pub uninterp spec fn json_string_list(s: Seq<char>) -> Option<Seq<Seq<char>>>;

/// `heading` and a bullet list when the text is a non-empty JSON array of strings.
pub open spec fn list_section(heading: Seq<char>, o: Option<Seq<char>>) -> Seq<char> {
    match o {
        Some(raw) => match json_string_list(raw) {
            Some(items) => if items.len() > 0 {
                heading + bullet_lines(items) + "\n"@
            } else {
                seq![]
            },
            None => seq![],
        },
        None => seq![],
    }
}

/// Parses a JSON array of strings with `serde_json`.
#[verifier::external_body]
pub(crate) fn parse_string_list(s: &str) -> (r: Option<Vec<String>>)
    ensures
        r matches Some(v) ==> json_string_list(s@) == Some(v@.map_values(|x: String| x@)),
        r is None ==> json_string_list(s@) is None,
{
    serde_json::from_str::<Vec<String>>(s).ok()
}

/// A task's specification sheet, as the prompts read it. The list fields hold
/// JSON arrays of strings.
pub struct SpecSheet {
    pub id: uuid::Uuid,
    pub task_id: uuid::Uuid,
    pub overview: Option<String>,
    pub requirements: Option<String>,
    pub acceptance_criteria: Option<String>,
    pub constraints: Option<String>,
    pub tech_notes: Option<String>,
}

/// The specification sections under headings that start with `h` (`##` or `###`).
pub open spec fn spec_sections(spec: SpecSheet, h: Seq<char>) -> Seq<char> {
    text_section(h + " Overview\n"@, opt_string(spec.overview))
        + list_section(h + " Requirements\n"@, opt_string(spec.requirements))
        + list_section(h + " Acceptance Criteria\n"@, opt_string(spec.acceptance_criteria))
        + list_section(h + " Constraints\n"@, opt_string(spec.constraints))
        + text_section(h + " Technical Notes\n"@, opt_string(spec.tech_notes))
}

fn push_text_section(p: &mut String, heading: &str, o: &Option<String>)
    ensures
        final(p)@ == old(p)@ + text_section(heading@, opt_string(*o)),
{
    match o {
        Some(d) => {
            p.append(heading);
            p.append(d.as_str());
            p.append("\n\n");
        },
        None => {},
    }
}

fn push_nonblank_section(p: &mut String, heading: &str, o: Option<&str>)
    ensures
        final(p)@ == old(p)@ + nonblank_section(heading@, opt_str(o)),
{
    match o {
        Some(d) => {
            let v = to_chars(d);
            let (a, b) = trim_bounds(&v, 0, v.len());
            assert(v@.subrange(0, v@.len() as int) == v@);
            if a < b {
                p.append(heading);
                p.append(d);
                p.append("\n\n");
            }
        },
        None => {},
    }
}

fn push_list_section(p: &mut String, heading: &str, o: &Option<String>)
    ensures
        final(p)@ == old(p)@ + list_section(heading@, opt_string(*o)),
{
    match o {
        Some(raw) => {
            match parse_string_list(raw.as_str()) {
                Some(items) => {
                    if items.len() > 0 {
                        p.append(heading);
                        let ghost texts = items@.map_values(|x: String| x@);
                        let ghost start = p@;
                        let mut i: usize = 0;
                        while i < items.len()
                            invariant
                                i <= items@.len(),
                                texts == items@.map_values(|x: String| x@),
                                p@ == start + bullet_lines(texts.take(i as int)),
                            decreases items@.len() - i,
                        {
                            p.append("- ");
                            p.append(items[i].as_str());
                            p.append("\n");
                            assert(texts.take(i + 1).drop_last() == texts.take(i as int));
                            i = i + 1;
                        }
                        assert(texts.take(items@.len() as int) == texts);
                        p.append("\n");
                    }
                },
                None => {},
            }
        },
        None => {},
    }
}

fn push_spec_sections(
    p: &mut String,
    spec: &SpecSheet,
    overview: &str,
    requirements: &str,
    acceptance: &str,
    constraints: &str,
    tech: &str,
)
    ensures
        final(p)@ == old(p)@ + text_section(overview@, opt_string(spec.overview)) + list_section(
            requirements@,
            opt_string(spec.requirements),
        ) + list_section(acceptance@, opt_string(spec.acceptance_criteria)) + list_section(
            constraints@,
            opt_string(spec.constraints),
        ) + text_section(tech@, opt_string(spec.tech_notes)),
{
    push_text_section(p, overview, &spec.overview);
    push_list_section(p, requirements, &spec.requirements);
    push_list_section(p, acceptance, &spec.acceptance_criteria);
    push_list_section(p, constraints, &spec.constraints);
    push_text_section(p, tech, &spec.tech_notes);
}


/// The planning prompt for a task's title and description.
pub open spec fn auto_plan_prompt(title: Seq<char>, description: Option<Seq<char>>) -> Seq<char> {
    "# Implementation Plan: "@ + title + "\n\n"@ + nonblank_section("## Task Description\n"@, description)
        + "## Instructions\n\n"@ + "Analyze the codebase and produce a detailed, step-by-step implementation plan for this "@ + "task.\n\n"@ + "Your plan should:\n"@ + "1. Identify all files that need to be created or modified\n"@ + "2. Outline the order of operations (what to do first, second, etc.)\n"@ + "3. Include specific code changes or patterns to follow\n"@ + "4. Note any potential risks, edge cases, or dependencies\n"@ + "5. Reference existing code patterns in the codebase where applicable\n\n"@ + "Format the plan in clear markdown with numbered steps and sub-steps.\n"@
}

/// Builds the prompt that asks an agent for a step-by-step implementation plan;
/// a blank description is left out.
pub fn build_auto_plan_prompt(title: &str, description: Option<&str>) -> (r: String)
    ensures
        r@ == auto_plan_prompt(title@, opt_str(description)),
{
    let mut p = String::new();
    p.append("# Implementation Plan: ");
    p.append(title);
    p.append("\n\n");
    push_nonblank_section(&mut p, "## Task Description\n", description);
    p.append("## Instructions\n\n");
    p.append("Analyze the codebase and produce a detailed, step-by-step implementation plan for this ");
    p.append("task.\n\n");
    p.append("Your plan should:\n");
    p.append("1. Identify all files that need to be created or modified\n");
    p.append("2. Outline the order of operations (what to do first, second, etc.)\n");
    p.append("3. Include specific code changes or patterns to follow\n");
    p.append("4. Note any potential risks, edge cases, or dependencies\n");
    p.append("5. Reference existing code patterns in the codebase where applicable\n\n");
    p.append("Format the plan in clear markdown with numbered steps and sub-steps.\n");
    p
}

/// One question and its answer, as the prompt quotes them.
pub open spec fn answer_block(qa: (Seq<char>, Seq<char>)) -> Seq<char> {
    "**Q:** "@ + qa.0 + "\n**A:** "@ + qa.1 + "\n\n"@
}

/// The answers block: each question and answer in the given order.
pub open spec fn answer_lines(answers: Seq<(Seq<char>, Seq<char>)>) -> Seq<char>
    decreases answers.len(),
{
    if answers.len() == 0 {
        seq![]
    } else {
        answer_lines(answers.drop_last()) + answer_block(answers.last())
    }
}

/// The answers block of the first `m` answers is a prefix of the whole block.
proof fn lemma_answer_lines_prefix(answers: Seq<(Seq<char>, Seq<char>)>, m: int)
    requires
        0 <= m <= answers.len(),
    ensures
        answer_lines(answers.take(m)).len() <= answer_lines(answers).len(),
        answer_lines(answers).subrange(0, answer_lines(answers.take(m)).len() as int) == answer_lines(
            answers.take(m),
        ),
    decreases answers.len(),
{
    if m == answers.len() {
        assert(answers.take(m) == answers);
    } else {
        let d = answers.drop_last();
        assert(d.take(m) == answers.take(m));
        lemma_answer_lines_prefix(d, m);
        assert(answer_lines(answers) == answer_lines(d) + answer_block(answers.last()));
        assert(answer_lines(answers).subrange(0, answer_lines(d).len() as int) == answer_lines(d));
    }
}

/// The text of the answers block quoting answer `k` starts after the blocks of
/// the answers before it.
proof fn lemma_answer_block_at(answers: Seq<(Seq<char>, Seq<char>)>, k: int)
    requires
        0 <= k < answers.len(),
    ensures
        ({
            let at = answer_lines(answers.take(k)).len() as int;
            let b = answer_block(answers[k]);
            at + b.len() <= answer_lines(answers).len() && answer_lines(answers).subrange(at, at + b.len()) == b
        }),
{
    lemma_answer_lines_prefix(answers, k + 1);
    let t = answers.take(k + 1);
    assert(t.drop_last() == answers.take(k));
    assert(t.last() == answers[k]);
    assert(answer_lines(t) == answer_lines(answers.take(k)) + answer_block(answers[k]));
    let at = answer_lines(answers.take(k)).len() as int;
    let b = answer_block(answers[k]);
    assert(answer_lines(answers).subrange(at, at + b.len()) == answer_lines(answers).subrange(
        0,
        answer_lines(t).len() as int,
    ).subrange(at, at + b.len()));
}

/// The planning prompt followed, when there are answers, by the user's earlier answers.
pub open spec fn auto_plan_prompt_with_answers(
    title: Seq<char>,
    description: Option<Seq<char>>,
    answers: Seq<(Seq<char>, Seq<char>)>,
) -> Seq<char> {
    auto_plan_prompt(title, description) + if answers.len() == 0 {
        seq![]
    } else {
        "\n## Previous User Input\n\n"@ + "You previously asked the user questions. Here are their answers — incorporate them directly:\n\n"@ + answer_lines(answers) + "Do NOT re-ask any of the above questions. Use the answers as given.\n"@
    }
}

/// The text of question/answer pairs.
pub open spec fn pair_texts(answers: Seq<(String, String)>) -> Seq<(Seq<char>, Seq<char>)> {
    answers.map_values(|qa: (String, String)| (qa.0@, qa.1@))
}

/// Each question is asked once: no two answers are to the same question.
pub open spec fn distinct_questions(answers: Seq<(Seq<char>, Seq<char>)>) -> bool {
    forall|i: int, j: int| 0 <= i < j < answers.len() ==> #[trigger] answers[i].0 != #[trigger] answers[j].0
}

/// Builds the planning prompt including the user's earlier answers (one per
/// question), in the order given.
pub fn build_auto_plan_prompt_with_answers(
    title: &str,
    description: Option<&str>,
    answers: &Vec<(String, String)>,
) -> (r: String)
    requires
        distinct_questions(pair_texts(answers@)),
    ensures
        r@ == auto_plan_prompt_with_answers(title@, opt_str(description), pair_texts(answers@)),
{
    let mut p = build_auto_plan_prompt(title, description);
    if answers.len() > 0 {
        p.append("\n## Previous User Input\n\n");
        p.append("You previously asked the user questions. Here are their answers — incorporate them directly:\n\n");
        let ghost texts = pair_texts(answers@);
        let ghost start = p@;
        let mut i: usize = 0;
        while i < answers.len()
            invariant
                i <= answers@.len(),
                texts == pair_texts(answers@),
                p@ == start + answer_lines(texts.take(i as int)),
            decreases answers@.len() - i,
        {
            p.append("**Q:** ");
            p.append(answers[i].0.as_str());
            p.append("\n**A:** ");
            p.append(answers[i].1.as_str());
            p.append("\n\n");
            assert(texts.take(i + 1).drop_last() == texts.take(i as int));
            i = i + 1;
        }
        assert(texts.take(answers@.len() as int) == texts);
        p.append("Do NOT re-ask any of the above questions. Use the answers as given.\n");
    }
    p
}

/// With answers, the planning prompt is the plain prompt followed by the
/// `Previous User Input` heading, quotes every question with its answer, and
/// ends with the instruction not to ask them again.
pub proof fn lemma_answers_prompt_shape(
    title: Seq<char>,
    description: Option<Seq<char>>,
    answers: Seq<(Seq<char>, Seq<char>)>,
)
    requires
        answers.len() > 0,
    ensures
        ({
            let r = auto_plan_prompt_with_answers(title, description, answers);
            let head = auto_plan_prompt(title, description) + "\n## Previous User Input\n\n"@;
            let tail = "Do NOT re-ask any of the above questions. Use the answers as given.\n"@;
            &&& head.len() <= r.len() && r.subrange(0, head.len() as int) == head
            &&& forall|k: int| 0 <= k < answers.len() ==> has_infix(r, #[trigger] answer_block(answers[k]))
            &&& tail.len() <= r.len() && r.subrange(r.len() - tail.len(), r.len() as int) == tail
        }),
{
    let r = auto_plan_prompt_with_answers(title, description, answers);
    let plain = auto_plan_prompt(title, description);
    let h = "\n## Previous User Input\n\n"@;
    let intro = "You previously asked the user questions. Here are their answers — incorporate them directly:\n\n"@;
    let tail = "Do NOT re-ask any of the above questions. Use the answers as given.\n"@;
    let lines = answer_lines(answers);
    assert(r == plain + h + intro + lines + tail);
    assert(r.subrange(0, (plain + h).len() as int) == plain + h);
    assert(r.subrange(r.len() - tail.len(), r.len() as int) == tail);
    assert forall|k: int| 0 <= k < answers.len() implies has_infix(r, #[trigger] answer_block(answers[k])) by {
        lemma_answer_block_at(answers, k);
        let at = answer_lines(answers.take(k)).len() as int;
        let b = answer_block(answers[k]);
        let base = (plain + h + intro).len() as int;
        assert(r.subrange(base + at, base + at + b.len()) == lines.subrange(at, at + b.len()));
        assert(occurs_at(r, b, base + at));
    }
}

/// The execution prompt for a plan.
pub open spec fn ralph_prompt(plan: Seq<char>, task_title: Seq<char>) -> Seq<char> {
    "# Execute Plan: "@ + task_title + "\n\n"@ + "Implement the following plan. Work through each step carefully.\n\n"@ + plan + "\n\n## Execution Guidelines\n"@ + "- Complete each step in order\n"@ + "- Verify each change compiles/works before moving to the next\n"@ + "- Report any blockers or issues encountered\n"@ + "- When done, summarize all changes made\n"@
}

/// Builds the prompt that has an agent carry out a plan.
pub fn build_ralph_prompt(plan: &str, task_title: &str) -> (r: String)
    ensures
        r@ == ralph_prompt(plan@, task_title@),
{
    let mut p = String::new();
    p.append("# Execute Plan: ");
    p.append(task_title);
    p.append("\n\n");
    p.append("Implement the following plan. Work through each step carefully.\n\n");
    p.append(plan);
    p.append("\n\n## Execution Guidelines\n");
    p.append("- Complete each step in order\n");
    p.append("- Verify each change compiles/works before moving to the next\n");
    p.append("- Report any blockers or issues encountered\n");
    p.append("- When done, summarize all changes made\n");
    p
}

/// The specification-generation prompt.
pub open spec fn spec_generation_prompt(
    title: Seq<char>,
    description: Option<Seq<char>>,
    plan: Option<Seq<char>>,
) -> Seq<char> {
    "# Spec Sheet Generation: "@ + title + "\n\n"@ + nonblank_section("## Task Description\n"@, description)
        + nonblank_section("## Implementation Plan\n"@, plan) + "## Instructions\n\n"@ + "Analyze the codebase and the task context above to produce a detailed spec sheet for this "@ + "task.\n\n"@ + "The spec sheet should contain:\n"@ + "1. **overview**: A concise summary of what this "@ + "task accomplishes and why.\n"@ + "2. **requirements**: A list of specific functional requirements.\n"@ + "3. **acceptance_criteria**: A list of verifiable acceptance criteria.\n"@ + "4. **constraints**: A list of technical or business constraints.\n"@ + "5. **tech_notes**: Any technical implementation notes, patterns to follow, or important details.\n\n"@ + "## Output Format\n\n"@ + "Respond with ONLY a JSON object in this exact format. No markdown fences, no explanatory text.\n\n"@ + "{ \"overview\": \"...\", \"requirements\": [\"...\"], \"acceptance_criteria\": [\"...\"], \"constraints\": [\"...\"], \"tech_notes\": \"...\" }"@ + "\n"@
}

/// Builds the prompt that asks an agent for a JSON specification sheet; blank
/// description and plan are left out.
pub fn build_spec_generation_prompt(title: &str, description: Option<&str>, plan: Option<&str>) -> (r: String)
    ensures
        r@ == spec_generation_prompt(title@, opt_str(description), opt_str(plan)),
{
    let mut p = String::new();
    p.append("# Spec Sheet Generation: ");
    p.append(title);
    p.append("\n\n");
    push_nonblank_section(&mut p, "## Task Description\n", description);
    push_nonblank_section(&mut p, "## Implementation Plan\n", plan);
    p.append("## Instructions\n\n");
    p.append("Analyze the codebase and the task context above to produce a detailed spec sheet for this ");
    p.append("task.\n\n");
    p.append("The spec sheet should contain:\n");
    p.append("1. **overview**: A concise summary of what this ");
    p.append("task accomplishes and why.\n");
    p.append("2. **requirements**: A list of specific functional requirements.\n");
    p.append("3. **acceptance_criteria**: A list of verifiable acceptance criteria.\n");
    p.append("4. **constraints**: A list of technical or business constraints.\n");
    p.append("5. **tech_notes**: Any technical implementation notes, patterns to follow, or important details.\n\n");
    p.append("## Output Format\n\n");
    p.append("Respond with ONLY a JSON object in this exact format. No markdown fences, no explanatory text.\n\n");
    p.append("{ \"overview\": \"...\", \"requirements\": [\"...\"], \"acceptance_criteria\": [\"...\"], \"constraints\": [\"...\"], \"tech_notes\": \"...\" }");
    p.append("\n");
    p
}

/// Largest number of bytes of a predecessor's report quoted to a successor.
pub const VERIFICATION_REPORT_CAP: usize = 10000;

/// `capped` is the report as quoted: whole when at most the cap, else its first
/// `VERIFICATION_REPORT_CAP` bytes.
pub open spec fn capped_report(report: Seq<char>, capped: Seq<char>) -> bool {
    if byte_len(report) > VERIFICATION_REPORT_CAP {
        vstd::utf8::encode_utf8(capped) == vstd::utf8::encode_utf8(report).take(VERIFICATION_REPORT_CAP as int)
    } else {
        capped == report
    }
}

/// The swarm agent prompt, quoting `capped` as the predecessor's report.
pub open spec fn agent_prompt(
    subtask: Seq<char>,
    capped: Option<Seq<char>>,
    git_branch: Option<Seq<char>>,
) -> Seq<char> {
    "# Swarm Agent Task\n\n"@ + "Implement the following task. Work through each step carefully.\n\n"@ + subtask + match capped {
        Some(c) => "\n\n## Predecessor Verification Report\n\n"@ + "A previous agent worked on this "@ + "task but hit its context limit. The verifier found the following:\n\n"@ + c,
        None => seq![],
    } + "\n\n## Execution Guidelines\n"@ + match git_branch {
        Some(b) => "- FIRST: Run `git checkout "@ + b + "` to switch to your isolated branch\n"@,
        None => seq![],
    } + "- Complete each step in order\n"@ + "- Verify each change compiles/works before moving to the next\n"@ + "- Commit your changes frequently with descriptive messages\n"@ + "- If you encounter blockers, document them clearly\n"@ + "- When done, summarize all changes made\n"@
}

/// A report longer than the cap can be cut at the cap: the cap falls on a character boundary.
/// (The length bound is a machine limit.)
pub open spec fn report_cut_ok(report: Option<&str>) -> bool {
    match report {
        Some(r) => r.spec_bytes().len() <= usize::MAX && (r.spec_bytes().len() > VERIFICATION_REPORT_CAP
            ==> vstd::utf8::is_char_boundary(r.spec_bytes(), VERIFICATION_REPORT_CAP as int)),
        None => true,
    }
}

/// Builds the prompt for a swarm agent, quoting at most the first ten thousand
/// bytes of its predecessor's verification report and naming its git branch.
pub fn build_agent_prompt(
    subtask_description: &str,
    verification_report: Option<&str>,
    git_branch: Option<&str>,
) -> (r: String)
    requires
        report_cut_ok(verification_report),
    ensures
        verification_report is None ==> r@ == agent_prompt(subtask_description@, None, opt_str(git_branch)),
        verification_report matches Some(rep) ==> exists|c: Seq<char>|
            capped_report(rep@, c) && r@ == agent_prompt(subtask_description@, Some(c), opt_str(git_branch)),
{
    let mut p = String::new();
    p.append("# Swarm Agent Task\n\n");
    p.append("Implement the following task. Work through each step carefully.\n\n");
    p.append(subtask_description);
    let ghost mut c: Seq<char> = seq![];
    if let Some(report) = verification_report {
        p.append("\n\n## Predecessor Verification Report\n\n");
        p.append("A previous agent worked on this ");
        p.append("task but hit its context limit. The verifier found the following:\n\n");
        if report.len() > VERIFICATION_REPORT_CAP {
            let (head, _tail) = report.split_at(VERIFICATION_REPORT_CAP);
            proof {
                vstd::utf8::encode_utf8_decode_utf8(head@);
                c = head@;
            }
            p.append(head);
        } else {
            proof {
                c = report@;
            }
            p.append(report);
        }
    }
    p.append("\n\n## Execution Guidelines\n");
    if let Some(branch) = git_branch {
        p.append("- FIRST: Run `git checkout ");
        p.append(branch);
        p.append("` to switch to your isolated branch\n");
    }
    p.append("- Complete each step in order\n");
    p.append("- Verify each change compiles/works before moving to the next\n");
    p.append("- Commit your changes frequently with descriptive messages\n");
    p.append("- If you encounter blockers, document them clearly\n");
    p.append("- When done, summarize all changes made\n");
    proof {
        if let Some(rep) = verification_report {
            assert(capped_report(rep@, c));
        }
    }
    p
}

/// The planning prompt for a specification sheet.
pub open spec fn plan_prompt(spec: SpecSheet, task_title: Seq<char>) -> Seq<char> {
    "# Plan Request: "@ + task_title + "\n\n"@ + "Please analyze the following specification and create a detailed implementation plan.\n\n"@ + spec_sections(spec, "##"@) + "## Instructions\n"@ + "Create a step-by-step implementation plan that:\n"@ + "1. Identifies all files that need to be created or modified\n"@ + "2. Outlines the order of operations\n"@ + "3. Notes any potential risks or edge cases\n"@ + "4. Considers the acceptance criteria and constraints\n"@
}

/// Builds the prompt that asks for an implementation plan from a specification sheet.
pub fn generate_plan_prompt(spec: &SpecSheet, task_title: &str) -> (r: String)
    ensures
        r@ == plan_prompt(*spec, task_title@),
{
    let mut p = String::new();
    p.append("# Plan Request: ");
    p.append(task_title);
    p.append("\n\n");
    p.append("Please analyze the following specification and create a detailed implementation plan.\n\n");
    push_spec_sections(
        &mut p,
        spec,
        "## Overview\n",
        "## Requirements\n",
        "## Acceptance Criteria\n",
        "## Constraints\n",
        "## Technical Notes\n",
    );
    proof {
        reveal_strlit("##");
        reveal_strlit("## Overview\n");
        reveal_strlit("## Requirements\n");
        reveal_strlit("## Acceptance Criteria\n");
        reveal_strlit("## Constraints\n");
        reveal_strlit("## Technical Notes\n");
        reveal_strlit(" Overview\n");
        reveal_strlit(" Requirements\n");
        reveal_strlit(" Acceptance Criteria\n");
        reveal_strlit(" Constraints\n");
        reveal_strlit(" Technical Notes\n");
        assert("## Overview\n"@ == "##"@ + " Overview\n"@);
        assert("## Requirements\n"@ == "##"@ + " Requirements\n"@);
        assert("## Acceptance Criteria\n"@ == "##"@ + " Acceptance Criteria\n"@);
        assert("## Constraints\n"@ == "##"@ + " Constraints\n"@);
        assert("## Technical Notes\n"@ == "##"@ + " Technical Notes\n"@);
    }
    p.append("## Instructions\n");
    p.append("Create a step-by-step implementation plan that:\n");
    p.append("1. Identifies all files that need to be created or modified\n");
    p.append("2. Outlines the order of operations\n");
    p.append("3. Notes any potential risks or edge cases\n");
    p.append("4. Considers the acceptance criteria and constraints\n");
    p
}

/// The decomposition prompt for a specification sheet.
pub open spec fn decomposition_prompt(spec: SpecSheet, task_title: Seq<char>) -> Seq<char> {
    "# Story Decomposition: "@ + task_title + "\n\n"@ + "You are a senior software architect. Decompose the following specification into granular implementation stories.\n\n"@ + "## Specification\n\n"@ + spec_sections(spec, "###"@) + "## Decomposition Rules\n\n"@ + "1. Each story must be small enough to not exceed 40% of a coding agent's context window. If a story feels too large, break it into multiple stories.\n"@ + "2. Each story should be independently implementable (given its dependencies are complete).\n"@ + "3. Use `dependsOn` to express ordering — a story should list the IDs of stories that must complete before it can start.\n"@ + "4. Order stories by `sortOrder` to indicate the preferred execution sequence.\n"@ + "5. Stories should cover the full scope of the specification.\n"@ + "6. Each story's description should contain enough detail for a coding agent to implement it without additional context.\n\n"@ + "## Output Format\n\n"@ + "Respond with ONLY a JSON object in this exact format. No markdown fences, no explanatory text.\n\n"@ + "{ \"stories\": [{ \"id\": \"story-1\", \"title\": \"...\", \"description\": \"...\", \"dependsOn\": [], \"sortOrder\": 1 }] }"@ + "\n"@
}

/// Builds the prompt that asks for the specification split into small stories with dependencies.
pub fn generate_decomposition_prompt(spec: &SpecSheet, task_title: &str) -> (r: String)
    ensures
        r@ == decomposition_prompt(*spec, task_title@),
{
    let mut p = String::new();
    p.append("# Story Decomposition: ");
    p.append(task_title);
    p.append("\n\n");
    p.append("You are a senior software architect. Decompose the following specification into granular implementation stories.\n\n");
    p.append("## Specification\n\n");
    push_spec_sections(
        &mut p,
        spec,
        "### Overview\n",
        "### Requirements\n",
        "### Acceptance Criteria\n",
        "### Constraints\n",
        "### Technical Notes\n",
    );
    proof {
        reveal_strlit("###");
        reveal_strlit("### Overview\n");
        reveal_strlit("### Requirements\n");
        reveal_strlit("### Acceptance Criteria\n");
        reveal_strlit("### Constraints\n");
        reveal_strlit("### Technical Notes\n");
        reveal_strlit(" Overview\n");
        reveal_strlit(" Requirements\n");
        reveal_strlit(" Acceptance Criteria\n");
        reveal_strlit(" Constraints\n");
        reveal_strlit(" Technical Notes\n");
        assert("### Overview\n"@ == "###"@ + " Overview\n"@);
        assert("### Requirements\n"@ == "###"@ + " Requirements\n"@);
        assert("### Acceptance Criteria\n"@ == "###"@ + " Acceptance Criteria\n"@);
        assert("### Constraints\n"@ == "###"@ + " Constraints\n"@);
        assert("### Technical Notes\n"@ == "###"@ + " Technical Notes\n"@);
    }
    p.append("## Decomposition Rules\n\n");
    p.append("1. Each story must be small enough to not exceed 40% of a coding agent's context window. If a story feels too large, break it into multiple stories.\n");
    p.append("2. Each story should be independently implementable (given its dependencies are complete).\n");
    p.append("3. Use `dependsOn` to express ordering — a story should list the IDs of stories that must complete before it can start.\n");
    p.append("4. Order stories by `sortOrder` to indicate the preferred execution sequence.\n");
    p.append("5. Stories should cover the full scope of the specification.\n");
    p.append("6. Each story's description should contain enough detail for a coding agent to implement it without additional context.\n\n");
    p.append("## Output Format\n\n");
    p.append("Respond with ONLY a JSON object in this exact format. No markdown fences, no explanatory text.\n\n");
    p.append("{ \"stories\": [{ \"id\": \"story-1\", \"title\": \"...\", \"description\": \"...\", \"dependsOn\": [], \"sortOrder\": 1 }] }");
    p.append("\n");
    p
}

/// The complexity-assessment prompt for a specification sheet.
pub open spec fn assessment_prompt(spec: SpecSheet, task_title: Seq<char>) -> Seq<char> {
    "# Complexity Assessment: "@ + task_title + "\n\n"@ + "You are a senior software architect. Evaluate the following specification's complexity and recommend a routing decision for how it should be executed.\n\n"@ + "## Specification\n\n"@ + spec_sections(spec, "###"@) + "## Assessment Criteria\n\n"@ + "Evaluate the specification on these dimensions:\n"@ + "1. **complexity_score** (1-10): Overall implementation complexity.\n"@ + "2. **files_estimated**: Number of files that will need to be created or modified.\n"@ + "3. **subsystems**: List of distinct subsystems or modules involved (e.g. \"database\", \"API\", \"frontend\", \"auth\").\n"@ + "4. **context_estimate**: Estimated fraction of a 200K token context window needed to hold all relevant code. Use decimal (e.g. 0.3 = 30%).\n"@ + "5. **decomposability**: How easily the task can be split into independent sub-tasks (\"high\", \"medium\", or \"low\").\n"@ + "6. **recommended**: Routing decision based on your assessment:\n"@ + "   - \"single\" — fits in one agent's context (complexity 1-3)\n"@ + "   - \"single_verifier\" — one agent + verification pass (complexity 4-5)\n"@ + "   - \"vs_shallow\" — verified succession with shallow depth (complexity 6-8)\n"@ + "   - \"vs_deep\" — verified succession with deep multi-agent (complexity 9-10)\n"@ + "7. **confidence**: Your confidence in this assessment (0.0-1.0).\n\n"@ + "## Output Format\n\n"@ + "Respond with ONLY a JSON object in this exact format. No markdown fences, no explanatory text.\n\n"@ + "{ \"complexity_score\": 5, \"files_estimated\": 8, \"subsystems\": [\"database\", \"API\"], \"context_estimate\": 0.4, \"decomposability\": \"high\", \"recommended\": \"single_verifier\", \"confidence\": 0.85 }"@ + "\n"@
}

/// Builds the prompt that asks for a complexity score and routing recommendation.
pub fn build_assessment_prompt(spec: &SpecSheet, task_title: &str) -> (r: String)
    ensures
        r@ == assessment_prompt(*spec, task_title@),
{
    let mut p = String::new();
    p.append("# Complexity Assessment: ");
    p.append(task_title);
    p.append("\n\n");
    p.append("You are a senior software architect. Evaluate the following specification's complexity and recommend a routing decision for how it should be executed.\n\n");
    p.append("## Specification\n\n");
    push_spec_sections(
        &mut p,
        spec,
        "### Overview\n",
        "### Requirements\n",
        "### Acceptance Criteria\n",
        "### Constraints\n",
        "### Technical Notes\n",
    );
    proof {
        reveal_strlit("###");
        reveal_strlit("### Overview\n");
        reveal_strlit("### Requirements\n");
        reveal_strlit("### Acceptance Criteria\n");
        reveal_strlit("### Constraints\n");
        reveal_strlit("### Technical Notes\n");
        reveal_strlit(" Overview\n");
        reveal_strlit(" Requirements\n");
        reveal_strlit(" Acceptance Criteria\n");
        reveal_strlit(" Constraints\n");
        reveal_strlit(" Technical Notes\n");
        assert("### Overview\n"@ == "###"@ + " Overview\n"@);
        assert("### Requirements\n"@ == "###"@ + " Requirements\n"@);
        assert("### Acceptance Criteria\n"@ == "###"@ + " Acceptance Criteria\n"@);
        assert("### Constraints\n"@ == "###"@ + " Constraints\n"@);
        assert("### Technical Notes\n"@ == "###"@ + " Technical Notes\n"@);
    }
    p.append("## Assessment Criteria\n\n");
    p.append("Evaluate the specification on these dimensions:\n");
    p.append("1. **complexity_score** (1-10): Overall implementation complexity.\n");
    p.append("2. **files_estimated**: Number of files that will need to be created or modified.\n");
    p.append("3. **subsystems**: List of distinct subsystems or modules involved (e.g. \"database\", \"API\", \"frontend\", \"auth\").\n");
    p.append("4. **context_estimate**: Estimated fraction of a 200K token context window needed to hold all relevant code. Use decimal (e.g. 0.3 = 30%).\n");
    p.append("5. **decomposability**: How easily the task can be split into independent sub-tasks (\"high\", \"medium\", or \"low\").\n");
    p.append("6. **recommended**: Routing decision based on your assessment:\n");
    p.append("   - \"single\" — fits in one agent's context (complexity 1-3)\n");
    p.append("   - \"single_verifier\" — one agent + verification pass (complexity 4-5)\n");
    p.append("   - \"vs_shallow\" — verified succession with shallow depth (complexity 6-8)\n");
    p.append("   - \"vs_deep\" — verified succession with deep multi-agent (complexity 9-10)\n");
    p.append("7. **confidence**: Your confidence in this assessment (0.0-1.0).\n\n");
    p.append("## Output Format\n\n");
    p.append("Respond with ONLY a JSON object in this exact format. No markdown fences, no explanatory text.\n\n");
    p.append("{ \"complexity_score\": 5, \"files_estimated\": 8, \"subsystems\": [\"database\", \"API\"], \"context_estimate\": 0.4, \"decomposability\": \"high\", \"recommended\": \"single_verifier\", \"confidence\": 0.85 }");
    p.append("\n");
    p
}

/// The focus of one of the three ranking agents.
#[derive(Debug, Clone, Copy, PartialEq, Eq, Structural)]
pub enum RankingPerspective {
    Complexity,
    GapAnalysis,
    RiskIdentification,
}

/// The instruction that sets a ranking agent's focus.
pub open spec fn perspective_instruction(p: RankingPerspective) -> Seq<char> {
    match p {

        RankingPerspective::Complexity => "You are a senior software architect focusing on **complexity assessment**. Your primary goal is to accurately estimate the number of files, systems, and dependencies involved. Pay close attention to cross-cutting concerns, hidden dependencies between subsystems, and the true scope of changes required."@,
        RankingPerspective::GapAnalysis => "You are a senior software architect focusing on **gap analysis**. Your primary goal is to identify missing requirements, ambiguities, under-specified behaviors, and areas where the specification is incomplete. Look for edge cases that aren't covered, error handling that isn't specified, and integration points that lack detail."@,
        RankingPerspective::RiskIdentification => "You are a senior software architect focusing on **risk identification**. Your primary goal is to identify untested areas, external dependencies, performance bottlenecks, security concerns, and areas where implementation could go wrong. For each risk, suggest a concrete mitigation strategy."@,
    }
}

/// The ranking prompt for a specification sheet and a perspective.
pub open spec fn ranking_prompt(spec: SpecSheet, task_title: Seq<char>, perspective: RankingPerspective) -> Seq<char> {
    "# Spec Ranking Assessment: "@ + task_title + "\n\n"@ + perspective_instruction(perspective) + "\n\n"@ + "## Specification\n\n"@
        + spec_sections(spec, "###"@) + "## Assessment Output\n\n"@ + "Evaluate the specification and produce a structured ranking report.\n\n"@ + "Respond with ONLY a JSON object in this exact format. No markdown fences, no explanatory text.\n\n"@ + "{\n  \"complexity_score\": 5,\n  \"complexity_rationale\": \"Brief explanation of the complexity rating\",\n  \"files_estimated\": 8,\n  \"subsystems_touched\": [\"database\", \"API\"],\n  \"estimated_context_requirement\": 0.4,\n  \"gaps_found\": [{\"description\": \"...\", \"severity\": \"high|medium|low\"}],\n  \"risks_found\": [{\"description\": \"...\", \"mitigation\": \"...\"}],\n  \"decomposability\": \"high\",\n  \"recommended_architecture\": \"single|single_verifier|vs_shallow|vs_deep\",\n  \"confidence\": 0.85\n}"@ + "\n"@
}

/// Builds the prompt for one ranking agent, focused by `perspective`.
pub fn build_ranking_prompt(spec: &SpecSheet, task_title: &str, perspective: RankingPerspective) -> (r: String)
    ensures
        r@ == ranking_prompt(*spec, task_title@, perspective),
{
    let mut p = String::new();
    p.append("# Spec Ranking Assessment: ");
    p.append(task_title);
    p.append("\n\n");
    let instruction = match perspective {

        RankingPerspective::Complexity => "You are a senior software architect focusing on **complexity assessment**. Your primary goal is to accurately estimate the number of files, systems, and dependencies involved. Pay close attention to cross-cutting concerns, hidden dependencies between subsystems, and the true scope of changes required.",
        RankingPerspective::GapAnalysis => "You are a senior software architect focusing on **gap analysis**. Your primary goal is to identify missing requirements, ambiguities, under-specified behaviors, and areas where the specification is incomplete. Look for edge cases that aren't covered, error handling that isn't specified, and integration points that lack detail.",
        RankingPerspective::RiskIdentification => "You are a senior software architect focusing on **risk identification**. Your primary goal is to identify untested areas, external dependencies, performance bottlenecks, security concerns, and areas where implementation could go wrong. For each risk, suggest a concrete mitigation strategy.",
    };
    p.append(instruction);
    p.append("\n\n");
    p.append("## Specification\n\n");
    push_spec_sections(
        &mut p,
        spec,
        "### Overview\n",
        "### Requirements\n",
        "### Acceptance Criteria\n",
        "### Constraints\n",
        "### Technical Notes\n",
    );
    proof {
        reveal_strlit("###");
        reveal_strlit("### Overview\n");
        reveal_strlit("### Requirements\n");
        reveal_strlit("### Acceptance Criteria\n");
        reveal_strlit("### Constraints\n");
        reveal_strlit("### Technical Notes\n");
        reveal_strlit(" Overview\n");
        reveal_strlit(" Requirements\n");
        reveal_strlit(" Acceptance Criteria\n");
        reveal_strlit(" Constraints\n");
        reveal_strlit(" Technical Notes\n");
        assert("### Overview\n"@ == "###"@ + " Overview\n"@);
        assert("### Requirements\n"@ == "###"@ + " Requirements\n"@);
        assert("### Acceptance Criteria\n"@ == "###"@ + " Acceptance Criteria\n"@);
        assert("### Constraints\n"@ == "###"@ + " Constraints\n"@);
        assert("### Technical Notes\n"@ == "###"@ + " Technical Notes\n"@);
    }
    p.append("## Assessment Output\n\n");
    p.append("Evaluate the specification and produce a structured ranking report.\n\n");
    p.append("Respond with ONLY a JSON object in this exact format. No markdown fences, no explanatory text.\n\n");
    p.append("{\n  \"complexity_score\": 5,\n  \"complexity_rationale\": \"Brief explanation of the complexity rating\",\n  \"files_estimated\": 8,\n  \"subsystems_touched\": [\"database\", \"API\"],\n  \"estimated_context_requirement\": 0.4,\n  \"gaps_found\": [{\"description\": \"...\", \"severity\": \"high|medium|low\"}],\n  \"risks_found\": [{\"description\": \"...\", \"mitigation\": \"...\"}],\n  \"decomposability\": \"high\",\n  \"recommended_architecture\": \"single|single_verifier|vs_shallow|vs_deep\",\n  \"confidence\": 0.85\n}");
    p.append("\n");
    p
}

} // verus!
