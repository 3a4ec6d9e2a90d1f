//! Reading an agent's JSON-lines output: the plan it proposed with an
//! `ExitPlanMode` tool use, and the errors its result line reports. Lines are
//! read from the most recent back; each line's JSON is read by `serde_json`.
use vstd::prelude::*;
use vstd::string::*;
use crate::compose::string_views;
use crate::mcp::opt_text;
use crate::text::{
    contains, has_infix, line_ranges, lines_of, range_texts, str_eq, string_from_chars, to_chars,
};

verus! {

/// The `type`, `name` and `input.plan` strings of a JSON object, each `None`
/// where it is missing or not a string.
pub open spec fn tool_use_view(t: (Option<String>, Option<String>, Option<String>)) -> (
    Option<Seq<char>>,
    Option<Seq<char>>,
    Option<Seq<char>>,
) {
    (opt_text(t.0), opt_text(t.1), opt_text(t.2))
}

pub open spec fn tool_use_views(v: Seq<(Option<String>, Option<String>, Option<String>)>) -> Seq<
    (Option<Seq<char>>, Option<Seq<char>>, Option<Seq<char>>),
> {
    v.map_values(|t: (Option<String>, Option<String>, Option<String>)| tool_use_view(t))
}

/// What `serde_json` reads of one line: `None` when the line is not JSON;
/// otherwise the `type`, `name` and `input.plan` strings of the line's object,
/// followed by those of each item of its `message.content` array.
pub uninterp spec fn json_tool_uses(line: Seq<char>) -> Option<
    Seq<(Option<Seq<char>>, Option<Seq<char>>, Option<Seq<char>>)>,
>;

/// What `serde_json` reads of one line: `None` when the line is not JSON;
/// otherwise the items of its `errors` array (each a string or `None`), when
/// it has one, and its `error` string.
pub uninterp spec fn json_result_errors(line: Seq<char>) -> Option<
    (Option<Seq<Option<Seq<char>>>>, Option<Seq<char>>),
>;

/// A tool use that proposes a plan: type `tool_use`, name `ExitPlanMode`, with a plan.
pub open spec fn is_exit_plan(t: (Option<Seq<char>>, Option<Seq<char>>, Option<Seq<char>>)) -> bool {
    &&& t.0 == Some("tool_use"@)
    &&& t.1 == Some("ExitPlanMode"@)
    &&& t.2 is Some
}

/// The plan of the first tool use that proposes one.
pub open spec fn first_plan(uses: Seq<(Option<Seq<char>>, Option<Seq<char>>, Option<Seq<char>>)>) -> Option<
    Seq<char>,
>
    decreases uses.len(),
{
    if uses.len() == 0 {
        None
    } else if is_exit_plan(uses[0]) {
        uses[0].2
    } else {
        first_plan(uses.drop_first())
    }
}

/// The plan proposed in one line: only lines that mention `ExitPlanMode` and
/// parse as JSON are read.
pub open spec fn plan_in_line(line: Seq<char>) -> Option<Seq<char>> {
    if has_infix(line, "ExitPlanMode"@) {
        match json_tool_uses(line) {
            Some(uses) => first_plan(uses),
            None => None,
        }
    } else {
        None
    }
}

/// The plan of the last line that proposes one.
pub open spec fn plan_in_lines(lines: Seq<Seq<char>>) -> Option<Seq<char>>
    decreases lines.len(),
{
    if lines.len() == 0 {
        None
    } else {
        match plan_in_line(lines.last()) {
            Some(p) => Some(p),
            None => plan_in_lines(lines.drop_last()),
        }
    }
}

/// The strings among the items, in order.
pub open spec fn present_strings(items: Seq<Option<Seq<char>>>) -> Seq<Seq<char>>
    decreases items.len(),
{
    if items.len() == 0 {
        seq![]
    } else {
        (match items[0] {
            Some(s) => seq![s],
            None => seq![],
        }) + present_strings(items.drop_first())
    }
}

/// The errors a result line reports: the strings of its `errors` array, then
/// its `error` string.
pub open spec fn reported_errors(fields: (Option<Seq<Option<Seq<char>>>>, Option<Seq<char>>)) -> Seq<
    Seq<char>,
> {
    (match fields.0 {
        Some(items) => present_strings(items),
        None => seq![],
    }) + (match fields.1 {
        Some(e) => seq![e],
        None => seq![],
    })
}

/// A line that may be a result line: it mentions `"result"` or `"type":"result"`.
pub open spec fn is_result_line(line: Seq<char>) -> bool {
    has_infix(line, "\"result\""@) || has_infix(line, "\"type\":\"result\""@)
}

/// The errors one line reports.
pub open spec fn errors_in_line(line: Seq<char>) -> Seq<Seq<char>> {
    if is_result_line(line) {
        match json_result_errors(line) {
            Some(fields) => reported_errors(fields),
            None => seq![],
        }
    } else {
        seq![]
    }
}

/// The errors of the last line that reports any.
pub open spec fn errors_in_lines(lines: Seq<Seq<char>>) -> Seq<Seq<char>>
    decreases lines.len(),
{
    if lines.len() == 0 {
        seq![]
    } else if errors_in_line(lines.last()).len() > 0 {
        errors_in_line(lines.last())
    } else {
        errors_in_lines(lines.drop_last())
    }
}

/// The most recent proposal wins: a line that proposes a plan decides the plan
/// whatever came before it, and a line that proposes none changes nothing.
pub proof fn lemma_latest_plan_wins(lines: Seq<Seq<char>>, line: Seq<char>)
    ensures
        plan_in_line(line) matches Some(p) ==> plan_in_lines(lines.push(line)) == Some(p),
        plan_in_line(line) is None ==> plan_in_lines(lines.push(line)) == plan_in_lines(lines),
{
    assert(lines.push(line).last() == line);
    assert(lines.push(line).drop_last() == lines);
}

/// The errors come from one line only, the most recent that reports any: such a
/// line decides them whatever came before it, and a line that reports none
/// changes nothing.
pub proof fn lemma_latest_errors_win(lines: Seq<Seq<char>>, line: Seq<char>)
    ensures
        errors_in_line(line).len() > 0 ==> errors_in_lines(lines.push(line)) == errors_in_line(line),
        errors_in_line(line).len() == 0 ==> errors_in_lines(lines.push(line)) == errors_in_lines(lines),
{
    assert(lines.push(line).last() == line);
    assert(lines.push(line).drop_last() == lines);
}

pub open spec fn opt_views(o: Option<Vec<(Option<String>, Option<String>, Option<String>)>>) -> Option<
    Seq<(Option<Seq<char>>, Option<Seq<char>>, Option<Seq<char>>)>,
> {
    match o {
        Some(v) => Some(tool_use_views(v@)),
        None => None,
    }
}

pub open spec fn opt_texts(v: Seq<Option<String>>) -> Seq<Option<Seq<char>>> {
    v.map_values(|o: Option<String>| opt_text(o))
}

pub open spec fn result_fields_view(o: Option<(Option<Vec<Option<String>>>, Option<String>)>) -> Option<
    (Option<Seq<Option<Seq<char>>>>, Option<Seq<char>>),
> {
    match o {
        Some(f) => Some(
            (
                match f.0 {
                    Some(items) => Some(opt_texts(items@)),
                    None => None,
                },
                opt_text(f.1),
            ),
        ),
        None => None,
    }
}

/// Reads one line with `serde_json::from_str::<serde_json::Value>`; `None` when
/// it is not JSON. Otherwise picks, with `Value::pointer` and `Value::as_str`,
/// the `/type`, `/name` and `/input/plan` strings of the value and of each item
/// of its `/message/content` array (`Value::as_array`), in that order.
#[verifier::external_body]
fn tool_uses_of_line(line: &str) -> (r: Option<Vec<(Option<String>, Option<String>, Option<String>)>>)
    ensures
        opt_views(r) == json_tool_uses(line@),
{
    let v: serde_json::Value = serde_json::from_str(line).ok()?;
    let s = |x: &serde_json::Value, p: &str| x.pointer(p).and_then(serde_json::Value::as_str).map(String::from);
    let mut out = vec![(s(&v, "/type"), s(&v, "/name"), s(&v, "/input/plan"))];
    for item in v.pointer("/message/content").and_then(serde_json::Value::as_array).into_iter().flatten() {
        out.push((s(item, "/type"), s(item, "/name"), s(item, "/input/plan")));
    }
    Some(out)
}

/// Reads one line with `serde_json::from_str::<serde_json::Value>`; `None` when
/// it is not JSON. Otherwise the items of its `errors` array (`Value::get`,
/// `Value::as_array`), each read with `Value::as_str`, and its `error` string.
#[verifier::external_body]
fn result_errors_of_line(line: &str) -> (r: Option<(Option<Vec<Option<String>>>, Option<String>)>)
    ensures
        result_fields_view(r) == json_result_errors(line@),
{
    let v: serde_json::Value = serde_json::from_str(line).ok()?;
    let errors = v.get("errors").and_then(serde_json::Value::as_array).map(
        |a| a.iter().map(|e| e.as_str().map(String::from)).collect(),
    );
    Some((errors, v.get("error").and_then(serde_json::Value::as_str).map(String::from)))
}

fn text_is(o: &Option<String>, expected: &str) -> (r: bool)
    ensures
        r == (opt_text(*o) == Some(expected@)),
{
    match o {
        Some(s) => str_eq(s.as_str(), expected),
        None => false,
    }
}

/// The plan of the first tool use that proposes one.
pub fn plan_from_tool_uses(uses: &Vec<(Option<String>, Option<String>, Option<String>)>) -> (r: Option<String>)
    ensures
        opt_text(r) == first_plan(tool_use_views(uses@)),
{
    let ghost all = tool_use_views(uses@);
    let mut i: usize = 0;
    assert(all.skip(0) == all);
    while i < uses.len()
        invariant
            i <= uses@.len(),
            all == tool_use_views(uses@),
            first_plan(all) == first_plan(all.skip(i as int)),
        decreases uses.len() - i,
    {
        assert(all.skip(i as int)[0] == tool_use_view(uses@[i as int]));
        assert(all.skip(i as int).drop_first() == all.skip(i + 1));
        let t = &uses[i];
        if text_is(&t.0, "tool_use") && text_is(&t.1, "ExitPlanMode") {
            match &t.2 {
                Some(p) => {
                    return Some(p.clone());
                },
                None => {},
            }
        }
        i = i + 1;
    }
    assert(all.skip(i as int).len() == 0);
    None
}

/// The plan an agent proposed last: the lines of its output are read from the
/// last back, and the first that proposes a plan gives it.
pub fn plan_from_output(all_stdout: &str) -> (r: Option<String>)
    ensures
        opt_text(r) == plan_in_lines(lines_of(all_stdout@)),
{
    let v = to_chars(all_stdout);
    let ranges = line_ranges(&v);
    let pat = to_chars("ExitPlanMode");
    let ghost lines = lines_of(v@);
    let mut k: usize = ranges.len();
    assert(lines.take(k as int) == lines);
    while k > 0
        invariant
            k <= ranges@.len(),
            v@ == all_stdout@,
            pat@ == "ExitPlanMode"@,
            lines == lines_of(v@),
            lines == range_texts(v@, ranges@),
            crate::text::ranges_in(v@, ranges@),
            plan_in_lines(lines) == plan_in_lines(lines.take(k as int)),
        decreases k,
    {
        let (a, b) = ranges[k - 1];
        assert(ranges@[k - 1].0 <= ranges@[k - 1].1 <= v@.len());
        assert(lines.take(k as int).last() == v@.subrange(a as int, b as int));
        assert(lines.take(k as int).drop_last() == lines.take(k - 1));
        if contains(&v, a, b, &pat) {
            let line = string_from_chars(&v, a, b);
            match tool_uses_of_line(line.as_str()) {
                Some(uses) => {
                    let found = plan_from_tool_uses(&uses);
                    if found.is_some() {
                        return found;
                    }
                },
                None => {},
            }
        }
        k = k - 1;
    }
    None
}

/// The errors a result line reports: the strings among the items of its
/// `errors` array, in order, then its `error` string.
pub fn errors_from_result_fields(errors: &Option<Vec<Option<String>>>, error: &Option<String>) -> (r: Vec<String>)
    ensures
        string_views(r@) == reported_errors(
            (
                match errors {
                    Some(items) => Some(opt_texts(items@)),
                    None => None,
                },
                opt_text(*error),
            ),
        ),
{
    let mut out: Vec<String> = Vec::new();
    match errors {
        Some(items) => {
            let ghost all = opt_texts(items@);
            let mut i: usize = 0;
            assert(all.skip(0) == all);
            assert(string_views(out@) + present_strings(all) == present_strings(all));
            while i < items.len()
                invariant
                    i <= items@.len(),
                    all == opt_texts(items@),
                    present_strings(all) == string_views(out@) + present_strings(all.skip(i as int)),
                decreases items.len() - i,
            {
                assert(all.skip(i as int)[0] == opt_text(items@[i as int]));
                assert(all.skip(i as int).drop_first() == all.skip(i + 1));
                match &items[i] {
                    Some(s) => {
                        out.push(s.clone());
                        assert(string_views(out@) == string_views(out@.drop_last()) + seq![s@]);
                    },
                    None => {},
                }
                i = i + 1;
            }
            assert(all.skip(i as int).len() == 0);
            assert(string_views(out@) + seq![] == string_views(out@));
        },
        None => {},
    }
    match error {
        Some(e) => {
            let ghost before = string_views(out@);
            out.push(e.clone());
            assert(string_views(out@) == before + seq![e@]);
        },
        None => {
            assert(string_views(out@) + seq![] == string_views(out@));
        },
    }
    out
}

/// The errors an agent reported last: the lines of its output are read from
/// the last back, and the first result line that reports any errors gives them.
pub fn result_errors_from_output(all_stdout: &str) -> (r: Vec<String>)
    ensures
        string_views(r@) == errors_in_lines(lines_of(all_stdout@)),
{
    let v = to_chars(all_stdout);
    let ranges = line_ranges(&v);
    let quoted = to_chars("\"result\"");
    let typed = to_chars("\"type\":\"result\"");
    let ghost lines = lines_of(v@);
    let mut k: usize = ranges.len();
    assert(lines.take(k as int) == lines);
    while k > 0
        invariant
            k <= ranges@.len(),
            v@ == all_stdout@,
            quoted@ == "\"result\""@,
            typed@ == "\"type\":\"result\""@,
            lines == lines_of(v@),
            lines == range_texts(v@, ranges@),
            crate::text::ranges_in(v@, ranges@),
            errors_in_lines(lines) == errors_in_lines(lines.take(k as int)),
        decreases k,
    {
        let (a, b) = ranges[k - 1];
        assert(ranges@[k - 1].0 <= ranges@[k - 1].1 <= v@.len());
        assert(lines.take(k as int).last() == v@.subrange(a as int, b as int));
        assert(lines.take(k as int).drop_last() == lines.take(k - 1));
        if contains(&v, a, b, &quoted) || contains(&v, a, b, &typed) {
            let line = string_from_chars(&v, a, b);
            match result_errors_of_line(line.as_str()) {
                Some(fields) => {
                    let found = errors_from_result_fields(&fields.0, &fields.1);
                    if found.len() > 0 {
                        return found;
                    }
                },
                None => {},
            }
        }
        k = k - 1;
    }
    Vec::new()
}

} // verus!
