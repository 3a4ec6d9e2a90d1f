//! Names derived from tasks and workspaces: branch slugs, short identifiers and
//! workspace directory names.
use vstd::prelude::*;
use vstd::string::*;
use crate::text::{lowercase_of, to_lowercase, to_chars, push_char, push_chars, string_from_chars};

verus! {

/// Characters kept in a branch slug: lower-case ASCII letters and digits.
pub open spec fn is_slug_char(c: char) -> bool {
    ('a' <= c && c <= 'z') || ('0' <= c && c <= '9')
}

/// `s` with every maximal run of characters other than `a`-`z` and `0`-`9`
/// replaced by a single `-`.
pub open spec fn dash_runs(s: Seq<char>) -> Seq<char>
    decreases s.len(),
{
    if s.len() == 0 {
        seq![]
    } else if is_slug_char(s.last()) {
        dash_runs(s.drop_last()).push(s.last())
    } else if s.len() >= 2 && !is_slug_char(s[s.len() - 2]) {
        dash_runs(s.drop_last())
    } else {
        dash_runs(s.drop_last()).push('-')
    }
}

/// Replaces each run of characters other than `a`-`z` and `0`-`9` with one `-`
/// (`Regex::new("[^a-z0-9]+")` and `replace_all` with `"-"`; the pattern is a
/// valid regular expression, so building it does not fail). Matches are found
/// leftmost first and `+` is greedy, so each match is a maximal run.
#[verifier::external_body]
fn replace_non_slug_runs(s: &str) -> (r: String)
    ensures
        r@ == dash_runs(s@),
{
    regex::Regex::new(r"[^a-z0-9]+").unwrap().replace_all(s, "-").into_owned()
}

/// `s` without its leading and trailing `-` characters.
pub open spec fn trim_dashes(s: Seq<char>) -> Seq<char> {
    crate::mcp::drop_trailing(crate::mcp::drop_leading(s, '-'), '-')
}

/// The first `n` characters of `s`, or all of it when shorter.
pub open spec fn take_chars(s: Seq<char>, n: nat) -> Seq<char> {
    if n < s.len() {
        s.take(n as int)
    } else {
        s
    }
}

/// The branch slug of a title: lower-cased, runs of other characters turned
/// into `-`, trimmed of `-`, cut to sixteen characters, and trimmed of
/// trailing `-` again.
pub open spec fn branch_slug(input: Seq<char>) -> Seq<char> {
    crate::mcp::drop_trailing(take_chars(trim_dashes(dash_runs(lowercase_of(input))), 16), '-')
}

/// Turns a task title into a short branch-safe slug.
pub fn git_branch_id(input: &str) -> (r: String)
    ensures
        r@ == branch_slug(input@),
{
    let lower = to_lowercase(input);
    let slug = replace_non_slug_runs(lower.as_str());
    let v = to_chars(slug.as_str());
    let mut a: usize = 0;
    assert(v@.skip(0) == v@);
    while a < v.len() && v[a] == '-'
        invariant
            a <= v@.len(),
            crate::mcp::drop_leading(v@, '-') == crate::mcp::drop_leading(v@.skip(a as int), '-'),
        decreases v@.len() - a,
    {
        assert(v@.skip(a as int).drop_first() == v@.skip(a + 1));
        a = a + 1;
    }
    assert(crate::mcp::drop_leading(v@, '-') == v@.subrange(a as int, v@.len() as int));
    let mut b: usize = v.len();
    let ghost lead = v@.subrange(a as int, v@.len() as int);
    assert(lead.take((b - a) as int) == lead);
    while b > a && v[b - 1] == '-'
        invariant
            a <= b <= v@.len(),
            lead == v@.subrange(a as int, v@.len() as int),
            crate::mcp::drop_trailing(lead, '-') == crate::mcp::drop_trailing(lead.take((b - a) as int), '-'),
        decreases b,
    {
        assert(lead.take((b - a) as int).drop_last() == lead.take((b - 1 - a) as int));
        b = b - 1;
    }
    let ghost trimmed = v@.subrange(a as int, b as int);
    assert(lead.take((b - a) as int) == trimmed);
    assert(trim_dashes(v@) == trimmed);
    let c = if b - a > 16 {
        a + 16
    } else {
        b
    };
    assert(v@.subrange(a as int, c as int) == take_chars(trimmed, 16));
    let mut e = c;
    let ghost cut = v@.subrange(a as int, c as int);
    assert(cut.take((e - a) as int) == cut);
    while e > a && v[e - 1] == '-'
        invariant
            a <= e <= c <= v@.len(),
            cut == v@.subrange(a as int, c as int),
            crate::mcp::drop_trailing(cut, '-') == crate::mcp::drop_trailing(cut.take((e - a) as int), '-'),
        decreases e,
    {
        assert(cut.take((e - a) as int).drop_last() == cut.take((e - 1 - a) as int));
        e = e - 1;
    }
    assert(cut.take((e - a) as int) == v@.subrange(a as int, e as int));
    string_from_chars(&v, a, e)
}

/// The lower-case hexadecimal digit for `d` (below sixteen).
pub open spec fn hex_digit(d: int) -> char {
    if d < 10 {
        ((d + 48) as u8) as char
    } else {
        ((d - 10 + 97) as u8) as char
    }
}

fn hex_digit_of(d: u128) -> (c: char)
    requires
        d < 16,
    ensures
        c == hex_digit(d as int),
{
    if d == 0 { '0' } else if d == 1 { '1' } else if d == 2 { '2' } else if d == 3 { '3' } else if d == 4 { '4' }
    else if d == 5 { '5' } else if d == 6 { '6' } else if d == 7 { '7' } else if d == 8 { '8' } else if d == 9 { '9' }
    else if d == 10 { 'a' } else if d == 11 { 'b' } else if d == 12 { 'c' } else if d == 13 { 'd' }
    else if d == 14 { 'e' } else { 'f' }
}

/// The lowest `n` hexadecimal digits of `v`, most significant first.
pub open spec fn hex_digits(v: nat, n: nat) -> Seq<char>
    decreases n,
{
    if n == 0 {
        seq![]
    } else {
        hex_digits(v / 16, (n - 1) as nat).push(hex_digit((v % 16) as int))
    }
}

/// `hex_digits(v, n)` has `n` digits.
pub proof fn lemma_hex_digits_len(v: nat, n: nat)
    ensures
        hex_digits(v, n).len() == n,
    decreases n,
{
    if n > 0 {
        lemma_hex_digits_len(v / 16, (n - 1) as nat);
    }
}

/// An identifier's hyphenated text, as `uuid::Uuid` displays it: the 32
/// lower-case hexadecimal digits of its 128-bit value, most significant first,
/// in groups of 8, 4, 4, 4 and 12 joined by `-`.
pub open spec fn uuid_text(id: u128) -> Seq<char> {
    let d = hex_digits(id as nat, 32);
    d.subrange(0, 8) + seq!['-'] + d.subrange(8, 12) + seq!['-'] + d.subrange(12, 16) + seq!['-']
        + d.subrange(16, 20) + seq!['-'] + d.subrange(20, 32)
}

fn hex_digits_of(v: u128, n: usize) -> (r: Vec<char>)
    ensures
        r@ == hex_digits(v as nat, n as nat),
        r@.len() == n,
    decreases n,
{
    if n == 0 {
        Vec::new()
    } else {
        let mut d = hex_digits_of(v / 16, n - 1);
        d.push(hex_digit_of(v % 16));
        d
    }
}

/// The hyphenated text of an identifier, from its 128-bit value.
pub fn uuid_string(id: u128) -> (r: String)
    ensures
        r@ == uuid_text(id),
{
    let d = hex_digits_of(id, 32);
    let mut s = String::new();
    push_chars(&mut s, &d, 0, 8);
    push_char(&mut s, '-');
    push_chars(&mut s, &d, 8, 12);
    push_char(&mut s, '-');
    push_chars(&mut s, &d, 12, 16);
    push_char(&mut s, '-');
    push_chars(&mut s, &d, 16, 20);
    push_char(&mut s, '-');
    push_chars(&mut s, &d, 20, 32);
    assert(s@ == uuid_text(id));
    s
}

/// The first four digits of an identifier's 32-digit lower-case hexadecimal
/// form (`Uuid::simple`), from its 128-bit value.
pub open spec fn short_id_text(id: u128) -> Seq<char> {
    hex_digits(id as nat, 32).take(4)
}

/// The first four hexadecimal digits of an identifier (given by its 128-bit value).
pub fn short_uuid(id: u128) -> (r: String)
    ensures
        r@ == short_id_text(id),
{
    let d = hex_digits_of(id, 32);
    let mut s = String::new();
    push_chars(&mut s, &d, 0, 4);
    assert(d@.subrange(0, 4) == d@.take(4));
    s
}

/// An identifier's short form is the first four characters of its hyphenated text.
pub proof fn lemma_short_id_prefixes_text(id: u128)
    ensures
        short_id_text(id) == uuid_text(id).take(4),
{
    lemma_hex_digits_len(id as nat, 32);
    assert(uuid_text(id).take(4) == hex_digits(id as nat, 32).take(4));
}

/// The directory name of a workspace: its short identifier, `-`, and the slug
/// of its task's title.
pub open spec fn workspace_dir_name(workspace_id: u128, task_title: Seq<char>) -> Seq<char> {
    short_id_text(workspace_id) + seq!['-'] + branch_slug(task_title)
}

/// Names a workspace's directory from its identifier's value and its task's title.
pub fn dir_name_from_workspace(workspace_id: u128, task_title: &str) -> (r: String)
    ensures
        r@ == workspace_dir_name(workspace_id, task_title@),
{
    let mut s = short_uuid(workspace_id);
    push_char(&mut s, '-');
    let slug = git_branch_id(task_title);
    s.append(slug.as_str());
    s
}

} // verus!
