//! `@name` references in task descriptions, replaced by the content of the tag
//! of that name.
use vstd::prelude::*;
use vstd::string::*;
use crate::text::{is_ws, str_eq};

verus! {

/// Characters of a tag name: anything but whitespace and `@`.
pub open spec fn is_tag_char(c: char) -> bool {
    !is_ws(c) && c != '@'
}

/// The end of the run of tag-name characters that starts at `j`.
pub open spec fn tag_end(s: Seq<char>, j: int) -> int
    decreases s.len() - j,
{
    if j < 0 || j >= s.len() || !is_tag_char(s[j]) {
        j
    } else {
        tag_end(s, j + 1)
    }
}

/// The run of tag-name characters ends at or after its start, within the text.
pub proof fn lemma_tag_end_bounds(s: Seq<char>, j: int)
    requires
        0 <= j <= s.len(),
    ensures
        j <= tag_end(s, j) <= s.len(),
        forall|k: int| j <= k < tag_end(s, j) ==> is_tag_char(#[trigger] s[k]),
    decreases s.len() - j,
{
    if j < s.len() && is_tag_char(s[j]) {
        lemma_tag_end_bounds(s, j + 1);
    }
}

/// A tag reference starts at `i`: an `@` followed by at least one tag-name character.
pub open spec fn tag_ref_at(s: Seq<char>, i: int) -> bool {
    0 <= i && i + 1 < s.len() && s[i] == '@' && is_tag_char(s[i + 1])
}

/// The text holds a tag reference.
pub open spec fn has_tag_ref(s: Seq<char>) -> bool {
    exists|i: int| tag_ref_at(s, i)
}

/// The content of the tag named `name`; of several with that name, the last.
pub open spec fn tag_content(tags: Seq<(Seq<char>, Seq<char>)>, name: Seq<char>) -> Option<Seq<char>>
    decreases tags.len(),
{
    if tags.len() == 0 {
        None
    } else if tags.last().0 == name {
        Some(tags.last().1)
    } else {
        tag_content(tags.drop_last(), name)
    }
}

/// The text from position `i` on, each reference `@name` (with the longest
/// name) replaced by the tag's content, or kept when no tag has that name.
pub open spec fn expand_from(s: Seq<char>, tags: Seq<(Seq<char>, Seq<char>)>, i: int) -> Seq<char>
    decreases s.len() - i,
{
    if i < 0 || i >= s.len() {
        seq![]
    } else if tag_ref_at(s, i) {
        let e = tag_end(s, i + 1);
        proof {
            lemma_tag_end_bounds(s, i + 1);
        }
        (match tag_content(tags, s.subrange(i + 1, e)) {
            Some(c) => c,
            None => s.subrange(i, e),
        }) + expand_from(s, tags, e)
    } else {
        seq![s[i]] + expand_from(s, tags, i + 1)
    }
}

/// The text of tags given as name and content pairs.
pub open spec fn tag_views(tags: Seq<(String, String)>) -> Seq<(Seq<char>, Seq<char>)> {
    tags.map_values(|t: (String, String)| (t.0@, t.1@))
}

/// What replaces the reference `whole` to the tag `name`: the tag's content, or
/// the reference itself when no tag has that name.
pub fn tag_replacement(tags: &Vec<(String, String)>, name: &str, whole: &str) -> (r: String)
    ensures
        r@ == match tag_content(tag_views(tags@), name@) {
            Some(c) => c,
            None => whole@,
        },
{
    let ghost tv = tag_views(tags@);
    let mut k: usize = tags.len();
    assert(tv.take(k as int) == tv);
    while k > 0
        invariant
            k <= tags@.len(),
            tv == tag_views(tags@),
            tag_content(tv, name@) == tag_content(tv.take(k as int), name@),
        decreases k,
    {
        assert(tv.take(k as int).last() == (tags@[k - 1].0@, tags@[k - 1].1@));
        assert(tv.take(k as int).drop_last() == tv.take(k - 1));
        if str_eq(tags[k - 1].0.as_str(), name) {
            return tags[k - 1].1.clone();
        }
        k = k - 1;
    }
    String::from_str(whole)
}

/// Whether the text holds a tag reference (`Regex::new(r"@([^\s@]+)")` and
/// `is_match`; the pattern is valid, so building it does not fail). `\s` is
/// Unicode white space, as `char::is_whitespace` reads it.
#[verifier::external_body]
fn tag_pattern_matches(text: &str) -> (r: bool)
    ensures
        r == has_tag_ref(text@),
{
    regex::Regex::new(r"@([^\s@]+)").unwrap().is_match(text)
}

/// Replaces each tag reference with `Regex::replace_all` on `@([^\s@]+)`: the
/// matches are found leftmost first without overlap, and `+` is greedy, so each
/// match is an `@` and the longest following run of tag-name characters. The
/// replacement of each match is computed by `tag_replacement`.
#[verifier::external_body]
fn replace_tag_refs(text: &str, tags: &Vec<(String, String)>) -> (r: String)
    ensures
        r@ == expand_from(text@, tag_views(tags@), 0),
{
    regex::Regex::new(r"@([^\s@]+)")
        .unwrap()
        .replace_all(text, |caps: &regex::Captures| tag_replacement(tags, &caps[1], &caps[0]))
        .into_owned()
}

/// Whether the text holds a reference `@name`; only then are tags looked up.
pub fn mentions_tags(text: &str) -> (r: bool)
    ensures
        r == has_tag_ref(text@),
{
    tag_pattern_matches(text)
}

/// Expands each reference `@name` in the text with the content of the tag of
/// that name; references to unknown tags are kept. Text without references is
/// returned as it is.
pub fn expand_tags(text: &str, tags: &Vec<(String, String)>) -> (r: String)
    ensures
        r@ == expand_from(text@, tag_views(tags@), 0),
{
    if !tag_pattern_matches(text) {
        proof {
            lemma_no_refs_unchanged(text@, tag_views(tags@), 0);
            assert(text@.skip(0) == text@);
        }
        return String::from_str(text);
    }
    replace_tag_refs(text, tags)
}

/// Text without tag references is left as it is.
pub proof fn lemma_no_refs_unchanged(s: Seq<char>, tags: Seq<(Seq<char>, Seq<char>)>, i: int)
    requires
        !has_tag_ref(s),
        0 <= i <= s.len(),
    ensures
        expand_from(s, tags, i) == s.skip(i),
    decreases s.len() - i,
{
    if i < s.len() {
        assert(!tag_ref_at(s, i));
        lemma_no_refs_unchanged(s, tags, i + 1);
        assert(s.skip(i) == seq![s[i]] + s.skip(i + 1));
    } else {
        assert(s.skip(i) =~= Seq::<char>::empty());
    }
}

/// Expanding references with no tags known leaves the text unchanged.
pub proof fn lemma_unknown_tags_kept(s: Seq<char>, i: int)
    requires
        0 <= i <= s.len(),
    ensures
        expand_from(s, Seq::empty(), i) == s.skip(i),
    decreases s.len() - i,
{
    if i < s.len() {
        if tag_ref_at(s, i) {
            let e = tag_end(s, i + 1);
            lemma_tag_end_bounds(s, i + 1);
            lemma_unknown_tags_kept(s, e);
            assert(s.skip(i) == s.subrange(i, e) + s.skip(e));
        } else {
            lemma_unknown_tags_kept(s, i + 1);
            assert(s.skip(i) == seq![s[i]] + s.skip(i + 1));
        }
    } else {
        assert(s.skip(i) =~= Seq::<char>::empty());
    }
}

} // verus!
