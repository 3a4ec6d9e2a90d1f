//! Matching a worktree against the site table printed by `herd links`.
use vstd::prelude::*;
use vstd::string::*;
use crate::paths::{path_starts_with, path_equal, path_has_prefix, paths_equal};
use crate::text::{
    has_prefix, trim, lines_of, split_on, to_chars, line_ranges, trim_bounds, split_ranges,
    slice_eq, starts_with, push_chars, range_texts, ranges_in, opt_text,
};

verus! {

/// Whether the site path and the worktree path are the same, or one lies inside the other.
pub open spec fn site_matches(site_path: Seq<char>, worktree: Seq<char>) -> bool {
    path_equal(site_path, worktree) || path_starts_with(site_path, worktree) || path_starts_with(
        worktree,
        site_path,
    )
}

/// The URL a table row links to the worktree, if it is a data row for it:
/// its URL column when that starts with `http`, else `http://<site>.test`.
pub open spec fn herd_row_url(line: Seq<char>, worktree: Seq<char>) -> Option<Seq<char>> {
    let t = trim(line);
    if has_prefix(t, "+"@) || !has_prefix(t, "|"@) {
        None
    } else {
        let parts = split_on(t, '|');
        if parts.len() < 5 {
            None
        } else {
            let site = trim(parts[1]);
            let url = trim(parts[3]);
            let path = trim(parts[4]);
            if site == "Site"@ || path == "Path"@ || site.len() == 0 || path.len() == 0 {
                None
            } else if site_matches(path, worktree) {
                if url.len() > 0 && has_prefix(url, "http"@) {
                    Some(url)
                } else {
                    Some("http://"@ + site + ".test"@)
                }
            } else {
                None
            }
        }
    }
}

/// The URL of the first row among `ls` that links the worktree.
pub open spec fn herd_url_in_lines(ls: Seq<Seq<char>>, worktree: Seq<char>) -> Option<Seq<char>>
    decreases ls.len(),
{
    if ls.len() == 0 {
        None
    } else {
        match herd_row_url(ls[0], worktree) {
            Some(u) => Some(u),
            None => herd_url_in_lines(ls.drop_first(), worktree),
        }
    }
}

proof fn lemma_herd_url_split(ls: Seq<Seq<char>>, i: int, worktree: Seq<char>)
    requires
        0 <= i <= ls.len(),
        forall|j: int| 0 <= j < i ==> herd_row_url(#[trigger] ls[j], worktree) is None,
    ensures
        herd_url_in_lines(ls, worktree) == herd_url_in_lines(ls.skip(i), worktree),
    decreases i,
{
    if i > 0 {
        lemma_herd_url_split(ls, i - 1, worktree);
        assert(ls.skip(i - 1).drop_first() == ls.skip(i));
        assert(ls.skip(i - 1)[0] == ls[i - 1]);
        assert(herd_row_url(ls[i - 1], worktree) is None);
        let t = ls.skip(i - 1);
        assert(t.len() > 0);
        assert(herd_url_in_lines(t, worktree) == herd_url_in_lines(t.drop_first(), worktree));
    } else {
        assert(ls.skip(0) =~= ls);
    }
}

fn row_url(v: &[char], a: usize, b: usize, worktree: &str) -> (r: Option<String>)
    requires
        a <= b <= v@.len(),
    ensures
        opt_text(r) == herd_row_url(v@.subrange(a as int, b as int), worktree@),
{
    let ghost line = v@.subrange(a as int, b as int);
    let (ta, tb) = trim_bounds(v, a, b);
    let ghost t = v@.subrange(ta as int, tb as int);
    let plus = to_chars("+");
    let bar = to_chars("|");
    if starts_with(v, ta, tb, &plus) || !starts_with(v, ta, tb, &bar) {
        return None;
    }
    let parts = split_ranges(v, ta, tb, '|');
    let ghost texts = range_texts(v@, parts@);
    if parts.len() < 5 {
        return None;
    }
    let (s0, s1) = parts[1];
    let (u0, u1) = parts[3];
    let (p0, p1) = parts[4];
    assert(parts@[1].0 <= parts@[1].1 <= v@.len());
    assert(parts@[3].0 <= parts@[3].1 <= v@.len());
    assert(parts@[4].0 <= parts@[4].1 <= v@.len());
    assert(texts[1] == v@.subrange(s0 as int, s1 as int));
    assert(texts[3] == v@.subrange(u0 as int, u1 as int));
    assert(texts[4] == v@.subrange(p0 as int, p1 as int));
    let (sa, sb) = trim_bounds(v, s0, s1);
    let (ua, ub) = trim_bounds(v, u0, u1);
    let (pa, pb) = trim_bounds(v, p0, p1);
    let site_word = to_chars("Site");
    let path_word = to_chars("Path");
    if slice_eq(v, sa, sb, &site_word) || slice_eq(v, pa, pb, &path_word) || sa == sb || pa == pb {
        return None;
    }
    let site_path = crate::text::string_from_chars(v, pa, pb);
    if paths_equal(site_path.as_str(), worktree) || path_has_prefix(site_path.as_str(), worktree)
        || path_has_prefix(worktree, site_path.as_str()) {
        let http = to_chars("http");
        if ua < ub && starts_with(v, ua, ub, &http) {
            Some(crate::text::string_from_chars(v, ua, ub))
        } else {
            let mut out = String::new();
            out.append("http://");
            push_chars(&mut out, v, sa, sb);
            out.append(".test");
            Some(out)
        }
    } else {
        None
    }
}

/// Finds the URL of the Herd site linked to `worktree_path` (or to a path
/// containing it, or inside it) in the output of `herd links`.
pub fn parse_herd_links_output(output: &str, worktree_path: &str) -> (r: Option<String>)
    ensures
        opt_text(r) == herd_url_in_lines(lines_of(output@), worktree_path@),
{
    let v = to_chars(output);
    let ranges = line_ranges(&v);
    let ghost ls = lines_of(output@);
    let mut i: usize = 0;
    while i < ranges.len()
        invariant
            v@ == output@,
            i <= ranges@.len(),
            ranges_in(v@, ranges@),
            range_texts(v@, ranges@) == ls,
            ls == lines_of(output@),
            forall|j: int| 0 <= j < i ==> herd_row_url(#[trigger] ls[j], worktree_path@) is None,
        decreases ranges@.len() - i,
    {
        let (a, b) = ranges[i];
        assert(ranges@[i as int].0 <= ranges@[i as int].1 <= v@.len());
        assert(ls[i as int] == v@.subrange(a as int, b as int));
        let r = row_url(&v, a, b, worktree_path);
        if r.is_some() {
            proof {
                lemma_herd_url_split(ls, i as int, worktree_path@);
                assert(ls.skip(i as int)[0] == ls[i as int]);
            }
            return r;
        }
        i = i + 1;
    }
    proof {
        lemma_herd_url_split(ls, i as int, worktree_path@);
        assert(ls.skip(i as int).len() == 0);
    }
    None
}

} // verus!
