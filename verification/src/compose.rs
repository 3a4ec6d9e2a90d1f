//! Composing text from pieces: joining with a separator and cutting at a byte cap.
use vstd::prelude::*;
use vstd::string::*;
use vstd::utf8::*;
use crate::text::byte_len;

verus! {

broadcast use encode_utf8_valid_utf8, is_char_boundary_start_end_of_seq;

/// Pieces joined with `sep` between them (`[String]::join(sep)`).
pub open spec fn join_with(ls: Seq<Seq<char>>, sep: Seq<char>) -> Seq<char>
    decreases ls.len(),
{
    if ls.len() == 0 {
        seq![]
    } else if ls.len() == 1 {
        ls[0]
    } else {
        join_with(ls.drop_last(), sep) + sep + ls.last()
    }
}

/// The texts of strings.
pub open spec fn string_views(v: Seq<String>) -> Seq<Seq<char>> {
    v.map_values(|s: String| s@)
}

/// Appends the strings of `parts` joined with `sep`.
pub fn push_joined(p: &mut String, parts: &Vec<String>, sep: &str)
    ensures
        final(p)@ == old(p)@ + join_with(string_views(parts@), sep@),
{
    let ghost start = p@;
    let mut i: usize = 0;
    while i < parts.len()
        invariant
            i <= parts@.len(),
            p@ == start + join_with(string_views(parts@).take(i as int), sep@),
        decreases parts@.len() - i,
    {
        if i > 0 {
            p.append(sep);
        }
        p.append(parts[i].as_str());
        assert(string_views(parts@).take(i + 1).drop_last() == string_views(parts@).take(i as int));
        assert(string_views(parts@).take(1) =~= seq![parts@[0]@]);
        i = i + 1;
    }
    assert(string_views(parts@).take(parts@.len() as int) == string_views(parts@));
}

/// `t` can be cut to its first `cap` bytes: the cut falls on a character
/// boundary when `t` is longer. (The length bound is a machine limit.)
pub open spec fn cut_ok(t: Seq<char>, cap: usize) -> bool {
    byte_len(t) <= usize::MAX && (byte_len(t) > cap ==> is_char_boundary(encode_utf8(t), cap as int))
}

/// `r` is `t` cut to its first `cap` bytes when longer, else `t` itself.
pub open spec fn is_cut(t: Seq<char>, cap: usize, r: Seq<char>) -> bool {
    if byte_len(t) > cap {
        encode_utf8(r) == encode_utf8(t).take(cap as int)
    } else {
        r == t
    }
}

/// The first `cap` bytes of `s`, or all of it when shorter (`&s[..cap]`).
pub fn head_bytes(s: &str, cap: usize) -> (r: &str)
    requires
        cut_ok(s@, cap),
    ensures
        is_cut(s@, cap, r@),
{
    if s.len() > cap {
        let (head, _tail) = s.split_at(cap);
        proof {
            encode_utf8_decode_utf8(head@);
        }
        head
    } else {
        s
    }
}

} // verus!
