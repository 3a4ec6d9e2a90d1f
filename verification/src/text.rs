//! Text utilities over UTF-8 strings, stated over the character view `s@`
//! and, where the original works in bytes, over the encoding `s.spec_bytes()`.
use vstd::prelude::*;
use vstd::string::*;
use vstd::utf8::*;

verus! {

broadcast use encode_utf8_valid_utf8, is_char_boundary_start_end_of_seq;

/// The largest character boundary of `bytes` that is at most `max`.
pub open spec fn boundary_floor(bytes: Seq<u8>, max: int) -> int
    decreases max,
{
    if max <= 0 {
        0
    } else if is_char_boundary(bytes, max) {
        max
    } else {
        boundary_floor(bytes, max - 1)
    }
}

/// `boundary_floor` is a boundary, at most `max`, and no larger boundary up to `max` exists.
pub proof fn lemma_boundary_floor(bytes: Seq<u8>, max: int)
    requires
        valid_utf8(bytes),
        0 <= max,
    ensures
        0 <= boundary_floor(bytes, max) <= max,
        is_char_boundary(bytes, boundary_floor(bytes, max)),
        forall|k: int|
            boundary_floor(bytes, max) < k <= max ==> !#[trigger] is_char_boundary(bytes, k),
    decreases max,
{
    if max > 0 && !is_char_boundary(bytes, max) {
        lemma_boundary_floor(bytes, max - 1);
    }
}

/// Truncates `content` to at most `max_len` bytes without splitting a character:
/// the result is the longest prefix whose encoding ends on a character boundary
/// at or before byte `max_len`.
pub fn truncate_to_char_boundary(content: &str, max_len: usize) -> (r: &str)
    requires
        content.spec_bytes().len() <= usize::MAX,
    ensures
        content.spec_bytes().len() <= max_len ==> r@ == content@,
        content.spec_bytes().len() > max_len ==> r.spec_bytes() == content.spec_bytes().subrange(
            0,
            boundary_floor(content.spec_bytes(), max_len as int),
        ),
        r.spec_bytes().len() <= max_len || r@ == content@,
        r@.len() <= content@.len(),
        r@ == content@.subrange(0, r@.len() as int),
{
    if content.len() <= max_len {
        return content;
    }
    let ghost bytes = content.spec_bytes();
    let mut cutoff: usize = max_len;
    while cutoff > 0 && !content.is_char_boundary(cutoff)
        invariant
            bytes == content.spec_bytes(),
            valid_utf8(bytes),
            cutoff <= max_len < bytes.len(),
            boundary_floor(bytes, cutoff as int) == boundary_floor(bytes, max_len as int),
        decreases cutoff,
    {
        cutoff = cutoff - 1;
    }
    proof {
        lemma_boundary_floor(bytes, max_len as int);
        assert(is_char_boundary(bytes, cutoff as int));
    }
    let (head, _tail) = content.split_at(cutoff);
    proof {
        lemma_prefix_view(content, head, cutoff as int);
    }
    head
}

/// A string whose encoding is a boundary-prefix of another's encoding is a prefix of it.
pub proof fn lemma_prefix_view(whole: &str, part: &str, cut: int)
    requires
        is_char_boundary(whole.spec_bytes(), cut),
        part.spec_bytes() == whole.spec_bytes().subrange(0, cut),
    ensures
        part@.len() <= whole@.len(),
        part@ == whole@.subrange(0, part@.len() as int),
{
    let bytes = whole.spec_bytes();
    encode_utf8_decode_utf8(whole@);
    encode_utf8_decode_utf8(part@);
    decode_utf8_split(bytes, cut);
    assert(whole@ == part@ + decode_utf8(bytes.subrange(cut, bytes.len() as int)));
    assert(part@ == whole@.subrange(0, part@.len() as int));
}


/// Collects the characters of `s`.
pub fn to_chars(s: &str) -> (v: Vec<char>)
    ensures
        v@ == s@,
{
    broadcast use vstd::string::group_string_axioms;

    let mut v: Vec<char> = Vec::new();
    for c in it: s.chars()
        invariant
            it.seq() == s@,
            v@ == it.seq().take(it.index() as int),
    {
        v.push(c);
    }
    v
}

/// Appends one character (std's `String::push`).
#[verifier::external_body]
pub(crate) fn push_char(s: &mut String, c: char)
    ensures
        final(s)@ == old(s)@.push(c),
{
    s.push(c);
}

/// Builds a string from the characters `v[from..to]`.
pub fn string_from_chars(v: &[char], from: usize, to: usize) -> (s: String)
    requires
        from <= to <= v@.len(),
    ensures
        s@ == v@.subrange(from as int, to as int),
{
    let mut s = String::new();
    let mut i = from;
    while i < to
        invariant
            from <= i <= to <= v@.len(),
            s@ == v@.subrange(from as int, i as int),
        decreases to - i,
    {
        push_char(&mut s, v[i]);
        assert(v@.subrange(from as int, i + 1) == v@.subrange(from as int, i as int).push(v@[i as int]));
        i = i + 1;
    }
    s
}


/// Unicode `White_Space`, as std's `char::is_whitespace` documents it.
pub open spec fn is_ws(c: char) -> bool {
    let u = c as u32;
    ||| 0x09 <= u <= 0x0d
    ||| u == 0x20
    ||| u == 0x85
    ||| u == 0xa0
    ||| u == 0x1680
    ||| 0x2000 <= u <= 0x200a
    ||| u == 0x2028
    ||| u == 0x2029
    ||| u == 0x202f
    ||| u == 0x205f
    ||| u == 0x3000
}

/// Whether `c` is whitespace (`char::is_whitespace`).
pub fn is_whitespace(c: char) -> (r: bool)
    ensures
        r == is_ws(c),
{
    let u = c as u32;
    (0x09 <= u && u <= 0x0d) || u == 0x20 || u == 0x85 || u == 0xa0 || u == 0x1680 || (0x2000
        <= u && u <= 0x200a) || u == 0x2028 || u == 0x2029 || u == 0x202f || u == 0x205f || u
        == 0x3000
}

/// Number of whitespace characters at the start of `s`.
pub open spec fn leading_ws(s: Seq<char>) -> nat
    decreases s.len(),
{
    if s.len() > 0 && is_ws(s[0]) {
        1 + leading_ws(s.drop_first())
    } else {
        0
    }
}

/// Number of whitespace characters at the end of `s`.
pub open spec fn trailing_ws(s: Seq<char>) -> nat
    decreases s.len(),
{
    if s.len() > 0 && is_ws(s.last()) {
        1 + trailing_ws(s.drop_last())
    } else {
        0
    }
}

/// `str::trim_start`.
pub open spec fn trim_start(s: Seq<char>) -> Seq<char> {
    s.skip(leading_ws(s) as int)
}

/// `str::trim_end`.
pub open spec fn trim_end(s: Seq<char>) -> Seq<char> {
    s.take(s.len() - trailing_ws(s))
}

/// `str::trim`.
pub open spec fn trim(s: Seq<char>) -> Seq<char> {
    trim_end(trim_start(s))
}

pub proof fn lemma_leading_ws_bound(s: Seq<char>)
    ensures
        leading_ws(s) <= s.len(),
    decreases s.len(),
{
    if s.len() > 0 && is_ws(s[0]) {
        lemma_leading_ws_bound(s.drop_first());
    }
}

pub proof fn lemma_trailing_ws_bound(s: Seq<char>)
    ensures
        trailing_ws(s) <= s.len(),
    decreases s.len(),
{
    if s.len() > 0 && is_ws(s.last()) {
        lemma_trailing_ws_bound(s.drop_last());
    }
}

/// Index of the first non-whitespace character of `v[from..to]` (or `to`).
pub fn skip_ws_forward(v: &[char], from: usize, to: usize) -> (i: usize)
    requires
        from <= to <= v@.len(),
    ensures
        i == from + leading_ws(v@.subrange(from as int, to as int)),
        from <= i <= to,
{
    let mut i = from;
    while i < to && is_whitespace(v[i])
        invariant
            from <= i <= to <= v@.len(),
            leading_ws(v@.subrange(from as int, to as int)) == (i - from) + leading_ws(
                v@.subrange(i as int, to as int),
            ),
        decreases to - i,
    {
        assert(v@.subrange(i as int, to as int).drop_first() == v@.subrange(i + 1, to as int));
        i = i + 1;
    }
    i
}

/// Index just past the last non-whitespace character of `v[from..to]` (or `from`).
pub fn skip_ws_backward(v: &[char], from: usize, to: usize) -> (j: usize)
    requires
        from <= to <= v@.len(),
    ensures
        j == to - trailing_ws(v@.subrange(from as int, to as int)),
        from <= j <= to,
{
    let mut j = to;
    while j > from && is_whitespace(v[j - 1])
        invariant
            from <= j <= to <= v@.len(),
            trailing_ws(v@.subrange(from as int, to as int)) == (to - j) + trailing_ws(
                v@.subrange(from as int, j as int),
            ),
        decreases j - from,
    {
        assert(v@.subrange(from as int, j as int).drop_last() == v@.subrange(from as int, j - 1));
        j = j - 1;
    }
    j
}

/// Bounds of `trim(v[from..to])` inside `v`.
pub fn trim_bounds(v: &[char], from: usize, to: usize) -> (r: (usize, usize))
    requires
        from <= to <= v@.len(),
    ensures
        from <= r.0 <= r.1 <= to,
        v@.subrange(r.0 as int, r.1 as int) == trim(v@.subrange(from as int, to as int)),
{
    let a = skip_ws_forward(v, from, to);
    let b = skip_ws_backward(v, a, to);
    proof {
        let s = v@.subrange(from as int, to as int);
        assert(trim_start(s) == v@.subrange(a as int, to as int));
        assert(trim(s) == v@.subrange(a as int, b as int));
    }
    (a, b)
}

/// `s` begins with `p`.
pub open spec fn has_prefix(s: Seq<char>, p: Seq<char>) -> bool {
    p.len() <= s.len() && s.take(p.len() as int) == p
}

/// `s` ends with `p`.
pub open spec fn has_suffix(s: Seq<char>, p: Seq<char>) -> bool {
    p.len() <= s.len() && s.skip(s.len() - p.len()) == p
}

/// `p` occurs in `s` starting at `i`.
pub open spec fn occurs_at(s: Seq<char>, p: Seq<char>, i: int) -> bool {
    0 <= i && i + p.len() <= s.len() && s.subrange(i, i + p.len()) == p
}

/// `p` occurs somewhere in `s` (`str::contains`).
pub open spec fn has_infix(s: Seq<char>, p: Seq<char>) -> bool {
    exists|i: int| occurs_at(s, p, i)
}

/// Whether `v[at..to]` begins with `p`.
pub fn matches_at(v: &[char], at: usize, to: usize, p: &[char]) -> (r: bool)
    requires
        at <= to <= v@.len(),
    ensures
        r == has_prefix(v@.subrange(at as int, to as int), p@),
        r == occurs_at(v@.subrange(0, to as int), p@, at as int),
{
    if p.len() > to - at {
        return false;
    }
    let mut k: usize = 0;
    while k < p.len()
        invariant
            at <= to <= v@.len(),
            p@.len() <= to - at,
            k <= p@.len(),
            forall|j: int| 0 <= j < k ==> v@[at + j] == p@[j],
        decreases p.len() - k,
    {
        if v[at + k] != p[k] {
            proof {
                assert(v@.subrange(at as int, to as int).take(p@.len() as int)[k as int] != p@[k as int]);
                assert(v@.subrange(0, to as int).subrange(at as int, at + p@.len())[k as int] != p@[k as int]);
            }
            return false;
        }
        k = k + 1;
    }
    assert(v@.subrange(at as int, to as int).take(p@.len() as int) == p@);
    assert(v@.subrange(0, to as int).subrange(at as int, at + p@.len()) == p@);
    true
}

/// Whether `v[from..to]` begins with `p`.
pub fn starts_with(v: &[char], from: usize, to: usize, p: &[char]) -> (r: bool)
    requires
        from <= to <= v@.len(),
    ensures
        r == has_prefix(v@.subrange(from as int, to as int), p@),
{
    matches_at(v, from, to, p)
}

/// Whether `v[from..to]` ends with `p`.
pub fn ends_with(v: &[char], from: usize, to: usize, p: &[char]) -> (r: bool)
    requires
        from <= to <= v@.len(),
    ensures
        r == has_suffix(v@.subrange(from as int, to as int), p@),
{
    if p.len() > to - from {
        return false;
    }
    let r = matches_at(v, to - p.len(), to, p);
    assert(v@.subrange((to - p@.len()) as int, to as int).take(p@.len() as int) == v@.subrange(
        (to - p@.len()) as int,
        to as int,
    ));
    assert(v@.subrange((to - p@.len()) as int, to as int) == v@.subrange(from as int, to as int).skip(
        (to - from) - p@.len(),
    ));
    assert(p@.len() <= to - p@.len() ==> true);
    r
}

/// Whether `p` occurs in `v[from..to]`.
pub fn contains(v: &[char], from: usize, to: usize, p: &[char]) -> (r: bool)
    requires
        from <= to <= v@.len(),
    ensures
        r == has_infix(v@.subrange(from as int, to as int), p@),
{
    let ghost s = v@.subrange(from as int, to as int);
    if p.len() > to - from {
        assert forall|i: int| !occurs_at(s, p@, i) by {}
        return false;
    }
    if p.len() == 0 {
        assert(s.subrange(0, 0) =~= p@);
        assert(occurs_at(s, p@, 0));
        return true;
    }
    let last = to - p.len();
    let mut i = from;
    while i <= last
        invariant
            from <= i <= last + 1,
            last + p@.len() == to,
            p@.len() >= 1,
            to <= v@.len(),
            s == v@.subrange(from as int, to as int),
            forall|j: int| 0 <= j < i - from ==> !occurs_at(s, p@, j),
        decreases last + 1 - i,
    {
        if matches_at(v, i, to, p) {
            assert(s.subrange(i - from, i - from + p@.len()) == v@.subrange(0, to as int).subrange(i as int, i + p@.len()));
            assert(occurs_at(s, p@, i - from));
            return true;
        }
        assert(s.subrange(i - from, i - from + p@.len()) == v@.subrange(0, to as int).subrange(i as int, i + p@.len()));
        i = i + 1;
    }
    assert forall|j: int| !occurs_at(s, p@, j) by {
        if 0 <= j && j + p@.len() <= s.len() {
            assert(j < i - from);
        }
    }
    false
}


/// A `{` at `i` whose next non-whitespace character is `"`: the start of a JSON object.
pub open spec fn json_open_at(s: Seq<char>, i: int) -> bool {
    0 <= i < s.len() && s[i] == '{' && has_prefix(trim_start(s.skip(i + 1)), seq!['"'])
}

/// The first JSON object start in `s`.
pub open spec fn is_first_json_open(s: Seq<char>, i: int) -> bool {
    json_open_at(s, i) && forall|j: int| 0 <= j < i ==> !#[trigger] json_open_at(s, j)
}

/// `k` is the position of the last `}` in `s`.
pub open spec fn is_last_close(s: Seq<char>, k: int) -> bool {
    0 <= k < s.len() && s[k] == '}' && forall|j: int| k < j < s.len() ==> s[j] != '}'
}

/// `s` holds a `}`.
pub open spec fn has_close(s: Seq<char>) -> bool {
    exists|k: int| 0 <= k < s.len() && s[k] == '}'
}

/// `s` holds a JSON object start.
pub open spec fn has_json_open(s: Seq<char>) -> bool {
    exists|i: int| json_open_at(s, i)
}

/// Inputs on which slicing from the first object start to the last `}` is well formed.
pub open spec fn json_span_ordered(s: Seq<char>) -> bool {
    forall|i: int, k: int| is_first_json_open(s, i) && is_last_close(s, k) ==> i <= k
}

/// The text from the first JSON object start (a `{` followed, after optional
/// whitespace, by `"`) through the last `}`, skipping bare braces such as those
/// of URL templates.
pub fn find_json_object_start(s: &str) -> (r: Option<&str>)
    requires
        json_span_ordered(s@),
    ensures
        r is None <==> !has_close(s@) || !has_json_open(s@),
        r matches Some(t) ==> exists|i: int, k: int|
            is_first_json_open(s@, i) && is_last_close(s@, k) && t@ == s@.subrange(i, k + 1),
{
    let v = to_chars(s);
    let n = v.len();
    let mut k: usize = n;
    while k > 0 && v[k - 1] != '}'
        invariant
            k <= n == v@.len(),
            forall|j: int| k <= j < n ==> v@[j] != '}',
        decreases k,
    {
        k = k - 1;
    }
    if k == 0 {
        return None;
    }
    let last = k - 1;
    assert(is_last_close(v@, last as int));
    let mut i: usize = 0;
    while i < n
        invariant
            i <= n == v@.len(),
            v@ == s@,
            is_last_close(v@, last as int),
            json_span_ordered(v@),
            forall|j: int| 0 <= j < i ==> !#[trigger] json_open_at(v@, j),
        decreases n - i,
    {
        let ghost rest = v@.skip(i + 1);
        if v[i] == '{' {
            let j = skip_ws_forward(&v, i + 1, n);
            proof {
                assert(rest == v@.subrange(i + 1, n as int));
                lemma_leading_ws_bound(rest);
                assert(trim_start(rest) == v@.subrange(j as int, n as int));
            }
            if j < n && v[j] == '"' {
                assert(trim_start(rest).take(1) =~= seq!['"']);
                assert(is_first_json_open(v@, i as int));
                return Some(s.substring_char(i, last + 1));
            }
            assert(!has_prefix(trim_start(rest), seq!['"'])) by {
                if j < n {
                    assert(trim_start(rest).take(1)[0] == v@[j as int]);
                }
            }
        }
        i = i + 1;
    }
    None
}


/// Number of bytes in the UTF-8 encoding of `s`.
pub open spec fn byte_len(s: Seq<char>) -> int {
    encode_utf8(s).len() as int
}

/// Encoding distributes over concatenation.
pub proof fn lemma_encode_concat(a: Seq<char>, b: Seq<char>)
    ensures
        encode_utf8(a + b) == encode_utf8(a) + encode_utf8(b),
    decreases a.len(),
{
    if a.len() > 0 {
        assert((a + b).drop_first() == a.drop_first() + b);
        lemma_encode_concat(a.drop_first(), b);
    } else {
        assert(a + b == b);
    }
}

/// A piece of a string never encodes to more bytes than the whole.
pub proof fn lemma_byte_len_subrange(s: Seq<char>, i: int, j: int)
    requires
        0 <= i <= j <= s.len(),
    ensures
        byte_len(s.subrange(i, j)) <= byte_len(s),
{
    lemma_encode_concat(s.subrange(0, i), s.subrange(i, s.len() as int));
    lemma_encode_concat(s.subrange(i, j), s.subrange(j, s.len() as int));
    assert(s.subrange(0, i) + s.subrange(i, s.len() as int) == s);
    assert(s.subrange(i, j) + s.subrange(j, s.len() as int) == s.subrange(i, s.len() as int));
}

/// Drops one trailing carriage return.
pub open spec fn drop_cr(seg: Seq<char>) -> Seq<char> {
    if seg.len() > 0 && seg.last() == '\r' {
        seg.drop_last()
    } else {
        seg
    }
}

/// Position of the first `\n` at or after `i`, or `s.len()`.
pub open spec fn next_newline(s: Seq<char>, i: int) -> int
    decreases s.len() - i,
{
    if i < 0 || i >= s.len() {
        s.len() as int
    } else if s[i] == '\n' {
        i
    } else {
        next_newline(s, i + 1)
    }
}

pub proof fn lemma_next_newline(s: Seq<char>, i: int)
    requires
        0 <= i <= s.len(),
    ensures
        i <= next_newline(s, i) <= s.len(),
        next_newline(s, i) < s.len() ==> s[next_newline(s, i)] == '\n',
        forall|j: int| i <= j < next_newline(s, i) ==> s[j] != '\n',
    decreases s.len() - i,
{
    if i < s.len() && s[i] != '\n' {
        lemma_next_newline(s, i + 1);
    }
}

/// The lines of `s[start..]` as `str::lines` yields them: split at `\n`,
/// a `\r` before the `\n` removed, no empty line after a final `\n`.
pub open spec fn lines_from(s: Seq<char>, start: int) -> Seq<Seq<char>>
    decreases s.len() - start,
{
    if start < 0 || start >= s.len() {
        seq![]
    } else {
        let k = next_newline(s, start);
        if k < s.len() {
            proof {
                lemma_next_newline(s, start);
            }
            seq![drop_cr(s.subrange(start, k))] + lines_from(s, k + 1)
        } else {
            seq![s.subrange(start, s.len() as int)]
        }
    }
}

/// `str::lines`.
pub open spec fn lines_of(s: Seq<char>) -> Seq<Seq<char>> {
    lines_from(s, 0)
}

/// The text of each range of `v`.
pub open spec fn range_texts(v: Seq<char>, ranges: Seq<(usize, usize)>) -> Seq<Seq<char>> {
    ranges.map_values(|r: (usize, usize)| v.subrange(r.0 as int, r.1 as int))
}

/// All ranges lie inside `v`.
pub open spec fn ranges_in(v: Seq<char>, ranges: Seq<(usize, usize)>) -> bool {
    forall|i: int| 0 <= i < ranges.len() ==> #[trigger] ranges[i].0 <= ranges[i].1 <= v.len()
}

/// The character ranges of the lines of `v` (see `lines_of`).
pub fn line_ranges(v: &[char]) -> (out: Vec<(usize, usize)>)
    ensures
        ranges_in(v@, out@),
        range_texts(v@, out@) == lines_of(v@),
{
    let n = v.len();
    let mut out: Vec<(usize, usize)> = Vec::new();
    let mut start: usize = 0;
    while start < n
        invariant
            n == v@.len(),
            start <= n,
            ranges_in(v@, out@),
            lines_of(v@) == range_texts(v@, out@) + lines_from(v@, start as int),
        decreases n - start,
    {
        let mut k = start;
        while k < n && v[k] != '\n'
            invariant
                start <= k <= n == v@.len(),
                next_newline(v@, start as int) == next_newline(v@, k as int),
            decreases n - k,
        {
            k = k + 1;
        }
        let ghost old_out = out@;
        let ghost seg = v@.subrange(start as int, k as int);
        if k < n {
            let end = if k > start && v[k - 1] == '\r' {
                k - 1
            } else {
                k
            };
            out.push((start, end));
            proof {
                assert(drop_cr(seg) == v@.subrange(start as int, end as int));
                assert(range_texts(v@, out@) == range_texts(v@, old_out).push(v@.subrange(start as int, end as int)));
                assert(lines_from(v@, start as int) == seq![drop_cr(seg)] + lines_from(v@, k + 1));
            }
            start = k + 1;
        } else {
            out.push((start, n));
            proof {
                assert(range_texts(v@, out@) == range_texts(v@, old_out).push(v@.subrange(start as int, n as int)));
                assert(lines_from(v@, n as int) == Seq::<Seq<char>>::empty());
            }
            start = n;
        }
    }
    assert(lines_from(v@, start as int) == Seq::<Seq<char>>::empty());
    out
}


/// `v[from..to]` equals `p`.
pub fn slice_eq(v: &[char], from: usize, to: usize, p: &[char]) -> (r: bool)
    requires
        from <= to <= v@.len(),
    ensures
        r == (v@.subrange(from as int, to as int) == p@),
{
    if to - from != p.len() {
        return false;
    }
    let r = starts_with(v, from, to, p);
    assert(v@.subrange(from as int, to as int).take(p@.len() as int) == v@.subrange(from as int, to as int));
    r
}

/// Appends `v[from..to]` to `s`.
pub fn push_chars(s: &mut String, v: &[char], from: usize, to: usize)
    requires
        from <= to <= v@.len(),
    ensures
        final(s)@ == old(s)@ + v@.subrange(from as int, to as int),
{
    let mut i = from;
    while i < to
        invariant
            from <= i <= to <= v@.len(),
            s@ == old(s)@ + v@.subrange(from as int, i as int),
        decreases to - i,
    {
        push_char(s, v[i]);
        assert(v@.subrange(from as int, i + 1) == v@.subrange(from as int, i as int).push(v@[i as int]));
        i = i + 1;
    }
}

/// The result of std's `str::to_lowercase` on `s` (full Unicode case mapping).
pub uninterp spec fn lowercase_of(s: Seq<char>) -> Seq<char>;

/// Lower-cases `s` with std's `str::to_lowercase`; the mapping is named, not restated.
#[verifier::external_body]
pub(crate) fn to_lowercase(s: &str) -> (r: String)
    ensures
        r@ == lowercase_of(s@),
{
    s.to_lowercase()
}

/// Lines joined with `\n` between them (`[&str]::join("\n")`).
pub open spec fn join_lines(ls: Seq<Seq<char>>) -> Seq<char>
    decreases ls.len(),
{
    if ls.len() == 0 {
        seq![]
    } else if ls.len() == 1 {
        ls[0]
    } else {
        join_lines(ls.drop_last()) + seq!['\n'] + ls.last()
    }
}


/// Position of the first `c` at or after `i`, or `s.len()`.
pub open spec fn next_occ(s: Seq<char>, c: char, i: int) -> int
    decreases s.len() - i,
{
    if i < 0 || i >= s.len() {
        s.len() as int
    } else if s[i] == c {
        i
    } else {
        next_occ(s, c, i + 1)
    }
}

pub proof fn lemma_next_occ(s: Seq<char>, c: char, i: int)
    requires
        0 <= i <= s.len(),
    ensures
        i <= next_occ(s, c, i) <= s.len(),
        next_occ(s, c, i) < s.len() ==> s[next_occ(s, c, i)] == c,
    decreases s.len() - i,
{
    if i < s.len() && s[i] != c {
        lemma_next_occ(s, c, i + 1);
    }
}

/// The pieces of `s[start..]` between occurrences of `c` (`str::split` with a char).
pub open spec fn split_from(s: Seq<char>, c: char, start: int) -> Seq<Seq<char>>
    decreases s.len() + 1 - start,
{
    if start < 0 || start > s.len() {
        seq![]
    } else {
        let k = next_occ(s, c, start);
        if k < s.len() {
            proof {
                lemma_next_occ(s, c, start);
            }
            seq![s.subrange(start, k)] + split_from(s, c, k + 1)
        } else {
            seq![s.subrange(start, s.len() as int)]
        }
    }
}

/// `str::split(c)`.
pub open spec fn split_on(s: Seq<char>, c: char) -> Seq<Seq<char>> {
    split_from(s, c, 0)
}

/// The ranges in `v` of the pieces of `v[from..to]` split at `c`.
#[verifier::spinoff_prover]
pub fn split_ranges(v: &[char], from: usize, to: usize, c: char) -> (out: Vec<(usize, usize)>)
    requires
        from <= to <= v@.len(),
    ensures
        ranges_in(v@, out@),
        range_texts(v@, out@) == split_on(v@.subrange(from as int, to as int), c),
        out@.len() >= 1,
{
    let ghost sub = v@.subrange(from as int, to as int);
    let mut out: Vec<(usize, usize)> = Vec::new();
    let mut start: usize = from;
    loop
        invariant
            from <= start <= to <= v@.len(),
            sub == v@.subrange(from as int, to as int),
            ranges_in(v@, out@),
            split_on(sub, c) == range_texts(v@, out@) + split_from(sub, c, start - from),
        decreases to - start,
    {
        let mut k = start;
        while k < to && v[k] != c
            invariant
                from <= start <= k <= to <= v@.len(),
                sub == v@.subrange(from as int, to as int),
                next_occ(sub, c, start - from) == next_occ(sub, c, k - from),
            decreases to - k,
        {
            k = k + 1;
        }
        let ghost old_out = out@;
        out.push((start, k));
        assert(ranges_in(v@, out@)) by {
            assert forall|i: int| 0 <= i < out@.len() implies #[trigger] out@[i].0 <= out@[i].1 <= v@.len() by {
                if i < old_out.len() {
                    assert(out@[i] == old_out[i]);
                }
            }
        }
        assert(sub.subrange(start - from, k - from) == v@.subrange(start as int, k as int));
        assert(range_texts(v@, out@) == range_texts(v@, old_out).push(v@.subrange(start as int, k as int)));
        if k == to {
            assert(split_from(sub, c, start - from) == seq![sub.subrange(start - from, sub.len() as int)]);
            return out;
        }
        assert(split_from(sub, c, start - from) == seq![sub.subrange(start - from, k - from)] + split_from(sub, c, k + 1 - from));
        start = k + 1;
    }
}


/// The text of an optional string.
pub open spec fn opt_text(o: Option<String>) -> Option<Seq<char>> {
    match o {
        Some(s) => Some(s@),
        None => None,
    }
}


/// Whether two strings hold the same characters.
pub fn str_eq(a: &str, b: &str) -> (r: bool)
    ensures
        r == (a@ == b@),
{
    let av = to_chars(a);
    let bv = to_chars(b);
    assert(av@.subrange(0, av@.len() as int) == av@);
    slice_eq(&av, 0, av.len(), &bv)
}


/// Scans for the last `}` and the first JSON object start of `v`.
fn json_span_positions(v: &[char]) -> (r: (Option<usize>, Option<usize>))
    ensures
        r.0 matches Some(i) ==> is_first_json_open(v@, i as int),
        r.0 is None ==> !has_json_open(v@),
        r.1 matches Some(k) ==> is_last_close(v@, k as int),
        r.1 is None ==> !has_close(v@),
{
    let n = v.len();
    let mut k: usize = n;
    while k > 0 && v[k - 1] != '}'
        invariant
            k <= n == v@.len(),
            forall|j: int| k <= j < n ==> v@[j] != '}',
        decreases k,
    {
        k = k - 1;
    }
    let close = if k == 0 {
        None
    } else {
        assert(is_last_close(v@, k - 1));
        Some(k - 1)
    };
    let mut i: usize = 0;
    while i < n
        invariant
            i <= n == v@.len(),
            forall|j: int| 0 <= j < i ==> !#[trigger] json_open_at(v@, j),
            close matches Some(c) ==> is_last_close(v@, c as int),
            close is None ==> !has_close(v@),
        decreases n - i,
    {
        let ghost rest = v@.skip(i + 1);
        if v[i] == '{' {
            let j = skip_ws_forward(v, i + 1, n);
            proof {
                assert(rest == v@.subrange(i + 1, n as int));
                lemma_leading_ws_bound(rest);
                assert(trim_start(rest) == v@.subrange(j as int, n as int));
            }
            if j < n && v[j] == '"' {
                assert(trim_start(rest).take(1) =~= seq!['"']);
                assert(is_first_json_open(v@, i as int));
                return (Some(i), close);
            }
            assert(!has_prefix(trim_start(rest), seq!['"'])) by {
                if j < n {
                    assert(trim_start(rest).take(1)[0] == v@[j as int]);
                }
            }
        }
        i = i + 1;
    }
    assert(!has_json_open(v@));
    (None, close)
}

proof fn lemma_first_open_unique(s: Seq<char>, i: int, j: int)
    requires
        is_first_json_open(s, i),
        is_first_json_open(s, j),
    ensures
        i == j,
{
    if i < j {
        assert(!json_open_at(s, i));
    } else if j < i {
        assert(!json_open_at(s, j));
    }
}

proof fn lemma_last_close_unique(s: Seq<char>, i: int, j: int)
    requires
        is_last_close(s, i),
        is_last_close(s, j),
    ensures
        i == j,
{
}

/// Whether `find_json_object_start` is defined on `s` (its object start, if
/// any, comes no later than its last `}`).
pub fn json_span_is_ordered(s: &str) -> (r: bool)
    ensures
        r == json_span_ordered(s@),
{
    let v = to_chars(s);
    let (open, close) = json_span_positions(&v);
    match (open, close) {
        (Some(i), Some(k)) => {
            proof {
                assert forall|a: int, b: int|
                    is_first_json_open(s@, a) && is_last_close(s@, b) implies a == i && b == k by {
                    lemma_first_open_unique(s@, a, i as int);
                    lemma_last_close_unique(s@, b, k as int);
                }
            }
            i <= k
        },
        _ => true,
    }
}

/// What is left of trimmed agent output after removing a surrounding markdown
/// code fence (an opening "```" or "```json", a closing "```"), trimmed again.
pub open spec fn strip_fences(t: Seq<char>) -> Seq<char> {
    if has_prefix(t, "```"@) {
        let w = if has_prefix(t, "```json"@) {
            t.skip(7)
        } else {
            t.skip(3)
        };
        trim(
            if has_suffix(w, "```"@) {
                w.take(w.len() - 3)
            } else {
                w
            },
        )
    } else {
        t
    }
}

/// The text of agent output that is handed to the JSON parser before any
/// search for an object start.
pub open spec fn json_candidate(output: Seq<char>) -> Seq<char> {
    strip_fences(trim(output))
}

/// The JSON text taken from agent output: the unfenced text when it starts with
/// `{`, else the span from its first object start to its last `}`, else the
/// unfenced text unchanged.
pub open spec fn json_payload(output: Seq<char>) -> Seq<char> {
    let j = json_candidate(output);
    if has_prefix(j, "{"@) {
        j
    } else if has_close(j) && has_json_open(j) {
        let (i, k) = choose|i: int, k: int| is_first_json_open(j, i) && is_last_close(j, k);
        j.subrange(i, k + 1)
    } else {
        j
    }
}

/// Inputs on which extracting the JSON text is well defined.
pub open spec fn json_payload_defined(output: Seq<char>) -> bool {
    !has_prefix(json_candidate(output), "{"@) ==> json_span_ordered(json_candidate(output))
}

/// The trimmed agent output with a surrounding markdown code fence removed.
pub fn json_candidate_string(output: &str) -> (r: String)
    ensures
        r@ == json_candidate(output@),
{
    let v = to_chars(output);
    let (a, b) = trim_bounds(&v, 0, v.len());
    assert(v@.subrange(0, v@.len() as int) == v@);
    let ghost t = v@.subrange(a as int, b as int);
    let fence = to_chars("```");
    let fence_json = to_chars("```json");
    proof {
        reveal_strlit("```");
        reveal_strlit("```json");
    }
    let (ca, cb) = if starts_with(&v, a, b, &fence) {
        let wa = if starts_with(&v, a, b, &fence_json) {
            a + 7
        } else {
            a + 3
        };
        let ghost w = v@.subrange(wa as int, b as int);
        assert(w == if has_prefix(t, "```json"@) { t.skip(7) } else { t.skip(3) });
        let wb = if ends_with(&v, wa, b, &fence) {
            b - 3
        } else {
            b
        };
        assert(v@.subrange(wa as int, wb as int) == if has_suffix(w, "```"@) { w.take(w.len() - 3) } else { w });
        trim_bounds(&v, wa, wb)
    } else {
        (a, b)
    };
    string_from_chars(&v, ca, cb)
}

/// Whether extracting the JSON text from `output` is defined: when the unfenced
/// text does not start with `{`, its first object start comes no later than its last `}`.
pub fn json_payload_is_defined(output: &str) -> (r: bool)
    ensures
        r == json_payload_defined(output@),
{
    let cand = json_candidate_string(output);
    let brace = to_chars("{");
    let cv = to_chars(cand.as_str());
    assert(cv@.subrange(0, cv@.len() as int) == cv@);
    if starts_with(&cv, 0, cv.len(), &brace) {
        proof {
            reveal_strlit("{");
        }
        return true;
    }
    proof {
        reveal_strlit("{");
    }
    json_span_is_ordered(cand.as_str())
}

/// Extracts the JSON text from agent output: trims it, strips a markdown code
/// fence, and when the rest does not start with `{`, takes the span from the
/// first JSON object start to the last `}`.
pub fn extract_json_payload(output: &str) -> (r: String)
    requires
        json_payload_defined(output@),
    ensures
        r@ == json_payload(output@),
{
    let owned = json_candidate_string(output);
    let cand = owned.as_str();
    let brace = to_chars("{");
    let cv = to_chars(cand);
    assert(cv@.subrange(0, cv@.len() as int) == cv@);
    if starts_with(&cv, 0, cv.len(), &brace) {
        return String::from_str(cand);
    }
    match find_json_object_start(cand) {
        Some(obj) => {
            proof {
                let (i, k) = choose|i: int, k: int| is_first_json_open(cand@, i) && is_last_close(cand@, k);
                let (i2, k2) = choose|i2: int, k2: int|
                    is_first_json_open(cand@, i2) && is_last_close(cand@, k2) && obj@ == cand@.subrange(i2, k2 + 1);
                lemma_first_open_unique(cand@, i, i2);
                lemma_last_close_unique(cand@, k, k2);
            }
            String::from_str(obj)
        },
        None => String::from_str(cand),
    }
}


/// The decimal digit character for `d` (below ten).
pub open spec fn digit_char(d: nat) -> char {
    if d == 0 { '0' } else if d == 1 { '1' } else if d == 2 { '2' } else if d == 3 { '3' } else if d == 4 { '4' }
    else if d == 5 { '5' } else if d == 6 { '6' } else if d == 7 { '7' } else if d == 8 { '8' } else { '9' }
}

/// The decimal representation of `n`, as integer `Display` writes it.
pub open spec fn decimal(n: nat) -> Seq<char>
    decreases n,
{
    if n < 10 {
        seq![digit_char(n)]
    } else {
        decimal(n / 10) + seq![digit_char(n % 10)]
    }
}

/// Appends the decimal representation of `n`.
pub fn push_decimal(p: &mut String, n: u64)
    ensures
        final(p)@ == old(p)@ + decimal(n as nat),
    decreases n,
{
    if n >= 10 {
        push_decimal(p, n / 10);
    }
    let d = n % 10;
    let c = if d == 0 { '0' } else if d == 1 { '1' } else if d == 2 { '2' } else if d == 3 { '3' }
        else if d == 4 { '4' } else if d == 5 { '5' } else if d == 6 { '6' } else if d == 7 { '7' }
        else if d == 8 { '8' } else { '9' };
    push_char(p, c);
}

} // verus!
