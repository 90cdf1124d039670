//! Character-level text primitives shared by the editor, the Git parser, the
//! AI panel and the terminal: UTF-8 widths and byte offsets, Unicode
//! whitespace, trimming, line splitting and substring search.
use vstd::prelude::*;
use vstd::utf8::*;
use vstd::string::StringSliceAdditionalSpecFns;

verus! {

broadcast use vstd::string::group_string_axioms;

/// `String::push` appends one character to the string.
pub assume_specification[ String::push ](s: &mut String, ch: char)
    ensures
        final(s)@ == old(s)@.push(ch),
;

/// `String::pop` removes and returns the last character, or returns `None`
/// and leaves the string alone when it is empty.
pub assume_specification[ String::pop ](s: &mut String) -> (r: Option<char>)
    ensures
        old(s)@.len() == 0 ==> r is None && final(s)@ == old(s)@,
        old(s)@.len() > 0 ==> r == Some(old(s)@.last()) && final(s)@ == old(s)@.drop_last(),
;

/// `String::clear` empties the string.
pub assume_specification[ String::clear ](s: &mut String)
    ensures
        final(s)@ == Seq::<char>::empty(),
;

/// Number of bytes in the UTF-8 encoding of `c`.
pub open spec fn char_width(c: char) -> nat {
    if (c as u32) < 0x80 {
        1
    } else if (c as u32) < 0x800 {
        2
    } else if (c as u32) < 0x10000 {
        3
    } else {
        4
    }
}

/// Number of bytes in the UTF-8 encoding of `cs`.
pub open spec fn utf8_len(cs: Seq<char>) -> nat
    decreases cs.len(),
{
    if cs.len() == 0 {
        0
    } else {
        utf8_len(cs.drop_last()) + char_width(cs.last())
    }
}

/// Byte offset at which the `k`-th character of `cs` starts.
pub open spec fn byte_offset(cs: Seq<char>, k: int) -> nat {
    utf8_len(cs.take(k))
}

/// `b` is the byte offset of some character start (or of the end) of `cs`.
pub open spec fn is_boundary(cs: Seq<char>, b: int) -> bool {
    exists|k: int| 0 <= k <= cs.len() && #[trigger] byte_offset(cs, k) == b
}

/// The character index whose byte offset is `b` (meaningful when `is_boundary(cs, b)`).
pub open spec fn char_index(cs: Seq<char>, b: int) -> int {
    choose|k: int| 0 <= k <= cs.len() && #[trigger] byte_offset(cs, k) == b
}

/// The UTF-8 length of a concatenation is the sum of the lengths.
pub proof fn lemma_utf8_len_concat(a: Seq<char>, b: Seq<char>)
    ensures
        utf8_len(a + b) == utf8_len(a) + utf8_len(b),
    decreases b.len(),
{
    if b.len() == 0 {
        assert(a + b =~= a);
    } else {
        assert((a + b).drop_last() =~= a + b.drop_last());
        lemma_utf8_len_concat(a, b.drop_last());
    }
}

/// Appending a character adds its width.
pub proof fn lemma_utf8_len_push(a: Seq<char>, c: char)
    ensures
        utf8_len(a.push(c)) == utf8_len(a) + char_width(c),
{
    assert(a.push(c).drop_last() =~= a);
}

proof fn lemma_encode_scalar_len(c: char)
    ensures
        encode_scalar(c as u32).len() == char_width(c),
{
    broadcast use char_is_scalar;

}

/// `utf8_len` is the length of vstd's UTF-8 encoding.
pub proof fn lemma_encode_len(cs: Seq<char>)
    ensures
        encode_utf8(cs).len() == utf8_len(cs),
    decreases cs.len(),
{
    if cs.len() > 0 {
        lemma_encode_len(cs.drop_first());
        lemma_encode_scalar_len(cs[0]);
        let one = seq![cs[0]];
        assert(cs =~= one + cs.drop_first());
        lemma_utf8_len_concat(one, cs.drop_first());
        assert(one.drop_last() =~= Seq::<char>::empty());
        assert(one.last() == cs[0]);
        assert(utf8_len(Seq::<char>::empty()) == 0);
        assert(utf8_len(one) == char_width(cs[0]));
        assert(encode_utf8(cs) == encode_scalar(cs[0] as u32) + encode_utf8(cs.drop_first()));
    }
}

/// Byte offsets grow with the character index (every character has width at least one).
pub proof fn lemma_offset_monotone(cs: Seq<char>, i: int, j: int)
    requires
        0 <= i <= j <= cs.len(),
    ensures
        byte_offset(cs, i) + (j - i) <= byte_offset(cs, j),
    decreases j - i,
{
    if i < j {
        lemma_offset_monotone(cs, i, j - 1);
        assert(cs.take(j).drop_last() =~= cs.take(j - 1));
    }
}

/// One step of the byte offset.
pub proof fn lemma_offset_step(cs: Seq<char>, k: int)
    requires
        0 <= k < cs.len(),
    ensures
        byte_offset(cs, k + 1) == byte_offset(cs, k) + char_width(cs[k]),
{
    assert(cs.take(k + 1).drop_last() =~= cs.take(k));
}

/// The offset past the last character is the whole length.
pub proof fn lemma_offset_full(cs: Seq<char>)
    ensures
        byte_offset(cs, cs.len() as int) == utf8_len(cs),
{
    assert(cs.take(cs.len() as int) =~= cs);
}

/// A boundary determines its character index.
pub proof fn lemma_char_index(cs: Seq<char>, k: int)
    requires
        0 <= k <= cs.len(),
    ensures
        is_boundary(cs, byte_offset(cs, k) as int),
        char_index(cs, byte_offset(cs, k) as int) == k,
{
    let b = byte_offset(cs, k) as int;
    assert(is_boundary(cs, b));
    let k2 = char_index(cs, b);
    if k2 < k {
        lemma_offset_monotone(cs, k2, k);
    } else if k < k2 {
        lemma_offset_monotone(cs, k, k2);
    }
}

/// Number of bytes in the UTF-8 encoding of `c` (`char::len_utf8`).
pub fn len_utf8(c: char) -> (r: usize)
    ensures
        r == char_width(c),
        1 <= r <= 4,
{
    let u = c as u32;
    if u < 0x80 {
        1
    } else if u < 0x800 {
        2
    } else if u < 0x10000 {
        3
    } else {
        4
    }
}

/// Byte length of a string slice.
pub fn str_len(s: &str) -> (r: usize)
    requires
        utf8_len(s@) <= usize::MAX,
    ensures
        r == utf8_len(s@),
{
    proof {
        lemma_encode_len(s@);
        assert(s.spec_bytes() == encode_utf8(s@));
    }
    s.len()
}

/// The characters of a string slice.
pub fn chars_of(s: &str) -> (r: Vec<char>)
    ensures
        r@ == s@,
{
    let mut r: Vec<char> = Vec::new();
    for c in it: s.chars()
        invariant
            r@ == it.seq().take(it.index() as int),
            it.seq() == s@,
    {
        r.push(c);
    }
    r
}

/// A string holding the characters `cs[start..end]`.
pub fn string_from_chars(cs: &[char], start: usize, end: usize) -> (r: String)
    requires
        start <= end <= cs@.len(),
    ensures
        r@ == cs@.subrange(start as int, end as int),
{
    let mut r = String::new();
    let mut i = start;
    while i < end
        invariant
            start <= i <= end <= cs@.len(),
            r@ == cs@.subrange(start as int, i as int),
        decreases end - i,
    {
        r.push(cs[i]);
        i = i + 1;
    }
    r
}

/// Appends the characters of `s` to `dst`.
pub fn push_str(dst: &mut String, s: &str)
    ensures
        final(dst)@ == old(dst)@ + s@,
{
    let ghost start = dst@;
    for c in it: s.chars()
        invariant
            dst@ == start + it.seq().take(it.index() as int),
            it.seq() == s@,
    {
        dst.push(c);
    }
    assert(s@.take(s@.len() as int) =~= s@);
}

/// A new string holding a copy of `s`.
pub fn to_string(s: &str) -> (r: String)
    ensures
        r@ == s@,
{
    let mut r = String::new();
    push_str(&mut r, s);
    r
}

/// Byte length of the first `k` characters.
pub fn offset_of(cs: &[char], k: usize) -> (r: usize)
    requires
        k <= cs@.len(),
        utf8_len(cs@) <= usize::MAX,
    ensures
        r == byte_offset(cs@, k as int),
{
    let mut r: usize = 0;
    let mut i: usize = 0;
    while i < k
        invariant
            i <= k <= cs@.len(),
            utf8_len(cs@) <= usize::MAX,
            r == byte_offset(cs@, i as int),
        decreases k - i,
    {
        proof {
            lemma_offset_step(cs@, i as int);
            lemma_offset_monotone(cs@, i as int + 1, cs@.len() as int);
            lemma_offset_full(cs@);
        }
        r = r + len_utf8(cs[i]);
        i = i + 1;
    }
    r
}

/// The character index that starts at byte `b`, if `b` is a character boundary.
pub fn index_at_byte(cs: &[char], b: usize) -> (r: Option<usize>)
    requires
        utf8_len(cs@) <= usize::MAX,
    ensures
        r is Some <==> is_boundary(cs@, b as int),
        r matches Some(k) ==> k <= cs@.len() && byte_offset(cs@, k as int) == b && char_index(
            cs@,
            b as int,
        ) == k,
{
    let mut off: usize = 0;
    let mut i: usize = 0;
    while i < cs.len()
        invariant
            i <= cs@.len(),
            utf8_len(cs@) <= usize::MAX,
            off == byte_offset(cs@, i as int),
            forall|j: int| 0 <= j < i ==> byte_offset(cs@, j) != b,
        decreases cs@.len() - i,
    {
        if off == b {
            proof {
                lemma_char_index(cs@, i as int);
            }
            return Some(i);
        }
        proof {
            lemma_offset_step(cs@, i as int);
            lemma_offset_monotone(cs@, i as int + 1, cs@.len() as int);
            lemma_offset_full(cs@);
        }
        off = off + len_utf8(cs[i]);
        i = i + 1;
    }
    if off == b {
        proof {
            lemma_char_index(cs@, i as int);
        }
        Some(i)
    } else {
        assert(!is_boundary(cs@, b as int));
        None
    }
}

/// Unicode `White_Space` (the set that `char::is_whitespace` tests).
pub open spec fn is_ws(c: char) -> bool {
    let u = c as u32;
    ||| 0x09 <= u <= 0x0D
    ||| u == 0x20
    ||| u == 0x85
    ||| u == 0xA0
    ||| u == 0x1680
    ||| 0x2000 <= u <= 0x200A
    ||| u == 0x2028
    ||| u == 0x2029
    ||| u == 0x202F
    ||| u == 0x205F
    ||| u == 0x3000
}

/// Whether `c` is Unicode whitespace.
pub fn is_whitespace(c: char) -> (r: bool)
    ensures
        r == is_ws(c),
{
    let u = c as u32;
    (0x09 <= u && u <= 0x0D) || u == 0x20 || u == 0x85 || u == 0xA0 || u == 0x1680 || (0x2000 <= u
        && u <= 0x200A) || u == 0x2028 || u == 0x2029 || u == 0x202F || u == 0x205F || u == 0x3000
}

/// Number of leading whitespace characters.
pub open spec fn ws_prefix_len(cs: Seq<char>) -> nat
    decreases cs.len(),
{
    if cs.len() > 0 && is_ws(cs[0]) {
        1 + ws_prefix_len(cs.drop_first())
    } else {
        0
    }
}

/// Number of trailing whitespace characters.
pub open spec fn ws_suffix_len(cs: Seq<char>) -> nat
    decreases cs.len(),
{
    if cs.len() > 0 && is_ws(cs.last()) {
        1 + ws_suffix_len(cs.drop_last())
    } else {
        0
    }
}

/// `str::trim_start`.
pub open spec fn trim_start(cs: Seq<char>) -> Seq<char> {
    cs.skip(ws_prefix_len(cs) as int)
}

/// `str::trim_end`.
pub open spec fn trim_end(cs: Seq<char>) -> Seq<char> {
    cs.take(cs.len() - ws_suffix_len(cs))
}

/// `str::trim`.
pub open spec fn trim(cs: Seq<char>) -> Seq<char> {
    trim_end(trim_start(cs))
}

/// The leading whitespace is part of the text.
pub proof fn lemma_ws_prefix_bound(cs: Seq<char>)
    ensures
        ws_prefix_len(cs) <= cs.len(),
        forall|j: int| 0 <= j < ws_prefix_len(cs) ==> is_ws(#[trigger] cs[j]),
        ws_prefix_len(cs) < cs.len() ==> !is_ws(cs[ws_prefix_len(cs) as int]),
    decreases cs.len(),
{
    if cs.len() > 0 && is_ws(cs[0]) {
        lemma_ws_prefix_bound(cs.drop_first());
        assert forall|j: int| 0 <= j < ws_prefix_len(cs) implies is_ws(#[trigger] cs[j]) by {
            if j > 0 {
                assert(cs[j] == cs.drop_first()[j - 1]);
            }
        }
    }
}

/// The trailing whitespace is part of the text.
pub proof fn lemma_ws_suffix_bound(cs: Seq<char>)
    ensures
        ws_suffix_len(cs) <= cs.len(),
        forall|j: int| cs.len() - ws_suffix_len(cs) <= j < cs.len() ==> is_ws(#[trigger] cs[j]),
        ws_suffix_len(cs) < cs.len() ==> !is_ws(cs[cs.len() - ws_suffix_len(cs) - 1]),
    decreases cs.len(),
{
    if cs.len() > 0 && is_ws(cs.last()) {
        lemma_ws_suffix_bound(cs.drop_last());
        assert forall|j: int| cs.len() - ws_suffix_len(cs) <= j < cs.len() implies is_ws(
            #[trigger] cs[j],
        ) by {
            if j < cs.len() - 1 {
                assert(cs[j] == cs.drop_last()[j]);
            }
        }
    }
}

/// The leading-whitespace count is the first index that is not whitespace.
pub proof fn lemma_ws_prefix_char(cs: Seq<char>, i: int)
    requires
        0 <= i <= cs.len(),
        forall|j: int| 0 <= j < i ==> is_ws(#[trigger] cs[j]),
        i == cs.len() || !is_ws(cs[i]),
    ensures
        ws_prefix_len(cs) == i,
    decreases i,
{
    if i > 0 {
        assert(is_ws(cs[0]));
        assert forall|j: int| 0 <= j < i - 1 implies is_ws(#[trigger] cs.drop_first()[j]) by {
            assert(cs.drop_first()[j] == cs[j + 1]);
        }
        if i < cs.len() {
            assert(cs.drop_first()[i - 1] == cs[i]);
        }
        lemma_ws_prefix_char(cs.drop_first(), i - 1);
    }
}

/// The trailing-whitespace count is determined by the last non-whitespace character.
pub proof fn lemma_ws_suffix_char(cs: Seq<char>, e: int)
    requires
        0 <= e <= cs.len(),
        forall|j: int| e <= j < cs.len() ==> is_ws(#[trigger] cs[j]),
        e == 0 || !is_ws(cs[e - 1]),
    ensures
        ws_suffix_len(cs) == cs.len() - e,
    decreases cs.len() - e,
{
    if e < cs.len() {
        assert(is_ws(cs.last()));
        assert forall|j: int| e <= j < cs.len() - 1 implies is_ws(#[trigger] cs.drop_last()[j]) by {
            assert(cs.drop_last()[j] == cs[j]);
        }
        if e > 0 {
            assert(cs.drop_last()[e - 1] == cs[e - 1]);
        }
        lemma_ws_suffix_char(cs.drop_last(), e);
    }
}

/// Index of the first character of `cs[start..end]` that is not whitespace (or `end`).
pub fn skip_ws_forward(cs: &[char], start: usize, end: usize) -> (r: usize)
    requires
        start <= end <= cs@.len(),
    ensures
        start <= r <= end,
        ws_prefix_len(cs@.subrange(start as int, end as int)) == r - start,
{
    let mut i = start;
    while i < end && is_whitespace(cs[i])
        invariant
            start <= i <= end <= cs@.len(),
            forall|j: int| start <= j < i ==> is_ws(#[trigger] cs@[j]),
        decreases end - i,
    {
        i = i + 1;
    }
    proof {
        let sub = cs@.subrange(start as int, end as int);
        assert forall|j: int| 0 <= j < i - start implies is_ws(#[trigger] sub[j]) by {
            assert(sub[j] == cs@[start + j]);
        }
        if i < end {
            assert(sub[i - start] == cs@[i as int]);
        }
        lemma_ws_prefix_char(sub, i - start);
    }
    i
}

/// Index just past the last character of `cs[start..end]` that is not whitespace (or `start`).
pub fn skip_ws_backward(cs: &[char], start: usize, end: usize) -> (r: usize)
    requires
        start <= end <= cs@.len(),
    ensures
        start <= r <= end,
        ws_suffix_len(cs@.subrange(start as int, end as int)) == end - r,
{
    let mut e = end;
    while e > start && is_whitespace(cs[e - 1])
        invariant
            start <= e <= end <= cs@.len(),
            forall|j: int| e <= j < end ==> is_ws(#[trigger] cs@[j]),
        decreases e - start,
    {
        e = e - 1;
    }
    proof {
        let sub = cs@.subrange(start as int, end as int);
        assert forall|j: int| e - start <= j < sub.len() implies is_ws(#[trigger] sub[j]) by {
            assert(sub[j] == cs@[start + j]);
        }
        if e > start {
            assert(sub[e - start - 1] == cs@[e - 1]);
        }
        lemma_ws_suffix_char(sub, e - start);
    }
    e
}

/// Bounds of `trim(cs[start..end])` inside `cs`.
pub fn trim_range(cs: &[char], start: usize, end: usize) -> (r: (usize, usize))
    requires
        start <= end <= cs@.len(),
    ensures
        start <= r.0 <= r.1 <= end,
        cs@.subrange(r.0 as int, r.1 as int) == trim(cs@.subrange(start as int, end as int)),
{
    let s = skip_ws_forward(cs, start, end);
    let e = skip_ws_backward(cs, s, end);
    proof {
        let sub = cs@.subrange(start as int, end as int);
        assert(trim_start(sub) =~= cs@.subrange(s as int, end as int));
        assert(trim(sub) =~= cs@.subrange(s as int, e as int));
    }
    (s, e)
}

/// Index of the first `'\n'` in `cs` (or `cs.len()` when there is none).
pub open spec fn newline_pos(cs: Seq<char>) -> nat
    decreases cs.len(),
{
    if cs.len() == 0 {
        0
    } else if cs[0] == '\n' {
        0
    } else {
        1 + newline_pos(cs.drop_first())
    }
}

/// The text of a line whose terminator starts at `p`: a `'\r'` right before a
/// `'\n'` belongs to the terminator.
pub open spec fn line_body(cs: Seq<char>, p: int) -> Seq<char> {
    if p < cs.len() && p > 0 && cs[p - 1] == '\r' {
        cs.take(p - 1)
    } else {
        cs.take(p)
    }
}

/// `str::lines`: the text split at `"\n"` and `"\r\n"`, without the terminators;
/// a final terminator does not start another line.
pub open spec fn lines(cs: Seq<char>) -> Seq<Seq<char>>
    decreases cs.len(),
{
    if cs.len() == 0 {
        Seq::empty()
    } else {
        let p = newline_pos(cs) as int;
        if p < cs.len() {
            seq![line_body(cs, p)] + lines(cs.skip(p + 1))
        } else {
            seq![cs]
        }
    }
}

/// The first line break is at `p` when none comes before it.
pub proof fn lemma_newline_pos(cs: Seq<char>, p: int)
    requires
        0 <= p <= cs.len(),
        forall|j: int| 0 <= j < p ==> cs[j] != '\n',
        p == cs.len() || cs[p] == '\n',
    ensures
        newline_pos(cs) == p,
    decreases p,
{
    if p > 0 {
        assert forall|j: int| 0 <= j < p - 1 implies cs.drop_first()[j] != '\n' by {
            assert(cs.drop_first()[j] == cs[j + 1]);
        }
        if p < cs.len() {
            assert(cs.drop_first()[p - 1] == cs[p]);
        }
        lemma_newline_pos(cs.drop_first(), p - 1);
    }
}

/// Index of the first `'\n'` in `cs[from..]`, or `cs.len()`.
pub fn find_newline(cs: &[char], from: usize) -> (r: usize)
    requires
        from <= cs@.len(),
    ensures
        from <= r <= cs@.len(),
        r == from + newline_pos(cs@.skip(from as int)),
        r < cs@.len() ==> cs@[r as int] == '\n',
        forall|j: int| from <= j < r ==> cs@[j] != '\n',
{
    let mut i = from;
    while i < cs.len() && cs[i] != '\n'
        invariant
            from <= i <= cs@.len(),
            forall|j: int| from <= j < i ==> cs@[j] != '\n',
        decreases cs@.len() - i,
    {
        i = i + 1;
    }
    proof {
        let t = cs@.skip(from as int);
        assert forall|j: int| 0 <= j < i - from implies t[j] != '\n' by {
            assert(t[j] == cs@[from + j]);
        }
        if i < cs@.len() {
            assert(t[i - from] == cs@[i as int]);
        }
        lemma_newline_pos(t, i - from);
    }
    i
}

/// The character ranges of `lines(cs[from..])`, shifted to positions in `cs`.
pub open spec fn ranges_are_lines(cs: Seq<char>, from: int, rs: Seq<(usize, usize)>) -> bool {
    &&& rs.len() == lines(cs.skip(from)).len()
    &&& forall|i: int|
        0 <= i < rs.len() ==> {
            &&& from <= (#[trigger] rs[i]).0 <= rs[i].1 <= cs.len()
            &&& cs.subrange(rs[i].0 as int, rs[i].1 as int) == lines(cs.skip(from))[i]
        }
}

/// The lines of `cs` as ranges of character indices (`str::lines`).
pub fn line_ranges(cs: &[char]) -> (r: Vec<(usize, usize)>)
    ensures
        ranges_are_lines(cs@, 0, r@),
        r@.len() == lines(cs@).len(),
        forall|i: int|
            0 <= i < r@.len() ==> {
                &&& (#[trigger] r@[i]).0 <= r@[i].1 <= cs@.len()
                &&& cs@.subrange(r@[i].0 as int, r@[i].1 as int) == lines(cs@)[i]
            },
{
    let mut out: Vec<(usize, usize)> = Vec::new();
    let mut pos: usize = 0;
    proof {
        assert(cs@.skip(0) =~= cs@);
        let s0 = Seq::new(0, |i: int| cs@.subrange(out@[i].0 as int, out@[i].1 as int));
        assert(s0 + lines(cs@) =~= lines(cs@));
    }
    while pos < cs.len()
        invariant
            pos <= cs@.len(),
            lines(cs@) == Seq::new(
                out@.len(),
                |i: int| cs@.subrange(out@[i].0 as int, out@[i].1 as int),
            ) + lines(cs@.skip(pos as int)),
            forall|i: int|
                0 <= i < out@.len() ==> (#[trigger] out@[i]).0 <= out@[i].1 <= pos,
        decreases cs@.len() - pos,
    {
        let p = find_newline(cs, pos);
        let ghost rest = cs@.skip(pos as int);
        let ghost old_out = out@;
        let mut e = p;
        if p < cs.len() && p > pos && cs[p - 1] == '\r' {
            e = p - 1;
        }
        out.push((pos, e));
        proof {
            let q = (p - pos) as int;
            assert(rest.len() > 0);
            assert(rest[0] == cs@[pos as int]);
            assert(line_body(rest, q) =~= cs@.subrange(pos as int, e as int)) by {
                if q < rest.len() && q > 0 {
                    assert(rest[q - 1] == cs@[p - 1]);
                }
            }
            if p < cs@.len() {
                assert(rest.skip(q + 1) =~= cs@.skip(p + 1));
                assert(lines(rest) == seq![line_body(rest, q)] + lines(cs@.skip(p + 1)));
            } else {
                assert(rest =~= cs@.subrange(pos as int, e as int));
                assert(cs@.skip(p as int) =~= Seq::<char>::empty());
                assert(lines(rest) == seq![line_body(rest, q)] + lines(cs@.skip(p as int)));
            }
        }
        if p < cs.len() {
            pos = p + 1;
        } else {
            pos = p;
        }
        proof {
            let seq_new = Seq::new(
                out@.len(),
                |i: int| cs@.subrange(out@[i].0 as int, out@[i].1 as int),
            );
            let seq_old = Seq::new(
                old_out.len(),
                |i: int| cs@.subrange(old_out[i].0 as int, old_out[i].1 as int),
            );
            assert(seq_new =~= seq_old.push(cs@.subrange(out@.last().0 as int, out@.last().1 as int)));
            assert(seq_new + lines(cs@.skip(pos as int)) =~= seq_old + (seq![
                cs@.subrange(out@.last().0 as int, out@.last().1 as int),
            ] + lines(cs@.skip(pos as int))));
        }
    }
    proof {
        assert(cs@.skip(pos as int) =~= Seq::<char>::empty());
        assert(cs@.skip(0) =~= cs@);
        let s = Seq::new(out@.len(), |i: int| cs@.subrange(out@[i].0 as int, out@[i].1 as int));
        assert(lines(cs@) =~= s);
    }
    out
}

/// `needle` occurs in `hay` at character index `i`.
pub open spec fn matches_at(hay: Seq<char>, needle: Seq<char>, i: int) -> bool {
    0 <= i && i + needle.len() <= hay.len() && hay.subrange(i, i + needle.len()) == needle
}

/// Whether `needle` occurs in `hay` at index `i`.
pub fn match_at(hay: &[char], needle: &[char], i: usize) -> (r: bool)
    ensures
        r == matches_at(hay@, needle@, i as int),
{
    if i > hay.len() || needle.len() > hay.len() - i {
        return false;
    }
    let mut j: usize = 0;
    while j < needle.len()
        invariant
            j <= needle@.len(),
            i + needle@.len() <= hay@.len(),
            forall|t: int| 0 <= t < j ==> hay@[i + t] == needle@[t],
        decreases needle@.len() - j,
    {
        assert(i + j < hay.len());
        if hay[i + j] != needle[j] {
            assert(hay@.subrange(i as int, i + needle@.len())[j as int] != needle@[j as int]);
            return false;
        }
        j = j + 1;
    }
    assert(hay@.subrange(i as int, i + needle@.len()) =~= needle@);
    true
}

/// First occurrence of `needle` in `hay` at or after `start` (`str::find` on `&hay[start..]`).
pub fn find_from(hay: &[char], needle: &[char], start: usize) -> (r: Option<usize>)
    ensures
        r matches Some(p) ==> start <= p && matches_at(hay@, needle@, p as int) && forall|q: int|
            start <= q < p ==> !matches_at(hay@, needle@, q),
        r is None ==> forall|q: int| start <= q ==> !matches_at(hay@, needle@, q),
{
    let mut i = start;
    while i < hay.len()
        invariant
            start <= i,
            forall|q: int| start <= q < i ==> !matches_at(hay@, needle@, q),
        decreases hay@.len() - i,
    {
        if match_at(hay, needle, i) {
            return Some(i);
        }
        i = i + 1;
    }
    if match_at(hay, needle, i) {
        return Some(i);
    }
    assert forall|q: int| start <= q implies !matches_at(hay@, needle@, q) by {
        if q > i {
            assert(i >= hay@.len());
        }
    }
    None
}

/// The first occurrence of `needle` in `hay` at or after `start`.
pub open spec fn first_match(hay: Seq<char>, needle: Seq<char>, start: int) -> Option<int>
    decreases hay.len() + 1 - start,
{
    if start < 0 || start > hay.len() {
        None
    } else if matches_at(hay, needle, start) {
        Some(start)
    } else {
        first_match(hay, needle, start + 1)
    }
}

/// `first_match` is the earliest match at or after `start`.
pub proof fn lemma_first_match(hay: Seq<char>, needle: Seq<char>, start: int, p: Option<int>)
    requires
        0 <= start,
        p matches Some(q) ==> start <= q && matches_at(hay, needle, q) && forall|r: int|
            start <= r < q ==> !matches_at(hay, needle, r),
        p is None ==> forall|r: int| start <= r ==> !matches_at(hay, needle, r),
    ensures
        first_match(hay, needle, start) == p,
    decreases hay.len() + 1 - start,
{
    if start <= hay.len() {
        if !matches_at(hay, needle, start) {
            lemma_first_match(hay, needle, start + 1, p);
        }
    } else {
        if let Some(q) = p {
            assert(!matches_at(hay, needle, q));
        }
    }
}

/// Character indices of the successive non-overlapping occurrences of
/// `needle` in `hay`, searching from `start`; the search stops once it reaches
/// the end of `hay`.
pub open spec fn line_matches(hay: Seq<char>, needle: Seq<char>, start: int) -> Seq<int>
    decreases hay.len() - start,
{
    match first_match(hay, needle, start) {
        None => Seq::empty(),
        Some(p) => {
            let next = p + needle.len();
            if next <= start {
                Seq::empty()
            } else if next >= hay.len() {
                seq![p]
            } else {
                seq![p] + line_matches(hay, needle, next)
            }
        },
    }
}

/// Decimal digits of `n`.
pub open spec fn decimal(n: nat) -> Seq<char>
    decreases n,
{
    if n < 10 {
        seq![digit_char(n)]
    } else {
        decimal(n / 10).push(digit_char(n % 10))
    }
}

/// The digit character for `d < 10`.
pub open spec fn digit_char(d: nat) -> char {
    if d == 0 {
        '0'
    } else if d == 1 {
        '1'
    } else if d == 2 {
        '2'
    } else if d == 3 {
        '3'
    } else if d == 4 {
        '4'
    } else if d == 5 {
        '5'
    } else if d == 6 {
        '6'
    } else if d == 7 {
        '7'
    } else if d == 8 {
        '8'
    } else {
        '9'
    }
}

fn digit(d: usize) -> (c: char)
    requires
        d < 10,
    ensures
        c == digit_char(d as nat),
{
    if d == 0 {
        '0'
    } else if d == 1 {
        '1'
    } else if d == 2 {
        '2'
    } else if d == 3 {
        '3'
    } else if d == 4 {
        '4'
    } else if d == 5 {
        '5'
    } else if d == 6 {
        '6'
    } else if d == 7 {
        '7'
    } else if d == 8 {
        '8'
    } else {
        '9'
    }
}

/// Appends the decimal digits of `n` to `dst`.
pub fn push_decimal(dst: &mut String, n: usize)
    ensures
        final(dst)@ == old(dst)@ + decimal(n as nat),
    decreases n,
{
    if n < 10 {
        dst.push(digit(n));
        assert(old(dst)@.push(digit_char(n as nat)) =~= old(dst)@ + seq![digit_char(n as nat)]);
    } else {
        push_decimal(dst, n / 10);
        dst.push(digit(n % 10));
        assert(old(dst)@ + decimal(n as nat) =~= old(dst)@ + decimal((n / 10) as nat) + seq![
            digit_char((n % 10) as nat),
        ]);
    }
}

/// Byte length of `cs[a..b]`.
pub fn range_bytes(cs: &[char], a: usize, b: usize) -> (r: usize)
    requires
        a <= b <= cs@.len(),
        utf8_len(cs@) <= usize::MAX,
    ensures
        r == utf8_len(cs@.subrange(a as int, b as int)),
        r + byte_offset(cs@, a as int) == byte_offset(cs@, b as int),
{
    proof {
        assert(cs@.take(b as int) =~= cs@.take(a as int) + cs@.subrange(a as int, b as int));
        lemma_utf8_len_concat(cs@.take(a as int), cs@.subrange(a as int, b as int));
        lemma_offset_monotone(cs@, b as int, cs@.len() as int);
        lemma_offset_full(cs@);
    }
    let x = offset_of(cs, a);
    let y = offset_of(cs, b);
    y - x
}

} // verus!
