//! Cursor, selection, editing and find/replace state of the active editor.
//!
//! The text itself lives in a piece table owned by the caller. Every method
//! reads what it needs of the text from its arguments (the lines, their
//! start offsets, the raw bytes) and hands back the buffer edits to perform,
//! in order, as [`Edit`] values.
use vstd::prelude::*;
use crate::text::{
    find_from, lemma_first_match, line_matches, byte_offset, char_index, chars_of, index_at_byte, is_boundary, len_utf8, lemma_offset_full,
    lemma_offset_monotone, lemma_offset_step, lemma_utf8_len_push, offset_of, str_len, to_string,
    utf8_len, push_str, string_from_chars, lemma_char_index,
};

verus! {

/// Which input of the find/replace panel has the keyboard focus.
#[derive(Clone, Copy, Debug, PartialEq, Eq, Structural)]
pub enum FindReplaceFocus {
    Unfocused,
    FindQuery,
    ReplaceText,
}

/// Kind of an edit, as recorded in the undo history.
#[derive(Clone, Copy, Debug, PartialEq, Eq, Structural)]
pub enum OpType {
    Insert,
    Delete,
}

/// One change to the text buffer, in byte offsets.
#[derive(Debug)]
pub enum Edit {
    /// Insert `text` at byte offset `pos`.
    Insert { pos: usize, text: String },
    /// Delete the bytes `start..end`.
    Delete { start: usize, end: usize },
}

/// What the edit operations read of the text buffer.
pub struct BufferSnapshot {
    /// `lines[i]` is the text of line `i`; lines at or past `lines.len()` do not exist.
    pub lines: Vec<String>,
    /// `line_starts[i]` is the byte offset at which line `i` starts.
    pub line_starts: Vec<usize>,
    /// The whole text as bytes.
    pub bytes: Vec<u8>,
}

/// One undoable change: the buffer edits to apply in order, and what the undo
/// history records for it.
pub struct Change {
    pub edits: Vec<Edit>,
    pub op: OpType,
    /// Byte offset recorded with the change.
    pub pos: usize,
    /// Cursor `(line, column)` before and after the change.
    pub cursor_before: (usize, usize),
    pub cursor_after: (usize, usize),
}

/// `e` inserts `text` at `pos`.
pub open spec fn is_insert(e: Edit, pos: int, text: Seq<char>) -> bool {
    e matches Edit::Insert { pos: p, text: t } && p == pos && t@ == text
}

/// `e` deletes the bytes `start..end`.
pub open spec fn is_delete(e: Edit, start: int, end: int) -> bool {
    e matches Edit::Delete { start: s, end: t } && s == start && t == end
}

/// A UTF-8 continuation byte (`0b10xx_xxxx`).
pub open spec fn is_cont(b: u8) -> bool {
    0x80 <= b <= 0xbf
}

/// Scanning back from `p`: the first byte that is not a continuation byte, or 0.
pub open spec fn scan_back(bytes: Seq<u8>, p: int) -> int
    decreases p,
{
    if p <= 0 {
        0
    } else if !is_cont(bytes[p]) {
        p
    } else {
        scan_back(bytes, p - 1)
    }
}

/// Scanning forward from `p`: the first byte that is not a continuation byte, or the end.
pub open spec fn scan_forward(bytes: Seq<u8>, p: int) -> int
    decreases bytes.len() - p,
{
    if p >= bytes.len() {
        bytes.len() as int
    } else if !is_cont(bytes[p]) {
        p
    } else {
        scan_forward(bytes, p + 1)
    }
}

/// Start of the character that ends at byte `pos`.
pub open spec fn prev_char_boundary(bytes: Seq<u8>, pos: int) -> int {
    if pos <= 0 {
        0
    } else {
        scan_back(bytes, pos - 1)
    }
}

/// End of the character that starts at byte `pos`.
pub open spec fn next_char_boundary(bytes: Seq<u8>, pos: int) -> int {
    if pos >= bytes.len() {
        bytes.len() as int
    } else {
        scan_forward(bytes, pos + 1)
    }
}

fn is_continuation(b: u8) -> (r: bool)
    ensures
        r == is_cont(b),
{
    0x80 <= b && b <= 0xbf
}

/// The start of the character before byte `pos`: steps back over continuation bytes.
pub fn find_prev_char_boundary(bytes: &[u8], pos: usize) -> (r: usize)
    requires
        pos <= bytes@.len(),
    ensures
        r == prev_char_boundary(bytes@, pos as int),
        pos > 0 ==> r < pos,
        pos == 0 ==> r == 0,
{
    if pos == 0 {
        return 0;
    }
    let mut p = pos - 1;
    while p > 0 && is_continuation(bytes[p])
        invariant
            p < pos <= bytes@.len(),
            scan_back(bytes@, p as int) == scan_back(bytes@, pos - 1),
        decreases p,
    {
        p = p - 1;
    }
    p
}

/// The end of the character that starts at byte `pos`: steps over continuation bytes.
pub fn find_next_char_boundary(bytes: &[u8], pos: usize) -> (r: usize)
    ensures
        r == next_char_boundary(bytes@, pos as int),
        pos < bytes@.len() ==> pos < r <= bytes@.len(),
        pos >= bytes@.len() ==> r == bytes@.len(),
{
    let total = bytes.len();
    if pos >= total {
        return total;
    }
    let mut p = pos + 1;
    while p < total && is_continuation(bytes[p])
        invariant
            pos < p <= total == bytes@.len(),
            scan_forward(bytes@, p as int) == scan_forward(bytes@, pos + 1),
        decreases total - p,
    {
        p = p + 1;
    }
    p
}

/// The byte offset of `(line, col)`: the line start plus the column, clamped to
/// the line's length when the line exists.
pub fn line_col_to_byte(snap: &BufferSnapshot, line: usize, col: usize) -> (r: usize)
    requires
        line < snap.line_starts@.len(),
        lines_fit(snap.lines@),
        snap.line_starts@[line as int] + col <= usize::MAX,
    ensures
        r == snap.line_starts@[line as int] + (if line < snap.lines@.len() {
            clamp_col(snap.lines@[line as int]@, col as int)
        } else {
            0
        }),
{
    let start = snap.line_starts[line];
    if line < snap.lines.len() {
        let len = str_len(snap.lines[line].as_str());
        if col < len {
            start + col
        } else {
            start + len
        }
    } else {
        start
    }
}

/// The text of line `i`, if the buffer has such a line.
pub open spec fn line_text(lines: Seq<String>, i: int) -> Option<Seq<char>> {
    if 0 <= i < lines.len() {
        Some(lines[i]@)
    } else {
        None
    }
}

/// Every line's byte length fits in a `usize`.
pub open spec fn lines_fit(lines: Seq<String>) -> bool {
    forall|i: int| 0 <= i < lines.len() ==> utf8_len(#[trigger] lines[i]@) <= usize::MAX
}

/// Byte column reached by stepping one character left from `col` in a line
/// whose text is `cs` (the column is first clamped to the line length).
pub open spec fn col_left(cs: Seq<char>, col: int) -> int {
    let c = if col < utf8_len(cs) {
        col
    } else {
        utf8_len(cs) as int
    };
    let k = char_index(cs, c);
    if k > 0 {
        byte_offset(cs, k - 1) as int
    } else {
        0
    }
}

/// Byte column reached by stepping over the character that starts at `col`.
pub open spec fn col_right(cs: Seq<char>, col: int) -> int {
    let k = char_index(cs, col);
    byte_offset(cs, k + 1) as int
}

/// `col` clamped to the byte length of `cs`.
pub open spec fn clamp_col(cs: Seq<char>, col: int) -> int {
    if col < utf8_len(cs) {
        col
    } else {
        utf8_len(cs) as int
    }
}

/// Byte column of the `n`-th character of `cs`, or the end of `cs` when it is shorter.
pub open spec fn col_of_char(cs: Seq<char>, n: int) -> int {
    if n < cs.len() {
        byte_offset(cs, n) as int
    } else {
        utf8_len(cs) as int
    }
}

/// The selection in document order: the earlier end first, by line and then by column.
pub open spec fn ordered(a: (usize, usize), b: (usize, usize)) -> ((usize, usize), (usize, usize)) {
    if a.0 < b.0 || (a.0 == b.0 && a.1 <= b.1) {
        (a, b)
    } else {
        (b, a)
    }
}

/// State of the active editor that does not live in the text buffer.
pub struct EditorState {
    pub cursor_line: usize,
    /// Byte column of the cursor in its line.
    pub cursor_col: usize,
    pub selection_start: Option<(usize, usize)>,
    pub selection_end: Option<(usize, usize)>,
    pub is_selecting: bool,
    pub is_dirty: bool,
    /// Incremented on every change of the text.
    pub buffer_version: u64,
    pub find_visible: bool,
    pub replace_visible: bool,
    pub find_query: String,
    pub replace_text: String,
    /// `(line, byte column)` of each match of `find_query`.
    pub find_results: Vec<(usize, usize)>,
    pub find_active_index: usize,
    pub find_focus: FindReplaceFocus,
    /// The query and text version that `find_results` were computed for.
    pub last_find_query: String,
    pub find_result_version: u64,
    pub status_message: String,
}

/// The four spaces inserted for a tab and added to the indent after `{` or `:`.
pub open spec fn four_spaces() -> Seq<char> {
    seq![' ', ' ', ' ', ' ']
}

/// Number of occurrences of `c` in `cs`.
pub open spec fn count_char(cs: Seq<char>, c: char) -> nat
    decreases cs.len(),
{
    if cs.len() == 0 {
        0
    } else {
        count_char(cs.drop_last(), c) + if cs.last() == c {
            1nat
        } else {
            0nat
        }
    }
}

/// The characters after the last `'\n'` of `cs` (all of `cs` when it has none).
pub open spec fn after_last_newline(cs: Seq<char>) -> Seq<char>
    decreases cs.len(),
{
    if cs.len() == 0 {
        Seq::empty()
    } else if cs.last() == '\n' {
        Seq::empty()
    } else {
        after_last_newline(cs.drop_last()).push(cs.last())
    }
}

/// Cursor after inserting `text` at `(line, col)`: moved past the text.
pub open spec fn cursor_after_insert(line: int, col: int, text: Seq<char>) -> (int, int) {
    let n = count_char(text, '\n');
    if n == 0 {
        (line, col + utf8_len(text))
    } else {
        (line + n, utf8_len(after_last_newline(text)) as int)
    }
}

/// The indentation that a new line after `t` starts with: `t`'s leading
/// whitespace, plus four spaces when `t` (without trailing whitespace) ends in
/// `{` or `:`.
pub open spec fn newline_indent(t: Option<Seq<char>>) -> Seq<char> {
    match t {
        Some(t) => {
            let te = crate::text::trim_end(t);
            let extra = if te.len() > 0 && (te.last() == '{' || te.last() == ':') {
                four_spaces()
            } else {
                Seq::empty()
            };
            t.take(crate::text::ws_prefix_len(t) as int) + extra
        },
        None => Seq::empty(),
    }
}

/// Counts `'\n'` in `cs` and measures the bytes after the last one.
fn newline_stats(cs: &[char]) -> (r: (usize, usize))
    requires
        utf8_len(cs@) <= usize::MAX,
    ensures
        r.0 == count_char(cs@, '\n'),
        r.1 == utf8_len(after_last_newline(cs@)),
{
    let mut n: usize = 0;
    let mut tail: usize = 0;
    let mut i: usize = 0;
    while i < cs.len()
        invariant
            i <= cs@.len(),
            utf8_len(cs@) <= usize::MAX,
            n == count_char(cs@.take(i as int), '\n'),
            tail == utf8_len(after_last_newline(cs@.take(i as int))),
            n <= i,
            tail <= byte_offset(cs@, i as int),
        decreases cs@.len() - i,
    {
        proof {
            assert(cs@.take(i + 1).drop_last() =~= cs@.take(i as int));
            lemma_offset_step(cs@, i as int);
            lemma_offset_monotone(cs@, i as int + 1, cs@.len() as int);
            lemma_offset_full(cs@);
            lemma_utf8_len_push(after_last_newline(cs@.take(i as int)), cs@[i as int]);
        }
        if cs[i] == '\n' {
            n = n + 1;
            tail = 0;
        } else {
            tail = tail + len_utf8(cs[i]);
        }
        i = i + 1;
    }
    assert(cs@.take(cs@.len() as int) =~= cs@);
    (n, tail)
}

/// A string of four spaces.
fn four_space_string() -> (r: String)
    ensures
        r@ == four_spaces(),
        utf8_len(r@) == 4,
{
    let mut r = String::new();
    r.push(' ');
    r.push(' ');
    r.push(' ');
    r.push(' ');
    proof {
        assert(r@ =~= four_spaces());
        let e = Seq::<char>::empty();
        lemma_utf8_len_push(e, ' ');
        assert(e.push(' ').push(' ').drop_last() =~= e.push(' '));
        lemma_utf8_len_push(e.push(' '), ' ');
        lemma_utf8_len_push(e.push(' ').push(' '), ' ');
        lemma_utf8_len_push(e.push(' ').push(' ').push(' '), ' ');
        assert(e.push(' ').push(' ').push(' ').push(' ') =~= four_spaces());
        assert(utf8_len(e) == 0);
    }
    r
}

/// Matches of `q` in the first `n` lines, as `(line, byte column)`.
pub open spec fn matches_upto(lines: Seq<String>, q: Seq<char>, n: int) -> Seq<(usize, usize)>
    decreases n,
{
    if n <= 0 {
        Seq::empty()
    } else {
        let h = lines[n - 1]@;
        matches_upto(lines, q, n - 1) + line_matches(h, q, 0).map_values(
            |p: int| ((n - 1) as usize, byte_offset(h, p) as usize),
        )
    }
}

/// Matches of `q` in all of `lines`, in reading order.
pub open spec fn all_matches(lines: Seq<String>, q: Seq<char>) -> Seq<(usize, usize)> {
    matches_upto(lines, q, lines.len() as int)
}

/// Character indices of the successive non-overlapping matches of `needle` in `hay`.
fn line_match_positions(hay: &[char], needle: &[char]) -> (r: Vec<usize>)
    requires
        needle@.len() > 0,
    ensures
        r@.map_values(|p: usize| p as int) == line_matches(hay@, needle@, 0),
        forall|i: int| 0 <= i < r@.len() ==> r@[i] <= hay@.len(),
{
    let mut out: Vec<usize> = Vec::new();
    let mut start: usize = 0;
    let mut done = false;
    while !done
        invariant
            needle@.len() > 0,
            start <= hay@.len(),
            line_matches(hay@, needle@, 0) == out@.map_values(|p: usize| p as int) + (if done {
                Seq::<int>::empty()
            } else {
                line_matches(hay@, needle@, start as int)
            }),
            forall|i: int| 0 <= i < out@.len() ==> out@[i] <= hay@.len(),
        decreases (if done {
            0
        } else {
            hay@.len() - start + 1
        }),
    {
        let ghost old_out = out@;
        let f = find_from(hay, needle, start);
        proof {
            lemma_first_match(hay@, needle@, start as int, match f {
                Some(q) => Some(q as int),
                None => None,
            });
        }
        match f {
            None => {
                done = true;
                assert(out@.map_values(|p: usize| p as int) + Seq::<int>::empty() =~= out@.map_values(
                    |p: usize| p as int,
                ));
            },
            Some(p) => {
                out.push(p);
                assert(p + needle@.len() <= hay@.len());
                assert(hay@.len() == hay.len());
                let next = p + needle.len();
                assert(out@.map_values(|p: usize| p as int) =~= old_out.map_values(
                    |p: usize| p as int,
                ).push(p as int));
                if next >= hay.len() {
                    done = true;
                    assert(old_out.map_values(|p: usize| p as int) + seq![p as int]
                        =~= out@.map_values(|p: usize| p as int) + Seq::<int>::empty());
                } else {
                    start = next;
                    assert(old_out.map_values(|p: usize| p as int) + (seq![p as int] + line_matches(
                        hay@,
                        needle@,
                        next as int,
                    )) =~= out@.map_values(|p: usize| p as int) + line_matches(
                        hay@,
                        needle@,
                        next as int,
                    ));
                }
            },
        }
    }
    out
}

/// Appends the matches of `q` in `lines[i]` to `out`.
fn push_line_matches(out: &mut Vec<(usize, usize)>, lines: &Vec<String>, i: usize, q: &[char])
    requires
        i < lines@.len(),
        q@.len() > 0,
        lines_fit(lines@),
    ensures
        final(out)@ == old(out)@ + line_matches(lines@[i as int]@, q@, 0).map_values(
            |p: int| (i, byte_offset(lines@[i as int]@, p) as usize),
        ),
        forall|t: int|
            old(out)@.len() <= t < final(out)@.len() ==> (#[trigger] final(out)@[t]).0 == i
                && final(out)@[t].1 <= utf8_len(lines@[i as int]@),
{
    let cs = chars_of(lines[i].as_str());
    proof {
        lemma_offset_full(cs@);
        assert(utf8_len(lines@[i as int]@) <= usize::MAX);
    }
    let ps = line_match_positions(&cs, q);
    let ghost start = out@;
    let ghost h = lines@[i as int]@;
    let ghost mapped = ps@.map_values(|p: usize| p as int);
    let mut j: usize = 0;
    while j < ps.len()
        invariant
            j <= ps@.len(),
            cs@ == h,
            utf8_len(cs@) <= usize::MAX,
            mapped == ps@.map_values(|p: usize| p as int),
            forall|t: int| 0 <= t < ps@.len() ==> ps@[t] <= cs@.len(),
            out@ == start + mapped.take(j as int).map_values(
                |p: int| (i, byte_offset(h, p) as usize),
            ),
            forall|t: int|
                start.len() <= t < out@.len() ==> (#[trigger] out@[t]).0 == i && out@[t].1
                    <= utf8_len(h),
        decreases ps@.len() - j,
    {
        proof {
            lemma_offset_monotone(cs@, ps@[j as int] as int, cs@.len() as int);
        }
        let b = offset_of(&cs, ps[j]);
        proof {
            lemma_offset_full(cs@);
        }
        out.push((i, b));
        j = j + 1;
        assert(mapped.take(j as int) =~= mapped.take(j - 1).push(ps@[j - 1] as int));
        assert(out@ =~= start + mapped.take(j as int).map_values(
            |p: int| (i, byte_offset(h, p) as usize),
        ));
    }
    assert(mapped.take(ps@.len() as int) =~= mapped);
}

/// Clamped column `col` of `t`, as a character index.
pub open spec fn clamped_index(t: Seq<char>, col: int) -> int {
    char_index(t, clamp_col(t, col))
}

/// What a multi-line selection from `f` to `l` takes of line `i`.
pub open spec fn selection_piece(lines: Seq<String>, f: (usize, usize), l: (usize, usize), i: int) -> Seq<char> {
    match line_text(lines, i) {
        None => Seq::empty(),
        Some(t) => {
            let body = if i == f.0 {
                t.skip(clamped_index(t, f.1 as int))
            } else if i == l.0 {
                t.take(clamped_index(t, l.1 as int))
            } else {
                t
            };
            if i != l.0 {
                body.push('\n')
            } else {
                body
            }
        },
    }
}

/// The pieces of lines `from..to` of a multi-line selection, joined.
pub open spec fn selection_pieces(
    lines: Seq<String>,
    f: (usize, usize),
    l: (usize, usize),
    from: int,
    to: int,
) -> Seq<char>
    decreases to - from,
{
    if to <= from {
        Seq::empty()
    } else {
        selection_pieces(lines, f, l, from, to - 1) + selection_piece(lines, f, l, to - 1)
    }
}

/// The selected text between the selection ends `a` and `b`.
pub open spec fn selected_text(lines: Seq<String>, a: (usize, usize), b: (usize, usize)) -> Option<Seq<char>> {
    if a.0 == b.0 {
        match line_text(lines, a.0 as int) {
            None => None,
            Some(t) => {
                let s = clamped_index(t, a.1 as int);
                let e = clamped_index(t, b.1 as int);
                if s <= e {
                    Some(t.subrange(s, e))
                } else {
                    Some(t.subrange(e, s))
                }
            },
        }
    } else {
        let (f, l) = ordered(a, b);
        Some(selection_pieces(lines, f, l, f.0 as int, l.0 + 1))
    }
}

/// The columns of the selection ends fall on character boundaries of their lines.
pub open spec fn selection_on_boundaries(lines: Seq<String>, a: (usize, usize), b: (usize, usize)) -> bool {
    let (f, l) = ordered(a, b);
    &&& (a.0 as int) < lines.len() ==> is_boundary(lines[a.0 as int]@, clamp_col(lines[a.0 as int]@, a.1 as int))
    &&& (b.0 as int) < lines.len() ==> is_boundary(lines[b.0 as int]@, clamp_col(lines[b.0 as int]@, b.1 as int))
}

fn clamped_char_index(cs: &[char], col: usize) -> (r: usize)
    requires
        utf8_len(cs@) <= usize::MAX,
        is_boundary(cs@, clamp_col(cs@, col as int)),
    ensures
        r == clamped_index(cs@, col as int),
        r <= cs@.len(),
{
    proof {
        lemma_offset_full(cs@);
    }
    let len = offset_of(cs, cs.len());
    let c = if col < len {
        col
    } else {
        len
    };
    match index_at_byte(cs, c) {
        Some(k) => k,
        None => 0,
    }
}

impl EditorState {
    /// Everything but the cursor is the same in `self` and `o`.
    pub open spec fn same_but_cursor(&self, o: &Self) -> bool {
        &&& self.selection_start == o.selection_start
        &&& self.selection_end == o.selection_end
        &&& self.is_selecting == o.is_selecting
        &&& self.is_dirty == o.is_dirty
        &&& self.buffer_version == o.buffer_version
        &&& self.find_visible == o.find_visible
        &&& self.replace_visible == o.replace_visible
        &&& self.find_query@ == o.find_query@
        &&& self.replace_text@ == o.replace_text@
        &&& self.find_results@ == o.find_results@
        &&& self.find_active_index == o.find_active_index
        &&& self.find_focus == o.find_focus
        &&& self.last_find_query@ == o.last_find_query@
        &&& self.find_result_version == o.find_result_version
        &&& self.status_message@ == o.status_message@
    }

    /// Everything but the cursor and the selection is the same in `self` and `o`.
    pub open spec fn same_but_cursor_selection(&self, o: &Self) -> bool {
        &&& self.is_dirty == o.is_dirty
        &&& self.buffer_version == o.buffer_version
        &&& self.find_visible == o.find_visible
        &&& self.replace_visible == o.replace_visible
        &&& self.find_query@ == o.find_query@
        &&& self.replace_text@ == o.replace_text@
        &&& self.find_results@ == o.find_results@
        &&& self.find_active_index == o.find_active_index
        &&& self.find_focus == o.find_focus
        &&& self.last_find_query@ == o.last_find_query@
        &&& self.find_result_version == o.find_result_version
        &&& self.status_message@ == o.status_message@
    }

    /// The find/replace state is the same in `self` and `o`.
    pub open spec fn same_find(&self, o: &Self) -> bool {
        &&& self.find_visible == o.find_visible
        &&& self.replace_visible == o.replace_visible
        &&& self.find_query@ == o.find_query@
        &&& self.replace_text@ == o.replace_text@
        &&& self.find_results@ == o.find_results@
        &&& self.find_active_index == o.find_active_index
        &&& self.find_focus == o.find_focus
        &&& self.last_find_query@ == o.last_find_query@
        &&& self.find_result_version == o.find_result_version
    }

    /// `self` is `o` after a change of the text: dirty, one version later.
    pub open spec fn edited_from(&self, o: &Self) -> bool {
        &&& self.is_dirty
        &&& self.buffer_version == o.buffer_version + 1
        &&& self.same_find(o)
    }

    /// Byte offset of the cursor in the text.
    pub open spec fn cursor_pos(&self, snap: &BufferSnapshot) -> int {
        snap.line_starts@[self.cursor_line as int] + self.cursor_col
    }

    /// The cursor's line start and the cursor column add up within `usize`.
    pub open spec fn cursor_pos_fits(&self, snap: &BufferSnapshot) -> bool {
        &&& self.cursor_line < snap.line_starts@.len()
        &&& self.cursor_pos(snap) <= usize::MAX
    }

    fn cursor_byte_pos(&self, snap: &BufferSnapshot) -> (r: usize)
        requires
            self.cursor_pos_fits(snap),
        ensures
            r == self.cursor_pos(snap),
    {
        snap.line_starts[self.cursor_line] + self.cursor_col
    }

    fn mark_edited(&mut self)
        requires
            old(self).buffer_version < u64::MAX,
        ensures
            final(self).edited_from(old(self)),
            final(self).cursor_line == old(self).cursor_line,
            final(self).cursor_col == old(self).cursor_col,
            final(self).selection_start == old(self).selection_start,
            final(self).selection_end == old(self).selection_end,
            final(self).is_selecting == old(self).is_selecting,
            final(self).status_message@ == old(self).status_message@,
    {
        self.is_dirty = true;
        self.buffer_version = self.buffer_version + 1;
    }

    /// Everything but the computed find results is the same in `self` and `o`.
    pub open spec fn same_but_results(&self, o: &Self) -> bool {
        &&& self.cursor_line == o.cursor_line
        &&& self.cursor_col == o.cursor_col
        &&& self.selection_start == o.selection_start
        &&& self.selection_end == o.selection_end
        &&& self.is_selecting == o.is_selecting
        &&& self.is_dirty == o.is_dirty
        &&& self.buffer_version == o.buffer_version
        &&& self.find_visible == o.find_visible
        &&& self.replace_visible == o.replace_visible
        &&& self.find_query@ == o.find_query@
        &&& self.replace_text@ == o.replace_text@
        &&& self.find_focus == o.find_focus
        &&& self.status_message@ == o.status_message@
    }

    /// Only the find panel's flags, focus and results may differ between `self` and `o`.
    pub open spec fn same_but_cursor_selection_find(&self, o: &Self) -> bool {
        &&& self.cursor_line == o.cursor_line
        &&& self.cursor_col == o.cursor_col
        &&& self.selection_start == o.selection_start
        &&& self.selection_end == o.selection_end
        &&& self.is_selecting == o.is_selecting
        &&& self.is_dirty == o.is_dirty
        &&& self.buffer_version == o.buffer_version
        &&& self.find_query@ == o.find_query@
        &&& self.replace_text@ == o.replace_text@
        &&& self.status_message@ == o.status_message@
    }

    /// The find results after `find_all` on `lines`: every match of the query
    /// in `lines`, none for an empty query.
    pub open spec fn results_after_find(&self, lines: Seq<String>) -> Seq<(usize, usize)> {
        if self.find_query@.len() == 0 {
            Seq::empty()
        } else {
            all_matches(lines, self.find_query@)
        }
    }

    /// A fresh editor: cursor at the start, nothing selected, nothing to find.
    pub fn new() -> (r: Self)
        ensures
            r.cursor_line == 0,
            r.cursor_col == 0,
            r.selection_start is None,
            r.selection_end is None,
            !r.is_selecting,
            !r.is_dirty,
            r.buffer_version == 0,
            !r.find_visible,
            !r.replace_visible,
            r.find_query@.len() == 0,
            r.replace_text@.len() == 0,
            r.find_results@.len() == 0,
            r.find_active_index == 0,
            r.find_focus == FindReplaceFocus::Unfocused,
            r.last_find_query@.len() == 0,
            r.find_result_version == 0,
            r.status_message@ == "就绪"@,
    {
        EditorState {
            cursor_line: 0,
            cursor_col: 0,
            selection_start: None,
            selection_end: None,
            is_selecting: false,
            is_dirty: false,
            buffer_version: 0,
            find_visible: false,
            replace_visible: false,
            find_query: String::new(),
            replace_text: String::new(),
            find_results: Vec::new(),
            find_active_index: 0,
            find_focus: FindReplaceFocus::Unfocused,
            last_find_query: String::new(),
            find_result_version: 0,
            status_message: to_string("就绪"),
        }
    }

    /// Moves the cursor one character left, or to the end of the previous line
    /// from the start of a line.
    pub fn move_cursor_left(&mut self, lines: &Vec<String>)
        requires
            lines_fit(lines@),
            old(self).cursor_col > 0 && old(self).cursor_line < lines@.len() ==> is_boundary(
                lines@[old(self).cursor_line as int]@,
                clamp_col(lines@[old(self).cursor_line as int]@, old(self).cursor_col as int),
            ),
        ensures
            final(self).same_but_cursor(old(self)),
            old(self).cursor_col > 0 ==> final(self).cursor_line == old(self).cursor_line && (
            if old(self).cursor_line < lines@.len() {
                final(self).cursor_col == col_left(
                    lines@[old(self).cursor_line as int]@,
                    old(self).cursor_col as int,
                )
            } else {
                final(self).cursor_col == old(self).cursor_col
            }),
            old(self).cursor_col == 0 && old(self).cursor_line > 0 ==> final(self).cursor_line
                == old(self).cursor_line - 1 && (if final(self).cursor_line < lines@.len() {
                final(self).cursor_col == utf8_len(lines@[final(self).cursor_line as int]@)
            } else {
                final(self).cursor_col == 0
            }),
            old(self).cursor_col == 0 && old(self).cursor_line == 0 ==> final(self).cursor_line
                == 0 && final(self).cursor_col == 0,
    {
        if self.cursor_col > 0 {
            if self.cursor_line < lines.len() {
                let text = &lines[self.cursor_line];
                let cs = chars_of(text.as_str());
                let len = str_len(text.as_str());
                let col = if self.cursor_col < len {
                    self.cursor_col
                } else {
                    len
                };
                proof {
                    lemma_offset_full(cs@);
                    lemma_offset_monotone(cs@, 0, cs@.len() as int);
                }
                match index_at_byte(&cs, col) {
                    Some(k) => {
                        if k > 0 {
                            self.cursor_col = offset_of(&cs, k - 1);
                        } else {
                            self.cursor_col = 0;
                        }
                    },
                    None => {},
                }
            }
        } else if self.cursor_line > 0 {
            self.cursor_line = self.cursor_line - 1;
            if self.cursor_line < lines.len() {
                self.cursor_col = str_len(lines[self.cursor_line].as_str());
            }
        }
    }

    /// Moves the cursor one character right, or to the start of the next line
    /// from the end of a line.
    pub fn move_cursor_right(&mut self, lines: &Vec<String>)
        requires
            lines_fit(lines@),
            old(self).cursor_line < lines@.len() && old(self).cursor_col < utf8_len(
                lines@[old(self).cursor_line as int]@,
            ) ==> is_boundary(lines@[old(self).cursor_line as int]@, old(self).cursor_col as int),
        ensures
            final(self).same_but_cursor(old(self)),
            old(self).cursor_line >= lines@.len() ==> final(self).cursor_line == old(self).cursor_line && final(self).cursor_col == old(self).cursor_col,
            old(self).cursor_line < lines@.len() ==> {
                let cs = lines@[old(self).cursor_line as int]@;
                if old(self).cursor_col < utf8_len(cs) {
                    final(self).cursor_line == old(self).cursor_line && final(self).cursor_col
                        == col_right(cs, old(self).cursor_col as int)
                } else if old(self).cursor_line + 1 < lines@.len() {
                    final(self).cursor_line == old(self).cursor_line + 1 && final(self).cursor_col
                        == 0
                } else {
                    final(self).cursor_line == old(self).cursor_line && final(self).cursor_col
                        == old(self).cursor_col
                }
            },
    {
        if self.cursor_line < lines.len() {
            let text = &lines[self.cursor_line];
            let len = str_len(text.as_str());
            if self.cursor_col < len {
                let cs = chars_of(text.as_str());
                proof {
                    lemma_offset_full(cs@);
                }
                match index_at_byte(&cs, self.cursor_col) {
                    Some(k) => {
                        if k < cs.len() {
                            proof {
                                lemma_offset_monotone(cs@, k as int + 1, cs@.len() as int);
                            }
                            self.cursor_col = offset_of(&cs, k + 1);
                        } else {
                            proof {
                                lemma_offset_full(cs@);
                            }
                        }
                    },
                    None => {},
                }
            } else if self.cursor_line + 1 < lines.len() {
                self.cursor_line = self.cursor_line + 1;
                self.cursor_col = 0;
            }
        }
    }

    /// Moves the cursor to the previous line, clamping the column to its length.
    pub fn move_cursor_up(&mut self, lines: &Vec<String>)
        requires
            lines_fit(lines@),
        ensures
            final(self).same_but_cursor(old(self)),
            old(self).cursor_line == 0 ==> final(self).cursor_line == 0 && final(self).cursor_col
                == old(self).cursor_col,
            old(self).cursor_line > 0 ==> final(self).cursor_line == old(self).cursor_line - 1 && (
            if final(self).cursor_line < lines@.len() {
                final(self).cursor_col == clamp_col(
                    lines@[final(self).cursor_line as int]@,
                    old(self).cursor_col as int,
                )
            } else {
                final(self).cursor_col == old(self).cursor_col
            }),
    {
        if self.cursor_line > 0 {
            self.cursor_line = self.cursor_line - 1;
            if self.cursor_line < lines.len() {
                let len = str_len(lines[self.cursor_line].as_str());
                if len < self.cursor_col {
                    self.cursor_col = len;
                }
            }
        }
    }

    /// Moves the cursor to the next line, clamping the column to its length.
    pub fn move_cursor_down(&mut self, lines: &Vec<String>)
        requires
            lines_fit(lines@),
        ensures
            final(self).same_but_cursor(old(self)),
            old(self).cursor_line + 1 >= lines@.len() ==> final(self).cursor_line == old(self).cursor_line && final(self).cursor_col == old(self).cursor_col,
            old(self).cursor_line + 1 < lines@.len() ==> final(self).cursor_line == old(self).cursor_line + 1 && final(self).cursor_col == clamp_col(
                lines@[final(self).cursor_line as int]@,
                old(self).cursor_col as int,
            ),
    {
        if self.cursor_line < lines.len() && self.cursor_line + 1 < lines.len() {
            self.cursor_line = self.cursor_line + 1;
            let len = str_len(lines[self.cursor_line].as_str());
            if len < self.cursor_col {
                self.cursor_col = len;
            }
        }
    }

    /// Moves the cursor to the start of its line.
    pub fn move_cursor_home(&mut self)
        ensures
            final(self).same_but_cursor(old(self)),
            final(self).cursor_line == old(self).cursor_line,
            final(self).cursor_col == 0,
    {
        self.cursor_col = 0;
    }

    /// Moves the cursor to the end of its line.
    pub fn move_cursor_end(&mut self, lines: &Vec<String>)
        requires
            lines_fit(lines@),
        ensures
            final(self).same_but_cursor(old(self)),
            final(self).cursor_line == old(self).cursor_line,
            old(self).cursor_line < lines@.len() ==> final(self).cursor_col == utf8_len(
                lines@[old(self).cursor_line as int]@,
            ),
            old(self).cursor_line >= lines@.len() ==> final(self).cursor_col == old(self).cursor_col,
    {
        if self.cursor_line < lines.len() {
            self.cursor_col = str_len(lines[self.cursor_line].as_str());
        }
    }

    /// Puts the cursor on `line` (clamped to the last line) at the byte column of
    /// its `char_col`-th character (clamped to the line end).
    pub fn set_cursor_at(&mut self, line: usize, char_col: usize, lines: &Vec<String>)
        requires
            lines_fit(lines@),
        ensures
            final(self).same_but_cursor(old(self)),
            final(self).cursor_line == (if lines@.len() == 0 {
                0
            } else if line < lines@.len() {
                line as int
            } else {
                lines@.len() - 1
            }),
            final(self).cursor_col == (if final(self).cursor_line < lines@.len() {
                col_of_char(lines@[final(self).cursor_line as int]@, char_col as int)
            } else {
                0
            }),
    {
        let total = lines.len();
        let last = if total > 0 {
            total - 1
        } else {
            0
        };
        self.cursor_line = if line < last {
            line
        } else {
            last
        };
        if self.cursor_line < lines.len() {
            let text = &lines[self.cursor_line];
            let cs = chars_of(text.as_str());
            let len = str_len(text.as_str());
            proof {
                lemma_offset_full(cs@);
            }
            if char_col < cs.len() {
                proof {
                    lemma_offset_monotone(cs@, char_col as int, cs@.len() as int);
                }
                self.cursor_col = offset_of(&cs, char_col);
            } else {
                self.cursor_col = len;
            }
        } else {
            self.cursor_col = 0;
        }
    }

    /// Starts a selection at the cursor.
    pub fn start_selection(&mut self)
        ensures
            final(self).selection_start == Some((old(self).cursor_line, old(self).cursor_col)),
            final(self).selection_end == Some((old(self).cursor_line, old(self).cursor_col)),
            final(self).is_selecting,
            final(self).cursor_line == old(self).cursor_line,
            final(self).cursor_col == old(self).cursor_col,
            final(self).same_but_cursor_selection(old(self)),
    {
        self.selection_start = Some((self.cursor_line, self.cursor_col));
        self.selection_end = Some((self.cursor_line, self.cursor_col));
        self.is_selecting = true;
    }

    /// While a selection is being made, moves its end to the cursor.
    pub fn update_selection(&mut self)
        ensures
            final(self).selection_start == old(self).selection_start,
            final(self).selection_end == (if old(self).is_selecting {
                Some((old(self).cursor_line, old(self).cursor_col))
            } else {
                old(self).selection_end
            }),
            final(self).is_selecting == old(self).is_selecting,
            final(self).cursor_line == old(self).cursor_line,
            final(self).cursor_col == old(self).cursor_col,
            final(self).same_but_cursor_selection(old(self)),
    {
        if self.is_selecting {
            self.selection_end = Some((self.cursor_line, self.cursor_col));
        }
    }

    /// Stops extending the selection (it stays in place).
    pub fn end_selection(&mut self)
        ensures
            final(self).selection_start == old(self).selection_start,
            final(self).selection_end == old(self).selection_end,
            !final(self).is_selecting,
            final(self).cursor_line == old(self).cursor_line,
            final(self).cursor_col == old(self).cursor_col,
            final(self).same_but_cursor_selection(old(self)),
    {
        self.is_selecting = false;
    }

    /// Removes the selection.
    pub fn clear_selection(&mut self)
        ensures
            final(self).selection_start is None,
            final(self).selection_end is None,
            final(self).is_selecting == old(self).is_selecting,
            final(self).cursor_line == old(self).cursor_line,
            final(self).cursor_col == old(self).cursor_col,
            final(self).same_but_cursor_selection(old(self)),
    {
        self.selection_start = None;
        self.selection_end = None;
    }

    /// Whether both ends of a selection are set.
    pub fn has_selection(&self) -> (r: bool)
        ensures
            r == (self.selection_start is Some && self.selection_end is Some),
    {
        self.selection_start.is_some() && self.selection_end.is_some()
    }

    /// Selects the whole text and puts the cursor at its end.
    pub fn select_all(&mut self, lines: &Vec<String>)
        requires
            lines_fit(lines@),
        ensures
            ({
                let last = if lines@.len() == 0 {
                    0
                } else {
                    lines@.len() - 1
                };
                let last_col = if last < lines@.len() {
                    utf8_len(lines@[last]@) as int
                } else {
                    0
                };
                &&& final(self).selection_start == Some((0usize, 0usize))
                &&& final(self).selection_end == Some((last as usize, last_col as usize))
                &&& final(self).cursor_line == last
                &&& final(self).cursor_col == last_col
            }),
            !final(self).is_selecting,
            final(self).same_but_cursor_selection(old(self)),
    {
        let last_line = if lines.len() > 0 {
            lines.len() - 1
        } else {
            0
        };
        let last_col = if last_line < lines.len() {
            str_len(lines[last_line].as_str())
        } else {
            0
        };
        self.selection_start = Some((0, 0));
        self.selection_end = Some((last_line, last_col));
        self.cursor_line = last_line;
        self.cursor_col = last_col;
        self.is_selecting = false;
    }

    /// What `insert_char` needs: the cursor offset, and room for a character after it.
    pub open spec fn insert_char_fits(&self, snap: &BufferSnapshot) -> bool {
        &&& self.cursor_pos_fits(snap)
        &&& self.cursor_pos(snap) + 4 <= usize::MAX
        &&& self.buffer_version < u64::MAX
    }

    /// `new` and `c` are `self` after `insert_char(ch)` and the change it made:
    /// `ch` inserted at the cursor, which moves past it.
    pub open spec fn inserted_char(&self, snap: &BufferSnapshot, ch: char, new: Self, c: Change) -> bool {
        &&& c.edits@.len() == 1
        &&& is_insert(c.edits@[0], self.cursor_pos(snap), seq![ch])
        &&& c.op == OpType::Insert
        &&& c.pos == self.cursor_pos(snap)
        &&& c.cursor_before == (self.cursor_line, self.cursor_col)
        &&& c.cursor_after == (new.cursor_line, new.cursor_col)
        &&& new.cursor_line == self.cursor_line
        &&& new.cursor_col == self.cursor_col + crate::text::char_width(ch)
        &&& new.edited_from(self)
        &&& new.selection_start == self.selection_start
        &&& new.selection_end == self.selection_end
        &&& new.is_selecting == self.is_selecting
        &&& new.status_message@ == "已修改"@
    }

    /// What `insert_newline` needs: the cursor offset, a next line number,
    /// and room for the indent.
    pub open spec fn insert_newline_fits(&self, snap: &BufferSnapshot) -> bool {
        &&& self.cursor_pos_fits(snap)
        &&& self.cursor_line < usize::MAX
        &&& lines_fit(snap.lines@)
        &&& self.cursor_line < snap.lines@.len() ==> utf8_len(snap.lines@[self.cursor_line as int]@)
            + 4 <= usize::MAX
        &&& self.buffer_version < u64::MAX
    }

    /// `new` and `c` are `self` after `insert_newline` and the change it made:
    /// a line break and the new line's indent inserted at the cursor, which
    /// moves to the start of the next line, after the indent.
    pub open spec fn inserted_newline(&self, snap: &BufferSnapshot, new: Self, c: Change) -> bool {
        let indent = newline_indent(line_text(snap.lines@, self.cursor_line as int));
        &&& c.edits@.len() == 1
        &&& is_insert(c.edits@[0], self.cursor_pos(snap), seq!['\n'] + indent)
        &&& new.cursor_line == self.cursor_line + 1
        &&& new.cursor_col == utf8_len(indent)
        &&& c.op == OpType::Insert
        &&& c.pos == self.cursor_pos(snap)
        &&& c.cursor_before == (self.cursor_line, self.cursor_col)
        &&& c.cursor_after == (new.cursor_line, new.cursor_col)
        &&& new.edited_from(self)
        &&& new.selection_start == self.selection_start
        &&& new.selection_end == self.selection_end
        &&& new.is_selecting == self.is_selecting
        &&& new.status_message@ == "已修改"@
    }

    /// What `delete_char` needs: inside a line, the cursor offset and a
    /// previous character on the same line; at a line start, the previous
    /// line's start and room for the joined line.
    pub open spec fn delete_char_fits(&self, snap: &BufferSnapshot) -> bool {
        &&& self.cursor_col > 0 ==> self.cursor_pos_fits(snap) && self.cursor_pos(snap)
            <= snap.bytes@.len() && prev_char_boundary(snap.bytes@, self.cursor_pos(snap))
            >= snap.line_starts@[self.cursor_line as int]
        &&& self.cursor_col == 0 && self.cursor_line > 0 ==> self.cursor_line - 1
            < snap.line_starts@.len()
        &&& lines_fit(snap.lines@)
        &&& self.cursor_col == 0 && 0 < self.cursor_line < snap.lines@.len()
            ==> snap.line_starts@[self.cursor_line - 1] + utf8_len(
            snap.lines@[self.cursor_line - 1]@,
        ) + utf8_len(snap.lines@[self.cursor_line as int]@) + 1 <= usize::MAX
        &&& self.buffer_version < u64::MAX
    }

    /// `new` and `c` are `self` after `delete_char` and the change it made:
    /// inside a line the character before the cursor is deleted; at the
    /// start of a line after the first, the line is deleted, line break
    /// included, and the cursor goes to the end of the previous line; at the
    /// very start nothing happens.
    pub open spec fn deleted_char(&self, snap: &BufferSnapshot, new: Self, c: Option<Change>) -> bool {
        &&& self.cursor_col > 0 ==> {
            let pos = self.cursor_pos(snap);
            let prev = prev_char_boundary(snap.bytes@, pos);
            if prev < pos {
                &&& c matches Some(ch) && ch.edits@.len() == 1 && is_delete(ch.edits@[0], prev, pos)
                    && ch.op == OpType::Delete && ch.pos == prev
                &&& new.cursor_line == self.cursor_line
                &&& new.cursor_col == self.cursor_col - (pos - prev)
            } else {
                c is None
            }
        }
        &&& self.cursor_col == 0 && self.cursor_line > 0 ==> {
            let pl = self.cursor_line - 1;
            if self.cursor_line < snap.lines@.len() {
                let plen = utf8_len(snap.lines@[pl]@);
                let start = snap.line_starts@[pl] + plen;
                let end = start + utf8_len(snap.lines@[self.cursor_line as int]@) + 1;
                &&& c matches Some(ch) && ch.edits@.len() == 1 && is_delete(ch.edits@[0], start, end)
                    && ch.op == OpType::Delete && ch.pos == start
                &&& new.cursor_line == pl
                &&& new.cursor_col == plen
            } else {
                c is None
            }
        }
        &&& self.cursor_col == 0 && self.cursor_line == 0 ==> c is None
        &&& c is None ==> new == *self
        &&& c matches Some(ch) ==> {
            &&& ch.cursor_before == (self.cursor_line, self.cursor_col)
            &&& ch.cursor_after == (new.cursor_line, new.cursor_col)
            &&& new.edited_from(self)
            &&& new.selection_start == self.selection_start
            &&& new.selection_end == self.selection_end
            &&& new.is_selecting == self.is_selecting
            &&& new.status_message@ == "已修改"@
        }
    }

    /// Types `ch` at the cursor.
    pub fn insert_char(&mut self, ch: char, snap: &BufferSnapshot) -> (c: Change)
        requires
            old(self).insert_char_fits(snap),
        ensures
            old(self).inserted_char(snap, ch, *final(self), c),
    {
        let pos = self.cursor_byte_pos(snap);
        let before = (self.cursor_line, self.cursor_col);
        let mut text = String::new();
        text.push(ch);
        self.cursor_col = self.cursor_col + len_utf8(ch);
        self.mark_edited();
        self.status_message = to_string("已修改");
        let mut edits = Vec::new();
        edits.push(Edit::Insert { pos, text });
        Change {
            edits,
            op: OpType::Insert,
            pos,
            cursor_before: before,
            cursor_after: (self.cursor_line, self.cursor_col),
        }
    }

    /// Inserts four spaces at the cursor.
    pub fn insert_tab(&mut self, snap: &BufferSnapshot) -> (c: Change)
        requires
            old(self).cursor_pos_fits(snap),
            old(self).cursor_pos(snap) + 4 <= usize::MAX,
            old(self).buffer_version < u64::MAX,
        ensures
            c.edits@.len() == 1,
            is_insert(c.edits@[0], old(self).cursor_pos(snap), four_spaces()),
            c.op == OpType::Insert,
            c.pos == old(self).cursor_pos(snap),
            c.cursor_before == (old(self).cursor_line, old(self).cursor_col),
            c.cursor_after == (final(self).cursor_line, final(self).cursor_col),
            final(self).cursor_line == old(self).cursor_line,
            final(self).cursor_col == old(self).cursor_col + 4,
            final(self).edited_from(old(self)),
            final(self).selection_start == old(self).selection_start,
            final(self).selection_end == old(self).selection_end,
            final(self).is_selecting == old(self).is_selecting,
            final(self).status_message@ == "已修改"@,
    {
        let pos = self.cursor_byte_pos(snap);
        let before = (self.cursor_line, self.cursor_col);
        let text = four_space_string();
        self.cursor_col = self.cursor_col + 4;
        self.mark_edited();
        self.status_message = to_string("已修改");
        let mut edits = Vec::new();
        edits.push(Edit::Insert { pos, text });
        Change {
            edits,
            op: OpType::Insert,
            pos,
            cursor_before: before,
            cursor_after: (self.cursor_line, self.cursor_col),
        }
    }

    /// Breaks the line at the cursor; the new line keeps the indentation of
    /// the current one, four spaces deeper after a line ending in `{` or `:`.
    pub fn insert_newline(&mut self, snap: &BufferSnapshot) -> (c: Change)
        requires
            old(self).insert_newline_fits(snap),
        ensures
            old(self).inserted_newline(snap, *final(self), c),
    {
        let pos = self.cursor_byte_pos(snap);
        let before = (self.cursor_line, self.cursor_col);
        let mut text = String::new();
        text.push('\n');
        let mut indent_len: usize = 0;
        let ghost t = line_text(snap.lines@, self.cursor_line as int);
        if self.cursor_line < snap.lines.len() {
            let line = &snap.lines[self.cursor_line];
            let cs = chars_of(line.as_str());
            let n = cs.len();
            let w = crate::text::skip_ws_forward(&cs, 0, n);
            let e = crate::text::skip_ws_backward(&cs, 0, n);
            proof {
                assert(cs@.subrange(0, n as int) =~= cs@);
                lemma_offset_full(cs@);
                lemma_offset_monotone(cs@, w as int, n as int);
            }
            let mut i: usize = 0;
            while i < w
                invariant
                    i <= w <= cs@.len(),
                    text@ == seq!['\n'] + cs@.take(i as int),
                decreases w - i,
            {
                text.push(cs[i]);
                i = i + 1;
                assert(cs@.take(i as int) =~= cs@.take(i - 1).push(cs@[i - 1]));
            }
            indent_len = offset_of(&cs, w);
            if e > 0 && (cs[e - 1] == '{' || cs[e - 1] == ':') {
                text.push(' ');
                text.push(' ');
                text.push(' ');
                text.push(' ');
                indent_len = indent_len + 4;
            }
            proof {
                let te = crate::text::trim_end(cs@);
                assert(te =~= cs@.take(e as int));
                let indent = newline_indent(t);
                let pre = cs@.take(w as int);
                assert(indent_len == utf8_len(indent)) by {
                    if e > 0 && (cs@[e - 1] == '{' || cs@[e - 1] == ':') {
                        assert(indent =~= pre.push(' ').push(' ').push(' ').push(' '));
                        lemma_utf8_len_push(pre, ' ');
                        lemma_utf8_len_push(pre.push(' '), ' ');
                        lemma_utf8_len_push(pre.push(' ').push(' '), ' ');
                        lemma_utf8_len_push(pre.push(' ').push(' ').push(' '), ' ');
                    } else {
                        assert(indent =~= pre);
                    }
                }
                assert(text@ =~= seq!['\n'] + indent);
            }
        } else {
            assert(text@ =~= seq!['\n'] + newline_indent(t));
        }
        self.cursor_line = self.cursor_line + 1;
        self.cursor_col = indent_len;
        self.mark_edited();
        self.status_message = to_string("已修改");
        let mut edits = Vec::new();
        edits.push(Edit::Insert { pos, text });
        Change {
            edits,
            op: OpType::Insert,
            pos,
            cursor_before: before,
            cursor_after: (self.cursor_line, self.cursor_col),
        }
    }

    /// Backspace: deletes the character before the cursor, or joins the line
    /// with the previous one at the start of a line.
    pub fn delete_char(&mut self, snap: &BufferSnapshot) -> (c: Option<Change>)
        requires
            old(self).delete_char_fits(snap),
        ensures
            old(self).deleted_char(snap, *final(self), c),
    {
        let before = (self.cursor_line, self.cursor_col);
        if self.cursor_col > 0 {
            let pos = self.cursor_byte_pos(snap);
            let prev = find_prev_char_boundary(snap.bytes.as_slice(), pos);
            if prev < pos {
                self.cursor_col = self.cursor_col - (pos - prev);
                self.mark_edited();
                self.status_message = to_string("已修改");
                let mut edits = Vec::new();
                edits.push(Edit::Delete { start: prev, end: pos });
                return Some(
                    Change {
                        edits,
                        op: OpType::Delete,
                        pos: prev,
                        cursor_before: before,
                        cursor_after: (self.cursor_line, self.cursor_col),
                    },
                );
            }
            None
        } else if self.cursor_line > 0 {
            let prev_line = self.cursor_line - 1;
            if prev_line < snap.lines.len() && self.cursor_line < snap.lines.len() {
                let prev_len = str_len(snap.lines[prev_line].as_str());
                let curr_len = str_len(snap.lines[self.cursor_line].as_str());
                let start = snap.line_starts[prev_line] + prev_len;
                let end = start + curr_len + 1;
                self.cursor_line = prev_line;
                self.cursor_col = prev_len;
                self.mark_edited();
                self.status_message = to_string("已修改");
                let mut edits = Vec::new();
                edits.push(Edit::Delete { start, end });
                return Some(
                    Change {
                        edits,
                        op: OpType::Delete,
                        pos: start,
                        cursor_before: before,
                        cursor_after: (self.cursor_line, self.cursor_col),
                    },
                );
            }
            None
        } else {
            None
        }
    }

    /// Delete: removes the character after the cursor.
    pub fn delete_forward(&mut self, snap: &BufferSnapshot) -> (c: Option<Change>)
        requires
            old(self).cursor_pos_fits(snap),
            old(self).buffer_version < u64::MAX,
        ensures
            ({
                let pos = old(self).cursor_pos(snap);
                let next = next_char_boundary(snap.bytes@, pos);
                if next > pos {
                    &&& c matches Some(ch) && ch.edits@.len() == 1 && is_delete(
                        ch.edits@[0],
                        pos,
                        next,
                    ) && ch.op == OpType::Delete && ch.pos == pos && ch.cursor_before == (
                    old(self).cursor_line, old(self).cursor_col) && ch.cursor_after
                        == ch.cursor_before
                    &&& final(self).cursor_line == old(self).cursor_line
                    &&& final(self).cursor_col == old(self).cursor_col
                    &&& final(self).edited_from(old(self))
                    &&& final(self).selection_start == old(self).selection_start
                    &&& final(self).selection_end == old(self).selection_end
                    &&& final(self).is_selecting == old(self).is_selecting
                    &&& final(self).status_message@ == "已修改"@
                } else {
                    c is None && *final(self) == *old(self)
                }
            }),
    {
        let pos = self.cursor_byte_pos(snap);
        let next = find_next_char_boundary(snap.bytes.as_slice(), pos);
        if next > pos {
            self.mark_edited();
            self.status_message = to_string("已修改");
            let mut edits = Vec::new();
            edits.push(Edit::Delete { start: pos, end: next });
            let cur = (self.cursor_line, self.cursor_col);
            Some(
                Change { edits, op: OpType::Delete, pos, cursor_before: cur, cursor_after: cur },
            )
        } else {
            None
        }
    }

    /// The selection's ends are lines with known starts, and their offsets fit.
    pub open spec fn selection_fits(&self, snap: &BufferSnapshot) -> bool {
        self.selection_start matches Some(a) && self.selection_end matches Some(b) ==> {
            &&& a.0 < snap.line_starts@.len()
            &&& b.0 < snap.line_starts@.len()
            &&& snap.line_starts@[a.0 as int] + a.1 <= usize::MAX
            &&& snap.line_starts@[b.0 as int] + b.1 <= usize::MAX
        }
    }

    /// Byte range `(start, end)` of the selection, its ends in document order.
    pub open spec fn selection_range(&self, snap: &BufferSnapshot) -> (int, int) {
        let (f, l) = ordered(self.selection_start->0, self.selection_end->0);
        (snap.line_starts@[f.0 as int] + f.1, snap.line_starts@[l.0 as int] + l.1)
    }

    fn selection_bytes(&self, snap: &BufferSnapshot) -> (r: (usize, usize, (usize, usize)))
        requires
            self.selection_start is Some,
            self.selection_end is Some,
            self.selection_fits(snap),
        ensures
            r.0 == self.selection_range(snap).0,
            r.1 == self.selection_range(snap).1,
            r.2 == ordered(self.selection_start->0, self.selection_end->0).0,
    {
        let a = self.selection_start.unwrap();
        let b = self.selection_end.unwrap();
        let (f, l) = if a.0 < b.0 || (a.0 == b.0 && a.1 <= b.1) {
            (a, b)
        } else {
            (b, a)
        };
        (snap.line_starts[f.0] + f.1, snap.line_starts[l.0] + l.1, f)
    }

    /// Deletes the selected text (when it is not empty) and removes the selection.
    pub fn delete_selection(&mut self, snap: &BufferSnapshot) -> (c: Option<Change>)
        requires
            old(self).selection_fits(snap),
            old(self).buffer_version < u64::MAX,
        ensures
            !(old(self).selection_start is Some && old(self).selection_end is Some) ==> c is None
                && *final(self) == *old(self),
            old(self).selection_start is Some && old(self).selection_end is Some ==> {
                let (start, end) = old(self).selection_range(snap);
                let first = ordered(old(self).selection_start->0, old(self).selection_end->0).0;
                &&& final(self).selection_start is None
                &&& final(self).selection_end is None
                &&& final(self).is_selecting == old(self).is_selecting
                &&& final(self).status_message@ == old(self).status_message@
                &&& if start < end {
                    &&& c matches Some(ch) && ch.edits@.len() == 1 && is_delete(
                        ch.edits@[0],
                        start,
                        end,
                    ) && ch.op == OpType::Delete && ch.pos == start && ch.cursor_before == (
                    old(self).cursor_line, old(self).cursor_col) && ch.cursor_after == first
                    &&& final(self).cursor_line == first.0
                    &&& final(self).cursor_col == first.1
                    &&& final(self).edited_from(old(self))
                } else {
                    &&& c is None
                    &&& final(self).cursor_line == old(self).cursor_line
                    &&& final(self).cursor_col == old(self).cursor_col
                    &&& final(self).is_dirty == old(self).is_dirty
                    &&& final(self).buffer_version == old(self).buffer_version
                    &&& final(self).same_find(old(self))
                }
            },
    {
        if self.selection_start.is_none() || self.selection_end.is_none() {
            return None;
        }
        let (start, end, first) = self.selection_bytes(snap);
        let mut result = None;
        if start < end {
            let before = (self.cursor_line, self.cursor_col);
            self.mark_edited();
            self.cursor_line = first.0;
            self.cursor_col = first.1;
            let mut edits = Vec::new();
            edits.push(Edit::Delete { start, end });
            result = Some(
                Change { edits, op: OpType::Delete, pos: start, cursor_before: before, cursor_after: first },
            );
        }
        self.clear_selection();
        result
    }

    /// Inserts `text` (the clipboard contents) at the cursor, after deleting
    /// the selection if there is one; the cursor moves past the text.
    pub fn paste(&mut self, text: &str, snap: &BufferSnapshot) -> (cs: Vec<Change>)
        requires
            old(self).selection_fits(snap),
            old(self).cursor_pos_fits(snap),
            utf8_len(text@) <= usize::MAX,
            old(self).buffer_version < u64::MAX - 1,
            ({
                let p = if old(self).selection_start is Some && old(self).selection_end is Some
                    && old(self).selection_range(snap).0 < old(self).selection_range(snap).1 {
                    ordered(old(self).selection_start->0, old(self).selection_end->0).0
                } else {
                    (old(self).cursor_line, old(self).cursor_col)
                };
                let after = cursor_after_insert(p.0 as int, p.1 as int, text@);
                &&& snap.line_starts@[p.0 as int] + p.1 <= usize::MAX
                &&& after.0 <= usize::MAX
                &&& after.1 <= usize::MAX
            }),
        ensures
            ({
                let sel = old(self).selection_start is Some && old(self).selection_end is Some;
                let (start, end) = old(self).selection_range(snap);
                let deleted = sel && start < end;
                let p = if deleted {
                    ordered(old(self).selection_start->0, old(self).selection_end->0).0
                } else {
                    (old(self).cursor_line, old(self).cursor_col)
                };
                let pos = snap.line_starts@[p.0 as int] + p.1;
                let after = cursor_after_insert(p.0 as int, p.1 as int, text@);
                let k = cs@.len() - 1;
                &&& cs@.len() == if deleted {
                    2int
                } else {
                    1int
                }
                &&& deleted ==> cs@[0].edits@.len() == 1 && is_delete(cs@[0].edits@[0], start, end)
                    && cs@[0].op == OpType::Delete && cs@[0].pos == start
                &&& cs@[k].edits@.len() == 1 && is_insert(cs@[k].edits@[0], pos, text@)
                    && cs@[k].op == OpType::Insert && cs@[k].pos == pos && cs@[k].cursor_before
                    == p && cs@[k].cursor_after == (final(self).cursor_line, final(self).cursor_col)
                &&& final(self).cursor_line == after.0
                &&& final(self).cursor_col == after.1
                &&& final(self).is_dirty
                &&& final(self).buffer_version == old(self).buffer_version + cs@.len()
                &&& final(self).same_find(old(self))
            }),
            final(self).selection_start is None,
            final(self).selection_end is None,
            final(self).is_selecting == old(self).is_selecting,
            final(self).status_message@ == "已粘贴"@,
    {
        let mut out: Vec<Change> = Vec::new();
        if self.selection_start.is_some() && self.selection_end.is_some() {
            match self.delete_selection(snap) {
                Some(c) => out.push(c),
                None => {},
            }
        }
        let pos = snap.line_starts[self.cursor_line] + self.cursor_col;
        let before = (self.cursor_line, self.cursor_col);
        let cs = chars_of(text);
        let (breaks, tail) = newline_stats(&cs);
        let len = str_len(text);
        self.mark_edited();
        if breaks == 0 {
            self.cursor_col = self.cursor_col + len;
        } else {
            self.cursor_line = self.cursor_line + breaks;
            self.cursor_col = tail;
        }
        self.clear_selection();
        self.status_message = to_string("已粘贴");
        let mut edits = Vec::new();
        edits.push(Edit::Insert { pos, text: to_string(text) });
        out.push(
            Change {
                edits,
                op: OpType::Insert,
                pos,
                cursor_before: before,
                cursor_after: (self.cursor_line, self.cursor_col),
            },
        );
        out
    }

    /// `new` is `self` after `undo` with the cursor `restored` that the undo
    /// history gave back (`None`: nothing to undo, nothing changes).
    pub open spec fn undone(&self, restored: Option<(usize, usize)>, new: Self) -> bool {
        &&& restored is None ==> new == *self
        &&& restored matches Some(p) ==> {
            &&& new.cursor_line == p.0
            &&& new.cursor_col == p.1
            &&& new.edited_from(self)
            &&& new.selection_start == self.selection_start
            &&& new.selection_end == self.selection_end
            &&& new.is_selecting == self.is_selecting
            &&& new.status_message@ == "已撤销"@
        }
    }

    /// Moves the cursor to where the undo history put it back.
    pub fn undo(&mut self, restored: Option<(usize, usize)>)
        requires
            restored is Some ==> old(self).buffer_version < u64::MAX,
        ensures
            old(self).undone(restored, *final(self)),
    {
        if let Some(p) = restored {
            self.cursor_line = p.0;
            self.cursor_col = p.1;
            self.mark_edited();
            self.status_message = to_string("已撤销");
        }
    }

    /// Moves the cursor to where the redo history put it.
    pub fn redo(&mut self, restored: Option<(usize, usize)>)
        requires
            restored is Some ==> old(self).buffer_version < u64::MAX,
        ensures
            restored is None ==> *final(self) == *old(self),
            restored matches Some(p) ==> {
                &&& final(self).cursor_line == p.0
                &&& final(self).cursor_col == p.1
                &&& final(self).edited_from(old(self))
                &&& final(self).selection_start == old(self).selection_start
                &&& final(self).selection_end == old(self).selection_end
                &&& final(self).is_selecting == old(self).is_selecting
                &&& final(self).status_message@ == "已重做"@
            },
    {
        if let Some(p) = restored {
            self.cursor_line = p.0;
            self.cursor_col = p.1;
            self.mark_edited();
            self.status_message = to_string("已重做");
        }
    }

    /// Finds every occurrence of `find_query` in `lines` and makes the first
    /// one active; records the query and text version searched.
    pub fn find_all(&mut self, lines: &Vec<String>)
        requires
            lines_fit(lines@),
        ensures
            final(self).same_but_results(old(self)),
            final(self).find_active_index == 0,
            final(self).find_results@ == old(self).results_after_find(lines@),
            old(self).find_query@.len() == 0 ==> final(self).last_find_query@.len() == 0
                && final(self).find_result_version == old(self).find_result_version,
            old(self).find_query@.len() > 0 ==> final(self).last_find_query@ == old(self).find_query@
                && final(self).find_result_version == old(self).buffer_version,
            forall|t: int|
                0 <= t < final(self).find_results@.len() ==> (#[trigger] final(self).find_results@[t]).0 < lines@.len() && final(self).find_results@[t].1 <= utf8_len(
                    lines@[final(self).find_results@[t].0 as int]@,
                ),
    {
        self.find_active_index = 0;
        let q = chars_of(self.find_query.as_str());
        if q.len() == 0 {
            self.find_results = Vec::new();
            self.last_find_query = String::new();
            return;
        }
        let mut results: Vec<(usize, usize)> = Vec::new();
        let mut i: usize = 0;
        while i < lines.len()
            invariant
                i <= lines@.len(),
                lines_fit(lines@),
                q@.len() > 0,
                results@ == matches_upto(lines@, q@, i as int),
                forall|t: int|
                    0 <= t < results@.len() ==> (#[trigger] results@[t]).0 < i && results@[t].1
                        <= utf8_len(lines@[results@[t].0 as int]@),
            decreases lines@.len() - i,
        {
            push_line_matches(&mut results, lines, i, &q);
            i = i + 1;
        }
        self.find_results = results;
        self.last_find_query = to_string(self.find_query.as_str());
        self.find_result_version = self.buffer_version;
    }

    /// The query's byte length can be added to the column of every stored
    /// result, or, when none is stored, of every match a search of `lines`
    /// may find.
    pub open spec fn find_fits(&self, lines: Seq<String>) -> bool {
        &&& self.find_results@.len() == 0 ==> forall|i: int|
            0 <= i < lines.len() ==> utf8_len(#[trigger] lines[i]@) + utf8_len(self.find_query@)
                <= usize::MAX
        &&& forall|t: int|
            0 <= t < self.find_results@.len() ==> (#[trigger] self.find_results@[t]).1 + utf8_len(
                self.find_query@,
            ) <= usize::MAX
        &&& self.find_active_index < usize::MAX
    }

    fn select_result(&mut self)
        requires
            old(self).find_active_index < old(self).find_results@.len(),
            old(self).find_results@[old(self).find_active_index as int].1 + utf8_len(
                old(self).find_query@,
            ) <= usize::MAX,
        ensures
            ({
                let (l, c) = old(self).find_results@[old(self).find_active_index as int];
                &&& final(self).cursor_line == l
                &&& final(self).cursor_col == c
                &&& final(self).selection_start == Some((l, c))
                &&& final(self).selection_end == Some(
                    (l, (c + utf8_len(old(self).find_query@)) as usize),
                )
            }),
            final(self).same_but_cursor_selection(old(self)),
            final(self).is_selecting == old(self).is_selecting,
    {
        let (line, col) = self.find_results[self.find_active_index];
        let qlen = str_len(self.find_query.as_str());
        self.cursor_line = line;
        self.cursor_col = col;
        self.selection_start = Some((line, col));
        self.selection_end = Some((line, col + qlen));
    }

    /// The results that `find_next` and `find_prev` step through: the
    /// stored ones, or those of a fresh search when none are stored.
    pub open spec fn results_to_step(&self, lines: Seq<String>) -> Seq<(usize, usize)> {
        if self.find_results@.len() == 0 {
            self.results_after_find(lines)
        } else {
            self.find_results@
        }
    }

    /// The index stepping starts from: the active one, or 0 after a fresh search.
    pub open spec fn step_start(&self) -> int {
        if self.find_results@.len() == 0 {
            0
        } else {
            self.find_active_index as int
        }
    }

    /// `new` has match `a` of `rs` active, with the cursor at its start and
    /// the match selected (`a` taken when `rs` is empty leaves cursor and
    /// selection as in `self`).
    pub open spec fn selects_match(&self, new: Self, rs: Seq<(usize, usize)>, a: int) -> bool {
        &&& new.find_results@ == rs
        &&& new.find_query@ == self.find_query@
        &&& rs.len() > 0 ==> {
            let (l, c) = rs[a];
            &&& new.find_active_index == a
            &&& new.cursor_line == l
            &&& new.cursor_col == c
            &&& new.selection_start == Some((l, c))
            &&& new.selection_end == Some((l, (c + utf8_len(self.find_query@)) as usize))
        }
        &&& rs.len() == 0 ==> new.cursor_line == self.cursor_line && new.cursor_col
            == self.cursor_col && new.selection_start == self.selection_start && new.selection_end
            == self.selection_end
    }

    /// `new` is `self` after `find_next` on `lines`: the match after the
    /// active one, wrapping around, is selected.
    pub open spec fn after_find_next(&self, lines: Seq<String>, new: Self) -> bool {
        let rs = self.results_to_step(lines);
        self.selects_match(new, rs, (self.step_start() + 1) % (rs.len() as int))
    }

    /// `new` is `self` after `find_prev` on `lines`: the match before the
    /// active one, wrapping around, is selected.
    pub open spec fn after_find_prev(&self, lines: Seq<String>, new: Self) -> bool {
        let rs = self.results_to_step(lines);
        let start = self.step_start();
        self.selects_match(new, rs, if start == 0 {
            rs.len() - 1
        } else {
            start - 1
        })
    }

    /// Moves to the next match (wrapping around) and selects it; searches first
    /// when there are no results.
    pub fn find_next(&mut self, lines: &Vec<String>)
        requires
            lines_fit(lines@),
            old(self).find_fits(lines@),
        ensures
            old(self).after_find_next(lines@, *final(self)),
            final(self).is_selecting == old(self).is_selecting,
            final(self).is_dirty == old(self).is_dirty,
            final(self).buffer_version == old(self).buffer_version,
            final(self).find_query@ == old(self).find_query@,
            final(self).replace_text@ == old(self).replace_text@,
            final(self).status_message@ == old(self).status_message@,
    {
        if self.find_results.len() == 0 {
            self.find_all(lines);
        }
        if self.find_results.len() > 0 {
            self.find_active_index = (self.find_active_index + 1) % self.find_results.len();
            self.select_result();
        }
    }

    /// Moves to the previous match (wrapping around) and selects it; searches
    /// first when there are no results.
    pub fn find_prev(&mut self, lines: &Vec<String>)
        requires
            lines_fit(lines@),
            old(self).find_fits(lines@),
            old(self).find_results@.len() > 0 ==> old(self).find_active_index <= old(
                self).find_results@.len(),
        ensures
            old(self).after_find_prev(lines@, *final(self)),
            final(self).is_selecting == old(self).is_selecting,
            final(self).is_dirty == old(self).is_dirty,
            final(self).buffer_version == old(self).buffer_version,
            final(self).find_query@ == old(self).find_query@,
            final(self).replace_text@ == old(self).replace_text@,
            final(self).status_message@ == old(self).status_message@,
    {
        if self.find_results.len() == 0 {
            self.find_all(lines);
        }
        if self.find_results.len() > 0 {
            if self.find_active_index == 0 {
                self.find_active_index = self.find_results.len() - 1;
            } else {
                self.find_active_index = self.find_active_index - 1;
            }
            self.select_result();
        }
    }

    /// Replaces the active match with `replace_text` and moves the cursor past
    /// the replacement. The caller applies the change and then runs
    /// `find_all` on the new text to refresh the matches.
    pub fn replace_current(&mut self, snap: &BufferSnapshot) -> (c: Option<Change>)
        requires
            old(self).find_active_index < old(self).find_results@.len() ==> {
                let (l, col) = old(self).find_results@[old(self).find_active_index as int];
                &&& l < snap.line_starts@.len()
                &&& snap.line_starts@[l as int] + col + utf8_len(old(self).find_query@) <= usize::MAX
                &&& col + utf8_len(old(self).replace_text@) <= usize::MAX
            },
            old(self).find_active_index < old(self).find_results@.len() ==> old(
                self).buffer_version < u64::MAX,
        ensures
            old(self).find_active_index >= old(self).find_results@.len() ==> c is None
                && *final(self) == *old(self),
            old(self).find_active_index < old(self).find_results@.len() ==> {
                let (l, col) = old(self).find_results@[old(self).find_active_index as int];
                let pos = snap.line_starts@[l as int] + col;
                &&& c matches Some(ch) && ch.edits@.len() == 2 && is_delete(
                    ch.edits@[0],
                    pos,
                    pos + utf8_len(old(self).find_query@),
                ) && is_insert(ch.edits@[1], pos, old(self).replace_text@) && ch.op
                    == OpType::Insert && ch.pos == pos && ch.cursor_before == (
                old(self).cursor_line, old(self).cursor_col) && ch.cursor_after == (
                final(self).cursor_line, final(self).cursor_col)
                &&& final(self).cursor_line == l
                &&& final(self).cursor_col == col + utf8_len(old(self).replace_text@)
                &&& final(self).is_dirty
                &&& final(self).buffer_version == old(self).buffer_version + 1
                &&& final(self).same_find(old(self))
                &&& final(self).selection_start == old(self).selection_start
                &&& final(self).selection_end == old(self).selection_end
                &&& final(self).is_selecting == old(self).is_selecting
                &&& final(self).status_message@ == old(self).status_message@
            },
    {
        if self.find_active_index >= self.find_results.len() {
            return None;
        }
        let (line, col) = self.find_results[self.find_active_index];
        let qlen = str_len(self.find_query.as_str());
        let rlen = str_len(self.replace_text.as_str());
        let pos = snap.line_starts[line] + col;
        let end = pos + qlen;
        let before = (self.cursor_line, self.cursor_col);
        self.mark_edited();
        self.cursor_line = line;
        self.cursor_col = col + rlen;
        let mut edits = Vec::new();
        edits.push(Edit::Delete { start: pos, end });
        edits.push(Edit::Insert { pos, text: to_string(self.replace_text.as_str()) });
        Some(
            Change {
                edits,
                op: OpType::Insert,
                pos,
                cursor_before: before,
                cursor_after: (self.cursor_line, self.cursor_col),
            },
        )
    }

    /// Replaces every match of `find_query` with `replace_text`; returns the
    /// number of replacements and the edits, last match first (so that each
    /// position is still valid when its edit is applied).
    pub fn replace_all(&mut self, snap: &BufferSnapshot) -> (r: (usize, Vec<Edit>))
        requires
            lines_fit(snap.lines@),
            ({
                let q = old(self).find_query@.len() > 0 && old(self).find_query@ != old(
                    self).replace_text@;
                let rs = old(self).results_after_find(snap.lines@);
                q ==> {
                    &&& forall|t: int|
                        0 <= t < rs.len() ==> (#[trigger] rs[t]).0 < snap.line_starts@.len()
                            && snap.line_starts@[rs[t].0 as int] + rs[t].1 + utf8_len(
                            old(self).find_query@,
                        ) <= usize::MAX
                    &&& rs.len() > 0 ==> old(self).buffer_version < u64::MAX
                }
            }),
            old(self).find_query@.len() > 0 && old(self).find_query@ != old(self).replace_text@
                ==> forall|i: int|
                0 <= i < snap.lines@.len() ==> i < snap.line_starts@.len()
                    && snap.line_starts@[i] + utf8_len(#[trigger] snap.lines@[i]@) + utf8_len(
                    old(self).find_query@,
                ) <= usize::MAX,
        ensures
            old(self).find_query@.len() == 0 || old(self).find_query@ == old(self).replace_text@
                ==> r.0 == 0 && r.1@.len() == 0 && *final(self) == *old(self),
            old(self).find_query@.len() > 0 && old(self).find_query@ != old(self).replace_text@
                ==> {
                let rs = old(self).results_after_find(snap.lines@);
                let n = rs.len();
                let ql = utf8_len(old(self).find_query@);
                &&& r.0 == n
                &&& r.1@.len() == 2 * n
                &&& forall|k: int|
                    0 <= k < n ==> {
                        let (l, c) = #[trigger] rs[n - 1 - k];
                        let pos = snap.line_starts@[l as int] + c;
                        &&& is_delete(r.1@[2 * k], pos, pos + ql)
                        &&& is_insert(r.1@[2 * k + 1], pos, old(self).replace_text@)
                    }
                &&& final(self).find_active_index == 0
                &&& final(self).cursor_line == old(self).cursor_line
                &&& final(self).cursor_col == old(self).cursor_col
                &&& final(self).selection_start == old(self).selection_start
                &&& final(self).selection_end == old(self).selection_end
                &&& final(self).find_query@ == old(self).find_query@
                &&& final(self).replace_text@ == old(self).replace_text@
                &&& n == 0 ==> final(self).find_results@ == rs && final(self).is_dirty == old(
                    self).is_dirty && final(self).buffer_version == old(self).buffer_version
                    && final(self).status_message@ == old(self).status_message@
                &&& n > 0 ==> final(self).find_results@.len() == 0 && final(self).is_dirty
                    && final(self).buffer_version == old(self).buffer_version + 1
                    && final(self).status_message@ == "已替换 "@ + crate::text::decimal(n) + " 处"@
            },
    {
        if self.find_query.as_str().is_empty() || self.find_query == self.replace_text {
            return (0, Vec::new());
        }
        self.find_all(&snap.lines);
        let count = self.find_results.len();
        let mut edits: Vec<Edit> = Vec::new();
        if count == 0 {
            return (0, edits);
        }
        let ghost rs = self.find_results@;
        assert(rs[0].0 < snap.line_starts@.len());
        let qlen = str_len(self.find_query.as_str());
        let mut k: usize = 0;
        while k < count
            invariant
                k <= count == rs.len(),
                rs == self.find_results@,
                qlen == utf8_len(self.find_query@),
                forall|t: int|
                    0 <= t < rs.len() ==> (#[trigger] rs[t]).0 < snap.line_starts@.len()
                        && snap.line_starts@[rs[t].0 as int] + rs[t].1 + qlen <= usize::MAX,
                edits@.len() == 2 * k,
                forall|j: int|
                    0 <= j < k ==> {
                        let (l, c) = #[trigger] rs[count - 1 - j];
                        let pos = snap.line_starts@[l as int] + c;
                        &&& is_delete(edits@[2 * j], pos, pos + qlen)
                        &&& is_insert(edits@[2 * j + 1], pos, self.replace_text@)
                    },
            decreases count - k,
        {
            let (line, col) = self.find_results[count - 1 - k];
            let ghost e = rs[count - 1 - k];
            assert(e.0 < snap.line_starts@.len());
            let pos = snap.line_starts[line] + col;
            edits.push(Edit::Delete { start: pos, end: pos + qlen });
            edits.push(Edit::Insert { pos, text: to_string(self.replace_text.as_str()) });
            k = k + 1;
        }
        self.mark_edited();
        self.find_results = Vec::new();
        self.find_active_index = 0;
        let mut msg = to_string("已替换 ");
        crate::text::push_decimal(&mut msg, count);
        crate::text::push_str(&mut msg, " 处");
        self.status_message = msg;
        (count, edits)
    }

    /// Shows or hides the find panel; hiding it also hides replace. Shown with
    /// a query, it searches.
    pub fn toggle_find(&mut self, lines: &Vec<String>)
        requires
            lines_fit(lines@),
        ensures
            final(self).find_visible == !old(self).find_visible,
            final(self).replace_visible == (old(self).replace_visible && !old(self).find_visible),
            final(self).find_focus == (if old(self).find_visible {
                FindReplaceFocus::Unfocused
            } else {
                FindReplaceFocus::FindQuery
            }),
            !old(self).find_visible && old(self).find_query@.len() > 0 ==> final(
                self).find_results@ == old(self).results_after_find(lines@)
                && final(self).find_active_index == 0,
            old(self).find_visible || old(self).find_query@.len() == 0 ==> final(
                self).find_results@ == old(self).find_results@ && final(self).find_active_index
                == old(self).find_active_index,
            final(self).same_but_cursor_selection_find(old(self)),
    {
        self.find_visible = !self.find_visible;
        if !self.find_visible {
            self.replace_visible = false;
            self.find_focus = FindReplaceFocus::Unfocused;
        } else {
            self.find_focus = FindReplaceFocus::FindQuery;
        }
        if self.find_visible && !self.find_query.as_str().is_empty() {
            self.find_all(lines);
        }
    }

    /// Shows or hides the replace row (showing it also shows the find panel).
    /// With the panel shown and a query, it searches.
    pub fn toggle_replace(&mut self, lines: &Vec<String>)
        requires
            lines_fit(lines@),
        ensures
            final(self).replace_visible == !old(self).replace_visible,
            final(self).find_visible == (!old(self).replace_visible || old(self).find_visible),
            final(self).find_focus == (if !final(self).find_visible {
                FindReplaceFocus::Unfocused
            } else if final(self).replace_visible {
                FindReplaceFocus::FindQuery
            } else {
                FindReplaceFocus::Unfocused
            }),
            final(self).find_visible && old(self).find_query@.len() > 0 ==> final(
                self).find_results@ == old(self).results_after_find(lines@)
                && final(self).find_active_index == 0,
            !(final(self).find_visible && old(self).find_query@.len() > 0) ==> final(
                self).find_results@ == old(self).find_results@ && final(self).find_active_index
                == old(self).find_active_index,
            final(self).same_but_cursor_selection_find(old(self)),
    {
        self.replace_visible = !self.replace_visible;
        self.find_visible = self.replace_visible || self.find_visible;
        if !self.find_visible {
            self.find_focus = FindReplaceFocus::Unfocused;
        } else {
            self.find_focus = if self.replace_visible {
                FindReplaceFocus::FindQuery
            } else {
                FindReplaceFocus::Unfocused
            };
        }
        if self.find_visible && !self.find_query.as_str().is_empty() {
            self.find_all(lines);
        }
    }

    /// Hides the find/replace panel.
    pub fn close_find_replace(&mut self)
        ensures
            !final(self).find_visible,
            !final(self).replace_visible,
            final(self).find_focus == FindReplaceFocus::Unfocused,
            final(self).find_results@ == old(self).find_results@,
            final(self).find_active_index == old(self).find_active_index,
            final(self).same_but_cursor_selection_find(old(self)),
    {
        self.find_visible = false;
        self.replace_visible = false;
        self.find_focus = FindReplaceFocus::Unfocused;
    }

    /// The selected text; lines of a multi-line selection are joined with `'\n'`.
    pub fn get_selected_text(&self, lines: &Vec<String>) -> (r: Option<String>)
        requires
            lines_fit(lines@),
            self.selection_start matches Some(a) && self.selection_end matches Some(b)
                ==> selection_on_boundaries(lines@, a, b),
        ensures
            !(self.selection_start is Some && self.selection_end is Some) ==> r is None,
            self.selection_start matches Some(a) && self.selection_end matches Some(b) ==> (
            match selected_text(lines@, a, b) {
                None => r is None,
                Some(t) => r matches Some(s) && s@ == t,
            }),
    {
        let a = match self.selection_start {
            Some(a) => a,
            None => return None,
        };
        let b = match self.selection_end {
            Some(b) => b,
            None => return None,
        };
        if a.0 == b.0 {
            if a.0 >= lines.len() {
                return None;
            }
            let cs = chars_of(lines[a.0].as_str());
            let s = clamped_char_index(&cs, a.1);
            let e = clamped_char_index(&cs, b.1);
            if s <= e {
                return Some(crate::text::string_from_chars(&cs, s, e));
            } else {
                return Some(crate::text::string_from_chars(&cs, e, s));
            }
        }
        let (f, l) = if a.0 <= b.0 {
            (a, b)
        } else {
            (b, a)
        };
        let mut result = String::new();
        let mut i = f.0;
        while i <= l.0
            invariant
                f.0 <= i <= l.0 + 1,
                f.0 < l.0,
                (f, l) == ordered(a, b),
                self.selection_start == Some(a),
                self.selection_end == Some(b),
                a.0 != b.0,
                lines_fit(lines@),
                selection_on_boundaries(lines@, a, b),
                result@ == selection_pieces(lines@, f, l, f.0 as int, i as int),
            decreases l.0 + 1 - i,
        {
            if i < lines.len() {
                let cs = chars_of(lines[i].as_str());
                let n = cs.len();
                let ghost before = result@;
                let (from, to) = if i == f.0 {
                    (clamped_char_index(&cs, f.1), n)
                } else if i == l.0 {
                    (0, clamped_char_index(&cs, l.1))
                } else {
                    (0, n)
                };
                let mut j = from;
                while j < to
                    invariant
                        from <= j <= to <= cs@.len(),
                        result@ == before + cs@.subrange(from as int, j as int),
                    decreases to - j,
                {
                    result.push(cs[j]);
                    j = j + 1;
                    assert(cs@.subrange(from as int, j as int) =~= cs@.subrange(
                        from as int,
                        j - 1,
                    ).push(cs@[j - 1]));
                }
                if i != l.0 {
                    result.push('\n');
                }
                proof {
                    let t = cs@;
                    let body = if i == f.0 {
                        t.skip(clamped_index(t, f.1 as int))
                    } else if i == l.0 {
                        t.take(clamped_index(t, l.1 as int))
                    } else {
                        t
                    };
                    assert(body =~= cs@.subrange(from as int, to as int));
                }
            }
            if i == l.0 {
                assert(result@ == selection_pieces(lines@, f, l, f.0 as int, l.0 + 1));
                return Some(result);
            }
            i = i + 1;
        }
        Some(result)
    }

    /// Inserts AI-generated `code`: over the selection when there is one,
    /// otherwise at the cursor. Empty code changes nothing.
    pub fn apply_ai_code(&mut self, code: &str, snap: &BufferSnapshot) -> (c: Option<Change>)
        requires
            utf8_len(code@) <= usize::MAX,
            old(self).buffer_version < u64::MAX,
            old(self).selection_fits(snap),
            old(self).selection_start is Some && old(self).selection_end is Some ==> {
                let f = ordered(old(self).selection_start->0, old(self).selection_end->0).0;
                &&& f.0 + crate::text::lines(code@).len() <= usize::MAX
                &&& f.1 + utf8_len(code@) <= usize::MAX
            },
            !(old(self).selection_start is Some && old(self).selection_end is Some) ==> {
                let after = cursor_after_insert(
                    old(self).cursor_line as int,
                    old(self).cursor_col as int,
                    code@,
                );
                &&& old(self).cursor_pos_fits(snap)
                &&& after.0 <= usize::MAX
                &&& after.1 <= usize::MAX
            },
        ensures
            code@.len() == 0 ==> c is None && *final(self) == *old(self),
            code@.len() > 0 && old(self).selection_start is Some && old(self).selection_end is Some
                ==> {
                let (start, end) = old(self).selection_range(snap);
                let f = ordered(old(self).selection_start->0, old(self).selection_end->0).0;
                let ls = crate::text::lines(code@);
                let new_line = if ls.len() == 0 {
                    f.0 as int
                } else {
                    f.0 + ls.len() - 1
                };
                let new_col = if ls.len() <= 1 {
                    f.1 + utf8_len(code@)
                } else {
                    utf8_len(ls.last()) as int
                };
                &&& c matches Some(ch) && ch.edits@.len() == 2 && is_delete(ch.edits@[0], start, end)
                    && is_insert(ch.edits@[1], start, code@) && ch.op == OpType::Insert && ch.pos
                    == start && ch.cursor_before == (old(self).cursor_line, old(self).cursor_col)
                    && ch.cursor_after == (final(self).cursor_line, final(self).cursor_col)
                &&& final(self).cursor_line == new_line
                &&& final(self).cursor_col == new_col
                &&& final(self).selection_start is None
                &&& final(self).selection_end is None
                &&& final(self).status_message@ == "已应用 AI 代码"@
            },
            code@.len() > 0 && !(old(self).selection_start is Some && old(self).selection_end is Some)
                ==> {
                let pos = old(self).cursor_pos(snap);
                let after = cursor_after_insert(
                    old(self).cursor_line as int,
                    old(self).cursor_col as int,
                    code@,
                );
                &&& c matches Some(ch) && ch.edits@.len() == 1 && is_insert(ch.edits@[0], pos, code@)
                    && ch.op == OpType::Insert && ch.pos == pos && ch.cursor_before == (
                old(self).cursor_line, old(self).cursor_col) && ch.cursor_after == (
                final(self).cursor_line, final(self).cursor_col)
                &&& final(self).cursor_line == after.0
                &&& final(self).cursor_col == after.1
                &&& final(self).selection_start == old(self).selection_start
                &&& final(self).selection_end == old(self).selection_end
                &&& final(self).status_message@ == "已插入 AI 代码"@
            },
            code@.len() > 0 ==> final(self).edited_from(old(self)) && final(self).is_selecting
                == old(self).is_selecting,
    {
        let cs = chars_of(code);
        if cs.len() == 0 {
            return None;
        }
        let before = (self.cursor_line, self.cursor_col);
        let len = str_len(code);
        if self.selection_start.is_some() && self.selection_end.is_some() {
            let (start, end, first) = self.selection_bytes(snap);
            let ranges = crate::text::line_ranges(&cs);
            let n = ranges.len();
            let new_line = if n > 0 {
                first.0 + (n - 1)
            } else {
                first.0
            };
            let new_col = if n <= 1 {
                first.1 + len
            } else {
                let (a, b) = ranges[n - 1];
                crate::text::range_bytes(&cs, a, b)
            };
            self.cursor_line = new_line;
            self.cursor_col = new_col;
            self.clear_selection();
            self.mark_edited();
            self.status_message = to_string("已应用 AI 代码");
            let mut edits = Vec::new();
            edits.push(Edit::Delete { start, end });
            edits.push(Edit::Insert { pos: start, text: to_string(code) });
            return Some(
                Change {
                    edits,
                    op: OpType::Insert,
                    pos: start,
                    cursor_before: before,
                    cursor_after: (self.cursor_line, self.cursor_col),
                },
            );
        }
        let pos = self.cursor_byte_pos(snap);
        let (breaks, tail) = newline_stats(&cs);
        if breaks == 0 {
            self.cursor_col = self.cursor_col + len;
        } else {
            self.cursor_line = self.cursor_line + breaks;
            self.cursor_col = tail;
        }
        self.mark_edited();
        self.status_message = to_string("已插入 AI 代码");
        let mut edits = Vec::new();
        edits.push(Edit::Insert { pos, text: to_string(code) });
        Some(
            Change {
                edits,
                op: OpType::Insert,
                pos,
                cursor_before: before,
                cursor_after: (self.cursor_line, self.cursor_col),
            },
        )
    }

    /// Puts the editor back at the start of a fresh text: cursor at the
    /// origin, not dirty, nothing selected, a new text version.
    pub fn reset_editor_state(&mut self)
        requires
            old(self).buffer_version < u64::MAX,
        ensures
            final(self).cursor_line == 0,
            final(self).cursor_col == 0,
            !final(self).is_dirty,
            final(self).buffer_version == old(self).buffer_version + 1,
            final(self).selection_start is None,
            final(self).selection_end is None,
            final(self).is_selecting == old(self).is_selecting,
            final(self).same_find(old(self)),
            final(self).status_message@ == old(self).status_message@,
    {
        self.cursor_line = 0;
        self.cursor_col = 0;
        self.is_dirty = false;
        self.buffer_version = self.buffer_version + 1;
        self.clear_selection();
    }
}

/// A cursor movement key.
#[derive(Clone, Copy, Debug, PartialEq, Eq, Structural)]
pub enum Direction {
    Left,
    Right,
    Up,
    Down,
    Home,
    End,
}

/// Where the cursor `(line, col)` goes for a movement key in `lines`.
pub open spec fn moved(dir: Direction, line: int, col: int, lines: Seq<String>) -> (int, int) {
    match dir {
        Direction::Left => if col > 0 {
            if line < lines.len() {
                (line, col_left(lines[line]@, col))
            } else {
                (line, col)
            }
        } else if line > 0 {
            if line - 1 < lines.len() {
                (line - 1, utf8_len(lines[line - 1]@) as int)
            } else {
                (line - 1, 0)
            }
        } else {
            (0, 0)
        },
        Direction::Right => if line >= lines.len() {
            (line, col)
        } else if col < utf8_len(lines[line]@) {
            (line, col_right(lines[line]@, col))
        } else if line + 1 < lines.len() {
            (line + 1, 0)
        } else {
            (line, col)
        },
        Direction::Up => if line == 0 {
            (0, col)
        } else if line - 1 < lines.len() {
            (line - 1, clamp_col(lines[line - 1]@, col))
        } else {
            (line - 1, col)
        },
        Direction::Down => if line + 1 >= lines.len() {
            (line, col)
        } else {
            (line + 1, clamp_col(lines[line + 1]@, col))
        },
        Direction::Home => (line, 0),
        Direction::End => if line < lines.len() {
            (line, utf8_len(lines[line]@) as int)
        } else {
            (line, col)
        },
    }
}

/// The cursor stands on a character boundary where a movement needs one.
pub open spec fn move_allowed(dir: Direction, line: int, col: int, lines: Seq<String>) -> bool {
    match dir {
        Direction::Left => col > 0 && line < lines.len() ==> is_boundary(
            lines[line]@,
            clamp_col(lines[line]@, col),
        ),
        Direction::Right => line < lines.len() && col < utf8_len(lines[line]@) ==> is_boundary(
            lines[line]@,
            col,
        ),
        _ => true,
    }
}

impl EditorState {
    /// A movement key, with Shift (`extend`) or without. With Shift a
    /// selection is started at the cursor when there is none, and the
    /// selection being made follows the cursor; without Shift any selection
    /// is dropped first.
    pub fn move_cursor(&mut self, dir: Direction, extend: bool, lines: &Vec<String>)
        requires
            lines_fit(lines@),
            move_allowed(dir, old(self).cursor_line as int, old(self).cursor_col as int, lines@),
        ensures
            (final(self).cursor_line as int, final(self).cursor_col as int) == moved(
                dir,
                old(self).cursor_line as int,
                old(self).cursor_col as int,
                lines@,
            ),
            final(self).same_but_cursor_selection(old(self)),
            extend ==> {
                let started = old(self).selection_start is None;
                &&& final(self).selection_start == (if started {
                    Some((old(self).cursor_line, old(self).cursor_col))
                } else {
                    old(self).selection_start
                })
                &&& final(self).is_selecting == (started || old(self).is_selecting)
                &&& final(self).selection_end == (if started || old(self).is_selecting {
                    Some((final(self).cursor_line, final(self).cursor_col))
                } else {
                    old(self).selection_end
                })
            },
            !extend ==> {
                &&& final(self).is_selecting == old(self).is_selecting
                &&& (old(self).selection_start is Some ==> final(self).selection_start is None
                    && final(self).selection_end is None)
                &&& (old(self).selection_start is None ==> final(self).selection_start is None
                    && final(self).selection_end == old(self).selection_end)
            },
    {
        if extend {
            if self.selection_start.is_none() {
                self.start_selection();
            }
        } else if self.selection_start.is_some() {
            self.clear_selection();
        }
        match dir {
            Direction::Left => self.move_cursor_left(lines),
            Direction::Right => self.move_cursor_right(lines),
            Direction::Up => self.move_cursor_up(lines),
            Direction::Down => self.move_cursor_down(lines),
            Direction::Home => self.move_cursor_home(),
            Direction::End => self.move_cursor_end(lines),
        }
        if extend {
            self.update_selection();
        }
    }
}

/// Moving right and then left inside a line comes back to the same
/// cursor position.
pub proof fn lemma_right_then_left(line: int, col: int, lines: Seq<String>)
    requires
        0 <= line < lines.len(),
        0 <= col < utf8_len(lines[line]@),
        is_boundary(lines[line]@, col),
    ensures
        ({
            let (l2, c2) = moved(Direction::Right, line, col, lines);
            moved(Direction::Left, l2, c2, lines) == (line, col)
        }),
{
    let cs = lines[line]@;
    let k = char_index(cs, col);
    assert(0 <= k <= cs.len() && byte_offset(cs, k) == col);
    lemma_char_index(cs, k);
    lemma_offset_full(cs);
    if k == cs.len() {
        assert(false);
    }
    lemma_offset_monotone(cs, k, k + 1);
    lemma_offset_monotone(cs, k + 1, cs.len() as int);
    lemma_char_index(cs, k + 1);
    let c2 = byte_offset(cs, k + 1) as int;
    assert(clamp_col(cs, c2) == c2);
    assert(col_left(cs, c2) == col);
}

/// Moving left and then right inside a line comes back to the same cursor
/// position.
pub proof fn lemma_left_then_right(line: int, col: int, lines: Seq<String>)
    requires
        0 <= line < lines.len(),
        0 < col <= utf8_len(lines[line]@),
        is_boundary(lines[line]@, col),
    ensures
        ({
            let (l2, c2) = moved(Direction::Left, line, col, lines);
            moved(Direction::Right, l2, c2, lines) == (line, col)
        }),
{
    let cs = lines[line]@;
    let k = char_index(cs, col);
    assert(0 <= k <= cs.len() && byte_offset(cs, k) == col);
    lemma_char_index(cs, k);
    lemma_offset_full(cs);
    assert(clamp_col(cs, col) == col);
    if k == 0 {
        assert(cs.take(0) =~= Seq::<char>::empty());
        assert(false);
    }
    lemma_offset_monotone(cs, k - 1, k);
    lemma_offset_monotone(cs, k, cs.len() as int);
    lemma_char_index(cs, k - 1);
    let c2 = byte_offset(cs, k - 1) as int;
    assert(col_left(cs, col) == c2);
    assert(c2 < utf8_len(cs));
    assert(col_right(cs, c2) == col);
}

/// Where saving the current text goes.
#[derive(Debug)]
pub enum SaveTarget {
    /// The text has no path yet.
    NoPath,
    /// A local file.
    Local,
    /// A file of the remote session, at this remote path.
    Remote(String),
    /// A remote file, but no remote session is open.
    RemoteUnavailable,
}

/// The prefix of paths of files opened over SSH.
pub open spec fn remote_prefix() -> Seq<char> {
    seq!['r', 'e', 'm', 'o', 't', 'e', ':']
}

/// Where saving the text with path `path` goes.
pub fn save_target(path: Option<&str>, has_session: bool) -> (r: SaveTarget)
    ensures
        path is None ==> r is NoPath,
        path matches Some(p) ==> {
            let remote = p@.len() >= 7 && p@.take(7) == remote_prefix();
            &&& !remote ==> r is Local
            &&& remote && has_session ==> (r matches SaveTarget::Remote(q) && q@ == p@.skip(7))
            &&& remote && !has_session ==> r is RemoteUnavailable
        },
{
    match path {
        None => SaveTarget::NoPath,
        Some(p) => {
            let cs = crate::text::chars_of(p);
            let remote = cs.len() >= 7 && cs[0] == 'r' && cs[1] == 'e' && cs[2] == 'm' && cs[3] == 'o'
                && cs[4] == 't' && cs[5] == 'e' && cs[6] == ':';
            assert(remote == (p@.len() >= 7 && p@.take(7) == remote_prefix())) by {
                if cs@.len() >= 7 && p@.take(7) == remote_prefix() {
                    assert(p@.take(7)[0] == 'r');
                    assert(p@.take(7)[1] == 'e');
                    assert(p@.take(7)[2] == 'm');
                    assert(p@.take(7)[3] == 'o');
                    assert(p@.take(7)[4] == 't');
                    assert(p@.take(7)[5] == 'e');
                    assert(p@.take(7)[6] == ':');
                }
                if remote {
                    assert(p@.take(7) =~= remote_prefix());
                }
            }
            if !remote {
                SaveTarget::Local
            } else if has_session {
                let rest = string_from_chars(&cs, 7, cs.len());
                assert(cs@.subrange(7, cs@.len() as int) =~= p@.skip(7));
                SaveTarget::Remote(rest)
            } else {
                SaveTarget::RemoteUnavailable
            }
        },
    }
}

/// The status message after saving to `target` with `outcome` (the error
/// text of a failed write).
pub open spec fn save_message(target: SaveTarget, outcome: Result<(), Seq<char>>) -> Seq<char> {
    match target {
        SaveTarget::NoPath => "没有文件路径，请使用另存为"@,
        SaveTarget::RemoteUnavailable => "远程会话未连接"@,
        SaveTarget::Remote(p) => match outcome {
            Ok(_) => "已保存到远程: "@ + p@,
            Err(e) => "保存远程文件失败: "@ + e,
        },
        SaveTarget::Local => match outcome {
            Ok(_) => "已保存"@,
            Err(e) => "保存失败: "@ + e,
        },
    }
}

impl SaveTarget {
    /// The status message after the write ended with `outcome`; a target
    /// without a write ignores it.
    pub fn message(&self, outcome: &Result<(), String>) -> (r: String)
        ensures
            r@ == save_message(
                *self,
                match outcome {
                    Ok(_) => Ok(()),
                    Err(e) => Err(e@),
                },
            ),
    {
        match self {
            SaveTarget::NoPath => to_string("没有文件路径，请使用另存为"),
            SaveTarget::RemoteUnavailable => to_string("远程会话未连接"),
            SaveTarget::Remote(p) => match outcome {
                Ok(_) => {
                    let mut m = to_string("已保存到远程: ");
                    push_str(&mut m, p.as_str());
                    m
                },
                Err(e) => {
                    let mut m = to_string("保存远程文件失败: ");
                    push_str(&mut m, e.as_str());
                    m
                },
            },
            SaveTarget::Local => match outcome {
                Ok(_) => to_string("已保存"),
                Err(e) => {
                    let mut m = to_string("保存失败: ");
                    push_str(&mut m, e.as_str());
                    m
                },
            },
        }
    }
}

/// Whether a new document can take over the current tab: it has no file,
/// no unsaved changes and no text.
pub fn can_reuse_current_tab(has_file_path: bool, is_dirty: bool, len_bytes: usize) -> (r: bool)
    ensures
        r == (!has_file_path && !is_dirty && len_bytes == 0),
{
    !has_file_path && !is_dirty && len_bytes == 0
}

/// Stepping to the next match and then back to the previous one returns to
/// the match that was active, selected again, over the same results.
pub proof fn lemma_find_next_then_prev(
    before: EditorState,
    mid: EditorState,
    after: EditorState,
    lines: Seq<String>,
)
    requires
        before.find_results@.len() > 0,
        before.find_active_index < before.find_results@.len(),
        before.after_find_next(lines, mid),
        mid.after_find_prev(lines, after),
    ensures
        after.find_results@ == before.find_results@,
        after.find_active_index == before.find_active_index,
        ({
            let (l, c) = before.find_results@[before.find_active_index as int];
            &&& after.cursor_line == l
            &&& after.cursor_col == c
            &&& after.selection_start == Some((l, c))
            &&& after.selection_end == Some((l, (c + utf8_len(before.find_query@)) as usize))
        }),
{
    let n = before.find_results@.len() as int;
    let a = before.find_active_index as int;
    if a + 1 < n {
        assert((a + 1) % n == a + 1) by {
            vstd::arithmetic::div_mod::lemma_small_mod((a + 1) as nat, n as nat);
        }
    } else {
        assert((a + 1) % n == 0) by {
            vstd::arithmetic::div_mod::lemma_mod_self_0(n);
        }
    }
}

/// Undoing a typed character, with the cursor that the change recorded
/// before it, puts the cursor and the selection back where they were and
/// reports the undo.
pub proof fn lemma_undo_after_insert_char(
    before: EditorState,
    typed: EditorState,
    after: EditorState,
    snap: &BufferSnapshot,
    ch: char,
    c: Change,
)
    requires
        before.inserted_char(snap, ch, typed, c),
        typed.undone(Some(c.cursor_before), after),
    ensures
        after.cursor_line == before.cursor_line,
        after.cursor_col == before.cursor_col,
        after.selection_start == before.selection_start,
        after.selection_end == before.selection_end,
        after.status_message@ == "已撤销"@,
        after.find_query@ == before.find_query@,
{
}

/// `p` is the run of whitespace that `t` starts with: a prefix of `t` made of
/// whitespace, followed by the end of `t` or by a character that is not.
pub open spec fn is_leading_ws(p: Seq<char>, t: Seq<char>) -> bool {
    &&& p.len() <= t.len()
    &&& p == t.take(p.len() as int)
    &&& forall|j: int| 0 <= j < p.len() ==> crate::text::is_ws(#[trigger] p[j])
    &&& p.len() == t.len() || !crate::text::is_ws(t[p.len() as int])
}

/// The last character of `t` that is not whitespace is `c`.
pub open spec fn last_non_ws_is(t: Seq<char>, c: char) -> bool {
    exists|i: int|
        0 <= i < t.len() && #[trigger] t[i] == c && forall|j: int|
            i < j < t.len() ==> crate::text::is_ws(#[trigger] t[j])
}

/// Enter after a line keeps the line's indentation: it inserts a line break
/// followed by exactly the whitespace the line starts with, and four spaces
/// more when the line's last character other than whitespace is `{` or `:`;
/// the cursor goes to the next line, after that indentation. Past the last
/// line it inserts a bare line break.
pub proof fn lemma_newline_keeps_indent(
    before: EditorState,
    snap: &BufferSnapshot,
    after: EditorState,
    c: Change,
)
    requires
        before.inserted_newline(snap, after, c),
    ensures
        (before.cursor_line as int) >= snap.lines@.len() ==> c.edits@.len() == 1
            && is_insert(c.edits@[0], before.cursor_pos(snap), seq!['\n'])
            && after.cursor_line == before.cursor_line + 1 && after.cursor_col == 0,
        (before.cursor_line as int) < snap.lines@.len() ==> ({
            let t = snap.lines@[before.cursor_line as int]@;
            let opens = last_non_ws_is(t, '{') || last_non_ws_is(t, ':');
            &&& c.edits@.len() == 1
            &&& c.edits@[0] matches Edit::Insert { pos, text } && {
                &&& pos == before.cursor_pos(snap)
                &&& text@.len() >= 1
                &&& text@[0] == '\n'
                &&& after.cursor_line == before.cursor_line + 1
                &&& after.cursor_col == utf8_len(text@.drop_first())
                &&& !opens ==> is_leading_ws(text@.drop_first(), t)
                &&& opens ==> text@.len() >= 5 && is_leading_ws(text@.subrange(1, text@.len() - 4), t)
                    && text@.skip(text@.len() - 4) == seq![' ', ' ', ' ', ' ']
            }
        }),
{
    if (before.cursor_line as int) >= snap.lines@.len() {
        assert(newline_indent(None) =~= Seq::<char>::empty());
        assert(seq!['\n'] + Seq::<char>::empty() =~= seq!['\n']);
        return;
    }
    let t = snap.lines@[before.cursor_line as int]@;
    let k = crate::text::ws_prefix_len(t);
    let sl = crate::text::ws_suffix_len(t);
    crate::text::lemma_ws_prefix_bound(t);
    crate::text::lemma_ws_suffix_bound(t);
    let te = crate::text::trim_end(t);
    let opens = last_non_ws_is(t, '{') || last_non_ws_is(t, ':');
    let cond = te.len() > 0 && (te.last() == '{' || te.last() == ':');
    assert(cond == opens) by {
        if cond {
            let i = t.len() - sl - 1;
            assert(t[i] == te.last());
            assert(forall|j: int| i < j < t.len() ==> crate::text::is_ws(#[trigger] t[j]));
            if te.last() == '{' {
                assert(last_non_ws_is(t, '{'));
            } else {
                assert(last_non_ws_is(t, ':'));
            }
        }
        if opens {
            let ch = if last_non_ws_is(t, '{') {
                '{'
            } else {
                ':'
            };
            assert(last_non_ws_is(t, ch));
            let i = choose|i: int|
                0 <= i < t.len() && #[trigger] t[i] == ch && forall|j: int|
                    i < j < t.len() ==> crate::text::is_ws(#[trigger] t[j]);
            assert(!crate::text::is_ws(t[i]));
            crate::text::lemma_ws_suffix_char(t, i + 1);
            assert(te.last() == t[i]);
        }
    }
    let ind = newline_indent(Some(t));
    let pre = t.take(k as int);
    assert(is_leading_ws(pre, t));
    match c.edits@[0] {
        Edit::Insert { pos, text } => {
            assert(text@ == seq!['\n'] + ind);
            if opens {
                assert(text@.subrange(1, text@.len() - 4) =~= pre);
                assert(text@.skip(text@.len() - 4) =~= seq![' ', ' ', ' ', ' ']);
            } else {
                assert(text@.drop_first() =~= pre);
            }
            assert(text@.drop_first() =~= ind);
        },
        Edit::Delete { .. } => {},
    }
}

/// The first `k` lines of `lines`, each followed by a line break.
pub open spec fn lines_prefix_text(lines: Seq<String>, k: int) -> Seq<char>
    decreases k,
{
    if k <= 0 {
        Seq::empty()
    } else {
        lines_prefix_text(lines, k - 1) + lines[k - 1]@.push('\n')
    }
}

/// The buffer's text: its lines joined by line breaks.
pub open spec fn buffer_text(lines: Seq<String>) -> Seq<char> {
    if lines.len() == 0 {
        Seq::empty()
    } else {
        lines_prefix_text(lines, lines.len() as int).drop_last()
    }
}

/// Character index in `buffer_text(lines)` at which line `k` starts.
pub open spec fn line_char_start(lines: Seq<String>, k: int) -> int
    decreases k,
{
    if k <= 0 {
        0
    } else {
        line_char_start(lines, k - 1) + lines[k - 1]@.len() + 1
    }
}

proof fn lemma_prefix_text(lines: Seq<String>, k: int, m: int)
    requires
        0 <= k <= m <= lines.len(),
    ensures
        lines_prefix_text(lines, m).len() == line_char_start(lines, m),
        0 <= line_char_start(lines, k) <= line_char_start(lines, m),
        lines_prefix_text(lines, m).take(line_char_start(lines, k)) == lines_prefix_text(lines, k),
    decreases m,
{
    if m == 0 {
        assert(lines_prefix_text(lines, 0).take(0) =~= lines_prefix_text(lines, 0));
    } else if k == m {
        lemma_prefix_text(lines, m - 1, m - 1);
        assert(lines_prefix_text(lines, m).take(line_char_start(lines, m)) =~= lines_prefix_text(
            lines,
            m,
        ));
    } else {
        lemma_prefix_text(lines, k, m - 1);
        assert(lines_prefix_text(lines, m).take(line_char_start(lines, k)) =~= lines_prefix_text(
            lines,
            m - 1,
        ).take(line_char_start(lines, k)));
    }
}

proof fn lemma_clamped_index_bound(t: Seq<char>, col: int)
    requires
        col >= 0,
        is_boundary(t, clamp_col(t, col)),
    ensures
        0 <= clamped_index(t, col) <= t.len(),
{
}

proof fn lemma_pieces_are_text(lines: Seq<String>, f: (usize, usize), l: (usize, usize), i: int)
    requires
        f.0 < i <= l.0 < lines.len(),
        0 <= clamped_index(lines[f.0 as int]@, f.1 as int) <= lines[f.0 as int]@.len(),
    ensures
        line_char_start(lines, f.0 as int) + clamped_index(lines[f.0 as int]@, f.1 as int)
            <= line_char_start(lines, i),
        lines_prefix_text(lines, i).subrange(
            line_char_start(lines, f.0 as int) + clamped_index(lines[f.0 as int]@, f.1 as int),
            line_char_start(lines, i),
        ) == selection_pieces(lines, f, l, f.0 as int, i),
    decreases i,
{
    let a = line_char_start(lines, f.0 as int) + clamped_index(lines[f.0 as int]@, f.1 as int);
    lemma_prefix_text(lines, f.0 as int, i - 1);
    lemma_prefix_text(lines, i - 1, i - 1);
    let t = lines[i - 1]@;
    if i == f.0 + 1 {
        assert(selection_pieces(lines, f, l, f.0 as int, f.0 as int) =~= Seq::empty());
        assert(lines_prefix_text(lines, i).subrange(a, line_char_start(lines, i)) =~= t.skip(
            clamped_index(t, f.1 as int),
        ).push('\n'));
    } else {
        lemma_pieces_are_text(lines, f, l, i - 1);
        assert(lines_prefix_text(lines, i).subrange(a, line_char_start(lines, i)) =~= lines_prefix_text(
            lines,
            i - 1,
        ).subrange(a, line_char_start(lines, i - 1)) + t.push('\n'));
    }
}

proof fn lemma_clamped_index_monotone(t: Seq<char>, x: int, y: int)
    requires
        0 <= x <= y,
        is_boundary(t, clamp_col(t, x)),
        is_boundary(t, clamp_col(t, y)),
    ensures
        clamped_index(t, x) <= clamped_index(t, y),
{
    let i = clamped_index(t, x);
    let j = clamped_index(t, y);
    if i > j {
        crate::text::lemma_offset_monotone(t, j, i);
    }
}

/// The selected text is exactly the buffer's text between the selection's
/// two ends (in document order): on one line, the characters between the
/// two columns; over several lines, the first line from the start column
/// on, the lines in between whole, the last line up to the end column, with
/// line breaks between them.
pub proof fn lemma_selected_text_is_buffer_range(lines: Seq<String>, a: (usize, usize), b: (usize, usize))
    requires
        (a.0 as int) < lines.len(),
        (b.0 as int) < lines.len(),
        selection_on_boundaries(lines, a, b),
    ensures
        ({
            let (f, l) = ordered(a, b);
            let start = line_char_start(lines, f.0 as int) + clamped_index(lines[f.0 as int]@, f.1 as int);
            let end = line_char_start(lines, l.0 as int) + clamped_index(lines[l.0 as int]@, l.1 as int);
            &&& 0 <= start <= end <= buffer_text(lines).len()
            &&& selected_text(lines, a, b) == Some(buffer_text(lines).subrange(start, end))
        }),
{
    let (f, l) = ordered(a, b);
    let tf = lines[f.0 as int]@;
    let tl = lines[l.0 as int]@;
    lemma_clamped_index_bound(tf, f.1 as int);
    lemma_clamped_index_bound(tl, l.1 as int);
    if a.0 == b.0 {
        let k = a.0 as int;
        let t = lines[k]@;
        let n = lines.len() as int;
        lemma_clamped_index_monotone(t, f.1 as int, l.1 as int);
        lemma_prefix_text(lines, k, k);
        lemma_prefix_text(lines, k + 1, n);
        lemma_prefix_text(lines, k + 1, k + 1);
        let x = clamped_index(t, f.1 as int);
        let y = clamped_index(t, l.1 as int);
        let whole = lines_prefix_text(lines, n);
        let upto = lines_prefix_text(lines, k + 1);
        let st = line_char_start(lines, k);
        assert(upto.subrange(st + x, st + y) =~= t.subrange(x, y));
        assert(upto == whole.take(line_char_start(lines, k + 1)));
        assert(whole.subrange(st + x, st + y) =~= upto.subrange(st + x, st + y));
        assert(buffer_text(lines) == whole.drop_last());
        assert(buffer_text(lines).subrange(st + x, st + y) =~= whole.subrange(st + x, st + y));
        if clamped_index(t, a.1 as int) == clamped_index(t, b.1 as int) {
            assert(t.subrange(x, y) =~= Seq::<char>::empty());
        }
        return;
    }
    let start = line_char_start(lines, f.0 as int) + clamped_index(tf, f.1 as int);
    let cl = clamped_index(tl, l.1 as int);
    let end = line_char_start(lines, l.0 as int) + cl;
    let n = lines.len() as int;
    let l0 = l.0 as int;
    lemma_pieces_are_text(lines, f, l, l0);
    lemma_prefix_text(lines, f.0 as int, l0);
    lemma_prefix_text(lines, l0, l0);
    lemma_prefix_text(lines, l0 + 1, n);
    lemma_prefix_text(lines, l0 + 1, l0 + 1);
    let whole = lines_prefix_text(lines, n);
    let upto = lines_prefix_text(lines, l0 + 1);
    assert(upto.subrange(start, end) =~= lines_prefix_text(lines, l0).subrange(
        start,
        line_char_start(lines, l0),
    ) + tl.take(cl));
    assert(selection_pieces(lines, f, l, f.0 as int, l0 + 1) == selection_pieces(
        lines,
        f,
        l,
        f.0 as int,
        l0,
    ) + selection_piece(lines, f, l, l0));
    assert(selection_piece(lines, f, l, l0) == tl.take(cl));
    assert(end < line_char_start(lines, l0 + 1));
    assert(line_char_start(lines, l0 + 1) <= whole.len());
    assert(upto == whole.take(line_char_start(lines, l0 + 1)));
    assert(whole.subrange(start, end) =~= upto.subrange(start, end));
    assert(buffer_text(lines) == whole.drop_last());
    assert(buffer_text(lines).subrange(start, end) =~= whole.subrange(start, end));
}

} // verus!
