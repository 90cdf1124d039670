//! Editing at several cursors at once: the same insertion or backspace at
//! every cursor, as buffer edits that are applied from the last cursor to the
//! first so that each position is still valid when its edit is applied. The
//! cursor list is kept in document order, and each cursor ends where its own
//! edit leaves it, counting the edits of the cursors before it.
use vstd::prelude::*;
use crate::editor::{
    clamp_col, find_prev_char_boundary, is_delete, is_insert, line_col_to_byte, lines_fit,
    prev_char_boundary, BufferSnapshot, Change, Edit, EditorState,
};
use crate::text::{char_width, decimal, len_utf8, push_decimal, push_str, to_string};

verus! {

/// What a broadcast edit did: with at most one cursor, the ordinary edit at
/// the editor's cursor; with several, the edits at every cursor.
pub enum BroadcastEdit {
    Single(Option<Change>),
    Multi(Vec<Edit>),
}

/// Byte offset of the cursor `p` = `(line, byte column)`, the column clamped
/// to the line's length when the line exists.
pub open spec fn cursor_offset(snap: &BufferSnapshot, p: (usize, usize)) -> int {
    snap.line_starts@[p.0 as int] + (if (p.0 as int) < snap.lines@.len() {
        clamp_col(snap.lines@[p.0 as int]@, p.1 as int)
    } else {
        0
    })
}

/// Every cursor is on a line whose start is known, and its offset fits in a `usize`.
pub open spec fn cursors_fit(snap: &BufferSnapshot, cs: Seq<(usize, usize)>) -> bool {
    forall|i: int|
        0 <= i < cs.len() ==> (#[trigger] cs[i]).0 < snap.line_starts@.len()
            && snap.line_starts@[cs[i].0 as int] + cs[i].1 <= usize::MAX
}

/// The byte range that backspace deletes at cursor `p`: the character before
/// it, when the cursor is not at column 0 and there is one.
pub open spec fn backspace_range(snap: &BufferSnapshot, p: (usize, usize)) -> Seq<(int, int)> {
    let pos = cursor_offset(snap, p);
    let prev = prev_char_boundary(snap.bytes@, pos);
    if p.1 > 0 && prev < pos {
        seq![(prev, pos)]
    } else {
        Seq::empty()
    }
}

/// The ranges backspace deletes at the cursors `cs`, last cursor first.
pub open spec fn backspace_ranges(snap: &BufferSnapshot, cs: Seq<(usize, usize)>) -> Seq<(int, int)>
    decreases cs.len(),
{
    if cs.len() == 0 {
        Seq::empty()
    } else {
        backspace_ranges(snap, cs.drop_first()) + backspace_range(snap, cs[0])
    }
}

/// The edits that insert `text` at every cursor of `cs`, last cursor first.
pub open spec fn inserts_at_cursors(es: Seq<Edit>, snap: &BufferSnapshot, cs: Seq<(usize, usize)>, text: Seq<char>) -> bool {
    &&& es.len() == cs.len()
    &&& forall|k: int|
        0 <= k < cs.len() ==> is_insert(
            #[trigger] es[k],
            cursor_offset(snap, cs[cs.len() - 1 - k]),
            text,
        )
}

/// Number of cursors of `cs` on line `line`.
pub open spec fn count_on_line(cs: Seq<(usize, usize)>, line: usize) -> nat
    decreases cs.len(),
{
    if cs.len() == 0 {
        0
    } else {
        count_on_line(cs.drop_last(), line) + if cs.last().0 == line {
            1nat
        } else {
            0nat
        }
    }
}

/// Bytes that backspace deletes at cursor `p` (the width of the character
/// before it, or nothing).
pub open spec fn backspace_width(snap: &BufferSnapshot, p: (usize, usize)) -> int {
    let pos = cursor_offset(snap, p);
    let prev = prev_char_boundary(snap.bytes@, pos);
    if p.1 > 0 && prev < pos {
        pos - prev
    } else {
        0
    }
}

/// Bytes that backspace deletes at the cursors of `cs` on line `line`.
pub open spec fn deleted_on_line(snap: &BufferSnapshot, cs: Seq<(usize, usize)>, line: usize) -> int
    decreases cs.len(),
{
    if cs.len() == 0 {
        0
    } else {
        deleted_on_line(snap, cs.drop_last(), line) + if cs.last().0 == line {
            backspace_width(snap, cs.last())
        } else {
            0
        }
    }
}

/// Column of cursor `i` of `cs` after a broadcast backspace: its column
/// (clamped to its line) less the character it deleted and those the cursors
/// before it on its line deleted, and not below 0.
pub open spec fn col_after_backspace(snap: &BufferSnapshot, cs: Seq<(usize, usize)>, i: int) -> int {
    let p = cs[i];
    let v = cursor_offset(snap, p) - snap.line_starts@[p.0 as int] - backspace_width(snap, p)
        - deleted_on_line(snap, cs.take(i), p.0);
    if v >= 0 {
        v
    } else {
        0
    }
}

/// Column of cursor `i` of `cs` after typing a character of `w` bytes at
/// every cursor: past its own character and those typed before it on its line.
pub open spec fn col_after_typing(cs: Seq<(usize, usize)>, i: int, w: int) -> int {
    cs[i].1 + w * (1 + count_on_line(cs.take(i), cs[i].0))
}

/// The editor state is marked edited, with everything else unchanged.
pub open spec fn only_marked_edited(new: EditorState, old: EditorState) -> bool {
    &&& new.edited_from(&old)
    &&& new.cursor_line == old.cursor_line
    &&& new.cursor_col == old.cursor_col
    &&& new.selection_start == old.selection_start
    &&& new.selection_end == old.selection_end
    &&& new.is_selecting == old.is_selecting
}

/// The edits inserting `text` at every cursor, last cursor first.
fn inserts_at(cursors: &Vec<(usize, usize)>, text: &str, snap: &BufferSnapshot) -> (es: Vec<Edit>)
    requires
        lines_fit(snap.lines@),
        cursors_fit(snap, cursors@),
    ensures
        inserts_at_cursors(es@, snap, cursors@, text@),
{
    let n = cursors.len();
    let mut es: Vec<Edit> = Vec::new();
    let mut k: usize = 0;
    while k < n
        invariant
            k <= n == cursors@.len(),
            lines_fit(snap.lines@),
            cursors_fit(snap, cursors@),
            es@.len() == k,
            forall|j: int|
                0 <= j < k ==> is_insert(
                    #[trigger] es@[j],
                    cursor_offset(snap, cursors@[n - 1 - j]),
                    text@,
                ),
        decreases n - k,
    {
        let (line, col) = cursors[n - 1 - k];
        let pos = line_col_to_byte(snap, line, col);
        es.push(Edit::Insert { pos, text: to_string(text) });
        k = k + 1;
    }
    es
}

/// How many cursors before cursor `i` are on its line.
fn earlier_on_line(cursors: &Vec<(usize, usize)>, i: usize) -> (r: usize)
    requires
        i < cursors@.len(),
    ensures
        r == count_on_line(cursors@.take(i as int), cursors@[i as int].0),
        r <= i,
{
    let line = cursors[i].0;
    let mut k: usize = 0;
    let mut j: usize = 0;
    while j < i
        invariant
            j <= i < cursors@.len(),
            line == cursors@[i as int].0,
            k == count_on_line(cursors@.take(j as int), line),
            k <= j,
        decreases i - j,
    {
        assert(cursors@.take(j + 1).drop_last() =~= cursors@.take(j as int));
        if cursors[j].0 == line {
            k = k + 1;
        }
        j = j + 1;
    }
    k
}

/// Bytes that backspace deletes at cursor `p`.
fn backspace_width_at(snap: &BufferSnapshot, p: (usize, usize)) -> (r: usize)
    requires
        lines_fit(snap.lines@),
        p.0 < snap.line_starts@.len(),
        snap.line_starts@[p.0 as int] + p.1 <= usize::MAX,
        cursor_offset(snap, p) <= snap.bytes@.len(),
    ensures
        r == backspace_width(snap, p),
{
    if p.1 == 0 {
        return 0;
    }
    let pos = line_col_to_byte(snap, p.0, p.1);
    let prev = find_prev_char_boundary(snap.bytes.as_slice(), pos);
    if prev < pos {
        pos - prev
    } else {
        0
    }
}

impl EditorState {
    /// Types `ch` at every cursor. With at most one cursor this is
    /// `insert_char` at the editor's cursor; with several, `ch` goes in at
    /// each cursor, each cursor ends right after its own `ch` (past the
    /// characters typed before it on its line), and the status says at how
    /// many places it was typed.
    pub fn broadcast_insert_char(
        &mut self,
        cursors: &mut Vec<(usize, usize)>,
        ch: char,
        snap: &BufferSnapshot,
    ) -> (r: BroadcastEdit)
        requires
            old(cursors)@.len() <= 1 ==> old(self).insert_char_fits(snap),
            old(cursors)@.len() > 1 ==> {
                &&& lines_fit(snap.lines@)
                &&& cursors_fit(snap, old(cursors)@)
                &&& forall|i: int|
                    0 <= i < old(cursors)@.len() ==> (#[trigger] old(cursors)@[i]).1 + 4 * old(
                        cursors,
                    )@.len() <= usize::MAX
                &&& old(self).buffer_version < u64::MAX
            },
        ensures
            old(cursors)@.len() <= 1 ==> final(cursors)@ == old(cursors)@ && (r matches BroadcastEdit::Single(
                Some(c),
            ) && old(self).inserted_char(snap, ch, *final(self), c)),
            old(cursors)@.len() > 1 ==> {
                let cs = old(cursors)@;
                &&& r matches BroadcastEdit::Multi(es) && inserts_at_cursors(es@, snap, cs, seq![ch])
                &&& final(cursors)@.len() == cs.len()
                &&& forall|i: int|
                    0 <= i < cs.len() ==> #[trigger] final(cursors)@[i] == (
                    cs[i].0,
                    col_after_typing(cs, i, char_width(ch) as int) as usize,
                )
                &&& only_marked_edited(*final(self), *old(self))
                &&& final(self).status_message@ == "已在 "@ + decimal(cs.len()) + " 个位置插入"@
            },
    {
        let n = cursors.len();
        if n <= 1 {
            return BroadcastEdit::Single(Some(self.insert_char(ch, snap)));
        }
        let mut text = String::new();
        text.push(ch);
        let es = inserts_at(cursors, text.as_str(), snap);
        let w = len_utf8(ch);
        let ghost cs = cursors@;
        let mut out: Vec<(usize, usize)> = Vec::new();
        let mut i: usize = 0;
        while i < n
            invariant
                i <= n == cs.len(),
                cs == cursors@,
                w == char_width(ch),
                1 <= w <= 4,
                forall|j: int| 0 <= j < n ==> (#[trigger] cs[j]).1 + 4 * n <= usize::MAX,
                out@.len() == i,
                forall|j: int|
                    0 <= j < i ==> #[trigger] out@[j] == (
                        cs[j].0,
                        col_after_typing(cs, j, w as int) as usize,
                    ),
            decreases n - i,
        {
            let k = earlier_on_line(cursors, i);
            let (line, col) = cursors[i];
            assert(cs[i as int].1 + 4 * n <= usize::MAX);
            assert(w * (k + 1) <= 4 * n) by (nonlinear_arith)
                requires
                    1 <= w <= 4,
                    k + 1 <= n,
            ;
            let shifted = w * (k + 1);
            out.push((line, col + shifted));
            i = i + 1;
        }
        *cursors = out;
        self.is_dirty = true;
        self.buffer_version = self.buffer_version + 1;
        let mut msg = to_string("已在 ");
        push_decimal(&mut msg, n);
        push_str(&mut msg, " 个位置插入");
        self.status_message = msg;
        BroadcastEdit::Multi(es)
    }

    /// Breaks the line at every cursor. With at most one cursor this is
    /// `insert_newline` at the editor's cursor; with several, a line break
    /// goes in at each cursor and each cursor moves to the start of the line
    /// its break begins: below its own line by one, plus one for each cursor
    /// before it.
    pub fn broadcast_insert_newline(&mut self, cursors: &mut Vec<(usize, usize)>, snap: &BufferSnapshot) -> (r: BroadcastEdit)
        requires
            old(cursors)@.len() <= 1 ==> old(self).insert_newline_fits(snap),
            old(cursors)@.len() > 1 ==> {
                &&& lines_fit(snap.lines@)
                &&& cursors_fit(snap, old(cursors)@)
                &&& forall|i: int|
                    0 <= i < old(cursors)@.len() ==> (#[trigger] old(cursors)@[i]).0 + old(
                        cursors,
                    )@.len() <= usize::MAX
                &&& old(self).buffer_version < u64::MAX
            },
        ensures
            old(cursors)@.len() <= 1 ==> final(cursors)@ == old(cursors)@ && (r matches BroadcastEdit::Single(
                Some(c),
            ) && old(self).inserted_newline(snap, *final(self), c)),
            old(cursors)@.len() > 1 ==> {
                let cs = old(cursors)@;
                &&& r matches BroadcastEdit::Multi(es) && inserts_at_cursors(es@, snap, cs, seq!['\n'])
                &&& final(cursors)@.len() == cs.len()
                &&& forall|i: int|
                    0 <= i < cs.len() ==> #[trigger] final(cursors)@[i] == ((cs[i].0 + i + 1) as usize, 0usize)
                &&& only_marked_edited(*final(self), *old(self))
                &&& final(self).status_message@ == old(self).status_message@
            },
    {
        let n = cursors.len();
        if n <= 1 {
            return BroadcastEdit::Single(Some(self.insert_newline(snap)));
        }
        let es = inserts_at(cursors, "\n", snap);
        proof {
            reveal_strlit("\n");
            assert("\n"@ =~= seq!['\n']);
        }
        let ghost cs = cursors@;
        let mut out: Vec<(usize, usize)> = Vec::new();
        let mut i: usize = 0;
        while i < n
            invariant
                i <= n == cs.len(),
                cs == cursors@,
                forall|j: int| 0 <= j < n ==> (#[trigger] cs[j]).0 + n <= usize::MAX,
                out@.len() == i,
                forall|j: int| 0 <= j < i ==> #[trigger] out@[j] == ((cs[j].0 + j + 1) as usize, 0usize),
            decreases n - i,
        {
            let (line, _col) = cursors[i];
            assert(cs[i as int].0 + n <= usize::MAX);
            out.push((line + i + 1, 0));
            i = i + 1;
        }
        *cursors = out;
        self.is_dirty = true;
        self.buffer_version = self.buffer_version + 1;
        BroadcastEdit::Multi(es)
    }

    /// Backspace at every cursor. With at most one cursor this is
    /// `delete_char` at the editor's cursor; with several, the character
    /// before each cursor not at column 0 is deleted, last cursor first, and
    /// each cursor moves back over its own character and over those deleted
    /// before it on its line.
    pub fn broadcast_delete_char(&mut self, cursors: &mut Vec<(usize, usize)>, snap: &BufferSnapshot) -> (r: BroadcastEdit)
        requires
            old(cursors)@.len() <= 1 ==> old(self).delete_char_fits(snap),
            old(cursors)@.len() > 1 ==> {
                &&& lines_fit(snap.lines@)
                &&& cursors_fit(snap, old(cursors)@)
                &&& forall|i: int|
                    0 <= i < old(cursors)@.len() ==> cursor_offset(snap, #[trigger] old(cursors)@[i])
                        <= snap.bytes@.len()
                &&& old(self).buffer_version < u64::MAX
            },
        ensures
            old(cursors)@.len() <= 1 ==> final(cursors)@ == old(cursors)@ && (r matches BroadcastEdit::Single(c)
                && old(self).deleted_char(snap, *final(self), c)),
            old(cursors)@.len() > 1 ==> {
                let cs = old(cursors)@;
                let rs = backspace_ranges(snap, cs);
                &&& r matches BroadcastEdit::Multi(es) && es@.len() == rs.len() && forall|k: int|
                    0 <= k < rs.len() ==> is_delete(#[trigger] es@[k], rs[k].0, rs[k].1)
                &&& final(cursors)@.len() == cs.len()
                &&& forall|i: int|
                    0 <= i < cs.len() ==> #[trigger] final(cursors)@[i] == (
                    cs[i].0,
                    col_after_backspace(snap, cs, i) as usize,
                )
                &&& only_marked_edited(*final(self), *old(self))
                &&& final(self).status_message@ == old(self).status_message@
            },
    {
        let n = cursors.len();
        if n <= 1 {
            return BroadcastEdit::Single(self.delete_char(snap));
        }
        let ghost cs = cursors@;
        let mut es: Vec<Edit> = Vec::new();
        let mut k: usize = 0;
        assert(cs.subrange(n as int, n as int) =~= Seq::<(usize, usize)>::empty());
        while k < n
            invariant
                k <= n == cs.len(),
                cs == cursors@,
                lines_fit(snap.lines@),
                cursors_fit(snap, cs),
                forall|i: int| 0 <= i < cs.len() ==> cursor_offset(snap, #[trigger] cs[i]) <= snap.bytes@.len(),
                es@.len() == backspace_ranges(snap, cs.subrange(n - k, n as int)).len(),
                forall|j: int|
                    0 <= j < es@.len() ==> is_delete(
                        #[trigger] es@[j],
                        backspace_ranges(snap, cs.subrange(n - k, n as int))[j].0,
                        backspace_ranges(snap, cs.subrange(n - k, n as int))[j].1,
                    ),
            decreases n - k,
        {
            let i = n - 1 - k;
            let (line, col) = cursors[i];
            let ghost before = backspace_ranges(snap, cs.subrange(n - k, n as int));
            assert(cs.subrange(i as int, n as int).drop_first() =~= cs.subrange(n - k, n as int));
            assert(cs.subrange(i as int, n as int)[0] == cs[i as int]);
            let ghost after = backspace_ranges(snap, cs.subrange(i as int, n as int));
            assert(after == before + backspace_range(snap, cs[i as int]));
            if col > 0 {
                let pos = line_col_to_byte(snap, line, col);
                let prev = find_prev_char_boundary(snap.bytes.as_slice(), pos);
                if prev < pos {
                    es.push(Edit::Delete { start: prev, end: pos });
                }
            }
            k = k + 1;
        }
        assert(cs.subrange(0, n as int) =~= cs);
        let mut out: Vec<(usize, usize)> = Vec::new();
        let mut i: usize = 0;
        while i < n
            invariant
                i <= n == cs.len(),
                cs == cursors@,
                lines_fit(snap.lines@),
                cursors_fit(snap, cs),
                forall|j: int| 0 <= j < cs.len() ==> cursor_offset(snap, #[trigger] cs[j]) <= snap.bytes@.len(),
                out@.len() == i,
                forall|j: int|
                    0 <= j < i ==> #[trigger] out@[j] == (cs[j].0, col_after_backspace(snap, cs, j) as usize),
            decreases n - i,
        {
            let (line, col) = cursors[i];
            assert(cs[i as int] == (line, col));
            let pos = line_col_to_byte(snap, line, col);
            let base = pos - snap.line_starts[line];
            let own = backspace_width_at(snap, (line, col));
            let mut v: usize = if own <= base {
                base - own
            } else {
                0
            };
            let ghost x = cursor_offset(snap, cs[i as int]) - snap.line_starts@[line as int]
                - backspace_width(snap, cs[i as int]);
            assert(cs.take(0) =~= Seq::<(usize, usize)>::empty());
            let mut j: usize = 0;
            while j < i
                invariant
                    j <= i < n == cs.len(),
                    cs == cursors@,
                    line == cs[i as int].0,
                    lines_fit(snap.lines@),
                    cursors_fit(snap, cs),
                    forall|t: int| 0 <= t < cs.len() ==> cursor_offset(snap, #[trigger] cs[t]) <= snap.bytes@.len(),
                    v == (if x - deleted_on_line(snap, cs.take(j as int), line) >= 0 {
                        x - deleted_on_line(snap, cs.take(j as int), line)
                    } else {
                        0
                    }),
                decreases i - j,
            {
                assert(cs.take(j + 1).drop_last() =~= cs.take(j as int));
                assert(cs.take(j + 1).last() == cs[j as int]);
                let p = cursors[j];
                assert(cs[j as int] == p);
                if p.0 == line {
                    let wj = backspace_width_at(snap, p);
                    v = if wj <= v {
                        v - wj
                    } else {
                        0
                    };
                }
                j = j + 1;
            }
            out.push((line, v));
            i = i + 1;
        }
        *cursors = out;
        self.is_dirty = true;
        self.buffer_version = self.buffer_version + 1;
        BroadcastEdit::Multi(es)
    }
}

} // verus!
