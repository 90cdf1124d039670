//! The terminal panel: a bounded buffer of output lines, the input line, and
//! the choice of shell. Running the shell process is left to the caller.
use vstd::prelude::*;
use std::collections::VecDeque;
use crate::text::{chars_of, line_ranges, lines, push_str, string_from_chars, to_string};

verus! {

broadcast use vstd::std_specs::vecdeque::group_vec_dequeue_axioms;

/// State of the terminal panel.
#[derive(Debug)]
pub struct TerminalPanel {
    pub visible: bool,
    /// Output lines, oldest first.
    pub output_lines: VecDeque<String>,
    /// How many output lines are kept.
    pub max_lines: usize,
    pub input_line: String,
    pub cursor_pos: usize,
    pub running: bool,
    /// Working directory of the shell.
    pub cwd: String,
    pub focused: bool,
}

/// The texts of `q`.
pub open spec fn texts(q: Seq<String>) -> Seq<Seq<char>> {
    q.map_values(|s: String| s@)
}

/// The buffer after appending `line`: when it already holds `max` lines or
/// more, its oldest line goes first.
pub open spec fn push_line(q: Seq<Seq<char>>, line: Seq<char>, max: nat) -> Seq<Seq<char>> {
    let kept = if q.len() >= max && q.len() > 0 {
        q.drop_first()
    } else {
        q
    };
    kept.push(line)
}

/// The buffer after appending `ls` one by one.
pub open spec fn push_lines(q: Seq<Seq<char>>, ls: Seq<Seq<char>>, max: nat) -> Seq<Seq<char>>
    decreases ls.len(),
{
    if ls.len() == 0 {
        q
    } else {
        push_line(push_lines(q, ls.drop_last(), max), ls.last(), max)
    }
}

/// The message shown when a shell starts.
pub open spec fn started_message(shell: Seq<char>) -> Seq<char> {
    "终端已启动: "@ + shell + seq!['\n']
}

impl TerminalPanel {
    /// A hidden, stopped terminal in `cwd` that keeps 1000 lines.
    pub fn new(cwd: String) -> (r: Self)
        ensures
            !r.visible,
            r.output_lines@.len() == 0,
            r.max_lines == 1000,
            r.input_line@.len() == 0,
            r.cursor_pos == 0,
            !r.running,
            r.cwd == cwd,
            !r.focused,
    {
        TerminalPanel {
            visible: false,
            output_lines: VecDeque::with_capacity(1000),
            max_lines: 1000,
            input_line: String::new(),
            cursor_pos: 0,
            running: false,
            cwd,
            focused: false,
        }
    }

    /// Shows or hides the panel.
    pub fn toggle(&mut self)
        ensures
            *final(self) == (TerminalPanel { visible: !old(self).visible, ..*old(self) }),
            final(self).visible == !old(self).visible,
            final(self).output_lines@ == old(self).output_lines@,
            final(self).input_line == old(self).input_line,
            final(self).running == old(self).running,
    {
        self.visible = !self.visible;
    }

    /// Records that `shell` has started: the panel is running and says so.
    pub fn record_start(&mut self, shell: &str)
        ensures
            *final(self) == (TerminalPanel { running: true, output_lines: final(self).output_lines, ..*old(self) }),
            final(self).running,
            texts(final(self).output_lines@) == push_lines(
                texts(old(self).output_lines@),
                lines(started_message(shell@)),
                old(self).max_lines as nat,
            ),
            final(self).max_lines == old(self).max_lines,
            final(self).input_line == old(self).input_line,
            final(self).visible == old(self).visible,
    {
        self.running = true;
        let mut msg = to_string("终端已启动: ");
        push_str(&mut msg, shell);
        msg.push('\n');
        proof {
            assert(msg@ =~= started_message(shell@));
        }
        self.push_output(msg.as_str());
    }

    /// After the line break has been sent: the input line is emptied.
    pub fn send_enter(&mut self)
        ensures
            *final(self) == (TerminalPanel { input_line: final(self).input_line, cursor_pos: 0, ..*old(self) }),
            final(self).input_line@.len() == 0,
            final(self).cursor_pos == 0,
            final(self).output_lines@ == old(self).output_lines@,
            final(self).max_lines == old(self).max_lines,
            final(self).running == old(self).running,
    {
        self.input_line.clear();
        self.cursor_pos = 0;
    }

    /// The session has ended.
    pub fn stop(&mut self)
        ensures
            *final(self) == (TerminalPanel { running: false, ..*old(self) }),
            !final(self).running,
            final(self).output_lines@ == old(self).output_lines@,
            final(self).input_line == old(self).input_line,
    {
        self.running = false;
    }

    /// Appends the lines of `text` (`str::lines`), dropping the oldest line
    /// whenever the buffer is full.
    pub fn push_output(&mut self, text: &str)
        ensures
            *final(self) == (TerminalPanel { output_lines: final(self).output_lines, ..*old(self) }),
            texts(final(self).output_lines@) == push_lines(
                texts(old(self).output_lines@),
                lines(text@),
                old(self).max_lines as nat,
            ),
            final(self).max_lines == old(self).max_lines,
            final(self).input_line == old(self).input_line,
            final(self).cursor_pos == old(self).cursor_pos,
            final(self).running == old(self).running,
            final(self).visible == old(self).visible,
            final(self).focused == old(self).focused,
            final(self).cwd == old(self).cwd,
    {
        let cs = chars_of(text);
        let ranges = line_ranges(&cs);
        let ghost ls = lines(text@);
        let ghost start = texts(self.output_lines@);
        let mut i: usize = 0;
        while i < ranges.len()
            invariant
                i <= ranges@.len() == ls.len(),
                ls == lines(cs@),
                forall|k: int|
                    0 <= k < ranges@.len() ==> {
                        &&& (#[trigger] ranges@[k]).0 <= ranges@[k].1 <= cs@.len()
                        &&& cs@.subrange(ranges@[k].0 as int, ranges@[k].1 as int) == ls[k]
                    },
                texts(self.output_lines@) == push_lines(start, ls.take(i as int), self.max_lines as nat),
                self.max_lines == old(self).max_lines,
                self.input_line == old(self).input_line,
                self.cursor_pos == old(self).cursor_pos,
                self.running == old(self).running,
                self.visible == old(self).visible,
                self.focused == old(self).focused,
                self.cwd == old(self).cwd,
            decreases ranges@.len() - i,
        {
            let (a, b) = ranges[i];
            let line = string_from_chars(&cs, a, b);
            let ghost before = texts(self.output_lines@);
            if self.output_lines.len() >= self.max_lines {
                let _ = self.output_lines.pop_front();
            }
            self.output_lines.push_back(line);
            proof {
                assert(ls.take(i + 1).drop_last() =~= ls.take(i as int));
                assert(ls.take(i + 1).last() == ls[i as int]);
                assert(texts(self.output_lines@) =~= push_line(
                    before,
                    ls[i as int],
                    self.max_lines as nat,
                ));
            }
            i = i + 1;
        }
        assert(ls.take(ranges@.len() as int) =~= ls);
    }

    /// Copies of the output lines, oldest first.
    pub fn visible_output(&self) -> (r: Vec<String>)
        ensures
            texts(r@) == texts(self.output_lines@),
    {
        let mut r: Vec<String> = Vec::new();
        let mut i: usize = 0;
        while i < self.output_lines.len()
            invariant
                i <= self.output_lines@.len(),
                texts(r@) == texts(self.output_lines@).take(i as int),
            decreases self.output_lines@.len() - i,
        {
            let line = &self.output_lines[i];
            assert(*line == self.output_lines@[i as int]);
            let ghost old_r = r@;
            let copy = to_string(line.as_str());
            r.push(copy);
            assert(r@ == old_r.push(copy));
            assert(texts(r@) =~= texts(old_r).push(copy@));
            assert(texts(self.output_lines@).take(i + 1) =~= texts(self.output_lines@).take(
                i as int,
            ).push(self.output_lines@[i as int]@));
            i = i + 1;
        }
        assert(texts(self.output_lines@).take(i as int) =~= texts(self.output_lines@));
        r
    }

    /// Drops all output.
    pub fn clear(&mut self)
        ensures
            *final(self) == (TerminalPanel { output_lines: final(self).output_lines, ..*old(self) }),
            final(self).output_lines@.len() == 0,
            final(self).max_lines == old(self).max_lines,
            final(self).input_line == old(self).input_line,
            final(self).running == old(self).running,
    {
        self.output_lines.clear();
    }

    /// Types `c` into the input line.
    pub fn type_char(&mut self, c: char)
        requires
            old(self).cursor_pos < usize::MAX,
        ensures
            *final(self) == (TerminalPanel { input_line: final(self).input_line, cursor_pos: final(self).cursor_pos, ..*old(self) }),
            final(self).input_line@ == old(self).input_line@.push(c),
            final(self).cursor_pos == old(self).cursor_pos + 1,
            final(self).output_lines@ == old(self).output_lines@,
    {
        self.input_line.push(c);
        self.cursor_pos = self.cursor_pos + 1;
    }

    /// Removes the last character of the input line, if any.
    pub fn backspace_input(&mut self)
        ensures
            *final(self) == (TerminalPanel { input_line: final(self).input_line, cursor_pos: final(self).cursor_pos, ..*old(self) }),
            old(self).input_line@.len() > 0 ==> final(self).input_line@ == old(
                self,
            ).input_line@.drop_last() && final(self).cursor_pos == (if old(self).cursor_pos > 0 {
                old(self).cursor_pos - 1
            } else {
                0
            }),
            old(self).input_line@.len() == 0 ==> final(self).input_line@ == old(self).input_line@
                && final(self).cursor_pos == old(self).cursor_pos,
            final(self).output_lines@ == old(self).output_lines@,
    {
        if !self.input_line.as_str().is_empty() {
            let _ = self.input_line.pop();
            self.cursor_pos = if self.cursor_pos > 0 {
                self.cursor_pos - 1
            } else {
                0
            };
        }
    }

    /// Echoes the input line as `> <input>` into the output and empties it;
    /// the caller then sends the line break to the shell.
    pub fn submit_input(&mut self)
        ensures
            *final(self) == (TerminalPanel { input_line: final(self).input_line, cursor_pos: 0, output_lines: final(self).output_lines, ..*old(self) }),
            texts(final(self).output_lines@) == push_lines(
                texts(old(self).output_lines@),
                lines("> "@ + old(self).input_line@),
                old(self).max_lines as nat,
            ),
            final(self).input_line@.len() == 0,
            final(self).cursor_pos == 0,
            final(self).max_lines == old(self).max_lines,
            final(self).running == old(self).running,
    {
        let mut echo = to_string("> ");
        push_str(&mut echo, self.input_line.as_str());
        self.push_output(echo.as_str());
        self.send_enter();
    }
}

/// The shell to start: PowerShell 7 when it can be found, else Windows
/// PowerShell, else `cmd.exe`.
pub fn detect_default_shell(has_pwsh: bool, has_powershell: bool) -> (r: String)
    ensures
        r@ == (if has_pwsh {
            "pwsh.exe"@
        } else if has_powershell {
            "powershell.exe"@
        } else {
            "cmd.exe"@
        }),
{
    if has_pwsh {
        return to_string("pwsh.exe");
    }
    if has_powershell {
        return to_string("powershell.exe");
    }
    to_string("cmd.exe")
}

/// The buffer never grows past its limit (or past one line when the limit
/// is zero), whatever is appended.
pub proof fn lemma_output_bounded(q: Seq<Seq<char>>, ls: Seq<Seq<char>>, max: nat)
    requires
        q.len() <= max || q.len() <= 1,
    ensures
        push_lines(q, ls, max).len() <= max || push_lines(q, ls, max).len() <= 1,
    decreases ls.len(),
{
    if ls.len() > 0 {
        lemma_output_bounded(q, ls.drop_last(), max);
    }
}

/// The last line appended is the newest line of the buffer.
pub proof fn lemma_output_newest(q: Seq<Seq<char>>, ls: Seq<Seq<char>>, max: nat)
    requires
        ls.len() > 0,
    ensures
        push_lines(q, ls, max).last() == ls.last(),
{
}

/// While the buffer has room, appending keeps every line, in order.
pub proof fn lemma_output_kept_when_room(q: Seq<Seq<char>>, ls: Seq<Seq<char>>, max: nat)
    requires
        q.len() + ls.len() <= max,
    ensures
        push_lines(q, ls, max) == q + ls,
    decreases ls.len(),
{
    if ls.len() > 0 {
        lemma_output_kept_when_room(q, ls.drop_last(), max);
        assert(q + ls.drop_last() + seq![ls.last()] =~= q + ls);
        assert((q + ls.drop_last()).push(ls.last()) =~= q + ls);
    } else {
        assert(q + ls =~= q);
    }
}

} // verus!
