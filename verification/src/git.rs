//! The Git model: repository status parsed from `git status --porcelain`,
//! the current branch read from `.git/HEAD`, and the argument lists and
//! result handling of the Git commands the source-control panel runs.
use vstd::prelude::*;
use crate::text::{
    push_str,
    chars_of, index_at_byte, is_boundary, char_index, line_ranges, lines, offset_of, push_decimal,
    string_from_chars, to_string, trim, trim_range, utf8_len, decimal, lemma_offset_full,
    lemma_offset_monotone,
};

verus! {

/// Status of a file in the working tree or the index.
#[derive(Clone, Copy, Debug, PartialEq, Eq, Structural)]
pub enum GitFileStatus {
    Unmodified,
    Modified,
    Added,
    Deleted,
    Renamed,
    Copied,
    Untracked,
    Ignored,
    Conflict,
}

/// The status named by the two porcelain status letters (index, work tree).
pub open spec fn status_of_codes(x: char, y: char) -> GitFileStatus {
    if x == 'A' && (y == ' ' || y == 'M' || y == 'D') {
        GitFileStatus::Added
    } else if (x == 'M' && (y == ' ' || y == 'M')) || (x == ' ' && y == 'M') {
        GitFileStatus::Modified
    } else if (x == 'D' && (y == ' ' || y == 'D')) || (x == ' ' && y == 'D') {
        GitFileStatus::Deleted
    } else if x == 'R' {
        GitFileStatus::Renamed
    } else if x == 'C' {
        GitFileStatus::Copied
    } else if x == '?' && y == '?' {
        GitFileStatus::Untracked
    } else if x == 'U' || y == 'U' {
        GitFileStatus::Conflict
    } else {
        GitFileStatus::Unmodified
    }
}

/// The status for the porcelain letters `x` (index) and `y` (work tree).
pub fn status_from_codes(x: char, y: char) -> (r: GitFileStatus)
    ensures
        r == status_of_codes(x, y),
{
    if x == 'A' && (y == ' ' || y == 'M' || y == 'D') {
        GitFileStatus::Added
    } else if (x == 'M' && (y == ' ' || y == 'M')) || (x == ' ' && y == 'M') {
        GitFileStatus::Modified
    } else if (x == 'D' && (y == ' ' || y == 'D')) || (x == ' ' && y == 'D') {
        GitFileStatus::Deleted
    } else if x == 'R' {
        GitFileStatus::Renamed
    } else if x == 'C' {
        GitFileStatus::Copied
    } else if x == '?' && y == '?' {
        GitFileStatus::Untracked
    } else if x == 'U' || y == 'U' {
        GitFileStatus::Conflict
    } else {
        GitFileStatus::Unmodified
    }
}

/// The letter shown next to a file with this status.
pub open spec fn icon_of(status: GitFileStatus) -> Seq<char> {
    match status {
        GitFileStatus::Modified => "M"@,
        GitFileStatus::Added => "A"@,
        GitFileStatus::Deleted => "D"@,
        GitFileStatus::Untracked => "U"@,
        GitFileStatus::Conflict => "C"@,
        GitFileStatus::Renamed => "R"@,
        GitFileStatus::Copied => "C"@,
        GitFileStatus::Ignored => "I"@,
        GitFileStatus::Unmodified => ""@,
    }
}

/// One line of `git status --porcelain` output, taken apart: its status
/// letters (a space when missing) and the path after the third byte.
pub open spec fn porcelain_x(t: Seq<char>) -> char {
    if t.len() > 0 {
        t[0]
    } else {
        ' '
    }
}

pub open spec fn porcelain_y(t: Seq<char>) -> char {
    if t.len() > 1 {
        t[1]
    } else {
        ' '
    }
}

pub open spec fn porcelain_path(t: Seq<char>) -> Seq<char> {
    t.skip(char_index(t, 3))
}

/// The line carries an entry: it is at least three bytes long.
pub open spec fn is_entry_line(t: Seq<char>) -> bool {
    utf8_len(t) >= 3
}

/// `(path, status)` of each entry line, in order.
pub open spec fn status_entries(ls: Seq<Seq<char>>) -> Seq<(Seq<char>, GitFileStatus)>
    decreases ls.len(),
{
    if ls.len() == 0 {
        Seq::empty()
    } else {
        let t = ls.last();
        let rest = status_entries(ls.drop_last());
        if is_entry_line(t) {
            rest.push(
                (porcelain_path(t), status_of_codes(porcelain_x(t), porcelain_y(t))),
            )
        } else {
            rest
        }
    }
}

/// Paths of the entry lines whose letter pair satisfies `sel`:
/// 0 = staged (index letter set), 1 = unstaged (work-tree letter set),
/// 2 = untracked (`??`).
pub open spec fn selected_paths(ls: Seq<Seq<char>>, sel: int) -> Seq<Seq<char>>
    decreases ls.len(),
{
    if ls.len() == 0 {
        Seq::empty()
    } else {
        let t = ls.last();
        let rest = selected_paths(ls.drop_last(), sel);
        let x = porcelain_x(t);
        let y = porcelain_y(t);
        let keep = if sel == 0 {
            x != ' ' && x != '?'
        } else if sel == 1 {
            y != ' ' && y != '?'
        } else {
            x == '?' && y == '?'
        };
        if is_entry_line(t) && keep {
            rest.push(porcelain_path(t))
        } else {
            rest
        }
    }
}

/// Every entry line has a character boundary at byte 3.
pub open spec fn porcelain_well_formed(out: Seq<char>) -> bool {
    forall|i: int|
        0 <= i < lines(out).len() && is_entry_line(#[trigger] lines(out)[i]) ==> is_boundary(
            lines(out)[i],
            3,
        )
}

/// The branch named by the contents of `.git/HEAD`: the name after
/// `ref: refs/heads/`, or the first seven bytes of a detached commit hash.
pub open spec fn branch_of(head: Seq<char>) -> Seq<char> {
    let t = trim(head);
    if t.len() >= 16 && t.take(16) == ref_prefix() {
        t.skip(16)
    } else {
        t.take(char_index(t, 7))
    }
}

/// `ref: refs/heads/`
pub open spec fn ref_prefix() -> Seq<char> {
    seq!['r', 'e', 'f', ':', ' ', 'r', 'e', 'f', 's', '/', 'h', 'e', 'a', 'd', 's', '/']
}

/// HEAD names a branch, or its trimmed contents hold at least seven bytes
/// that end on a character boundary.
pub open spec fn head_well_formed(head: Seq<char>) -> bool {
    let t = trim(head);
    (t.len() >= 16 && t.take(16) == ref_prefix()) || (utf8_len(t) >= 7 && is_boundary(t, 7))
}

/// Status of the repository opened in the explorer.
#[derive(Debug)]
pub struct GitRepository {
    pub is_repo: bool,
    pub branch: Option<String>,
    pub ahead: u32,
    pub behind: u32,
    /// `(path, status)` in the order `git status` listed them; when a path
    /// is listed more than once, its last entry counts.
    pub file_status: Vec<(String, GitFileStatus)>,
    pub staged_files: Vec<String>,
    pub unstaged_files: Vec<String>,
    pub untracked_files: Vec<String>,
    pub has_changes: bool,
}

/// The character views of a list of strings.
pub open spec fn views(v: Seq<String>) -> Seq<Seq<char>> {
    v.map_values(|s: String| s@)
}

/// The `(path, status)` entries as character sequences.
pub open spec fn entry_views(v: Seq<(String, GitFileStatus)>) -> Seq<(Seq<char>, GitFileStatus)> {
    v.map_values(|e: (String, GitFileStatus)| (e.0@, e.1))
}

/// The status of the last entry for `file`, if it has one.
pub open spec fn find_status(es: Seq<(Seq<char>, GitFileStatus)>, file: Seq<char>) -> Option<GitFileStatus>
    decreases es.len(),
{
    if es.len() == 0 {
        None
    } else if es.last().0 == file {
        Some(es.last().1)
    } else {
        find_status(es.drop_last(), file)
    }
}

/// The status recorded for `file`: that of its last entry, or `Unmodified`.
pub open spec fn lookup_status(es: Seq<(Seq<char>, GitFileStatus)>, file: Seq<char>) -> GitFileStatus {
    match find_status(es, file) {
        Some(s) => s,
        None => GitFileStatus::Unmodified,
    }
}

/// The status of the last entry of `entries` for `file`.
fn find_entry(entries: &Vec<(String, GitFileStatus)>, file: &str) -> (r: Option<GitFileStatus>)
    ensures
        r == find_status(entry_views(entries@), file@),
{
    let mut i = entries.len();
    assert(entries@.take(i as int) =~= entries@);
    while i > 0
        invariant
            i <= entries@.len(),
            find_status(entry_views(entries@), file@) == find_status(
                entry_views(entries@.take(i as int)),
                file@,
            ),
        decreases i,
    {
        let ghost es = entry_views(entries@.take(i as int));
        assert(entry_views(entries@.take(i - 1)) =~= es.drop_last());
        if str_eq(entries[i - 1].0.as_str(), file) {
            return Some(entries[i - 1].1);
        }
        i = i - 1;
    }
    assert(entry_views(entries@.take(0)) =~= Seq::empty());
    None
}

fn chars_eq(a: &[char], b: &[char]) -> (r: bool)
    ensures
        r == (a@ == b@),
{
    if a.len() != b.len() {
        return false;
    }
    let mut i: usize = 0;
    while i < a.len()
        invariant
            i <= a@.len() == b@.len(),
            forall|j: int| 0 <= j < i ==> a@[j] == b@[j],
        decreases a@.len() - i,
    {
        if a[i] != b[i] {
            return false;
        }
        i = i + 1;
    }
    assert(a@ =~= b@);
    true
}

fn str_eq(a: &str, b: &str) -> (r: bool)
    ensures
        r == (a@ == b@),
{
    let x = chars_of(a);
    let y = chars_of(b);
    chars_eq(&x, &y)
}

/// Parses the output of `git status --porcelain -u`.
fn parse_status(out: &str) -> (r: (
    Vec<(String, GitFileStatus)>,
    Vec<String>,
    Vec<String>,
    Vec<String>,
))
    requires
        porcelain_well_formed(out@),
        utf8_len(out@) <= usize::MAX,
    ensures
        entry_views(r.0@) == status_entries(lines(out@)),
        views(r.1@) == selected_paths(lines(out@), 0),
        views(r.2@) == selected_paths(lines(out@), 1),
        views(r.3@) == selected_paths(lines(out@), 2),
{
    let cs = chars_of(out);
    let ranges = line_ranges(&cs);
    let ghost ls = lines(cs@);
    let mut entries: Vec<(String, GitFileStatus)> = Vec::new();
    let mut staged: Vec<String> = Vec::new();
    let mut unstaged: Vec<String> = Vec::new();
    let mut untracked: Vec<String> = Vec::new();
    let mut i: usize = 0;
    while i < ranges.len()
        invariant
            i <= ranges@.len() == ls.len(),
            ls == lines(out@),
            cs@ == out@,
            porcelain_well_formed(out@),
            utf8_len(cs@) <= usize::MAX,
            forall|k: int|
                0 <= k < ranges@.len() ==> {
                    &&& (#[trigger] ranges@[k]).0 <= ranges@[k].1 <= cs@.len()
                    &&& cs@.subrange(ranges@[k].0 as int, ranges@[k].1 as int) == ls[k]
                },
            entry_views(entries@) == status_entries(ls.take(i as int)),
            views(staged@) == selected_paths(ls.take(i as int), 0),
            views(unstaged@) == selected_paths(ls.take(i as int), 1),
            views(untracked@) == selected_paths(ls.take(i as int), 2),
        decreases ranges@.len() - i,
    {
        let (a, b) = ranges[i];
        let line = string_from_chars(&cs, a, b);
        let lc = chars_of(line.as_str());
        let ghost t = ls[i as int];
        assert(lc@ == t);
        assert(ls.take(i + 1).drop_last() =~= ls.take(i as int));
        assert(ls.take(i + 1).last() == t);
        let ghost e0 = entries@;
        let ghost s0 = staged@;
        let ghost u0 = unstaged@;
        let ghost n0 = untracked@;
        let n = lc.len();
        let len = crate::text::range_bytes(&cs, a, b);
        let mut long_enough = false;
        let mut path_start: usize = 0;
        if len >= 3 {
            match index_at_byte(&lc, 3) {
                Some(k) => {
                    long_enough = true;
                    path_start = k;
                },
                None => {},
            }
        }
        if long_enough {
            let x = if n > 0 {
                lc[0]
            } else {
                ' '
            };
            let y = if n > 1 {
                lc[1]
            } else {
                ' '
            };
            let status = status_from_codes(x, y);
            let path = string_from_chars(&lc, path_start, n);
            assert(path@ =~= porcelain_path(t));
            entries.push((to_string(path.as_str()), status));
            if x != ' ' && x != '?' {
                staged.push(to_string(path.as_str()));
            }
            if y != ' ' && y != '?' {
                unstaged.push(to_string(path.as_str()));
            }
            if x == '?' && y == '?' {
                untracked.push(to_string(path.as_str()));
            }
            assert(entry_views(entries@) =~= entry_views(e0).push(
                (porcelain_path(t), status_of_codes(porcelain_x(t), porcelain_y(t))),
            ));
            assert(views(staged@) =~= (if x != ' ' && x != '?' {
                views(s0).push(porcelain_path(t))
            } else {
                views(s0)
            }));
            assert(views(unstaged@) =~= (if y != ' ' && y != '?' {
                views(u0).push(porcelain_path(t))
            } else {
                views(u0)
            }));
            assert(views(untracked@) =~= (if x == '?' && y == '?' {
                views(n0).push(porcelain_path(t))
            } else {
                views(n0)
            }));
        }
        i = i + 1;
    }
    assert(ls.take(ranges@.len() as int) =~= ls);
    (entries, staged, unstaged, untracked)
}

/// The branch named by `.git/HEAD` (`head` is the file's contents).
pub fn get_branch(head: &str) -> (r: String)
    requires
        head_well_formed(head@),
        utf8_len(head@) <= usize::MAX,
    ensures
        r@ == branch_of(head@),
{
    let cs = chars_of(head);
    let (s, e) = trim_range(&cs, 0, cs.len());
    assert(cs@.subrange(0, cs@.len() as int) =~= cs@);
    let ghost t = trim(head@);
    assert(t == cs@.subrange(s as int, e as int));
    let prefix = ['r', 'e', 'f', ':', ' ', 'r', 'e', 'f', 's', '/', 'h', 'e', 'a', 'd', 's', '/'];
    let mut is_ref = e - s >= 16;
    let mut i: usize = 0;
    while is_ref && i < 16
        invariant
            i <= 16,
            s <= e <= cs@.len(),
            is_ref ==> e - s >= 16,
            prefix@ == ref_prefix(),
            forall|j: int| 0 <= j < i ==> cs@[s + j] == prefix@[j],
            !is_ref ==> !(e - s >= 16 && t.take(16) == ref_prefix()),
            t == cs@.subrange(s as int, e as int),
        decreases 16 - i + (if is_ref { 1int } else { 0int }),
    {
        if cs[s + i] != prefix[i] {
            is_ref = false;
            assert(t.take(16)[i as int] != ref_prefix()[i as int]);
        } else {
            i = i + 1;
        }
    }
    if is_ref {
        assert(t.take(16) =~= ref_prefix());
        let r = string_from_chars(&cs, s + 16, e);
        assert(r@ =~= t.skip(16));
        r
    } else {
        // Detached HEAD: the first seven bytes of the commit hash.
        proof {
            assert(cs@.subrange(s as int, e as int) == t);
            crate::text::lemma_offset_full(cs@);
            assert(t =~= cs@.subrange(s as int, e as int));
        }
        let tc = string_from_chars(&cs, s, e);
        let tcs = chars_of(tc.as_str());
        assert(tcs@ == t);
        let len = crate::text::range_bytes(&cs, s, e);
        let k = match index_at_byte(&tcs, 7) {
            Some(k) => k,
            None => 0,
        };
        let r = string_from_chars(&tcs, 0, k);
        assert(r@ =~= t.take(char_index(t, 7)));
        r
    }
}

impl GitRepository {
    /// No repository: nothing known, nothing changed.
    pub fn new() -> (r: Self)
        ensures
            r.is_empty_repo(),
    {
        GitRepository {
            is_repo: false,
            branch: None,
            ahead: 0,
            behind: 0,
            file_status: Vec::new(),
            staged_files: Vec::new(),
            unstaged_files: Vec::new(),
            untracked_files: Vec::new(),
            has_changes: false,
        }
    }

    /// The state of `new()`.
    pub open spec fn is_empty_repo(&self) -> bool {
        &&& !self.is_repo
        &&& self.branch is None
        &&& self.ahead == 0
        &&& self.behind == 0
        &&& self.file_status@.len() == 0
        &&& self.staged_files@.len() == 0
        &&& self.unstaged_files@.len() == 0
        &&& self.untracked_files@.len() == 0
        &&& !self.has_changes
    }

    /// What `detect` yields for a folder: whether it has a `.git`
    /// directory, the contents of `.git/HEAD` if it could be read, and the
    /// output of `git status --porcelain -u` if it succeeded.
    pub open spec fn detected(&self, git_dir_exists: bool, head: Option<Seq<char>>, status: Option<Seq<char>>) -> bool {
        if !git_dir_exists {
            self.is_empty_repo()
        } else {
            let ls = match status {
                Some(o) => lines(o),
                None => Seq::empty(),
            };
            &&& self.is_repo
            &&& match head {
                Some(h) => self.branch matches Some(b) && b@ == branch_of(h),
                None => self.branch is None,
            }
            &&& self.ahead == 0
            &&& self.behind == 0
            &&& entry_views(self.file_status@) == status_entries(ls)
            &&& views(self.staged_files@) == selected_paths(ls, 0)
            &&& views(self.unstaged_files@) == selected_paths(ls, 1)
            &&& views(self.untracked_files@) == selected_paths(ls, 2)
            &&& self.has_changes == (selected_paths(ls, 0).len() > 0 || selected_paths(ls, 1).len()
                > 0 || selected_paths(ls, 2).len() > 0)
        }
    }

    /// The repository state of a folder, from what was read there (see `detected`).
    pub fn detect(git_dir_exists: bool, head: Option<&str>, status: Option<&str>) -> (r: Self)
        requires
            head matches Some(h) ==> head_well_formed(h@) && utf8_len(h@) <= usize::MAX,
            status matches Some(o) ==> porcelain_well_formed(o@) && utf8_len(o@) <= usize::MAX,
        ensures
            r.detected(
                git_dir_exists,
                match head {
                    Some(h) => Some(h@),
                    None => None,
                },
                match status {
                    Some(o) => Some(o@),
                    None => None,
                },
            ),
    {
        let mut repo = GitRepository::new();
        if git_dir_exists {
            repo.is_repo = true;
            repo.branch = match head {
                Some(h) => Some(get_branch(h)),
                None => None,
            };
            match status {
                Some(o) => {
                    let (entries, staged, unstaged, untracked) = parse_status(o);
                    repo.file_status = entries;
                    repo.staged_files = staged;
                    repo.unstaged_files = unstaged;
                    repo.untracked_files = untracked;
                },
                None => {
                    assert(status_entries(Seq::<Seq<char>>::empty()) =~= Seq::empty());
                    assert(entry_views(repo.file_status@) =~= Seq::empty());
                    assert(views(repo.staged_files@) =~= Seq::empty());
                    assert(views(repo.unstaged_files@) =~= Seq::empty());
                    assert(views(repo.untracked_files@) =~= Seq::empty());
                },
            }
            repo.has_changes = repo.staged_files.len() > 0 || repo.unstaged_files.len() > 0
                || repo.untracked_files.len() > 0;
        }
        repo
    }

    /// `self` and `o` hold the same state, compared by the text of their strings.
    pub open spec fn same_state(&self, o: &Self) -> bool {
        &&& self.is_repo == o.is_repo
        &&& match (self.branch, o.branch) {
            (Some(x), Some(y)) => x@ == y@,
            (None, None) => true,
            _ => false,
        }
        &&& self.ahead == o.ahead
        &&& self.behind == o.behind
        &&& entry_views(self.file_status@) == entry_views(o.file_status@)
        &&& views(self.staged_files@) == views(o.staged_files@)
        &&& views(self.unstaged_files@) == views(o.unstaged_files@)
        &&& views(self.untracked_files@) == views(o.untracked_files@)
        &&& self.has_changes == o.has_changes
    }

    /// Replaces the state with what `detect` yields for the same inputs.
    pub fn refresh(&mut self, git_dir_exists: bool, head: Option<&str>, status: Option<&str>)
        requires
            head matches Some(h) ==> head_well_formed(h@) && utf8_len(h@) <= usize::MAX,
            status matches Some(o) ==> porcelain_well_formed(o@) && utf8_len(o@) <= usize::MAX,
        ensures
            final(self).detected(
                git_dir_exists,
                match head {
                    Some(h) => Some(h@),
                    None => None,
                },
                match status {
                    Some(o) => Some(o@),
                    None => None,
                },
            ),
    {
        *self = GitRepository::detect(git_dir_exists, head, status);
    }

    /// The status recorded for `file` (`Unmodified` when it is not listed).
    pub fn file_status(&self, file: &str) -> (r: GitFileStatus)
        ensures
            r == lookup_status(entry_views(self.file_status@), file@),
    {
        match find_entry(&self.file_status, file) {
            Some(st) => st,
            None => GitFileStatus::Unmodified,
        }
    }

    /// The letter shown next to a file with `status`.
    pub fn status_icon(status: GitFileStatus) -> (r: &'static str)
        ensures
            r@ == icon_of(status),
    {
        match status {
            GitFileStatus::Modified => "M",
            GitFileStatus::Added => "A",
            GitFileStatus::Deleted => "D",
            GitFileStatus::Untracked => "U",
            GitFileStatus::Conflict => "C",
            GitFileStatus::Renamed => "R",
            GitFileStatus::Copied => "C",
            GitFileStatus::Ignored => "I",
            GitFileStatus::Unmodified => "",
        }
    }
}

/// What a Git command printed and whether it succeeded.
#[derive(Debug)]
pub struct GitOutput {
    pub stdout: String,
    pub stderr: String,
    pub success: bool,
}

/// The Git commands of the source-control panel: each function gives the
/// arguments to run `git` with; `result` and the parsers read the output.
pub struct GitCommand;

/// The names of non-empty trimmed lines.
pub open spec fn branch_names(ls: Seq<Seq<char>>) -> Seq<Seq<char>>
    decreases ls.len(),
{
    if ls.len() == 0 {
        Seq::empty()
    } else {
        let rest = branch_names(ls.drop_last());
        let t = trim(ls.last());
        if t.len() > 0 {
            rest.push(t)
        } else {
            rest
        }
    }
}

fn args1(a: &str) -> (r: Vec<String>)
    ensures
        views(r@) == seq![a@],
{
    let mut r = Vec::new();
    r.push(to_string(a));
    assert(views(r@) =~= seq![a@]);
    r
}

fn args2(a: &str, b: &str) -> (r: Vec<String>)
    ensures
        views(r@) == seq![a@, b@],
{
    let mut r = Vec::new();
    r.push(to_string(a));
    r.push(to_string(b));
    assert(views(r@) =~= seq![a@, b@]);
    r
}

fn args3(a: &str, b: &str, c: &str) -> (r: Vec<String>)
    ensures
        views(r@) == seq![a@, b@, c@],
{
    let mut r = Vec::new();
    r.push(to_string(a));
    r.push(to_string(b));
    r.push(to_string(c));
    assert(views(r@) =~= seq![a@, b@, c@]);
    r
}

impl GitCommand {
    /// `git add <file>`
    pub fn add(file: &str) -> (r: Vec<String>)
        ensures
            views(r@) == seq!["add"@, file@],
    {
        args2("add", file)
    }

    /// `git add .`
    pub fn add_all() -> (r: Vec<String>)
        ensures
            views(r@) == seq!["add"@, "."@],
    {
        args2("add", ".")
    }

    /// `git reset HEAD <file>`
    pub fn unstage(file: &str) -> (r: Vec<String>)
        ensures
            views(r@) == seq!["reset"@, "HEAD"@, file@],
    {
        args3("reset", "HEAD", file)
    }

    /// `git commit -m <message>`
    pub fn commit(message: &str) -> (r: Vec<String>)
        ensures
            views(r@) == seq!["commit"@, "-m"@, message@],
    {
        args3("commit", "-m", message)
    }

    /// `git push`
    pub fn push() -> (r: Vec<String>)
        ensures
            views(r@) == seq!["push"@],
    {
        args1("push")
    }

    /// `git pull`
    pub fn pull() -> (r: Vec<String>)
        ensures
            views(r@) == seq!["pull"@],
    {
        args1("pull")
    }

    /// `git fetch`
    pub fn fetch() -> (r: Vec<String>)
        ensures
            views(r@) == seq!["fetch"@],
    {
        args1("fetch")
    }

    /// `git checkout -b <branch>`
    pub fn create_branch(branch: &str) -> (r: Vec<String>)
        ensures
            views(r@) == seq!["checkout"@, "-b"@, branch@],
    {
        args3("checkout", "-b", branch)
    }

    /// `git checkout <branch>`
    pub fn switch_branch(branch: &str) -> (r: Vec<String>)
        ensures
            views(r@) == seq!["checkout"@, branch@],
    {
        args2("checkout", branch)
    }

    /// `git branch --format=%(refname:short)`
    pub fn list_branches() -> (r: Vec<String>)
        ensures
            views(r@) == seq!["branch"@, "--format=%(refname:short)"@],
    {
        args2("branch", "--format=%(refname:short)")
    }

    /// `git log --oneline -n <count>`
    pub fn log(count: usize) -> (r: Vec<String>)
        ensures
            views(r@) == seq!["log"@, "--oneline"@, "-n"@, decimal(count as nat)],
    {
        let mut r = args3("log", "--oneline", "-n");
        let mut n = String::new();
        push_decimal(&mut n, count);
        let ghost before = r@;
        r.push(n);
        assert(views(r@) =~= views(before).push(decimal(count as nat)));
        r
    }

    /// `git clone <url> <path>` (run from the current directory).
    pub fn clone(url: &str, path: &str) -> (r: Vec<String>)
        ensures
            views(r@) == seq!["clone"@, url@, path@],
    {
        args3("clone", url, path)
    }

    /// The outcome of a command: its standard output when it succeeded, its
    /// error output otherwise.
    pub fn result(output: GitOutput) -> (r: Result<String, String>)
        ensures
            output.success ==> (r matches Ok(o) && o@ == output.stdout@),
            !output.success ==> (r matches Err(e) && e@ == output.stderr@),
    {
        if output.success {
            Ok(output.stdout)
        } else {
            Err(output.stderr)
        }
    }

    /// Branch names from the output of `list_branches`: the trimmed
    /// non-empty lines, or nothing when the command failed.
    pub fn parse_branches(output: &GitOutput) -> (r: Vec<String>)
        requires
            utf8_len(output.stdout@) <= usize::MAX,
        ensures
            !output.success ==> r@.len() == 0,
            output.success ==> views(r@) == branch_names(lines(output.stdout@)),
    {
        let mut r: Vec<String> = Vec::new();
        if !output.success {
            return r;
        }
        let cs = chars_of(output.stdout.as_str());
        let ranges = line_ranges(&cs);
        let ghost ls = lines(cs@);
        let mut i: usize = 0;
        while i < ranges.len()
            invariant
                i <= ranges@.len() == ls.len(),
                ls == lines(output.stdout@),
                forall|k: int|
                    0 <= k < ranges@.len() ==> {
                        &&& (#[trigger] ranges@[k]).0 <= ranges@[k].1 <= cs@.len()
                        &&& cs@.subrange(ranges@[k].0 as int, ranges@[k].1 as int) == ls[k]
                    },
                views(r@) == branch_names(ls.take(i as int)),
            decreases ranges@.len() - i,
        {
            let (a, b) = ranges[i];
            let (x, y) = trim_range(&cs, a, b);
            assert(ls.take(i + 1).drop_last() =~= ls.take(i as int));
            assert(ls.take(i + 1).last() == ls[i as int]);
            if x < y {
                let ghost before = r@;
                r.push(string_from_chars(&cs, x, y));
                assert(views(r@) =~= views(before).push(trim(ls[i as int])));
            }
            i = i + 1;
        }
        assert(ls.take(ranges@.len() as int) =~= ls);
        r
    }

    /// Commit lines from the output of `log`, or nothing when it failed.
    pub fn parse_log(output: &GitOutput) -> (r: Vec<String>)
        ensures
            !output.success ==> r@.len() == 0,
            output.success ==> views(r@) == lines(output.stdout@),
    {
        let mut r: Vec<String> = Vec::new();
        if !output.success {
            return r;
        }
        let cs = chars_of(output.stdout.as_str());
        let ranges = line_ranges(&cs);
        let ghost ls = lines(cs@);
        let mut i: usize = 0;
        while i < ranges.len()
            invariant
                i <= ranges@.len() == ls.len(),
                ls == lines(output.stdout@),
                forall|k: int|
                    0 <= k < ranges@.len() ==> {
                        &&& (#[trigger] ranges@[k]).0 <= ranges@[k].1 <= cs@.len()
                        &&& cs@.subrange(ranges@[k].0 as int, ranges@[k].1 as int) == ls[k]
                    },
                views(r@) == ls.take(i as int),
            decreases ranges@.len() - i,
        {
            let (a, b) = ranges[i];
            let ghost before = r@;
            r.push(string_from_chars(&cs, a, b));
            assert(views(r@) =~= views(before).push(ls[i as int]));
            assert(ls.take(i + 1) =~= ls.take(i as int).push(ls[i as int]));
            i = i + 1;
        }
        assert(ls.take(ranges@.len() as int) =~= ls);
        r
    }
}

/// A Git command to run in `folder` with `args`.
#[derive(Debug)]
pub struct GitRun {
    pub folder: String,
    pub args: Vec<String>,
}

/// `(path, status)` for each path of `paths` that has a status entry.
pub open spec fn with_status(paths: Seq<Seq<char>>, es: Seq<(Seq<char>, GitFileStatus)>) -> Seq<(Seq<char>, GitFileStatus)>
    decreases paths.len(),
{
    if paths.len() == 0 {
        Seq::empty()
    } else {
        let rest = with_status(paths.drop_last(), es);
        match find_status(es, paths.last()) {
            Some(st) => rest.push((paths.last(), st)),
            None => rest,
        }
    }
}

fn paths_with_status(paths: &Vec<String>, entries: &Vec<(String, GitFileStatus)>) -> (r: Vec<(String, GitFileStatus)>)
    ensures
        entry_views(r@) == with_status(views(paths@), entry_views(entries@)),
{
    let mut r: Vec<(String, GitFileStatus)> = Vec::new();
    let mut i: usize = 0;
    while i < paths.len()
        invariant
            i <= paths@.len(),
            entry_views(r@) == with_status(views(paths@.take(i as int)), entry_views(entries@)),
        decreases paths@.len() - i,
    {
        assert(views(paths@.take(i + 1)).drop_last() =~= views(paths@.take(i as int)));
        assert(views(paths@.take(i + 1)).last() == paths@[i as int]@);
        match find_entry(entries, paths[i].as_str()) {
            Some(st) => {
                let ghost before = r@;
                r.push((to_string(paths[i].as_str()), st));
                assert(entry_views(r@) =~= entry_views(before).push((paths@[i as int]@, st)));
            },
            None => {},
        }
        i = i + 1;
    }
    assert(paths@.take(paths@.len() as int) =~= paths@);
    r
}

fn copy_strings(v: &Vec<String>) -> (r: Vec<String>)
    ensures
        views(r@) == views(v@),
{
    let mut r: Vec<String> = Vec::new();
    let mut i: usize = 0;
    while i < v.len()
        invariant
            i <= v@.len(),
            views(r@) == views(v@.take(i as int)),
        decreases v@.len() - i,
    {
        let ghost before = r@;
        r.push(to_string(v[i].as_str()));
        assert(views(r@) =~= views(before).push(v@[i as int]@));
        assert(views(v@.take(i + 1)) =~= views(v@.take(i as int)).push(v@[i as int]@));
        i = i + 1;
    }
    assert(v@.take(v@.len() as int) =~= v@);
    r
}

fn copy_result(r: &Result<String, String>) -> (c: Result<String, String>)
    ensures
        r matches Ok(a) ==> (c matches Ok(b) && b@ == a@),
        r matches Err(a) ==> (c matches Err(b) && b@ == a@),
{
    match r {
        Ok(a) => Ok(to_string(a.as_str())),
        Err(a) => Err(to_string(a.as_str())),
    }
}

/// The source-control panel's Git state.
#[derive(Debug)]
pub struct GitIntegration {
    pub repo: GitRepository,
    pub enabled: bool,
    /// The folder open in the explorer.
    pub current_folder: Option<String>,
    /// Outcome of the last command run.
    pub last_result: Option<Result<String, String>>,
    pub commit_message: String,
    /// The file whose diff is shown.
    pub selected_file: Option<String>,
    pub hover_file: Option<String>,
    pub show_diff: bool,
    pub diff_content: Option<String>,
    /// `"commit"`, `"refresh"`, `"stage_all"` or `"unstage_all"`.
    pub hover_button: Option<String>,
}

/// The error returned when no folder is open.
pub open spec fn no_folder_message() -> Seq<char> {
    "未打开文件夹"@
}

impl GitIntegration {
    /// Enabled, no folder, no repository.
    pub fn new() -> (r: Self)
        ensures
            r.repo.is_empty_repo(),
            r.enabled,
            r.current_folder is None,
            r.last_result is None,
            r.commit_message@.len() == 0,
            r.selected_file is None,
            r.hover_file is None,
            !r.show_diff,
            r.diff_content is None,
            r.hover_button is None,
    {
        GitIntegration {
            repo: GitRepository::new(),
            enabled: true,
            current_folder: None,
            last_result: None,
            commit_message: String::new(),
            selected_file: None,
            hover_file: None,
            show_diff: false,
            diff_content: None,
            hover_button: None,
        }
    }

    /// The current branch.
    pub fn current_branch_name(&self) -> (r: Option<String>)
        ensures
            match self.repo.branch {
                Some(b) => r matches Some(c) && c@ == b@,
                None => r is None,
            },
    {
        match &self.repo.branch {
            Some(b) => Some(to_string(b.as_str())),
            None => None,
        }
    }

    /// Staged files with their status.
    pub fn staged_files(&self) -> (r: Vec<(String, GitFileStatus)>)
        ensures
            entry_views(r@) == with_status(
                views(self.repo.staged_files@),
                entry_views(self.repo.file_status@),
            ),
    {
        paths_with_status(&self.repo.staged_files, &self.repo.file_status)
    }

    /// Modified files not yet staged, with their status.
    pub fn unstaged_files(&self) -> (r: Vec<(String, GitFileStatus)>)
        ensures
            entry_views(r@) == with_status(
                views(self.repo.unstaged_files@),
                entry_views(self.repo.file_status@),
            ),
    {
        paths_with_status(&self.repo.unstaged_files, &self.repo.file_status)
    }

    /// Untracked files.
    pub fn untracked_files(&self) -> (r: Vec<String>)
        ensures
            views(r@) == views(self.repo.untracked_files@),
    {
        copy_strings(&self.repo.untracked_files)
    }

    /// The status of `file`.
    pub fn file_status_str(&self, file: &str) -> (r: GitFileStatus)
        ensures
            r == lookup_status(entry_views(self.repo.file_status@), file@),
    {
        self.repo.file_status(file)
    }

    /// Opens `folder`, whose repository state is `repo`; the commit message,
    /// the selected file and the diff are reset.
    pub fn detect(&mut self, folder: &str, repo: GitRepository)
        ensures
            *final(self) == (GitIntegration { current_folder: final(self).current_folder, repo: final(self).repo, commit_message: final(self).commit_message, selected_file: None, show_diff: false, diff_content: None, ..*old(self) }),
            final(self).current_folder matches Some(f) && f@ == folder@,
            final(self).repo == repo,
            final(self).commit_message@.len() == 0,
            final(self).selected_file is None,
            !final(self).show_diff,
            final(self).diff_content is None,
            final(self).enabled == old(self).enabled,
            final(self).last_result == old(self).last_result,
            final(self).hover_file == old(self).hover_file,
            final(self).hover_button == old(self).hover_button,
    {
        self.current_folder = Some(to_string(folder));
        self.repo = repo;
        self.commit_message.clear();
        self.selected_file = None;
        self.show_diff = false;
        self.diff_content = None;
    }

    /// Takes the freshly detected state of the open folder (nothing changes
    /// when no folder is open).
    pub fn refresh(&mut self, repo: GitRepository)
        ensures
            *final(self) == (GitIntegration { repo: final(self).repo, ..*old(self) }),
            old(self).current_folder is Some ==> final(self).repo == repo,
            old(self).current_folder is None ==> final(self).repo == old(self).repo,
            final(self).current_folder == old(self).current_folder,
            final(self).last_result == old(self).last_result,
            final(self).commit_message == old(self).commit_message,
    {
        if self.current_folder.is_some() {
            self.repo = repo;
        }
    }

    pub fn is_enabled(&self) -> (r: bool)
        ensures
            r == self.enabled,
    {
        self.enabled
    }

    pub fn is_repo(&self) -> (r: bool)
        ensures
            r == self.repo.is_repo,
    {
        self.repo.is_repo
    }

    /// The command to run in the open folder, or the "no folder" error.
    pub open spec fn run_in_folder(&self, r: Result<GitRun, String>, args: Seq<Seq<char>>) -> bool {
        match self.current_folder {
            Some(f) => r matches Ok(run) && run.folder@ == f@ && views(run.args@) == args,
            None => r matches Err(e) && e@ == no_folder_message(),
        }
    }

    fn in_folder(&self, args: Vec<String>) -> (r: Result<GitRun, String>)
        ensures
            self.run_in_folder(r, views(args@)),
    {
        match &self.current_folder {
            Some(f) => Ok(GitRun { folder: to_string(f.as_str()), args }),
            None => Err(to_string("未打开文件夹")),
        }
    }

    /// Stages `file`.
    pub fn stage_file(&self, file: &str) -> (r: Result<GitRun, String>)
        ensures
            self.run_in_folder(r, seq!["add"@, file@]),
    {
        self.in_folder(GitCommand::add(file))
    }

    /// Stages everything.
    pub fn stage_all(&self) -> (r: Result<GitRun, String>)
        ensures
            self.run_in_folder(r, seq!["add"@, "."@]),
    {
        self.in_folder(GitCommand::add_all())
    }

    /// Unstages `file`.
    pub fn unstage_file(&self, file: &str) -> (r: Result<GitRun, String>)
        ensures
            self.run_in_folder(r, seq!["reset"@, "HEAD"@, file@]),
    {
        self.in_folder(GitCommand::unstage(file))
    }

    /// Commits with `message`.
    pub fn commit(&self, message: &str) -> (r: Result<GitRun, String>)
        ensures
            self.run_in_folder(r, seq!["commit"@, "-m"@, message@]),
    {
        self.in_folder(GitCommand::commit(message))
    }

    /// Pushes.
    pub fn push(&self) -> (r: Result<GitRun, String>)
        ensures
            self.run_in_folder(r, seq!["push"@]),
    {
        self.in_folder(GitCommand::push())
    }

    /// Pulls.
    pub fn pull(&self) -> (r: Result<GitRun, String>)
        ensures
            self.run_in_folder(r, seq!["pull"@]),
    {
        self.in_folder(GitCommand::pull())
    }

    /// Lists the branches (nothing to run when no folder is open).
    pub fn branches(&self) -> (r: Option<GitRun>)
        ensures
            match self.current_folder {
                Some(f) => r matches Some(run) && run.folder@ == f@ && views(run.args@) == seq![
                    "branch"@,
                    "--format=%(refname:short)"@,
                ],
                None => r is None,
            },
    {
        match self.in_folder(GitCommand::list_branches()) {
            Ok(run) => Some(run),
            Err(_) => None,
        }
    }

    /// Checks out `branch`.
    pub fn switch_branch(&self, branch: &str) -> (r: Result<GitRun, String>)
        ensures
            self.run_in_folder(r, seq!["checkout"@, branch@]),
    {
        self.in_folder(GitCommand::switch_branch(branch))
    }

    /// Creates and checks out `branch`.
    pub fn create_branch(&self, branch: &str) -> (r: Result<GitRun, String>)
        ensures
            self.run_in_folder(r, seq!["checkout"@, "-b"@, branch@]),
    {
        self.in_folder(GitCommand::create_branch(branch))
    }

    /// Clones `url` into `path`, from the current directory.
    pub fn clone_repo(url: &str, path: &str) -> (r: GitRun)
        ensures
            r.folder@ == "."@,
            views(r.args@) == seq!["clone"@, url@, path@],
    {
        GitRun { folder: to_string("."), args: GitCommand::clone(url, path) }
    }

    /// After a command ran: takes the refreshed repository state, records the
    /// outcome as the last result, and returns it.
    pub fn finish(&mut self, result: Result<String, String>, repo: GitRepository) -> (r: Result<String, String>)
        ensures
            *final(self) == (GitIntegration { repo: final(self).repo, last_result: final(self).last_result, ..*old(self) }),
            r == result,
            old(self).current_folder is Some ==> final(self).repo == repo,
            old(self).current_folder is None ==> final(self).repo == old(self).repo,
            final(self).last_result matches Some(l) && match (l, result) {
                (Ok(a), Ok(b)) => a@ == b@,
                (Err(a), Err(b)) => a@ == b@,
                _ => false,
            },
            final(self).current_folder == old(self).current_folder,
            final(self).commit_message == old(self).commit_message,
    {
        self.refresh(repo);
        self.last_result = Some(copy_result(&result));
        result
    }
}

/// Where a click in the source-control panel landed, as located by the
/// caller: a button, or a row of one of the three file lists (on its
/// stage/unstage icon or elsewhere on the row).
#[derive(Clone, Copy, Debug, PartialEq, Eq, Structural)]
pub enum GitPanelTarget {
    CommitButton,
    RefreshButton,
    Staged { index: usize, on_icon: bool },
    Unstaged { index: usize, on_icon: bool },
    Untracked { index: usize, on_icon: bool },
}

/// What a click in the source-control panel leads to.
#[derive(Debug)]
pub enum GitPanelOutcome {
    /// The click was not on anything (or there is no repository).
    NotHandled,
    /// The click was taken; nothing to run.
    Handled,
    /// Run this command, then refresh.
    Run(GitRun),
    /// Detect the repository state again.
    Refresh,
    /// Run this diff and show its output.
    ShowDiff(GitRun),
}

/// The text shown for a diff: the output of `git diff`, or a note that
/// `file` has no changes.
pub open spec fn diff_view(stdout: Seq<char>, file: Seq<char>) -> Seq<char> {
    if stdout.len() == 0 {
        "// 无差异: "@ + file + seq!['\n']
    } else {
        stdout
    }
}

/// The text shown for the diff of `file` whose `git diff` printed `stdout`.
pub fn diff_text(stdout: &str, file: &str) -> (r: String)
    ensures
        r@ == diff_view(stdout@, file@),
{
    if stdout.is_empty() {
        let mut r = to_string("// 无差异: ");
        push_str(&mut r, file);
        r.push('\n');
        r
    } else {
        to_string(stdout)
    }
}

impl GitIntegration {
    /// The staged files with their status.
    pub open spec fn staged_view(&self) -> Seq<(Seq<char>, GitFileStatus)> {
        with_status(views(self.repo.staged_files@), entry_views(self.repo.file_status@))
    }

    /// The unstaged files with their status.
    pub open spec fn unstaged_view(&self) -> Seq<(Seq<char>, GitFileStatus)> {
        with_status(views(self.repo.unstaged_files@), entry_views(self.repo.file_status@))
    }

    /// `git diff` of `file` (of its staged change with `staged`), run in the
    /// open folder; nothing when no folder is open.
    pub fn diff(&self, file: &str, staged: bool) -> (r: Option<GitRun>)
        ensures
            match self.current_folder {
                Some(f) => r matches Some(run) && run.folder@ == f@ && views(run.args@) == (if staged {
                    seq!["diff"@, "--cached"@, "--"@, file@]
                } else {
                    seq!["diff"@, "--"@, file@]
                }),
                None => r is None,
            },
    {
        let args = if staged {
            let mut a = args3("diff", "--cached", "--");
            let ghost before = a@;
            a.push(to_string(file));
            assert(views(a@) =~= views(before).push(file@));
            a
        } else {
            args3("diff", "--", file)
        };
        match self.in_folder(args) {
            Ok(run) => Some(run),
            Err(_) => None,
        }
    }

    /// Handles a click in the source-control panel. Without a repository
    /// nothing happens. The commit button commits the message, if there is
    /// one, and clears it; the refresh button asks for a refresh. On a file
    /// row the icon stages (or, for staged files, unstages) the file;
    /// elsewhere the row selects the file and, but for untracked files,
    /// shows its diff.
    pub fn panel_click(&mut self, target: GitPanelTarget) -> (r: GitPanelOutcome)
        ensures
            *final(self) == (GitIntegration { commit_message: final(self).commit_message, selected_file: final(self).selected_file, ..*old(self) }),
            !old(self).repo.is_repo ==> r is NotHandled && *final(self) == *old(self),
            final(self).repo == old(self).repo,
            final(self).current_folder == old(self).current_folder,
            old(self).repo.is_repo ==> match target {
                GitPanelTarget::CommitButton => if old(self).commit_message@.len() > 0 {
                    &&& final(self).commit_message@.len() == 0
                    &&& match old(self).current_folder {
                        Some(f) => r matches GitPanelOutcome::Run(run) && run.folder@ == f@
                            && views(run.args@) == seq!["commit"@, "-m"@, old(self).commit_message@],
                        None => r is Handled,
                    }
                    &&& final(self).selected_file == old(self).selected_file
                } else {
                    r is Handled && final(self).commit_message == old(self).commit_message
                        && final(self).selected_file == old(self).selected_file
                },
                GitPanelTarget::RefreshButton => r is Refresh && final(self).commit_message
                    == old(self).commit_message && final(self).selected_file == old(self).selected_file,
                GitPanelTarget::Staged { index, on_icon } => {
                    let files = old(self).staged_view();
                    &&& final(self).commit_message == old(self).commit_message
                    &&& if index >= files.len() {
                        r is NotHandled && final(self).selected_file == old(self).selected_file
                    } else if on_icon {
                        final(self).selected_file == old(self).selected_file && match old(
                            self,
                        ).current_folder {
                            Some(f) => r matches GitPanelOutcome::Run(run) && run.folder@ == f@
                                && views(run.args@) == seq!["reset"@, "HEAD"@, files[index as int].0],
                            None => r is Handled,
                        }
                    } else {
                        &&& final(self).selected_file matches Some(s) && s@ == files[index as int].0
                        &&& match old(self).current_folder {
                            Some(f) => r matches GitPanelOutcome::ShowDiff(run) && run.folder@ == f@
                                && views(run.args@) == seq![
                                "diff"@,
                                "--cached"@,
                                "--"@,
                                files[index as int].0,
                            ],
                            None => r is Handled,
                        }
                    }
                },
                GitPanelTarget::Unstaged { index, on_icon } => {
                    let files = old(self).unstaged_view();
                    &&& final(self).commit_message == old(self).commit_message
                    &&& if index >= files.len() {
                        r is NotHandled && final(self).selected_file == old(self).selected_file
                    } else if on_icon {
                        final(self).selected_file == old(self).selected_file && match old(
                            self,
                        ).current_folder {
                            Some(f) => r matches GitPanelOutcome::Run(run) && run.folder@ == f@
                                && views(run.args@) == seq!["add"@, files[index as int].0],
                            None => r is Handled,
                        }
                    } else {
                        &&& final(self).selected_file matches Some(s) && s@ == files[index as int].0
                        &&& match old(self).current_folder {
                            Some(f) => r matches GitPanelOutcome::ShowDiff(run) && run.folder@ == f@
                                && views(run.args@) == seq!["diff"@, "--"@, files[index as int].0],
                            None => r is Handled,
                        }
                    }
                },
                GitPanelTarget::Untracked { index, on_icon } => {
                    let files = views(old(self).repo.untracked_files@);
                    &&& final(self).commit_message == old(self).commit_message
                    &&& if index >= files.len() {
                        r is NotHandled && final(self).selected_file == old(self).selected_file
                    } else if on_icon {
                        final(self).selected_file == old(self).selected_file && match old(
                            self,
                        ).current_folder {
                            Some(f) => r matches GitPanelOutcome::Run(run) && run.folder@ == f@
                                && views(run.args@) == seq!["add"@, files[index as int]],
                            None => r is Handled,
                        }
                    } else {
                        r is Handled && (final(self).selected_file matches Some(s) && s@
                            == files[index as int])
                    }
                },
            },
    {
        if !self.repo.is_repo {
            return GitPanelOutcome::NotHandled;
        }
        match target {
            GitPanelTarget::CommitButton => {
                if self.commit_message.as_str().is_empty() {
                    return GitPanelOutcome::Handled;
                }
                let r = self.commit(self.commit_message.as_str());
                self.commit_message.clear();
                match r {
                    Ok(run) => GitPanelOutcome::Run(run),
                    Err(_) => GitPanelOutcome::Handled,
                }
            },
            GitPanelTarget::RefreshButton => GitPanelOutcome::Refresh,
            GitPanelTarget::Staged { index, on_icon } => {
                let files = self.staged_files();
                if index >= files.len() {
                    return GitPanelOutcome::NotHandled;
                }
                let file = files[index].0.as_str();
                assert(file@ == self.staged_view()[index as int].0) by {
                    assert(entry_views(files@)[index as int] == (files@[index as int].0@, files@[index as int].1));
                }
                if on_icon {
                    match self.unstage_file(file) {
                        Ok(run) => GitPanelOutcome::Run(run),
                        Err(_) => GitPanelOutcome::Handled,
                    }
                } else {
                    self.selected_file = Some(to_string(file));
                    match self.diff(file, true) {
                        Some(run) => GitPanelOutcome::ShowDiff(run),
                        None => GitPanelOutcome::Handled,
                    }
                }
            },
            GitPanelTarget::Unstaged { index, on_icon } => {
                let files = self.unstaged_files();
                if index >= files.len() {
                    return GitPanelOutcome::NotHandled;
                }
                let file = files[index].0.as_str();
                assert(file@ == self.unstaged_view()[index as int].0) by {
                    assert(entry_views(files@)[index as int] == (files@[index as int].0@, files@[index as int].1));
                }
                if on_icon {
                    match self.stage_file(file) {
                        Ok(run) => GitPanelOutcome::Run(run),
                        Err(_) => GitPanelOutcome::Handled,
                    }
                } else {
                    self.selected_file = Some(to_string(file));
                    match self.diff(file, false) {
                        Some(run) => GitPanelOutcome::ShowDiff(run),
                        None => GitPanelOutcome::Handled,
                    }
                }
            },
            GitPanelTarget::Untracked { index, on_icon } => {
                if index >= self.repo.untracked_files.len() {
                    return GitPanelOutcome::NotHandled;
                }
                let file = self.repo.untracked_files[index].as_str();
                assert(file@ == views(self.repo.untracked_files@)[index as int]);
                if on_icon {
                    match self.stage_file(file) {
                        Ok(run) => GitPanelOutcome::Run(run),
                        Err(_) => GitPanelOutcome::Handled,
                    }
                } else {
                    self.selected_file = Some(to_string(file));
                    GitPanelOutcome::Handled
                }
            },
        }
    }
}

/// What `detect` and `refresh` yield depends on what was read alone: two
/// results for the same reads hold the same state, so refreshing again with
/// unchanged reads changes nothing, whatever the state was before.
pub proof fn lemma_refresh_is_idempotent(
    a: GitRepository,
    b: GitRepository,
    git_dir_exists: bool,
    head: Option<Seq<char>>,
    status: Option<Seq<char>>,
)
    requires
        a.detected(git_dir_exists, head, status),
        b.detected(git_dir_exists, head, status),
    ensures
        a.same_state(&b),
{
    if !git_dir_exists {
        assert(entry_views(a.file_status@) =~= entry_views(b.file_status@));
        assert(views(a.staged_files@) =~= views(b.staged_files@));
        assert(views(a.unstaged_files@) =~= views(b.unstaged_files@));
        assert(views(a.untracked_files@) =~= views(b.untracked_files@));
    }
}

/// The porcelain letter pairs and what they mean, as `git status` lists
/// them: `A` in the index (work tree clean, modified or deleted) is an added
/// file; `M` in the index (work tree clean or modified), or a clean index with
/// `M` in the work tree, a modified one; `D` in the index (work tree clean or
/// deleted), or a clean index with `D` in the work tree, a deleted one; `R`
/// and `C` in the index a renamed and a copied one; `??` an untracked one;
/// `U` in either column (unless the index says `R` or `C`) a conflict; and
/// every other pair (two blanks, `!!`, `MD`, ...) no status.
pub proof fn lemma_status_letters()
    ensures
        forall|y: char|
            y == ' ' || y == 'M' || y == 'D' ==> #[trigger] status_of_codes('A', y)
                == GitFileStatus::Added,
        forall|y: char|
            y == ' ' || y == 'M' ==> #[trigger] status_of_codes('M', y) == GitFileStatus::Modified,
        status_of_codes(' ', 'M') == GitFileStatus::Modified,
        forall|y: char|
            y == ' ' || y == 'D' ==> #[trigger] status_of_codes('D', y) == GitFileStatus::Deleted,
        status_of_codes(' ', 'D') == GitFileStatus::Deleted,
        forall|y: char| #[trigger] status_of_codes('R', y) == GitFileStatus::Renamed,
        forall|y: char| #[trigger] status_of_codes('C', y) == GitFileStatus::Copied,
        status_of_codes('?', '?') == GitFileStatus::Untracked,
        forall|x: char, y: char|
            (x == 'U' || y == 'U') && x != 'R' && x != 'C' ==> #[trigger] status_of_codes(x, y)
                == GitFileStatus::Conflict,
        status_of_codes(' ', ' ') == GitFileStatus::Unmodified,
        status_of_codes('!', '!') == GitFileStatus::Unmodified,
        status_of_codes('M', 'D') == GitFileStatus::Unmodified,
        forall|x: char, y: char|
            {
                ||| x == ' ' && y != 'M' && y != 'D' && y != 'U'
                ||| x == 'A' && y != ' ' && y != 'M' && y != 'D' && y != 'U'
                ||| x == 'M' && y != ' ' && y != 'M' && y != 'U'
                ||| x == 'D' && y != ' ' && y != 'D' && y != 'U'
                ||| x == '?' && y != '?' && y != 'U'
                ||| x != ' ' && x != 'A' && x != 'M' && x != 'D' && x != 'R' && x != 'C' && x
                    != '?' && x != 'U' && y != 'U'
            } ==> #[trigger] status_of_codes(x, y) == GitFileStatus::Unmodified,
{
}

} // verus!
