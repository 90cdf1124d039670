//! The status bar: six labelled sections (status message, diagnostics,
//! cursor position, encoding, language, Git branch).
use vstd::prelude::*;
use crate::text::{decimal, push_decimal, push_str, to_string};

verus! {

/// One section of the status bar.
#[derive(Debug)]
pub struct StatusBarSection {
    pub label: String,
    pub clickable: bool,
}

/// The status bar.
#[derive(Debug)]
pub struct StatusBar {
    pub sections: Vec<StatusBarSection>,
    pub hover_index: Option<usize>,
}

/// The labels of `ss`.
pub open spec fn labels(ss: Seq<StatusBarSection>) -> Seq<Seq<char>> {
    ss.map_values(|s: StatusBarSection| s.label@)
}

/// Which sections of `ss` react to clicks.
pub open spec fn clickables(ss: Seq<StatusBarSection>) -> Seq<bool> {
    ss.map_values(|s: StatusBarSection| s.clickable)
}

/// `ls` with entry `i` replaced by `t`, when there is such an entry.
pub open spec fn set_label(ls: Seq<Seq<char>>, i: int, t: Seq<char>) -> Seq<Seq<char>> {
    if 0 <= i < ls.len() {
        ls.update(i, t)
    } else {
        ls
    }
}

/// The label of the branch section.
pub open spec fn branch_label(branch: Option<Seq<char>>) -> Seq<char> {
    match branch {
        Some(b) => "🌿 "@ + b,
        None => Seq::empty(),
    }
}

/// The label of the cursor section, with 1-based line and column.
pub open spec fn position_label(line: nat, col: nat) -> Seq<char> {
    "Ln "@ + decimal(line + 1) + ", Col "@ + decimal(col + 1)
}

fn section(label: &str, clickable: bool) -> (r: StatusBarSection)
    ensures
        r.label@ == label@,
        r.clickable == clickable,
{
    StatusBarSection { label: to_string(label), clickable }
}

impl StatusBar {
    /// The initial sections: `main`, `0 错误 0 警告`, `Ln 1, Col 1`, `UTF-8`,
    /// `Plain Text` and an empty branch section; only the cursor section
    /// ignores clicks.
    pub fn new() -> (r: Self)
        ensures
            labels(r.sections@) == seq![
                "main"@,
                "0 错误 0 警告"@,
                "Ln 1, Col 1"@,
                "UTF-8"@,
                "Plain Text"@,
                Seq::<char>::empty(),
            ],
            clickables(r.sections@) == seq![true, true, false, true, true, true],
            r.hover_index is None,
    {
        let mut sections = Vec::new();
        sections.push(section("main", true));
        sections.push(section("0 错误 0 警告", true));
        sections.push(section("Ln 1, Col 1", false));
        sections.push(section("UTF-8", true));
        sections.push(section("Plain Text", true));
        sections.push(StatusBarSection { label: String::new(), clickable: true });
        let r = StatusBar { sections, hover_index: None };
        assert(labels(r.sections@) =~= seq![
            "main"@,
            "0 错误 0 警告"@,
            "Ln 1, Col 1"@,
            "UTF-8"@,
            "Plain Text"@,
            Seq::<char>::empty(),
        ]);
        assert(clickables(r.sections@) =~= seq![true, true, false, true, true, true]);
        r
    }

    /// Replaces the label of section `i`, if there is one.
    fn set_section_label(&mut self, i: usize, label: String)
        ensures
            labels(final(self).sections@) == set_label(labels(old(self).sections@), i as int, label@),
            clickables(final(self).sections@) == clickables(old(self).sections@),
            final(self).hover_index == old(self).hover_index,
    {
        if i < self.sections.len() {
            let clickable = self.sections[i].clickable;
            self.sections.set(i, StatusBarSection { label, clickable });
            assert(labels(self.sections@) =~= labels(old(self).sections@).update(i as int, label@));
            assert(clickables(self.sections@) =~= clickables(old(self).sections@));
        }
    }

    /// Shows the Git branch (`🌿 <branch>`) in the last section, or clears it.
    pub fn update_git_branch(&mut self, branch: Option<&str>)
        ensures
            labels(final(self).sections@) == set_label(
                labels(old(self).sections@),
                5,
                branch_label(
                    match branch {
                        Some(b) => Some(b@),
                        None => None,
                    },
                ),
            ),
            clickables(final(self).sections@) == clickables(old(self).sections@),
            final(self).hover_index == old(self).hover_index,
    {
        let label = match branch {
            Some(b) => {
                let mut l = to_string("🌿 ");
                push_str(&mut l, b);
                l
            },
            None => String::new(),
        };
        self.set_section_label(5, label);
    }

    /// Shows the cursor position `Ln <line+1>, Col <col+1>` in section 2.
    pub fn update_cursor_position(&mut self, line: usize, col: usize)
        requires
            line < usize::MAX,
            col < usize::MAX,
        ensures
            labels(final(self).sections@) == set_label(
                labels(old(self).sections@),
                2,
                position_label(line as nat, col as nat),
            ),
            clickables(final(self).sections@) == clickables(old(self).sections@),
            final(self).hover_index == old(self).hover_index,
    {
        let mut l = to_string("Ln ");
        push_decimal(&mut l, line + 1);
        push_str(&mut l, ", Col ");
        push_decimal(&mut l, col + 1);
        self.set_section_label(2, l);
    }

    /// Shows the language mode in section 4.
    pub fn update_language(&mut self, lang: &str)
        ensures
            labels(final(self).sections@) == set_label(labels(old(self).sections@), 4, lang@),
            clickables(final(self).sections@) == clickables(old(self).sections@),
            final(self).hover_index == old(self).hover_index,
    {
        self.set_section_label(4, to_string(lang));
    }

    /// Shows a status message in section 0.
    pub fn update_status(&mut self, message: &str)
        ensures
            labels(final(self).sections@) == set_label(labels(old(self).sections@), 0, message@),
            clickables(final(self).sections@) == clickables(old(self).sections@),
            final(self).hover_index == old(self).hover_index,
    {
        self.set_section_label(0, to_string(message));
    }
}

} // verus!
