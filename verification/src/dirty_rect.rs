//! Partial redraw decisions: the kinds of dirty screen regions, which parts
//! of the window a set of dirty regions forces to redraw, and the render
//! command chosen from what changed since the last frame.
use vstd::prelude::*;

verus! {

/// The kind of screen region a dirty rectangle belongs to.
#[derive(Clone, Copy, Debug, PartialEq, Eq, Structural)]
pub enum DirtyRegionType {
    TitleBar,
    MenuBar,
    ActivityBar,
    Sidebar,
    EditorContent,
    TabBar,
    StatusBar,
    RightPanel,
    BottomPanel,
    FindReplace,
    Dialog,
    FullWindow,
}

/// A part of the window that is drawn as a whole.
#[derive(Clone, Copy, Debug, PartialEq, Eq, Structural)]
pub enum ScreenPart {
    Editor,
    Sidebar,
    StatusBar,
    RightPanel,
    BottomPanel,
    TitleBar,
}

/// Whether a dirty region of kind `t` forces `part` to redraw.
pub open spec fn redraws(t: DirtyRegionType, part: ScreenPart) -> bool {
    t == DirtyRegionType::FullWindow || match part {
        ScreenPart::Editor => t == DirtyRegionType::EditorContent || t == DirtyRegionType::TabBar
            || t == DirtyRegionType::FindReplace,
        ScreenPart::Sidebar => t == DirtyRegionType::Sidebar || t == DirtyRegionType::ActivityBar,
        ScreenPart::StatusBar => t == DirtyRegionType::StatusBar,
        ScreenPart::RightPanel => t == DirtyRegionType::RightPanel,
        ScreenPart::BottomPanel => t == DirtyRegionType::BottomPanel,
        ScreenPart::TitleBar => t == DirtyRegionType::TitleBar || t == DirtyRegionType::MenuBar,
    }
}

/// Whether a dirty region of kind `t` forces `part` to redraw.
pub fn region_redraws(t: DirtyRegionType, part: ScreenPart) -> (r: bool)
    ensures
        r == redraws(t, part),
{
    if t == DirtyRegionType::FullWindow {
        return true;
    }
    match part {
        ScreenPart::Editor => t == DirtyRegionType::EditorContent || t == DirtyRegionType::TabBar
            || t == DirtyRegionType::FindReplace,
        ScreenPart::Sidebar => t == DirtyRegionType::Sidebar || t == DirtyRegionType::ActivityBar,
        ScreenPart::StatusBar => t == DirtyRegionType::StatusBar,
        ScreenPart::RightPanel => t == DirtyRegionType::RightPanel,
        ScreenPart::BottomPanel => t == DirtyRegionType::BottomPanel,
        ScreenPart::TitleBar => t == DirtyRegionType::TitleBar || t == DirtyRegionType::MenuBar,
    }
}

/// Whether `part` must be redrawn, given a pending full-window redraw and
/// the kinds of the dirty rectangles.
pub fn part_needs_redraw(full_window: bool, kinds: &[DirtyRegionType], part: ScreenPart) -> (r:
    bool)
    ensures
        r == (full_window || exists|i: int| 0 <= i < kinds@.len() && redraws(#[trigger] kinds@[i], part)),
{
    if full_window {
        return true;
    }
    let mut i: usize = 0;
    while i < kinds.len()
        invariant
            i <= kinds@.len(),
            forall|k: int| 0 <= k < i ==> !redraws(#[trigger] kinds@[k], part),
        decreases kinds@.len() - i,
    {
        if region_redraws(kinds[i], part) {
            return true;
        }
        i = i + 1;
    }
    false
}

/// Whether a region of kind `kind` must be redrawn: always during a
/// full-window redraw, else when a dirty rectangle of that kind is pending.
pub fn kind_needs_redraw(full_window: bool, kinds: &[DirtyRegionType], kind: DirtyRegionType) -> (r:
    bool)
    ensures
        r == (full_window || kinds@.contains(kind)),
{
    if full_window {
        return true;
    }
    let mut i: usize = 0;
    while i < kinds.len()
        invariant
            i <= kinds@.len(),
            forall|k: int| 0 <= k < i ==> kinds@[k] != kind,
        decreases kinds@.len() - i,
    {
        if kinds[i] == kind {
            assert(kinds@[i as int] == kind);
            return true;
        }
        i = i + 1;
    }
    false
}

/// What to redraw for the next frame.
#[derive(Clone, Copy, Debug, PartialEq, Eq, Structural)]
pub enum RenderCommand {
    EditorOnly,
    EditorAndStatus,
    SidebarOnly,
    RightPanelOnly,
    BottomPanelOnly,
    FullRedraw,
}

/// The render command for a frame: an open dialog redraws everything;
/// edits, scrolling, cursor or selection moves redraw the editor and the
/// status bar; otherwise the first changed panel among sidebar, right panel
/// and bottom panel alone; a changed status redraws the editor and the
/// status bar; with nothing changed everything is redrawn.
pub open spec fn render_command(
    cursor_moved: bool,
    selection_changed: bool,
    text_edited: bool,
    scroll_changed: bool,
    sidebar_changed: bool,
    right_panel_changed: bool,
    bottom_panel_changed: bool,
    status_changed: bool,
    dialog_visible: bool,
) -> RenderCommand {
    if dialog_visible {
        RenderCommand::FullRedraw
    } else if scroll_changed || text_edited || cursor_moved || selection_changed {
        RenderCommand::EditorAndStatus
    } else if sidebar_changed {
        RenderCommand::SidebarOnly
    } else if right_panel_changed {
        RenderCommand::RightPanelOnly
    } else if bottom_panel_changed {
        RenderCommand::BottomPanelOnly
    } else if status_changed {
        RenderCommand::EditorAndStatus
    } else {
        RenderCommand::FullRedraw
    }
}

impl RenderCommand {
    /// The render command for what changed since the last frame.
    pub fn infer_from_state(
        cursor_moved: bool,
        selection_changed: bool,
        text_edited: bool,
        scroll_changed: bool,
        sidebar_changed: bool,
        right_panel_changed: bool,
        bottom_panel_changed: bool,
        status_changed: bool,
        dialog_visible: bool,
    ) -> (r: Self)
        ensures
            r == render_command(
                cursor_moved,
                selection_changed,
                text_edited,
                scroll_changed,
                sidebar_changed,
                right_panel_changed,
                bottom_panel_changed,
                status_changed,
                dialog_visible,
            ),
    {
        if dialog_visible {
            return RenderCommand::FullRedraw;
        }
        if scroll_changed || text_edited {
            return RenderCommand::EditorAndStatus;
        }
        if cursor_moved || selection_changed {
            return RenderCommand::EditorAndStatus;
        }
        if sidebar_changed {
            return RenderCommand::SidebarOnly;
        }
        if right_panel_changed {
            return RenderCommand::RightPanelOnly;
        }
        if bottom_panel_changed {
            return RenderCommand::BottomPanelOnly;
        }
        if status_changed {
            return RenderCommand::EditorAndStatus;
        }
        RenderCommand::FullRedraw
    }
}

/// A full-window region forces every part of the window to redraw.
pub proof fn lemma_full_window_redraws_all(part: ScreenPart)
    ensures
        redraws(DirtyRegionType::FullWindow, part),
{
}

/// An open dialog always means a full redraw, whatever else changed.
pub proof fn lemma_dialog_forces_full_redraw(
    cursor_moved: bool,
    selection_changed: bool,
    text_edited: bool,
    scroll_changed: bool,
    sidebar_changed: bool,
    right_panel_changed: bool,
    bottom_panel_changed: bool,
    status_changed: bool,
)
    ensures
        render_command(
            cursor_moved,
            selection_changed,
            text_edited,
            scroll_changed,
            sidebar_changed,
            right_panel_changed,
            bottom_panel_changed,
            status_changed,
            true,
        ) == RenderCommand::FullRedraw,
{
}

} // verus!
