//! Decisions of the main window's message handler: what a key press does,
//! where a typed character goes, and which resize zone of the borderless
//! window the mouse is over. Performing the actions is left to the caller.
use vstd::prelude::*;
use crate::editor::Direction;

verus! {

/// Win32 virtual-key codes used by the editor.
pub const VK_BACK: u16 = 0x08;
pub const VK_TAB: u16 = 0x09;
pub const VK_RETURN: u16 = 0x0D;
pub const VK_ESCAPE: u16 = 0x1B;
pub const VK_PRIOR: u16 = 0x21;
pub const VK_NEXT: u16 = 0x22;
pub const VK_END: u16 = 0x23;
pub const VK_HOME: u16 = 0x24;
pub const VK_LEFT: u16 = 0x25;
pub const VK_UP: u16 = 0x26;
pub const VK_RIGHT: u16 = 0x27;
pub const VK_DOWN: u16 = 0x28;
pub const VK_DELETE: u16 = 0x2E;
pub const VK_1: u16 = 0x31;
pub const VK_8: u16 = 0x38;
pub const VK_9: u16 = 0x39;
pub const VK_A: u16 = 0x41;
pub const VK_B: u16 = 0x42;
pub const VK_C: u16 = 0x43;
pub const VK_G: u16 = 0x47;
pub const VK_K: u16 = 0x4B;
pub const VK_N: u16 = 0x4E;
pub const VK_O: u16 = 0x4F;
pub const VK_P: u16 = 0x50;
pub const VK_S: u16 = 0x53;
pub const VK_V: u16 = 0x56;
pub const VK_W: u16 = 0x57;
pub const VK_X: u16 = 0x58;
pub const VK_Y: u16 = 0x59;
pub const VK_Z: u16 = 0x5A;
pub const VK_NUMPAD1: u16 = 0x61;
pub const VK_NUMPAD8: u16 = 0x68;
pub const VK_NUMPAD9: u16 = 0x69;
pub const VK_F4: u16 = 0x73;

/// What a key press asks the editor to do.
#[derive(Clone, Copy, Debug, PartialEq, Eq, Structural)]
pub enum KeyAction {
    Ignore,
    /// Command palette: close it.
    PaletteHide,
    /// Command palette: run the selected command, then close it.
    PaletteRun,
    PaletteUp,
    PaletteDown,
    PaletteBackspace,
    /// Ask for a file and open it.
    OpenFile,
    /// Ask for a folder and open it.
    OpenFolder,
    /// Ask for a path (titled "另存为") and save there.
    SaveAs,
    /// Ask for a path (titled "保存文件") for a text without one, and save there.
    SaveNew,
    /// Save to the text's own path.
    Save,
    NewFile,
    ToggleSidebar,
    TogglePalette,
    /// Open the palette prefilled with `>` (commands) or `:` (line).
    ShowPalette { commands: bool },
    Copy,
    Cut,
    Paste,
    SelectAll,
    Undo,
    Redo,
    NextTab,
    PrevTab,
    CloseTab,
    GotoTab(usize),
    /// Terminal: echo and send the input line.
    TerminalSubmit,
    /// Terminal: remove the last input character.
    TerminalBackspace,
    /// Insert a line break, replacing the selection if there is one.
    NewLine { replace_selection: bool },
    DeleteSelection,
    DeleteBackward,
    DeleteForward,
    Move { dir: Direction, extend: bool },
    PageUp,
    PageDown,
    /// Insert a tab character, replacing the selection if there is one.
    InsertTab { replace_selection: bool },
}

/// The action of a key with Ctrl held.
pub open spec fn ctrl_action(vk: u16, shift: bool, has_file_path: bool, tab_count: usize) -> KeyAction {
    if vk == VK_O {
        KeyAction::OpenFile
    } else if vk == VK_K {
        KeyAction::OpenFolder
    } else if vk == VK_S {
        if shift {
            KeyAction::SaveAs
        } else if has_file_path {
            KeyAction::Save
        } else {
            KeyAction::SaveNew
        }
    } else if vk == VK_N {
        KeyAction::NewFile
    } else if vk == VK_B {
        KeyAction::ToggleSidebar
    } else if vk == VK_P {
        if shift {
            KeyAction::TogglePalette
        } else {
            KeyAction::Ignore
        }
    } else if vk == VK_G {
        KeyAction::ShowPalette { commands: shift }
    } else if vk == VK_C {
        KeyAction::Copy
    } else if vk == VK_X {
        KeyAction::Cut
    } else if vk == VK_V {
        KeyAction::Paste
    } else if vk == VK_A {
        KeyAction::SelectAll
    } else if vk == VK_Z {
        if shift {
            KeyAction::Redo
        } else {
            KeyAction::Undo
        }
    } else if vk == VK_Y {
        KeyAction::Redo
    } else if vk == VK_TAB {
        if shift {
            KeyAction::PrevTab
        } else {
            KeyAction::NextTab
        }
    } else if vk == VK_W || vk == VK_F4 {
        KeyAction::CloseTab
    } else if VK_1 <= vk <= VK_8 {
        KeyAction::GotoTab((vk - VK_1 + 1) as usize)
    } else if VK_NUMPAD1 <= vk <= VK_NUMPAD8 {
        KeyAction::GotoTab((vk - VK_NUMPAD1 + 1) as usize)
    } else if vk == VK_9 || vk == VK_NUMPAD9 {
        KeyAction::GotoTab(tab_count)
    } else {
        KeyAction::Ignore
    }
}

/// The action of a key without Ctrl.
pub open spec fn plain_action(vk: u16, shift: bool, terminal_active: bool, has_selection: bool) -> KeyAction {
    if vk == VK_RETURN {
        if terminal_active {
            KeyAction::TerminalSubmit
        } else {
            KeyAction::NewLine { replace_selection: has_selection }
        }
    } else if vk == VK_BACK {
        if terminal_active {
            KeyAction::TerminalBackspace
        } else if has_selection {
            KeyAction::DeleteSelection
        } else {
            KeyAction::DeleteBackward
        }
    } else if vk == VK_DELETE {
        if has_selection {
            KeyAction::DeleteSelection
        } else {
            KeyAction::DeleteForward
        }
    } else if vk == VK_LEFT {
        KeyAction::Move { dir: Direction::Left, extend: shift }
    } else if vk == VK_RIGHT {
        KeyAction::Move { dir: Direction::Right, extend: shift }
    } else if vk == VK_UP {
        KeyAction::Move { dir: Direction::Up, extend: shift }
    } else if vk == VK_DOWN {
        KeyAction::Move { dir: Direction::Down, extend: shift }
    } else if vk == VK_HOME {
        KeyAction::Move { dir: Direction::Home, extend: shift }
    } else if vk == VK_END {
        KeyAction::Move { dir: Direction::End, extend: shift }
    } else if vk == VK_PRIOR {
        KeyAction::PageUp
    } else if vk == VK_NEXT {
        KeyAction::PageDown
    } else if vk == VK_TAB {
        KeyAction::InsertTab { replace_selection: has_selection }
    } else {
        KeyAction::Ignore
    }
}

/// The action of a key press: the open command palette takes its own keys
/// first; then Ctrl shortcuts; then editing and movement keys.
pub open spec fn key_action_of(
    vk: u16,
    ctrl: bool,
    shift: bool,
    palette_active: bool,
    terminal_active: bool,
    has_file_path: bool,
    has_selection: bool,
    tab_count: usize,
) -> KeyAction {
    if palette_active && vk == VK_ESCAPE {
        KeyAction::PaletteHide
    } else if palette_active && vk == VK_RETURN {
        KeyAction::PaletteRun
    } else if palette_active && vk == VK_UP {
        KeyAction::PaletteUp
    } else if palette_active && vk == VK_DOWN {
        KeyAction::PaletteDown
    } else if palette_active && vk == VK_BACK {
        KeyAction::PaletteBackspace
    } else if ctrl {
        ctrl_action(vk, shift, has_file_path, tab_count)
    } else {
        plain_action(vk, shift, terminal_active, has_selection)
    }
}

fn ctrl_key_action(vk: u16, shift: bool, has_file_path: bool, tab_count: usize) -> (r: KeyAction)
    ensures
        r == ctrl_action(vk, shift, has_file_path, tab_count),
{
    if vk == VK_O {
        KeyAction::OpenFile
    } else if vk == VK_K {
        KeyAction::OpenFolder
    } else if vk == VK_S {
        if shift {
            KeyAction::SaveAs
        } else if has_file_path {
            KeyAction::Save
        } else {
            KeyAction::SaveNew
        }
    } else if vk == VK_N {
        KeyAction::NewFile
    } else if vk == VK_B {
        KeyAction::ToggleSidebar
    } else if vk == VK_P {
        if shift {
            KeyAction::TogglePalette
        } else {
            KeyAction::Ignore
        }
    } else if vk == VK_G {
        KeyAction::ShowPalette { commands: shift }
    } else if vk == VK_C {
        KeyAction::Copy
    } else if vk == VK_X {
        KeyAction::Cut
    } else if vk == VK_V {
        KeyAction::Paste
    } else if vk == VK_A {
        KeyAction::SelectAll
    } else if vk == VK_Z {
        if shift {
            KeyAction::Redo
        } else {
            KeyAction::Undo
        }
    } else if vk == VK_Y {
        KeyAction::Redo
    } else if vk == VK_TAB {
        if shift {
            KeyAction::PrevTab
        } else {
            KeyAction::NextTab
        }
    } else if vk == VK_W || vk == VK_F4 {
        KeyAction::CloseTab
    } else if VK_1 <= vk && vk <= VK_8 {
        KeyAction::GotoTab((vk - VK_1 + 1) as usize)
    } else if VK_NUMPAD1 <= vk && vk <= VK_NUMPAD8 {
        KeyAction::GotoTab((vk - VK_NUMPAD1 + 1) as usize)
    } else if vk == VK_9 || vk == VK_NUMPAD9 {
        KeyAction::GotoTab(tab_count)
    } else {
        KeyAction::Ignore
    }
}

fn plain_key_action(vk: u16, shift: bool, terminal_active: bool, has_selection: bool) -> (r:
    KeyAction)
    ensures
        r == plain_action(vk, shift, terminal_active, has_selection),
{
    if vk == VK_RETURN {
        if terminal_active {
            KeyAction::TerminalSubmit
        } else {
            KeyAction::NewLine { replace_selection: has_selection }
        }
    } else if vk == VK_BACK {
        if terminal_active {
            KeyAction::TerminalBackspace
        } else if has_selection {
            KeyAction::DeleteSelection
        } else {
            KeyAction::DeleteBackward
        }
    } else if vk == VK_DELETE {
        if has_selection {
            KeyAction::DeleteSelection
        } else {
            KeyAction::DeleteForward
        }
    } else if vk == VK_LEFT {
        KeyAction::Move { dir: Direction::Left, extend: shift }
    } else if vk == VK_RIGHT {
        KeyAction::Move { dir: Direction::Right, extend: shift }
    } else if vk == VK_UP {
        KeyAction::Move { dir: Direction::Up, extend: shift }
    } else if vk == VK_DOWN {
        KeyAction::Move { dir: Direction::Down, extend: shift }
    } else if vk == VK_HOME {
        KeyAction::Move { dir: Direction::Home, extend: shift }
    } else if vk == VK_END {
        KeyAction::Move { dir: Direction::End, extend: shift }
    } else if vk == VK_PRIOR {
        KeyAction::PageUp
    } else if vk == VK_NEXT {
        KeyAction::PageDown
    } else if vk == VK_TAB {
        KeyAction::InsertTab { replace_selection: has_selection }
    } else {
        KeyAction::Ignore
    }
}

/// The action of a key press (`WM_KEYDOWN`).
pub fn key_action(
    vk: u16,
    ctrl: bool,
    shift: bool,
    palette_active: bool,
    terminal_active: bool,
    has_file_path: bool,
    has_selection: bool,
    tab_count: usize,
) -> (r: KeyAction)
    ensures
        r == key_action_of(
            vk,
            ctrl,
            shift,
            palette_active,
            terminal_active,
            has_file_path,
            has_selection,
            tab_count,
        ),
{
    if palette_active {
        if vk == VK_ESCAPE {
            return KeyAction::PaletteHide;
        } else if vk == VK_RETURN {
            return KeyAction::PaletteRun;
        } else if vk == VK_UP {
            return KeyAction::PaletteUp;
        } else if vk == VK_DOWN {
            return KeyAction::PaletteDown;
        } else if vk == VK_BACK {
            return KeyAction::PaletteBackspace;
        }
    }
    if ctrl {
        ctrl_key_action(vk, shift, has_file_path, tab_count)
    } else {
        plain_key_action(vk, shift, terminal_active, has_selection)
    }
}

/// Where a typed character goes.
#[derive(Clone, Copy, Debug, PartialEq, Eq, Structural)]
pub enum CharTarget {
    Ignore,
    Palette(char),
    Terminal(char),
    Editor(char),
}

/// `char::from_u32`: the character with code point `code`, or `None` for a
/// surrogate code point or a value above `0x10FFFF`.
#[verifier::external_body]
fn char_from_u32(code: u32) -> (r: Option<char>)
    ensures
        r is Some <==> (code <= 0x10FFFF && !(0xD800 <= code <= 0xDFFF)),
        r matches Some(c) ==> c as u32 == code,
{
    char::from_u32(code)
}

/// Where a typed UTF-16 code unit goes (`WM_CHAR`): control codes and
/// surrogate halves are ignored; other characters go to the open command
/// palette, else to the terminal when it is shown, else to the editor.
pub fn char_target(code: u16, palette_active: bool, terminal_active: bool) -> (r: CharTarget)
    ensures
        (code < 32 || code == 127 || (0xD800 <= code <= 0xDFFF)) ==> r == CharTarget::Ignore,
        !(code < 32 || code == 127 || (0xD800 <= code <= 0xDFFF)) && palette_active ==> (r matches CharTarget::Palette(c) && c as u32 == code),
        !(code < 32 || code == 127 || (0xD800 <= code <= 0xDFFF)) && !palette_active && terminal_active ==> (r matches CharTarget::Terminal(c) && c as u32 == code),
        !(code < 32 || code == 127 || (0xD800 <= code <= 0xDFFF)) && !palette_active && !terminal_active ==> (r matches CharTarget::Editor(c) && c as u32 == code),
{
    if code < 32 || code == 127 {
        return CharTarget::Ignore;
    }
    match char_from_u32(code as u32) {
        Some(c) => {
            if palette_active {
                CharTarget::Palette(c)
            } else if terminal_active {
                CharTarget::Terminal(c)
            } else {
                CharTarget::Editor(c)
            }
        },
        None => CharTarget::Ignore,
    }
}

/// The part of the borderless window under the mouse (`WM_NCHITTEST`).
#[derive(Clone, Copy, Debug, PartialEq, Eq, Structural)]
pub enum HitZone {
    Client,
    Left,
    Right,
    Top,
    TopLeft,
    TopRight,
    Bottom,
    BottomLeft,
    BottomRight,
}

/// Width of the resize border, in pixels.
pub const BORDER_SIZE: i32 = 8;

/// The zone of the point `(x, y)` in the window rectangle: within the
/// border of an edge it resizes from that edge (corners first), elsewhere
/// it is client area.
pub open spec fn hit_zone(x: int, y: int, left: int, top: int, right: int, bottom: int) -> HitZone {
    let l = x - left < BORDER_SIZE;
    let t = y - top < BORDER_SIZE;
    let r = right - x < BORDER_SIZE;
    let b = bottom - y < BORDER_SIZE;
    if t {
        if l {
            HitZone::TopLeft
        } else if r {
            HitZone::TopRight
        } else {
            HitZone::Top
        }
    } else if b {
        if l {
            HitZone::BottomLeft
        } else if r {
            HitZone::BottomRight
        } else {
            HitZone::Bottom
        }
    } else if l {
        HitZone::Left
    } else if r {
        HitZone::Right
    } else {
        HitZone::Client
    }
}

/// The zone of the screen point `(x, y)` in the window rectangle
/// `left, top, right, bottom`. The distances to the edges fit in `i32`.
pub fn nc_hit_test(x: i32, y: i32, left: i32, top: i32, right: i32, bottom: i32) -> (r: HitZone)
    requires
        i32::MIN <= x - left <= i32::MAX,
        i32::MIN <= y - top <= i32::MAX,
        i32::MIN <= right - x <= i32::MAX,
        i32::MIN <= bottom - y <= i32::MAX,
    ensures
        r == hit_zone(x as int, y as int, left as int, top as int, right as int, bottom as int),
{
    let dl = x - left;
    let dt = y - top;
    let dr = right - x;
    let db = bottom - y;
    if dt < BORDER_SIZE {
        if dl < BORDER_SIZE {
            HitZone::TopLeft
        } else if dr < BORDER_SIZE {
            HitZone::TopRight
        } else {
            HitZone::Top
        }
    } else if db < BORDER_SIZE {
        if dl < BORDER_SIZE {
            HitZone::BottomLeft
        } else if dr < BORDER_SIZE {
            HitZone::BottomRight
        } else {
            HitZone::Bottom
        }
    } else if dl < BORDER_SIZE {
        HitZone::Left
    } else if dr < BORDER_SIZE {
        HitZone::Right
    } else {
        HitZone::Client
    }
}

impl HitZone {
    /// The Win32 hit-test code (`HTCLIENT`, `HTLEFT`, ...).
    pub fn code(self) -> (r: isize)
        ensures
            r == match self {
                HitZone::Client => 1isize,
                HitZone::Left => 10,
                HitZone::Right => 11,
                HitZone::Top => 12,
                HitZone::TopLeft => 13,
                HitZone::TopRight => 14,
                HitZone::Bottom => 15,
                HitZone::BottomLeft => 16,
                HitZone::BottomRight => 17,
            },
    {
        match self {
            HitZone::Client => 1,
            HitZone::Left => 10,
            HitZone::Right => 11,
            HitZone::Top => 12,
            HitZone::TopLeft => 13,
            HitZone::TopRight => 14,
            HitZone::Bottom => 15,
            HitZone::BottomLeft => 16,
            HitZone::BottomRight => 17,
        }
    }
}

/// The open command palette keeps its navigation keys, whatever modifiers
/// are held.
pub proof fn lemma_palette_keys_first(
    vk: u16,
    ctrl: bool,
    shift: bool,
    terminal_active: bool,
    has_file_path: bool,
    has_selection: bool,
    tab_count: usize,
)
    requires
        vk == VK_ESCAPE || vk == VK_RETURN || vk == VK_UP || vk == VK_DOWN || vk == VK_BACK,
    ensures
        ({
            let a = key_action_of(
                vk,
                ctrl,
                shift,
                true,
                terminal_active,
                has_file_path,
                has_selection,
                tab_count,
            );
            a == KeyAction::PaletteHide || a == KeyAction::PaletteRun || a == KeyAction::PaletteUp
                || a == KeyAction::PaletteDown || a == KeyAction::PaletteBackspace
        }),
{
}

/// A point well inside the window (at least the border width from every
/// edge) is client area.
pub proof fn lemma_inner_point_is_client(x: int, y: int, left: int, top: int, right: int, bottom: int)
    requires
        x - left >= BORDER_SIZE,
        y - top >= BORDER_SIZE,
        right - x >= BORDER_SIZE,
        bottom - y >= BORDER_SIZE,
    ensures
        hit_zone(x, y, left, top, right, bottom) == HitZone::Client,
{
}

/// A command of the menu bar or the command palette.
#[derive(Clone, Copy, Debug, PartialEq, Eq, Structural)]
pub enum CommandId {
    NoCommand,
    FileNew,
    FileOpen,
    FileOpenFolder,
    FileSave,
    FileSaveAs,
    FileExit,
    EditUndo,
    EditRedo,
    EditCut,
    EditCopy,
    EditPaste,
    EditFind,
    EditReplace,
    EditSelectAll,
    SelectAll,
    ViewToggleSidebar,
    ViewToggleActivityBar,
    ViewToggleStatusBar,
    ViewZoomIn,
    ViewZoomOut,
    GotoFile,
    GotoLine,
    RunStart,
    RunDebug,
    TerminalNew,
    HelpAbout,
}

/// What running a command asks the editor to do.
#[derive(Clone, Copy, Debug, PartialEq, Eq, Structural)]
pub enum CommandAction {
    Nothing,
    NewFile,
    /// Ask for a file and open it.
    OpenFile,
    /// Ask for a folder and open it.
    OpenFolder,
    /// Save to the text's own path (reporting when it has none).
    Save,
    /// Ask for a path and save there.
    SaveAs,
    Exit,
    Undo,
    Redo,
    Cut,
    Copy,
    Paste,
    ToggleFind,
    ToggleReplace,
    SelectAll,
    ToggleSidebar,
    ToggleActivityBar,
    ToggleStatusBar,
    /// Show or hide the terminal panel.
    ToggleTerminal,
    /// Show a notice in the status line.
    Notice(Notice),
}

/// Status-line notices of commands that are not available yet, and the
/// about text.
#[derive(Clone, Copy, Debug, PartialEq, Eq, Structural)]
pub enum Notice {
    ZoomIn,
    ZoomOut,
    GotoFile,
    GotoLine,
    Run,
    Debug,
    About,
}

/// The text of a notice.
pub open spec fn notice_text(n: Notice) -> Seq<char> {
    match n {
        Notice::ZoomIn => "放大功能即将推出"@,
        Notice::ZoomOut => "缩小功能即将推出"@,
        Notice::GotoFile => "转到文件功能即将推出"@,
        Notice::GotoLine => "转到行功能即将推出"@,
        Notice::Run => "运行功能即将推出"@,
        Notice::Debug => "调试功能即将推出"@,
        Notice::About => "牧羊人编辑器 v0.1.0"@,
    }
}

impl Notice {
    /// The text of the notice.
    pub fn text(self) -> (r: &'static str)
        ensures
            r@ == notice_text(self),
    {
        match self {
            Notice::ZoomIn => "放大功能即将推出",
            Notice::ZoomOut => "缩小功能即将推出",
            Notice::GotoFile => "转到文件功能即将推出",
            Notice::GotoLine => "转到行功能即将推出",
            Notice::Run => "运行功能即将推出",
            Notice::Debug => "调试功能即将推出",
            Notice::About => "牧羊人编辑器 v0.1.0",
        }
    }
}

/// The action of each command.
pub open spec fn command_action_of(cmd: CommandId) -> CommandAction {
    match cmd {
        CommandId::NoCommand => CommandAction::Nothing,
        CommandId::FileNew => CommandAction::NewFile,
        CommandId::FileOpen => CommandAction::OpenFile,
        CommandId::FileOpenFolder => CommandAction::OpenFolder,
        CommandId::FileSave => CommandAction::Save,
        CommandId::FileSaveAs => CommandAction::SaveAs,
        CommandId::FileExit => CommandAction::Exit,
        CommandId::EditUndo => CommandAction::Undo,
        CommandId::EditRedo => CommandAction::Redo,
        CommandId::EditCut => CommandAction::Cut,
        CommandId::EditCopy => CommandAction::Copy,
        CommandId::EditPaste => CommandAction::Paste,
        CommandId::EditFind => CommandAction::ToggleFind,
        CommandId::EditReplace => CommandAction::ToggleReplace,
        CommandId::EditSelectAll => CommandAction::SelectAll,
        CommandId::SelectAll => CommandAction::SelectAll,
        CommandId::ViewToggleSidebar => CommandAction::ToggleSidebar,
        CommandId::ViewToggleActivityBar => CommandAction::ToggleActivityBar,
        CommandId::ViewToggleStatusBar => CommandAction::ToggleStatusBar,
        CommandId::ViewZoomIn => CommandAction::Notice(Notice::ZoomIn),
        CommandId::ViewZoomOut => CommandAction::Notice(Notice::ZoomOut),
        CommandId::GotoFile => CommandAction::Notice(Notice::GotoFile),
        CommandId::GotoLine => CommandAction::Notice(Notice::GotoLine),
        CommandId::RunStart => CommandAction::Notice(Notice::Run),
        CommandId::RunDebug => CommandAction::Notice(Notice::Debug),
        CommandId::TerminalNew => CommandAction::ToggleTerminal,
        CommandId::HelpAbout => CommandAction::Notice(Notice::About),
    }
}

/// The action of a command.
pub fn command_action(cmd: CommandId) -> (r: CommandAction)
    ensures
        r == command_action_of(cmd),
{
    match cmd {
        CommandId::NoCommand => CommandAction::Nothing,
        CommandId::FileNew => CommandAction::NewFile,
        CommandId::FileOpen => CommandAction::OpenFile,
        CommandId::FileOpenFolder => CommandAction::OpenFolder,
        CommandId::FileSave => CommandAction::Save,
        CommandId::FileSaveAs => CommandAction::SaveAs,
        CommandId::FileExit => CommandAction::Exit,
        CommandId::EditUndo => CommandAction::Undo,
        CommandId::EditRedo => CommandAction::Redo,
        CommandId::EditCut => CommandAction::Cut,
        CommandId::EditCopy => CommandAction::Copy,
        CommandId::EditPaste => CommandAction::Paste,
        CommandId::EditFind => CommandAction::ToggleFind,
        CommandId::EditReplace => CommandAction::ToggleReplace,
        CommandId::EditSelectAll => CommandAction::SelectAll,
        CommandId::SelectAll => CommandAction::SelectAll,
        CommandId::ViewToggleSidebar => CommandAction::ToggleSidebar,
        CommandId::ViewToggleActivityBar => CommandAction::ToggleActivityBar,
        CommandId::ViewToggleStatusBar => CommandAction::ToggleStatusBar,
        CommandId::ViewZoomIn => CommandAction::Notice(Notice::ZoomIn),
        CommandId::ViewZoomOut => CommandAction::Notice(Notice::ZoomOut),
        CommandId::GotoFile => CommandAction::Notice(Notice::GotoFile),
        CommandId::GotoLine => CommandAction::Notice(Notice::GotoLine),
        CommandId::RunStart => CommandAction::Notice(Notice::Run),
        CommandId::RunDebug => CommandAction::Notice(Notice::Debug),
        CommandId::TerminalNew => CommandAction::ToggleTerminal,
        CommandId::HelpAbout => CommandAction::Notice(Notice::About),
    }
}

/// After the terminal panel was toggled: whether to start a shell (the
/// panel is now shown and none runs) and the status message.
pub fn terminal_toggled(visible: bool, running: bool) -> (r: (bool, &'static str))
    ensures
        r.0 == (visible && !running),
        r.1@ == (if visible {
            "终端已打开"@
        } else {
            "终端已关闭"@
        }),
{
    (visible && !running, if visible {
        "终端已打开"
    } else {
        "终端已关闭"
    })
}

} // verus!
