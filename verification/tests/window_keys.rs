use aether_win32::dirty_rect::{kind_needs_redraw, part_needs_redraw, region_redraws, DirtyRegionType, RenderCommand, ScreenPart};
use aether_win32::editor::Direction;
use aether_win32::files::{unsupported_file_message, file_extension_part, get_file_icon, has_text_extension, icon_for_extension, is_text_extension, sample_is_text};
use aether_win32::window::{
    char_target, command_action, key_action, nc_hit_test, terminal_toggled, CharTarget, CommandAction,
    CommandId, HitZone, KeyAction, Notice, VK_BACK, VK_DOWN, VK_ESCAPE, VK_LEFT, VK_RETURN, VK_S,
    VK_TAB,
};

fn plain(vk: u16) -> KeyAction {
    key_action(vk, false, false, false, false, true, false, 3)
}

#[test]
fn palette_takes_its_keys_first() {
    assert_eq!(key_action(VK_ESCAPE, true, false, true, false, true, false, 1), KeyAction::PaletteHide);
    assert_eq!(key_action(VK_RETURN, false, false, true, true, true, false, 1), KeyAction::PaletteRun);
    assert_eq!(key_action(VK_DOWN, false, true, true, false, true, false, 1), KeyAction::PaletteDown);
    assert_eq!(key_action(VK_BACK, false, false, true, false, true, false, 1), KeyAction::PaletteBackspace);
    assert_eq!(key_action(VK_LEFT, false, false, true, false, true, false, 1), KeyAction::Move { dir: Direction::Left, extend: false });
}

#[test]
fn ctrl_shortcuts() {
    assert_eq!(key_action(VK_S, true, false, false, false, true, false, 1), KeyAction::Save);
    assert_eq!(key_action(VK_S, true, false, false, false, false, false, 1), KeyAction::SaveNew);
    assert_eq!(key_action(VK_S, true, true, false, false, true, false, 1), KeyAction::SaveAs);
    assert_eq!(key_action(0x5A, true, true, false, false, true, false, 1), KeyAction::Redo);
    assert_eq!(key_action(0x5A, true, false, false, false, true, false, 1), KeyAction::Undo);
    assert_eq!(key_action(VK_TAB, true, true, false, false, true, false, 1), KeyAction::PrevTab);
    assert_eq!(key_action(0x33, true, false, false, false, true, false, 7), KeyAction::GotoTab(3));
    assert_eq!(key_action(0x68, true, false, false, false, true, false, 7), KeyAction::GotoTab(8));
    assert_eq!(key_action(0x39, true, false, false, false, true, false, 7), KeyAction::GotoTab(7));
    assert_eq!(key_action(0x47, true, true, false, false, true, false, 1), KeyAction::ShowPalette { commands: true });
    assert_eq!(key_action(0x50, true, false, false, false, true, false, 1), KeyAction::Ignore);
    assert_eq!(key_action(0x73, true, false, false, false, true, false, 1), KeyAction::CloseTab);
    assert_eq!(key_action(VK_RETURN, true, false, false, true, true, true, 1), KeyAction::Ignore);
}

#[test]
fn editing_keys() {
    assert_eq!(plain(VK_RETURN), KeyAction::NewLine { replace_selection: false });
    assert_eq!(key_action(VK_RETURN, false, false, false, true, true, true, 1), KeyAction::TerminalSubmit);
    assert_eq!(key_action(VK_BACK, false, false, false, false, true, true, 1), KeyAction::DeleteSelection);
    assert_eq!(plain(VK_BACK), KeyAction::DeleteBackward);
    assert_eq!(plain(0x2E), KeyAction::DeleteForward);
    assert_eq!(key_action(VK_LEFT, false, true, false, false, true, false, 1), KeyAction::Move { dir: Direction::Left, extend: true });
    assert_eq!(plain(0x21), KeyAction::PageUp);
    assert_eq!(key_action(VK_TAB, false, false, false, false, true, true, 1), KeyAction::InsertTab { replace_selection: true });
    assert_eq!(plain(0x41), KeyAction::Ignore);
}

#[test]
fn typed_characters_are_routed() {
    assert_eq!(char_target(0x41, false, false), CharTarget::Editor('A'));
    assert_eq!(char_target(0x41, true, true), CharTarget::Palette('A'));
    assert_eq!(char_target(0x4E2D, false, true), CharTarget::Terminal('中'));
    assert_eq!(char_target(13, false, false), CharTarget::Ignore);
    assert_eq!(char_target(127, false, false), CharTarget::Ignore);
    assert_eq!(char_target(0xD83D, false, false), CharTarget::Ignore);
}

#[test]
fn resize_borders() {
    assert_eq!(nc_hit_test(103, 203, 100, 200, 900, 800), HitZone::TopLeft);
    assert_eq!(nc_hit_test(895, 203, 100, 200, 900, 800), HitZone::TopRight);
    assert_eq!(nc_hit_test(500, 795, 100, 200, 900, 800), HitZone::Bottom);
    assert_eq!(nc_hit_test(102, 500, 100, 200, 900, 800), HitZone::Left);
    assert_eq!(nc_hit_test(500, 500, 100, 200, 900, 800), HitZone::Client);
    assert_eq!(HitZone::Client.code(), 1);
    assert_eq!(HitZone::BottomRight.code(), 17);
    assert_eq!(HitZone::Top.code(), 12);
}

#[test]
fn menu_commands() {
    assert_eq!(command_action(CommandId::FileSave), CommandAction::Save);
    assert_eq!(command_action(CommandId::SelectAll), CommandAction::SelectAll);
    assert_eq!(command_action(CommandId::NoCommand), CommandAction::Nothing);
    assert_eq!(command_action(CommandId::HelpAbout), CommandAction::Notice(Notice::About));
    assert_eq!(Notice::About.text(), "牧羊人编辑器 v0.1.0");
    assert_eq!(Notice::ZoomIn.text(), "放大功能即将推出");
    assert_eq!(terminal_toggled(true, false), (true, "终端已打开"));
    assert_eq!(terminal_toggled(true, true), (false, "终端已打开"));
    assert_eq!(terminal_toggled(false, false), (false, "终端已关闭"));
}

#[test]
fn render_command_priorities() {
    let f = false;
    assert_eq!(RenderCommand::infer_from_state(true, f, f, f, true, f, f, f, true), RenderCommand::FullRedraw);
    assert_eq!(RenderCommand::infer_from_state(f, f, true, f, true, f, f, f, f), RenderCommand::EditorAndStatus);
    assert_eq!(RenderCommand::infer_from_state(f, f, f, f, true, true, f, f, f), RenderCommand::SidebarOnly);
    assert_eq!(RenderCommand::infer_from_state(f, f, f, f, f, true, true, f, f), RenderCommand::RightPanelOnly);
    assert_eq!(RenderCommand::infer_from_state(f, f, f, f, f, f, true, true, f), RenderCommand::BottomPanelOnly);
    assert_eq!(RenderCommand::infer_from_state(f, f, f, f, f, f, f, true, f), RenderCommand::EditorAndStatus);
    assert_eq!(RenderCommand::infer_from_state(f, f, f, f, f, f, f, f, f), RenderCommand::FullRedraw);
}

#[test]
fn dirty_regions_select_parts() {
    let kinds = [DirtyRegionType::TabBar, DirtyRegionType::MenuBar];
    assert!(part_needs_redraw(false, &kinds, ScreenPart::Editor));
    assert!(part_needs_redraw(false, &kinds, ScreenPart::TitleBar));
    assert!(!part_needs_redraw(false, &kinds, ScreenPart::Sidebar));
    assert!(part_needs_redraw(true, &[], ScreenPart::Sidebar));
    assert!(region_redraws(DirtyRegionType::FullWindow, ScreenPart::StatusBar));
    assert!(!region_redraws(DirtyRegionType::Dialog, ScreenPart::Editor));
    assert!(kind_needs_redraw(false, &kinds, DirtyRegionType::MenuBar));
    assert!(!kind_needs_redraw(false, &kinds, DirtyRegionType::Dialog));
}

#[test]
fn file_icons_by_extension() {
    assert_eq!(get_file_icon("main.RS"), "🦀");
    assert_eq!(get_file_icon("archive.tar.gz"), "📄");
    assert_eq!(get_file_icon("Dockerfile"), "🐳");
    assert_eq!(get_file_icon("photo.JPEG"), "🖼");
    assert_eq!(get_file_icon("build.sh"), "📜");
    assert_eq!(icon_for_extension("yml"), "⚙");
    assert_eq!(file_extension_part("a.b.c"), "c");
    assert_eq!(file_extension_part("noext"), "noext");
    assert_eq!(file_extension_part("trailing."), "");
}

#[test]
fn text_files_by_extension_or_content() {
    assert!(has_text_extension("TXT"));
    assert!(is_text_extension("properties"));
    assert!(!is_text_extension("png"));
    assert!(!has_text_extension("exe"));
    assert!(sample_is_text(b"hello\r\nworld\t!"));
    assert!(!sample_is_text(b""));
    assert!(!sample_is_text(b"ab\0cd"));
    let mut mostly = vec![b'a'; 9];
    mostly.push(0xFF);
    assert!(sample_is_text(&mostly));
    let mut binary = vec![b'a'; 8];
    binary.extend_from_slice(&[0xFF, 0xFE]);
    assert!(!sample_is_text(&binary));
}

#[test]
fn unsupported_files_are_described() {
    let (text, status) = unsupported_file_message(Some("bin"), "C:\\a.bin");
    assert_eq!(text, "不支持的文件格式: .bin\n文件: C:\\a.bin");
    assert_eq!(status, "不支持的文件格式: .bin");
    let (_, status2) = unsupported_file_message(None, "x");
    assert_eq!(status2, "不支持的文件格式: .unknown");
}
