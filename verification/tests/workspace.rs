use aether_win32::ai_panel::AiPanel;
use aether_win32::layout::{ActivityBarView, SidebarContent};
use aether_win32::tabs::TabList;
use aether_win32::workspace::{Document, Workspace};

#[test]
fn new_window_has_one_empty_tab_and_the_explorer() {
    let w = Workspace::new();
    assert_eq!(w.tab_count(), 1);
    assert_eq!(w.active_tab(), 0);
    assert_eq!(w.text, "");
    assert_eq!(w.file_path, None);
    assert_eq!(w.activity_view, ActivityBarView::Explorer);
    assert_eq!(w.sidebar_content, SidebarContent::FileTree);
    assert_eq!(w.editor.status_message, "就绪");
    assert!(!w.editor.find_visible);
    assert!(w.editor.find_results.is_empty());
}

#[test]
fn opening_a_file_reuses_an_empty_tab() {
    let mut w = Workspace::new();
    w.show_document(Document::opened("fn main() {}".to_string(), Some("a.rs".to_string())), "已打开: a.rs".to_string());
    assert_eq!(w.tab_count(), 1);
    assert_eq!(w.text, "fn main() {}");
    assert_eq!(w.file_path, Some("a.rs".to_string()));
    assert_eq!((w.editor.cursor_line, w.editor.cursor_col), (0, 0));
    assert!(!w.editor.is_dirty);
    assert_eq!(w.editor.status_message, "已打开: a.rs");
}

#[test]
fn opening_a_file_over_a_document_opens_a_new_active_tab() {
    let mut w = Workspace::new();
    w.show_document(Document::opened("one".to_string(), Some("1.txt".to_string())), "已打开: 1.txt".to_string());
    w.editor.cursor_col = 2;
    w.editor.is_dirty = true;
    w.show_document(Document::opened("two".to_string(), Some("2.txt".to_string())), "已打开: 2.txt".to_string());
    assert_eq!(w.tab_count(), 2);
    assert_eq!(w.active_tab(), 1);
    assert_eq!(w.text, "two");
    assert_eq!(w.file_path, Some("2.txt".to_string()));
    assert!(!w.editor.is_dirty);
    w.switch_tab(0);
    assert_eq!(w.text, "one");
    assert_eq!(w.file_path, Some("1.txt".to_string()));
    assert_eq!(w.editor.cursor_col, 2);
    assert!(w.editor.is_dirty);
}

#[test]
fn switching_tabs_back_and_forth_keeps_every_document() {
    let mut w = Workspace::new();
    w.text = "first".to_string();
    w.new_tab();
    w.text = "second".to_string();
    w.editor.cursor_line = 3;
    w.new_tab();
    w.text = "third".to_string();
    assert_eq!(w.tab_count(), 3);
    for _ in 0..3 {
        let before = (w.active_tab(), w.text.clone(), w.editor.cursor_line);
        w.next_tab();
        w.prev_tab();
        assert_eq!((w.active_tab(), w.text.clone(), w.editor.cursor_line), before);
        w.next_tab();
    }
    w.switch_tab(1);
    assert_eq!((w.text.as_str(), w.editor.cursor_line), ("second", 3));
}

#[test]
fn new_file_reuses_or_opens_a_tab() {
    let mut w = Workspace::new();
    w.new_file();
    assert_eq!(w.tab_count(), 1);
    assert_eq!(w.editor.status_message, "新文件");
    w.text = "x".to_string();
    w.new_file();
    assert_eq!(w.tab_count(), 2);
    assert_eq!(w.active_tab(), 1);
    assert_eq!(w.text, "");
}

#[test]
fn closing_tabs() {
    let mut w = Workspace::new();
    w.text = "a".to_string();
    w.new_tab();
    w.text = "b".to_string();
    assert!(w.close_current_tab());
    assert_eq!(w.tab_count(), 1);
    assert_eq!(w.text, "a");
    assert_eq!(w.editor.status_message, "已关闭，剩余 1 个文件");
    assert!(w.close_current_tab());
    assert_eq!(w.tab_count(), 1);
    assert_eq!(w.text, "");
    assert_eq!(w.editor.status_message, "已关闭");
}

#[test]
fn tab_list_opens_new_content_in_a_new_active_tab() {
    let mut tabs = TabList::new("old");
    tabs.open_in_new_tab("new");
    assert_eq!(tabs.tab_count(), 2);
    assert_eq!(tabs.active_index(), 1);
    assert_eq!(*tabs.current_tab(), "new");
    tabs.switch_tab(0);
    assert_eq!(*tabs.current_tab(), "old");
}

#[test]
fn quick_action_prompts_differ() {
    let actions = AiPanel::quick_actions();
    for (i, a) in actions.iter().enumerate() {
        for (j, b) in actions.iter().enumerate() {
            if i != j {
                assert_ne!(a.build_prompt("x"), b.build_prompt("x"));
            }
        }
    }
}
