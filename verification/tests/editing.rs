use aether_win32::editor::{
    can_reuse_current_tab, find_next_char_boundary, find_prev_char_boundary, line_col_to_byte,
    save_target, BufferSnapshot, Direction, Edit, EditorState, OpType, SaveTarget,
};
use aether_win32::tabs::TabList;

fn snapshot(text: &str) -> BufferSnapshot {
    let lines: Vec<String> = text.split('\n').map(|l| l.to_string()).collect();
    let mut starts = Vec::new();
    let mut pos = 0;
    for l in &lines {
        starts.push(pos);
        pos += l.len() + 1;
    }
    BufferSnapshot { lines, line_starts: starts, bytes: text.as_bytes().to_vec() }
}

fn inserted(e: &Edit) -> (usize, String) {
    match e {
        Edit::Insert { pos, text } => (*pos, text.clone()),
        Edit::Delete { .. } => panic!("expected an insertion"),
    }
}

fn deleted(e: &Edit) -> (usize, usize) {
    match e {
        Edit::Delete { start, end } => (*start, *end),
        Edit::Insert { .. } => panic!("expected a deletion"),
    }
}

#[test]
fn insert_char_inserts_at_cursor_and_advances() {
    let snap = snapshot("ab\ncd");
    let mut ed = EditorState::new();
    ed.cursor_line = 1;
    ed.cursor_col = 1;
    let c = ed.insert_char('é', &snap);
    assert_eq!(c.edits.len(), 1);
    assert_eq!(inserted(&c.edits[0]), (4, "é".to_string()));
    assert_eq!(c.op, OpType::Insert);
    assert_eq!((ed.cursor_line, ed.cursor_col), (1, 3));
    assert!(ed.is_dirty);
    assert_eq!(ed.buffer_version, 1);
    assert_eq!(ed.status_message, "已修改");
}

#[test]
fn insert_tab_inserts_four_spaces() {
    let snap = snapshot("x");
    let mut ed = EditorState::new();
    let c = ed.insert_tab(&snap);
    assert_eq!(inserted(&c.edits[0]), (0, "    ".to_string()));
    assert_eq!(ed.cursor_col, 4);
}

#[test]
fn insert_newline_keeps_indent_and_indents_after_brace() {
    let snap = snapshot("  fn f() {");
    let mut ed = EditorState::new();
    ed.cursor_col = 10;
    let c = ed.insert_newline(&snap);
    assert_eq!(inserted(&c.edits[0]), (10, "\n      ".to_string()));
    assert_eq!((ed.cursor_line, ed.cursor_col), (1, 6));
}

#[test]
fn delete_char_removes_previous_character() {
    let snap = snapshot("aé");
    let mut ed = EditorState::new();
    ed.cursor_col = 3;
    let c = ed.delete_char(&snap).expect("a deletion");
    assert_eq!(deleted(&c.edits[0]), (1, 3));
    assert_eq!(ed.cursor_col, 1);
}

#[test]
fn delete_char_at_line_start_joins_lines() {
    let snap = snapshot("ab\ncd");
    let mut ed = EditorState::new();
    ed.cursor_line = 1;
    ed.cursor_col = 0;
    let c = ed.delete_char(&snap).expect("a deletion");
    assert_eq!(deleted(&c.edits[0]), (2, 5));
    assert_eq!((ed.cursor_line, ed.cursor_col), (0, 2));
}

#[test]
fn delete_char_at_text_start_does_nothing() {
    let snap = snapshot("ab");
    let mut ed = EditorState::new();
    assert!(ed.delete_char(&snap).is_none());
    assert_eq!(ed.buffer_version, 0);
}

#[test]
fn delete_forward_removes_next_character() {
    let snap = snapshot("é!");
    let mut ed = EditorState::new();
    let c = ed.delete_forward(&snap).expect("a deletion");
    assert_eq!(deleted(&c.edits[0]), (0, 2));
    assert_eq!(ed.cursor_col, 0);
}

#[test]
fn char_boundaries_skip_continuation_bytes() {
    let bytes = "aé".as_bytes();
    assert_eq!(find_prev_char_boundary(bytes, 3), 1);
    assert_eq!(find_next_char_boundary(bytes, 1), 3);
    assert_eq!(find_next_char_boundary(bytes, 3), 3);
    assert_eq!(find_prev_char_boundary(bytes, 0), 0);
}

#[test]
fn line_col_to_byte_clamps_the_column() {
    let snap = snapshot("ab\ncd");
    assert_eq!(line_col_to_byte(&snap, 1, 1), 4);
    assert_eq!(line_col_to_byte(&snap, 1, 9), 5);
}

#[test]
fn moving_right_then_left_returns() {
    let lines = vec!["aé".to_string(), "x".to_string()];
    let mut ed = EditorState::new();
    ed.cursor_col = 1;
    ed.move_cursor_right(&lines);
    assert_eq!(ed.cursor_col, 3);
    ed.move_cursor_left(&lines);
    assert_eq!(ed.cursor_col, 1);
}

#[test]
fn moving_right_at_line_end_goes_to_next_line() {
    let lines = vec!["ab".to_string(), "x".to_string()];
    let mut ed = EditorState::new();
    ed.cursor_col = 2;
    ed.move_cursor_right(&lines);
    assert_eq!((ed.cursor_line, ed.cursor_col), (1, 0));
    ed.move_cursor_left(&lines);
    assert_eq!((ed.cursor_line, ed.cursor_col), (0, 2));
}

#[test]
fn moving_up_clamps_column() {
    let lines = vec!["ab".to_string(), "xyz".to_string()];
    let mut ed = EditorState::new();
    ed.cursor_line = 1;
    ed.cursor_col = 3;
    ed.move_cursor_up(&lines);
    assert_eq!((ed.cursor_line, ed.cursor_col), (0, 2));
    ed.move_cursor_down(&lines);
    assert_eq!((ed.cursor_line, ed.cursor_col), (1, 2));
}

#[test]
fn shift_move_starts_and_extends_selection() {
    let lines = vec!["abc".to_string()];
    let mut ed = EditorState::new();
    ed.move_cursor(Direction::Right, true, &lines);
    ed.move_cursor(Direction::Right, true, &lines);
    assert_eq!(ed.selection_start, Some((0, 0)));
    assert_eq!(ed.selection_end, Some((0, 2)));
    assert_eq!(ed.get_selected_text(&lines), Some("ab".to_string()));
    ed.move_cursor(Direction::End, false, &lines);
    assert_eq!(ed.selection_start, None);
    assert_eq!(ed.selection_end, None);
    assert_eq!(ed.cursor_col, 3);
}

#[test]
fn select_all_spans_the_text() {
    let lines = vec!["ab".to_string(), "cd".to_string()];
    let mut ed = EditorState::new();
    ed.select_all(&lines);
    assert_eq!(ed.get_selected_text(&lines), Some("ab\ncd".to_string()));
    assert_eq!((ed.cursor_line, ed.cursor_col), (1, 2));
}

#[test]
fn delete_selection_deletes_the_range() {
    let snap = snapshot("hello\nworld");
    let mut ed = EditorState::new();
    ed.selection_start = Some((1, 3));
    ed.selection_end = Some((0, 2));
    let c = ed.delete_selection(&snap).expect("a deletion");
    assert_eq!(deleted(&c.edits[0]), (2, 9));
    assert_eq!((ed.cursor_line, ed.cursor_col), (0, 2));
    assert_eq!(ed.selection_start, None);
}

#[test]
fn backward_selection_on_one_line_is_deleted() {
    let snap = snapshot("hello\nworld");
    let mut ed = EditorState::new();
    ed.selection_start = Some((1, 4));
    ed.selection_end = Some((1, 1));
    let c = ed.delete_selection(&snap).expect("a deletion");
    assert_eq!(deleted(&c.edits[0]), (7, 10));
    assert_eq!((ed.cursor_line, ed.cursor_col), (1, 1));
    assert_eq!(ed.selection_end, None);
}

#[test]
fn paste_replaces_selection() {
    let snap = snapshot("abcd");
    let mut ed = EditorState::new();
    ed.selection_start = Some((0, 1));
    ed.selection_end = Some((0, 3));
    let cs = ed.paste("X\nY", &snap);
    assert_eq!(cs.len(), 2);
    assert_eq!(deleted(&cs[0].edits[0]), (1, 3));
    assert_eq!(inserted(&cs[1].edits[0]), (1, "X\nY".to_string()));
    assert_eq!((ed.cursor_line, ed.cursor_col), (1, 1));
    assert_eq!(ed.status_message, "已粘贴");
}

#[test]
fn find_all_and_navigation() {
    let lines = vec!["abab".to_string(), "xab".to_string()];
    let mut ed = EditorState::new();
    ed.find_query = "ab".to_string();
    ed.find_all(&lines);
    assert_eq!(ed.find_results, vec![(0, 0), (0, 2), (1, 1)]);
    ed.find_next(&lines);
    assert_eq!(ed.find_active_index, 1);
    ed.find_prev(&lines);
    ed.find_prev(&lines);
    assert_eq!(ed.find_active_index, 2);
}

#[test]
fn next_then_previous_match_returns_to_the_active_one() {
    let lines = vec!["xaxa".to_string(), "a".to_string()];
    let mut ed = EditorState::new();
    ed.find_query = "a".to_string();
    ed.find_all(&lines);
    for start in 0..3 {
        ed.find_active_index = start;
        ed.find_next(&lines);
        ed.find_prev(&lines);
        assert_eq!(ed.find_active_index, start);
        let (l, c) = ed.find_results[start];
        assert_eq!((ed.cursor_line, ed.cursor_col), (l, c));
        assert_eq!(ed.selection_start, Some((l, c)));
        assert_eq!(ed.selection_end, Some((l, c + 1)));
    }
}

#[test]
fn replace_all_replaces_every_match_last_first() {
    let snap = snapshot("a-a");
    let mut ed = EditorState::new();
    ed.find_query = "a".to_string();
    ed.replace_text = "bb".to_string();
    let (n, edits) = ed.replace_all(&snap);
    assert_eq!(n, 2);
    assert_eq!(edits.len(), 4);
    assert_eq!(deleted(&edits[0]), (2, 3));
    assert_eq!(inserted(&edits[1]), (2, "bb".to_string()));
    assert_eq!(deleted(&edits[2]), (0, 1));
    assert_eq!(inserted(&edits[3]), (0, "bb".to_string()));
    assert_eq!(ed.status_message, "已替换 2 处");
}

#[test]
fn find_all_searches_the_text_it_is_given() {
    let mut ed = EditorState::new();
    ed.find_query = "ab".to_string();
    ed.find_all(&vec!["ab ab".to_string()]);
    assert_eq!(ed.find_results, vec![(0, 0), (0, 3)]);
    ed.find_all(&vec!["x".to_string(), "ab".to_string()]);
    assert_eq!(ed.find_results, vec![(1, 0)]);
    assert_eq!(ed.find_active_index, 0);
}

#[test]
fn replace_all_counts_matches_of_the_given_text() {
    let mut ed = EditorState::new();
    ed.find_query = "a".to_string();
    ed.replace_text = "b".to_string();
    ed.find_all(&vec!["aaa".to_string()]);
    assert_eq!(ed.find_results.len(), 3);
    let (n, edits) = ed.replace_all(&snapshot("a"));
    assert_eq!(n, 1);
    assert_eq!(deleted(&edits[0]), (0, 1));
}

#[test]
fn replace_all_with_same_text_does_nothing() {
    let snap = snapshot("aa");
    let mut ed = EditorState::new();
    ed.find_query = "a".to_string();
    ed.replace_text = "a".to_string();
    let (n, edits) = ed.replace_all(&snap);
    assert_eq!(n, 0);
    assert!(edits.is_empty());
}

#[test]
fn undo_restores_cursor() {
    let mut ed = EditorState::new();
    ed.undo(Some((3, 4)));
    assert_eq!((ed.cursor_line, ed.cursor_col), (3, 4));
    assert_eq!(ed.status_message, "已撤销");
    let v = ed.buffer_version;
    ed.redo(None);
    assert_eq!(ed.buffer_version, v);
}

#[test]
fn reuse_only_an_empty_untitled_tab() {
    assert!(can_reuse_current_tab(false, false, 0));
    assert!(!can_reuse_current_tab(true, false, 0));
    assert!(!can_reuse_current_tab(false, true, 0));
    assert!(!can_reuse_current_tab(false, false, 1));
}

#[test]
fn save_targets_and_messages() {
    assert!(matches!(save_target(None, true), SaveTarget::NoPath));
    assert!(matches!(save_target(Some("C:\\a.txt"), true), SaveTarget::Local));
    assert!(matches!(save_target(Some("remote:/etc/x"), false), SaveTarget::RemoteUnavailable));
    let t = save_target(Some("remote:/etc/x"), true);
    match &t {
        SaveTarget::Remote(p) => assert_eq!(p, "/etc/x"),
        _ => panic!("expected a remote target"),
    }
    assert_eq!(t.message(&Ok(())), "已保存到远程: /etc/x");
    assert_eq!(t.message(&Err("denied".to_string())), "保存远程文件失败: denied");
    assert_eq!(SaveTarget::Local.message(&Ok(())), "已保存");
    assert_eq!(SaveTarget::Local.message(&Err("full".to_string())), "保存失败: full");
    assert_eq!(SaveTarget::NoPath.message(&Ok(())), "没有文件路径，请使用另存为");
}

#[test]
fn tabs_cycle_and_close() {
    let mut tabs = TabList::new("a");
    tabs.new_tab("b");
    tabs.new_tab("c");
    assert_eq!(tabs.tab_count(), 3);
    assert_eq!(tabs.active_index(), 2);
    tabs.next_tab();
    assert_eq!(*tabs.current_tab(), "a");
    tabs.prev_tab();
    assert_eq!(*tabs.current_tab(), "c");
    assert!(tabs.goto_tab(2));
    assert_eq!(*tabs.current_tab(), "b");
    assert!(tabs.close_current_tab("fresh"));
    assert_eq!(tabs.tab_count(), 2);
    assert!(!tabs.goto_tab(5));
}

#[test]
fn next_tab_then_prev_tab_comes_back() {
    let mut tabs = TabList::new("a");
    tabs.new_tab("b");
    tabs.new_tab("c");
    for i in 0..3 {
        tabs.switch_tab(i);
        tabs.next_tab();
        tabs.prev_tab();
        assert_eq!(tabs.active_index(), i);
        tabs.prev_tab();
        assert_eq!(tabs.active_index(), (i + 2) % 3);
        tabs.next_tab();
        assert_eq!(tabs.active_index(), i);
    }
    let mut one = TabList::new("only");
    assert!(!one.next_tab());
    assert!(!one.prev_tab());
    assert_eq!(*one.current_tab(), "only");
}
