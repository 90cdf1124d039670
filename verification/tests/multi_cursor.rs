use aether_win32::editor::{BufferSnapshot, Edit, EditorState};
use aether_win32::files::{opened_text_status, plan_load, LoadPlan};
use aether_win32::multi_cursor::BroadcastEdit;

fn snapshot(text: &str) -> BufferSnapshot {
    let lines: Vec<String> = text.split('\n').map(|l| l.to_string()).collect();
    let mut starts = Vec::new();
    let mut pos = 0;
    for l in &lines {
        starts.push(pos);
        pos += l.len() + 1;
    }
    BufferSnapshot { lines, line_starts: starts, bytes: text.as_bytes().to_vec() }
}

fn multi(r: BroadcastEdit) -> Vec<Edit> {
    match r {
        BroadcastEdit::Multi(es) => es,
        BroadcastEdit::Single(_) => panic!("expected edits at several cursors"),
    }
}

fn insert_of(e: &Edit) -> (usize, String) {
    match e {
        Edit::Insert { pos, text } => (*pos, text.clone()),
        Edit::Delete { .. } => panic!("expected an insertion"),
    }
}

fn delete_of(e: &Edit) -> (usize, usize) {
    match e {
        Edit::Delete { start, end } => (*start, *end),
        Edit::Insert { .. } => panic!("expected a deletion"),
    }
}

#[test]
fn typing_at_several_cursors_inserts_last_first() {
    let snap = snapshot("abc\ndef");
    let mut ed = EditorState::new();
    let mut cursors = vec![(0, 1), (1, 2)];
    let es = multi(ed.broadcast_insert_char(&mut cursors, 'é', &snap));
    assert_eq!(es.len(), 2);
    assert_eq!(insert_of(&es[0]), (6, "é".to_string()));
    assert_eq!(insert_of(&es[1]), (1, "é".to_string()));
    assert_eq!(cursors, vec![(0, 3), (1, 4)]);
    assert!(ed.is_dirty);
    assert_eq!(ed.buffer_version, 1);
    assert_eq!(ed.status_message, "已在 2 个位置插入");
    assert_eq!((ed.cursor_line, ed.cursor_col), (0, 0));
}

#[test]
fn typing_with_one_cursor_edits_at_the_editor_cursor() {
    let snap = snapshot("abc");
    let mut ed = EditorState::new();
    ed.cursor_col = 2;
    let mut cursors = vec![(0, 0)];
    match ed.broadcast_insert_char(&mut cursors, 'x', &snap) {
        BroadcastEdit::Single(Some(c)) => assert_eq!(insert_of(&c.edits[0]), (2, "x".to_string())),
        _ => panic!("expected a single change"),
    }
    assert_eq!(cursors, vec![(0, 0)]);
    assert_eq!(ed.cursor_col, 3);
    assert_eq!(ed.status_message, "已修改");
}

#[test]
fn cursor_past_line_end_inserts_at_line_end() {
    let snap = snapshot("ab\ncd");
    let mut ed = EditorState::new();
    let mut cursors = vec![(0, 9), (1, 0)];
    let es = multi(ed.broadcast_insert_char(&mut cursors, 'z', &snap));
    assert_eq!(insert_of(&es[0]), (3, "z".to_string()));
    assert_eq!(insert_of(&es[1]), (2, "z".to_string()));
    assert_eq!(cursors, vec![(0, 10), (1, 1)]);
}

#[test]
fn newline_at_several_cursors() {
    let snap = snapshot("ab\ncd");
    let mut ed = EditorState::new();
    let mut cursors = vec![(0, 1), (1, 1)];
    let es = multi(ed.broadcast_insert_newline(&mut cursors, &snap));
    assert_eq!(insert_of(&es[0]), (4, "\n".to_string()));
    assert_eq!(insert_of(&es[1]), (1, "\n".to_string()));
    assert_eq!(cursors, vec![(1, 0), (3, 0)]);
    assert!(ed.is_dirty);
    assert_eq!(ed.status_message, "就绪");
}

#[test]
fn typing_at_two_cursors_on_one_line_keeps_each_after_its_own_char() {
    let snap = snapshot("abcd");
    let mut ed = EditorState::new();
    let mut cursors = vec![(0, 1), (0, 3)];
    let es = multi(ed.broadcast_insert_char(&mut cursors, 'x', &snap));
    assert_eq!(insert_of(&es[0]), (3, "x".to_string()));
    assert_eq!(insert_of(&es[1]), (1, "x".to_string()));
    assert_eq!(cursors, vec![(0, 2), (0, 5)]);
}

#[test]
fn backspace_at_several_cursors() {
    let snap = snapshot("aé\nxy");
    let mut ed = EditorState::new();
    let mut cursors = vec![(0, 0), (0, 3), (1, 2)];
    let es = multi(ed.broadcast_delete_char(&mut cursors, &snap));
    assert_eq!(es.len(), 2);
    assert_eq!(delete_of(&es[0]), (5, 6));
    assert_eq!(delete_of(&es[1]), (1, 3));
    assert!(ed.is_dirty);
    assert_eq!(ed.buffer_version, 1);
    assert_eq!(cursors, vec![(0, 0), (0, 1), (1, 1)]);
}

#[test]
fn backspace_moves_back_over_the_whole_character() {
    let snap = snapshot("éxyz\nab");
    let mut ed = EditorState::new();
    let mut cursors = vec![(0, 2), (1, 1)];
    let es = multi(ed.broadcast_delete_char(&mut cursors, &snap));
    assert_eq!(delete_of(&es[0]), (6, 7));
    assert_eq!(delete_of(&es[1]), (0, 2));
    assert_eq!(cursors, vec![(0, 0), (1, 0)]);
}

#[test]
fn backspace_at_two_cursors_on_one_line() {
    let snap = snapshot("abc");
    let mut ed = EditorState::new();
    let mut cursors = vec![(0, 1), (0, 3)];
    let es = multi(ed.broadcast_delete_char(&mut cursors, &snap));
    assert_eq!(delete_of(&es[0]), (2, 3));
    assert_eq!(delete_of(&es[1]), (0, 1));
    assert_eq!(cursors, vec![(0, 0), (0, 1)]);
}

#[test]
fn opening_files_by_kind() {
    match plan_load(true, false, Some("png"), "C:\\p.png") {
        LoadPlan::Image { content, status } => {
            assert_eq!(content, "[图片预览] C:\\p.png");
            assert_eq!(status, "已打开图片: C:\\p.png");
        },
        _ => panic!("expected an image"),
    }
    match plan_load(false, false, Some("bin"), "C:\\a.bin") {
        LoadPlan::Unsupported { content, status } => {
            assert_eq!(content, "不支持的文件格式: .bin\n文件: C:\\a.bin");
            assert_eq!(status, "不支持的文件格式: .bin");
        },
        _ => panic!("expected an unsupported file"),
    }
    assert!(matches!(plan_load(false, true, Some("rs"), "a.rs"), LoadPlan::Text));
    assert_eq!(opened_text_status("a.rs", None), "已打开: a.rs");
    assert_eq!(opened_text_status("a.rs", Some("denied")), "打开文件失败: denied");
}
