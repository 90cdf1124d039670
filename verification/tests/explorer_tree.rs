use aether_win32::file_tree::{FileKind, FileTree, TreeClick};
use aether_win32::listing::{entry_before, sort_entries, DirEntry};

fn sample_tree() -> FileTree {
    // src/ (lib.rs, bin/ (main.rs)), docs/ (a.md), Cargo.toml
    let mut t = FileTree::new();
    t.add_node("src", FileKind::Directory, 0);
    t.add_node("lib.rs", FileKind::File, 1);
    t.add_node("bin", FileKind::Directory, 1);
    t.add_node("main.rs", FileKind::File, 2);
    t.add_node("docs", FileKind::Directory, 0);
    t.add_node("a.md", FileKind::File, 1);
    t.add_node("Cargo.toml", FileKind::File, 0);
    t
}

#[test]
fn collapsed_tree_shows_top_level_only() {
    let t = sample_tree();
    assert_eq!(t.len(), 7);
    assert_eq!(t.visible_node_at(0), Some(0));
    assert_eq!(t.visible_node_at(1), Some(4));
    assert_eq!(t.visible_node_at(2), Some(6));
    assert_eq!(t.visible_node_at(3), None);
}

#[test]
fn expanding_shows_children_in_order() {
    let mut t = sample_tree();
    assert_eq!(t.click_row(0), TreeClick::Toggled(0));
    assert_eq!(t.visible_node_at(1), Some(1));
    assert_eq!(t.visible_node_at(2), Some(2));
    assert_eq!(t.visible_node_at(3), Some(4));
    assert_eq!(t.click_row(2), TreeClick::Toggled(2));
    assert_eq!(t.visible_node_at(3), Some(3));
    assert_eq!(t.click_row(3), TreeClick::OpenFile(3));
    assert_eq!(t.click_row(9), TreeClick::Missed);
    assert_eq!(t.click_row(0), TreeClick::Toggled(0));
    assert_eq!(t.visible_node_at(1), Some(4));
}

#[test]
fn node_paths_walk_up_the_tree() {
    let t = sample_tree();
    assert_eq!(t.node_path(3), vec!["src", "bin", "main.rs"]);
    assert_eq!(t.node_path(5), vec!["docs", "a.md"]);
    assert_eq!(t.node_path(6), vec!["Cargo.toml"]);
}

#[test]
fn paths_are_followed_from_the_first_top_level_node() {
    let t = sample_tree();
    let comps = |v: &[&str]| v.iter().map(|s| s.to_string()).collect::<Vec<String>>();
    assert_eq!(t.find_node_by_path(&comps(&["bin", "main.rs"])), Some(3));
    assert_eq!(t.find_node_by_path(&comps(&["lib.rs"])), Some(1));
    assert_eq!(t.find_node_by_path(&comps(&["a.md"])), None);
    assert_eq!(t.find_node_by_path(&comps(&[])), None);
    assert_eq!(FileTree::new().find_node_by_path(&comps(&["x"])), None);
}

#[test]
fn listing_order_puts_directories_first() {
    let entries = vec![
        DirEntry { name: "zeta".to_string(), is_dir: false },
        DirEntry { name: "beta".to_string(), is_dir: true },
        DirEntry { name: "Alpha".to_string(), is_dir: false },
        DirEntry { name: "alpha".to_string(), is_dir: true },
    ];
    let sorted: Vec<(String, bool)> = sort_entries(entries).into_iter().map(|e| (e.name, e.is_dir)).collect();
    assert_eq!(
        sorted,
        vec![
            ("alpha".to_string(), true),
            ("beta".to_string(), true),
            ("Alpha".to_string(), false),
            ("zeta".to_string(), false),
        ]
    );
    assert!(entry_before("b", true, "a", false));
    assert!(!entry_before("a", false, "a", false));
    assert!(entry_before("ab", false, "abc", false));
}
