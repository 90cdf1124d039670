use aether_win32::activity_bar::{ActivityBar, ActivityItem};
use aether_win32::ai_panel::{extract_code_blocks, AiMessage, AiPanel, AiQuickAction, AiRole, QuickActionStep};
use aether_win32::layout::{ActivityBarView, SidebarContent};
use aether_win32::settings::{AiSettings, SettingsField, SettingsPanel};
use aether_win32::ssh::{
    parse_port, CloneRepoDialog, DialogAction, RemoteDirEntry, RemoteFileTree, SshAuth,
    SshAuthType, SshConnectionDialog,
};
use aether_win32::status_bar::StatusBar;
use aether_win32::terminal::{detect_default_shell, TerminalPanel};
use aether_win32::theme::UiSettings;

#[test]
fn activity_bar_switches_views() {
    let mut bar = ActivityBar::new();
    assert_eq!(bar.items.len(), 5);
    assert_eq!(bar.active_view(), ActivityBarView::Explorer);
    bar.switch_to(4);
    assert_eq!(bar.active_view(), ActivityBarView::AiAssistant);
    assert!(bar.items[4].is_active);
    bar.switch_to_view(ActivityBarView::Terminal);
    assert_eq!(bar.active_index, 2);
    assert!(!bar.items[4].is_active);
    assert!(bar.items[2].is_active);
    assert_eq!(bar.items.iter().filter(|i| i.is_active).count(), 1);
    bar.switch_to(9);
    assert_eq!(bar.active_index, 2);
    let item = ActivityItem::new(ActivityBarView::Settings);
    assert_eq!(item.tooltip, "设置");
    assert!(!item.is_active);
}

#[test]
fn views_map_to_sidebar_contents() {
    assert_eq!(ActivityBarView::SourceControl.label(), "源代码管理");
    assert_eq!(ActivityBarView::AiAssistant.icon(), "🤖");
    assert_eq!(SidebarContent::from_view(ActivityBarView::Explorer), SidebarContent::FileTree);
    assert!(SidebarContent::from_view(ActivityBarView::AiAssistant).is_ai_assistant());
    assert!(!SidebarContent::RemoteFileTree.is_ai_assistant());
}

#[test]
fn quick_action_prompt_wraps_code() {
    let p = AiQuickAction::Fix.build_prompt("let x = 1;");
    assert_eq!(p, "以下代码可能有问题，请分析并修复，用中文说明问题：\n\n```\nlet x = 1;\n```");
    assert_eq!(AiQuickAction::Doc.label(), "生成文档");
    assert_eq!(AiQuickAction::Test.icon(), "🧪");
    assert_eq!(AiPanel::quick_actions().len(), 8);
    assert_eq!(AiPanel::quick_actions()[0], AiQuickAction::Explain);
}

#[test]
fn send_message_refuses_empty_input() {
    let mut panel = AiPanel::new();
    assert_eq!(panel.messages.len(), 1);
    match panel.send_message() {
        Err(e) => assert_eq!(e, "输入为空"),
        Ok(_) => panic!("empty input must be refused"),
    }
    assert_eq!(panel.messages.len(), 1);
}

#[test]
fn send_message_then_reply_is_recorded() {
    let mut panel = AiPanel::new();
    panel.input_char('h');
    panel.input_char('i');
    let convo = panel.send_message().expect("a conversation");
    assert_eq!(convo.len(), 1);
    assert_eq!(convo[0].role, AiRole::User);
    assert_eq!(convo[0].content, "hi");
    assert!(panel.input.is_empty());
    assert!(panel.is_generating);
    let r = panel.receive_response(Ok("```\nfn a() {}\n```".to_string()));
    assert_eq!(r, Ok("```\nfn a() {}\n```".to_string()));
    assert!(!panel.is_generating);
    assert_eq!(panel.last_assistant_text(), Some("fn a() {}".to_string()));
    assert_eq!(panel.extract_last_code_block(), Some("fn a() {}".to_string()));
}

#[test]
fn failed_reply_is_shown_as_error() {
    let mut panel = AiPanel::new();
    let r = panel.receive_response(Err("timeout".to_string()));
    assert_eq!(r, Err("请求失败: timeout".to_string()));
    assert_eq!(panel.messages.last().map(|m: &AiMessage| m.content.clone()), Some("请求失败: timeout".to_string()));
}

#[test]
fn quick_action_on_blank_code_answers_locally() {
    let mut panel = AiPanel::new();
    match panel.send_quick_action(AiQuickAction::Explain, "  \n ") {
        QuickActionStep::Answered(m) => assert_eq!(m, "请先打开文件或输入代码，再使用 AI 快捷操作。"),
        QuickActionStep::Request(_) => panic!("blank code must not be sent"),
    }
    match panel.send_quick_action(AiQuickAction::Explain, "x") {
        QuickActionStep::Request(p) => assert!(p.ends_with("x\n```")),
        QuickActionStep::Answered(_) => panic!("code must be sent"),
    }
    assert_eq!(panel.messages.last().map(|m: &AiMessage| m.content.clone()), Some("[解释代码]\nx".to_string()));
}

#[test]
fn code_blocks_are_joined() {
    let text = "intro\n```rust\na\nb\n```\nmid\n  ```\nc\n```\n```\nopen";
    assert_eq!(extract_code_blocks(text), Some("a\nb\nc".to_string()));
    assert_eq!(extract_code_blocks("no code"), None);
    assert_eq!(extract_code_blocks("```\n```"), None);
}

#[test]
fn clear_history_leaves_greeting() {
    let mut panel = AiPanel::new();
    panel.add_user_message("q".to_string());
    panel.add_assistant_message("a".to_string());
    panel.clear_history();
    assert_eq!(panel.messages.len(), 1);
    assert_eq!(panel.messages[0].role, AiRole::System);
    assert_eq!(panel.last_assistant_text(), None);
    panel.input_char('x');
    panel.backspace();
    panel.backspace();
    assert!(panel.input.is_empty());
}

#[test]
fn settings_fields_cycle() {
    let mut s = SettingsPanel::new();
    assert_eq!(s.provider, "openai");
    assert_eq!(s.model, "gpt-4");
    s.next_field();
    assert_eq!(s.active_field, Some(SettingsField::Provider));
    s.prev_field();
    assert_eq!(s.active_field, None);
    s.prev_field();
    assert_eq!(s.active_field, Some(SettingsField::Model));
    s.input_char('!');
    assert_eq!(s.model, "gpt-4!");
    s.backspace();
    assert_eq!(s.model, "gpt-4");
    for _ in 0..5 {
        s.next_field();
    }
    assert_eq!(s.active_field, Some(SettingsField::Model));
}

#[test]
fn settings_round_trip() {
    let cfg = AiSettings {
        provider: "p".to_string(),
        api_key: "k".to_string(),
        base_url: None,
        model: "m".to_string(),
    };
    let s = SettingsPanel::from_settings(&cfg);
    assert_eq!(s.base_url, "");
    let back = s.to_ai_settings();
    assert_eq!(back.provider, "p");
    assert_eq!(back.api_key, "k");
    assert_eq!(back.base_url, None);
    let mut s2 = SettingsPanel::new();
    s2.base_url = "http://h".to_string();
    assert_eq!(s2.to_ai_settings().base_url, Some("http://h".to_string()));
}

#[test]
fn api_key_is_masked() {
    let mut s = SettingsPanel::new();
    s.api_key = "abc".to_string();
    assert_eq!(s.masked_api_key(), "•••");
    s.api_key = "sk-123456".to_string();
    assert_eq!(s.masked_api_key(), "•••••3456");
    s.api_key = "é1234".to_string();
    assert_eq!(s.masked_api_key(), "•1234");
    s.api_key = "aaaaaé".to_string();
    assert_eq!(s.masked_api_key(), "••aaaé");
    s.api_key = "éééé".to_string();
    assert_eq!(s.masked_api_key(), "••••");
}

#[test]
fn status_bar_labels() {
    let mut bar = StatusBar::new();
    assert_eq!(bar.sections.len(), 6);
    assert_eq!(bar.sections[2].label, "Ln 1, Col 1");
    assert!(!bar.sections[2].clickable);
    bar.update_cursor_position(9, 0);
    assert_eq!(bar.sections[2].label, "Ln 10, Col 1");
    bar.update_git_branch(Some("main"));
    assert_eq!(bar.sections[5].label, "🌿 main");
    bar.update_git_branch(None);
    assert_eq!(bar.sections[5].label, "");
    bar.update_language("Rust");
    assert_eq!(bar.sections[4].label, "Rust");
    bar.update_status("ok");
    assert_eq!(bar.sections[0].label, "ok");
}

#[test]
fn terminal_keeps_last_lines() {
    let mut t = TerminalPanel::new(".".to_string());
    t.max_lines = 2;
    t.push_output("a\nb\r\nc\n");
    assert_eq!(t.visible_output(), vec!["b".to_string(), "c".to_string()]);
    t.record_start("cmd.exe");
    assert!(t.running);
    assert_eq!(t.visible_output(), vec!["c".to_string(), "终端已启动: cmd.exe".to_string()]);
    t.clear();
    assert!(t.visible_output().is_empty());
}

#[test]
fn terminal_input_line() {
    let mut t = TerminalPanel::new("C:\\".to_string());
    t.type_char('d');
    t.type_char('i');
    t.type_char('r');
    t.backspace_input();
    assert_eq!(t.input_line, "di");
    assert_eq!(t.cursor_pos, 2);
    t.submit_input();
    assert_eq!(t.visible_output(), vec!["> di".to_string()]);
    assert!(t.input_line.is_empty());
    assert_eq!(t.cursor_pos, 0);
    t.toggle();
    assert!(t.visible);
    t.stop();
    assert!(!t.running);
}

#[test]
fn default_shell_preference() {
    assert_eq!(detect_default_shell(true, true), "pwsh.exe");
    assert_eq!(detect_default_shell(false, true), "powershell.exe");
    assert_eq!(detect_default_shell(false, false), "cmd.exe");
}

#[test]
fn ui_settings_default_to_glass() {
    assert!(UiSettings::default().glass_enabled);
}

#[test]
fn ports_parse_like_u16() {
    assert_eq!(parse_port("22"), Some(22));
    assert_eq!(parse_port("+2222"), Some(2222));
    assert_eq!(parse_port("0065535"), Some(65535));
    assert_eq!(parse_port("65536"), None);
    assert_eq!(parse_port(""), None);
    assert_eq!(parse_port("+"), None);
    assert_eq!(parse_port("-1"), None);
    assert_eq!(parse_port("8a"), None);
    assert_eq!(parse_port(" 22"), None);
}

#[test]
fn ssh_dialog_builds_config() {
    let mut d = SshConnectionDialog::new();
    assert!(d.to_config().is_none());
    for c in "host".chars() {
        d.handle_key(c);
    }
    d.next_field();
    d.handle_backspace();
    d.handle_backspace();
    d.handle_key('x');
    d.handle_key('8');
    d.next_field();
    for c in "me".chars() {
        d.handle_key(c);
    }
    d.auth_type = SshAuthType::Key;
    d.next_field();
    for c in "id".chars() {
        d.handle_key(c);
    }
    let cfg = d.to_config().expect("a config");
    assert_eq!(cfg.host, "host");
    assert_eq!(cfg.port, 8);
    assert_eq!(cfg.username, "me");
    match cfg.auth {
        SshAuth::Key { path, passphrase } => {
            assert_eq!(path, "id");
            assert_eq!(passphrase, None);
        }
        _ => panic!("expected key authentication"),
    }
    d.next_field();
    assert_eq!(d.focus_field, 4);
    d.next_field();
    assert_eq!(d.focus_field, 0);
    d.port = "99999".to_string();
    assert_eq!(d.to_config().expect("a config").port, 22);
    d.reset();
    assert_eq!(d.port, "22");
    assert!(d.host.is_empty());
    assert_eq!(d.auth_type, SshAuthType::Password);
}

#[test]
fn dialog_clicks() {
    let mut d = SshConnectionDialog::new();
    assert_eq!(d.click(true, true), DialogAction::Connect);
    assert_eq!(d.hover_button, Some(0));
    assert_eq!(d.click(false, true), DialogAction::Cancel);
    assert_eq!(d.hover_button, Some(1));
    assert_eq!(d.click(false, false), DialogAction::NoAction);
    assert_eq!(d.hover_button, None);
    let mut c = CloneRepoDialog::new();
    c.handle_key('u');
    c.handle_key('r');
    c.handle_backspace();
    assert_eq!(c.url, "u");
    assert_eq!(c.click(false, true), DialogAction::Cancel);
    c.reset();
    assert!(c.url.is_empty());
    assert!(c.target_path.is_none());
}

#[test]
fn remote_listing_sorted_directories_first() {
    let entries = vec![
        RemoteDirEntry { name: "b.txt".to_string(), is_dir: false },
        RemoteDirEntry { name: "src".to_string(), is_dir: true },
        RemoteDirEntry { name: "a.txt".to_string(), is_dir: false },
        RemoteDirEntry { name: "Docs".to_string(), is_dir: true },
    ];
    let tree = RemoteFileTree::from_entries("/home", entries);
    let names: Vec<&str> = tree.nodes.iter().map(|n| n.name.as_str()).collect();
    assert_eq!(names, vec!["Docs", "src", "a.txt", "b.txt"]);
    assert_eq!(tree.nodes[0].path, "/home/Docs");
    assert_eq!(tree.root_path, "/home");
    let root = RemoteFileTree::from_entries("/", vec![RemoteDirEntry { name: "etc".to_string(), is_dir: true }]);
    assert_eq!(root.nodes[0].path, "/etc");
    assert_eq!(RemoteFileTree::new().root_path, "/");
}

#[test]
fn remote_directories_toggle() {
    let mut tree = RemoteFileTree::from_entries(
        "/",
        vec![
            RemoteDirEntry { name: "d".to_string(), is_dir: true },
            RemoteDirEntry { name: "f".to_string(), is_dir: false },
        ],
    );
    tree.toggle_node(0);
    assert!(tree.nodes[0].is_expanded);
    tree.toggle_node(1);
    assert!(!tree.nodes[1].is_expanded);
    tree.toggle_node(0);
    assert!(!tree.nodes[0].is_expanded);
}

#[test]
fn written_ports_read_back() {
    for p in [0u16, 7, 22, 80, 443, 8080, 65535] {
        assert_eq!(parse_port(&p.to_string()), Some(p));
    }
}

#[test]
fn terminal_keeps_everything_while_there_is_room() {
    let mut t = TerminalPanel::new(".".to_string());
    t.push_output("one\ntwo");
    t.push_output("three\n");
    assert_eq!(t.visible_output(), vec!["one".to_string(), "two".to_string(), "three".to_string()]);
}

#[test]
fn each_view_has_its_own_sidebar() {
    let views = [
        ActivityBarView::Explorer,
        ActivityBarView::SourceControl,
        ActivityBarView::Terminal,
        ActivityBarView::Settings,
        ActivityBarView::AiAssistant,
    ];
    for (i, a) in views.iter().enumerate() {
        for (j, b) in views.iter().enumerate() {
            assert_eq!(SidebarContent::from_view(*a) == SidebarContent::from_view(*b), i == j);
        }
        assert_ne!(SidebarContent::from_view(*a), SidebarContent::RemoteFileTree);
    }
}

#[test]
fn last_reply_as_plain_text_drops_fence_lines() {
    let mut panel = AiPanel::new();
    panel.receive_response(Ok("Try this:\n```rust\nlet x = 1;\n```\nDone.".to_string()))
        .expect("a reply");
    assert_eq!(panel.last_assistant_text(), Some("Try this:\nlet x = 1;\nDone.".to_string()));
}
