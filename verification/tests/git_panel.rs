use aether_win32::git::{
    diff_text, get_branch, status_from_codes, GitCommand, GitFileStatus, GitIntegration,
    GitOutput, GitPanelOutcome, GitPanelTarget, GitRepository,
};

const STATUS: &str = "M  staged.rs\n M work.rs\nA  new.rs\n?? notes.txt\nMM both.rs\n";

fn repo() -> GitRepository {
    GitRepository::detect(true, Some("ref: refs/heads/feature/x\n"), Some(STATUS))
}

#[test]
fn detect_reads_branch_and_status() {
    let r = repo();
    assert!(r.is_repo);
    assert_eq!(r.branch, Some("feature/x".to_string()));
    assert_eq!(r.staged_files, vec!["staged.rs", "new.rs", "both.rs"]);
    assert_eq!(r.unstaged_files, vec!["work.rs", "both.rs"]);
    assert_eq!(r.untracked_files, vec!["notes.txt"]);
    assert!(r.has_changes);
    assert_eq!(r.file_status("new.rs"), GitFileStatus::Added);
    assert_eq!(r.file_status("work.rs"), GitFileStatus::Modified);
    assert_eq!(r.file_status("notes.txt"), GitFileStatus::Untracked);
    assert_eq!(r.file_status("missing.rs"), GitFileStatus::Unmodified);
    assert_eq!(GitRepository::status_icon(GitFileStatus::Modified), "M");
    assert_eq!(GitRepository::status_icon(GitFileStatus::Unmodified), "");
}

#[test]
fn no_git_directory_means_no_repository() {
    let r = GitRepository::detect(false, Some("ref: refs/heads/main"), Some(STATUS));
    assert!(!r.is_repo);
    assert!(r.branch.is_none());
    assert!(r.staged_files.is_empty());
    let mut r2 = repo();
    r2.refresh(false, None, None);
    assert!(!r2.is_repo);
}

#[test]
fn refreshing_twice_with_the_same_reads_changes_nothing() {
    let mut r = GitRepository::detect(false, None, None);
    r.refresh(true, Some("ref: refs/heads/main"), Some(STATUS));
    let once = (r.is_repo, r.branch.clone(), r.staged_files.clone(), r.unstaged_files.clone(),
        r.untracked_files.clone(), r.has_changes, r.file_status.clone());
    r.refresh(true, Some("ref: refs/heads/main"), Some(STATUS));
    let twice = (r.is_repo, r.branch.clone(), r.staged_files.clone(), r.unstaged_files.clone(),
        r.untracked_files.clone(), r.has_changes, r.file_status.clone());
    assert_eq!(once, twice);
    assert_eq!(r.branch, Some("main".to_string()));
}

#[test]
fn detached_head_shows_short_hash() {
    assert_eq!(get_branch("0123456789abcdef\n"), "0123456");
    assert_eq!(get_branch("ref: refs/heads/main"), "main");
}

#[test]
fn status_letters() {
    assert_eq!(status_from_codes('A', 'M'), GitFileStatus::Added);
    assert_eq!(status_from_codes(' ', 'D'), GitFileStatus::Deleted);
    assert_eq!(status_from_codes('R', 'M'), GitFileStatus::Renamed);
    assert_eq!(status_from_codes('U', 'U'), GitFileStatus::Conflict);
    assert_eq!(status_from_codes('M', 'D'), GitFileStatus::Unmodified);
    assert_eq!(status_from_codes(' ', 'M'), GitFileStatus::Modified);
    assert_eq!(status_from_codes('M', ' '), GitFileStatus::Modified);
}

#[test]
fn command_arguments() {
    assert_eq!(GitCommand::add("a.rs"), vec!["add", "a.rs"]);
    assert_eq!(GitCommand::add_all(), vec!["add", "."]);
    assert_eq!(GitCommand::unstage("a.rs"), vec!["reset", "HEAD", "a.rs"]);
    assert_eq!(GitCommand::commit("msg"), vec!["commit", "-m", "msg"]);
    assert_eq!(GitCommand::log(15), vec!["log", "--oneline", "-n", "15"]);
    assert_eq!(GitCommand::clone("u", "p"), vec!["clone", "u", "p"]);
    assert_eq!(GitCommand::create_branch("b"), vec!["checkout", "-b", "b"]);
}

#[test]
fn command_output_parsing() {
    let ok = GitOutput { stdout: "  main \n\ndev\n".to_string(), stderr: String::new(), success: true };
    assert_eq!(GitCommand::parse_branches(&ok), vec!["main", "dev"]);
    assert_eq!(GitCommand::parse_log(&ok), vec!["  main ", "", "dev"]);
    let bad = GitOutput { stdout: "x".to_string(), stderr: "fatal".to_string(), success: false };
    assert!(GitCommand::parse_branches(&bad).is_empty());
    assert_eq!(GitCommand::result(bad), Err("fatal".to_string()));
}

#[test]
fn integration_needs_a_folder() {
    let mut g = GitIntegration::new();
    match g.stage_file("a") {
        Err(e) => assert_eq!(e, "未打开文件夹"),
        Ok(_) => panic!("no folder is open"),
    }
    assert!(g.branches().is_none());
    g.detect("/w", repo());
    let run = g.commit("fix").expect("a command");
    assert_eq!(run.folder, "/w");
    assert_eq!(run.args, vec!["commit", "-m", "fix"]);
    assert_eq!(g.current_branch_name(), Some("feature/x".to_string()));
    let staged = g.staged_files();
    assert_eq!(staged[0], ("staged.rs".to_string(), GitFileStatus::Modified));
    assert_eq!(g.untracked_files(), vec!["notes.txt"]);
    let r = g.finish(Ok("done".to_string()), repo());
    assert_eq!(r, Ok("done".to_string()));
    assert_eq!(g.last_result, Some(Ok("done".to_string())));
}

#[test]
fn panel_clicks() {
    let mut g = GitIntegration::new();
    assert!(matches!(g.panel_click(GitPanelTarget::RefreshButton), GitPanelOutcome::NotHandled));
    g.detect("/w", repo());
    assert!(matches!(g.panel_click(GitPanelTarget::CommitButton), GitPanelOutcome::Handled));
    g.commit_message = "wip".to_string();
    match g.panel_click(GitPanelTarget::CommitButton) {
        GitPanelOutcome::Run(run) => assert_eq!(run.args, vec!["commit", "-m", "wip"]),
        _ => panic!("expected a commit"),
    }
    assert!(g.commit_message.is_empty());
    match g.panel_click(GitPanelTarget::Staged { index: 1, on_icon: true }) {
        GitPanelOutcome::Run(run) => assert_eq!(run.args, vec!["reset", "HEAD", "new.rs"]),
        _ => panic!("expected an unstage"),
    }
    match g.panel_click(GitPanelTarget::Unstaged { index: 0, on_icon: false }) {
        GitPanelOutcome::ShowDiff(run) => assert_eq!(run.args, vec!["diff", "--", "work.rs"]),
        _ => panic!("expected a diff"),
    }
    assert_eq!(g.selected_file, Some("work.rs".to_string()));
    match g.panel_click(GitPanelTarget::Staged { index: 0, on_icon: false }) {
        GitPanelOutcome::ShowDiff(run) => {
            assert_eq!(run.args, vec!["diff", "--cached", "--", "staged.rs"])
        }
        _ => panic!("expected a staged diff"),
    }
    match g.panel_click(GitPanelTarget::Untracked { index: 0, on_icon: true }) {
        GitPanelOutcome::Run(run) => assert_eq!(run.args, vec!["add", "notes.txt"]),
        _ => panic!("expected a stage"),
    }
    assert!(matches!(g.panel_click(GitPanelTarget::Untracked { index: 0, on_icon: false }), GitPanelOutcome::Handled));
    assert_eq!(g.selected_file, Some("notes.txt".to_string()));
    assert!(matches!(g.panel_click(GitPanelTarget::Untracked { index: 5, on_icon: false }), GitPanelOutcome::NotHandled));
    assert!(matches!(g.panel_click(GitPanelTarget::RefreshButton), GitPanelOutcome::Refresh));
}

#[test]
fn empty_diff_is_explained() {
    assert_eq!(diff_text("", "a.rs"), "// 无差异: a.rs\n");
    assert_eq!(diff_text("+x\n", "a.rs"), "+x\n");
}
