use rune::app::{AppMode, BranchInfo, ChangedFile, CommitInfo, FileDiff, FileStatus, Hunk, PanelFocus, RuneApp};
use rune::keybind::{map_key, Action, Event, KeyCode, KeyEvent, KeyEventKind, MouseEvent, MouseEventKind};
use rune::tui::geometry::Area;
use rune::tui::panels::dialog::{DialogState, DialogType};
use rune::tui::{
    begin_load_diff, finish_load_diff, Screen, handle_action, handle_dialog_event, handle_event, handle_filter_event,
    ends_session_on_failure, handle_mouse, load_commit_diff, open_branch_picker, refresh_state, set_commits, Step,
};

fn file(path: &str, staged: bool) -> ChangedFile {
    ChangedFile { path: path.to_string(), status: FileStatus::Modified, staged }
}

fn app_with(paths: &[&str]) -> RuneApp {
    let mut app = RuneApp::new("/repo".to_string());
    app.changed_files = paths.iter().map(|p| file(p, false)).collect();
    app
}

fn files_screen() -> Screen {
    Screen::Files {
        tree_area: Area { x: 0, y: 0, width: 30, height: 50 },
        diff_area: Area { x: 30, y: 0, width: 70, height: 50 },
        status_line: String::new(),
        status_area: Area { x: 0, y: 49, width: 100, height: 1 },
    }
}

fn log_screen() -> Screen {
    Screen::History {
        log_area: Area { x: 0, y: 0, width: 40, height: 50 },
        diff_area: Area { x: 40, y: 0, width: 60, height: 50 },
    }
}

fn mouse(kind: MouseEventKind, column: u16, row: u16) -> MouseEvent {
    MouseEvent { kind, column, row }
}

fn key(code: KeyCode) -> Event {
    Event::Key(KeyEvent { code, ctrl: false, kind: KeyEventKind::Press })
}

fn commit(id: &str) -> CommitInfo {
    CommitInfo { id: id.to_string(), author: "a".to_string(), message: "m".to_string(), time: 0 }
}

fn diff_with_hunks(n: usize) -> FileDiff {
    FileDiff {
        old_path: "p".to_string(),
        new_path: "p".to_string(),
        hunks: (0..n).map(|_| Hunk { header: "@@".to_string(), lines: Vec::new() }).collect(),
    }
}

#[test]
fn key_bindings() {
    let k = |code| map_key(KeyEvent { code, ctrl: false, kind: KeyEventKind::Press });
    assert_eq!(k(KeyCode::Char('q')), Some(Action::Quit));
    assert_eq!(k(KeyCode::Esc), Some(Action::Quit));
    assert_eq!(k(KeyCode::Char('k')), Some(Action::Up));
    assert_eq!(k(KeyCode::Home), Some(Action::Up));
    assert_eq!(k(KeyCode::End), Some(Action::Down));
    assert_eq!(k(KeyCode::PageDown), Some(Action::ScrollDown));
    assert_eq!(k(KeyCode::Char('S')), Some(Action::StageAll));
    assert_eq!(k(KeyCode::Char('c')), Some(Action::Commit));
    assert_eq!(k(KeyCode::Char('h')), Some(Action::ScrollLeft));
    assert_eq!(k(KeyCode::Right), Some(Action::ScrollRight));
    assert_eq!(k(KeyCode::Char('/')), Some(Action::Filter));
    assert_eq!(k(KeyCode::Char('x')), None);
    assert_eq!(k(KeyCode::Other), None);
    assert_eq!(
        map_key(KeyEvent { code: KeyCode::Char('c'), ctrl: true, kind: KeyEventKind::Release }),
        Some(Action::Quit)
    );
}

#[test]
fn new_app_starts_empty() {
    let app = RuneApp::new("/r".to_string());
    assert_eq!(app.repo_path, "/r");
    assert_eq!(app.mode, AppMode::Tree);
    assert_eq!(app.focus, PanelFocus::Tree);
    assert!(app.changed_files.is_empty() && app.commits.is_empty() && app.branches.is_empty());
    assert!(app.diff.is_none() && !app.show_help && !app.filter_active);
    assert_eq!((app.selected_file, app.diff_scroll, app.selected_commit), (0, 0, 0));
}

#[test]
fn filter_matches_lowercased_paths_while_typed() {
    let mut app = app_with(&["src/Main.rs", "README.md", "tests/main_test.rs"]);
    assert_eq!(app.filtered_files().len(), 3);
    app.filter_active = true;
    app.filter_text = "MAIN".to_string();
    let shown: Vec<&str> = app.filtered_files().iter().map(|f| f.path.as_str()).collect();
    assert_eq!(shown, vec!["src/Main.rs", "tests/main_test.rs"]);
    app.selected_file = 1;
    assert_eq!(app.selected_file_entry().map(|f| f.path.as_str()), Some("tests/main_test.rs"));
    app.selected_file = 2;
    assert!(app.selected_file_entry().is_none());
    app.filter_active = false;
    assert_eq!(app.filtered_files().len(), 3);
}

#[test]
fn moving_the_selection_loads_the_diff() {
    let mut app = app_with(&["a", "b"]);
    let mut dialog = None;
    let out = handle_action(Action::Down, &mut app, &mut dialog);
    assert_eq!(app.selected_file, 1);
    assert!(matches!(out.steps.as_slice(), [Step::LoadDiff]));
    let out = handle_action(Action::Down, &mut app, &mut dialog);
    assert_eq!(app.selected_file, 1);
    assert!(out.steps.is_empty());
    handle_action(Action::Up, &mut app, &mut dialog);
    assert_eq!(app.selected_file, 0);
    let out = handle_action(Action::Up, &mut app, &mut dialog);
    assert!(out.steps.is_empty() && !out.quit);
}

#[test]
fn commit_log_navigation_and_toggle() {
    let mut app = app_with(&[]);
    let mut dialog = None;
    let out = handle_action(Action::CommitLog, &mut app, &mut dialog);
    assert_eq!(app.mode, AppMode::CommitLog);
    assert!(matches!(out.steps.as_slice(), [Step::LoadCommitHistory { max_count: 100 }]));
    set_commits(&mut app, vec![commit(&"1".repeat(40)), commit(&"2".repeat(40))]);
    handle_action(Action::Down, &mut app, &mut dialog);
    handle_action(Action::Down, &mut app, &mut dialog);
    assert_eq!(app.selected_commit, 1);
    let out = handle_action(Action::Enter, &mut app, &mut dialog);
    match out.steps.as_slice() {
        [Step::LoadCommitDiff { commit_id }] => assert_eq!(commit_id, &"2".repeat(40)),
        other => panic!("unexpected steps {:?}", other),
    }
    handle_action(Action::CommitLog, &mut app, &mut dialog);
    assert_eq!(app.mode, AppMode::Tree);
}

#[test]
fn help_back_tab_and_quit() {
    let mut app = app_with(&["a"]);
    let mut dialog = None;
    handle_action(Action::Help, &mut app, &mut dialog);
    assert!(app.show_help);
    handle_action(Action::Help, &mut app, &mut dialog);
    assert!(!app.show_help);
    let out = handle_action(Action::Tab, &mut app, &mut dialog);
    assert_eq!(app.focus, PanelFocus::Diff);
    assert!(matches!(out.steps.as_slice(), [Step::LoadDiff]));
    handle_action(Action::Tab, &mut app, &mut dialog);
    assert_eq!(app.focus, PanelFocus::Tree);
    let out = handle_action(Action::Enter, &mut app, &mut dialog);
    assert_eq!((app.mode, app.focus), (AppMode::Diff, PanelFocus::Diff));
    assert!(matches!(out.steps.as_slice(), [Step::LoadDiff]));
    app.diff = Some(diff_with_hunks(1));
    handle_action(Action::Back, &mut app, &mut dialog);
    assert_eq!((app.mode, app.focus), (AppMode::Tree, PanelFocus::Tree));
    assert!(app.diff.is_none());
    assert!(handle_action(Action::Quit, &mut app, &mut dialog).quit);
}

#[test]
fn scrolling_saturates_and_caps() {
    let mut app = app_with(&[]);
    let mut dialog = None;
    handle_action(Action::ScrollUp, &mut app, &mut dialog);
    assert_eq!(app.diff_scroll, 0);
    app.diff_scroll = 9998;
    handle_action(Action::ScrollDown, &mut app, &mut dialog);
    assert_eq!(app.diff_scroll, 10003);
    handle_action(Action::ScrollDown, &mut app, &mut dialog);
    assert_eq!(app.diff_scroll, 10003);
    handle_action(Action::ScrollUp, &mut app, &mut dialog);
    assert_eq!(app.diff_scroll, 9998);
    handle_action(Action::ScrollLeft, &mut app, &mut dialog);
    assert_eq!(app.diff_h_scroll, 0);
}

#[test]
fn stage_toggle_asks_for_the_opposite() {
    let mut app = app_with(&[]);
    app.changed_files = vec![file("x", true), file("y", false)];
    let mut dialog = None;
    let out = handle_action(Action::StageToggle, &mut app, &mut dialog);
    assert!(matches!(out.steps.as_slice(), [Step::UnstageFile { path }, Step::Refresh, Step::LoadDiff] if path == "x"));
    app.selected_file = 1;
    let out = handle_action(Action::StageToggle, &mut app, &mut dialog);
    assert!(matches!(out.steps.as_slice(), [Step::StageFile { path }, Step::Refresh, Step::LoadDiff] if path == "y"));
    let out = handle_action(Action::StageAll, &mut app, &mut dialog);
    assert!(matches!(out.steps.as_slice(), [Step::StageAll, Step::Refresh]));
    let out = handle_action(Action::UnstageAll, &mut app, &mut dialog);
    assert!(matches!(out.steps.as_slice(), [Step::UnstageAll, Step::Refresh]));
    let empty = &mut app_with(&[]);
    assert!(handle_action(Action::StageToggle, empty, &mut dialog).steps.is_empty());
}

#[test]
fn commit_dialog_trims_the_message() {
    let mut app = app_with(&[]);
    let mut dialog = None;
    handle_action(Action::Commit, &mut app, &mut dialog);
    assert_eq!(dialog.as_ref().map(|d| d.dialog_type), Some(DialogType::CommitMessage));
    for c in "  fix bugx".chars() {
        handle_event(key(KeyCode::Char(c)), &mut app, &mut dialog, &files_screen());
    }
    handle_event(key(KeyCode::Backspace), &mut app, &mut dialog, &files_screen());
    handle_event(key(KeyCode::Char(' ')), &mut app, &mut dialog, &files_screen());
    assert_eq!(dialog.as_ref().unwrap().input, "  fix bug ");
    let out = handle_event(key(KeyCode::Enter), &mut app, &mut dialog, &files_screen());
    assert!(dialog.is_none());
    assert!(matches!(out.steps.as_slice(), [Step::CreateCommit { message }, Step::Refresh] if message == "fix bug"));
}

#[test]
fn blank_commit_message_or_escape_commits_nothing() {
    let mut d = DialogState::new_commit();
    let out = handle_dialog_event(key(KeyCode::Char(' ')), &mut d);
    assert!(!out.close);
    let out = handle_dialog_event(key(KeyCode::Enter), &mut d);
    assert!(out.close && out.steps.is_empty());
    let mut d = DialogState::new_commit();
    handle_dialog_event(key(KeyCode::Char('a')), &mut d);
    let out = handle_dialog_event(key(KeyCode::Esc), &mut d);
    assert!(out.close && out.steps.is_empty());
    let release = Event::Key(KeyEvent { code: KeyCode::Esc, ctrl: false, kind: KeyEventKind::Release });
    assert!(!handle_dialog_event(release, &mut d).close);
}

#[test]
fn branch_picker_moves_within_the_list() {
    let mut d = DialogState::new_branch(vec!["dev".to_string(), "main".to_string()]);
    assert_eq!(d.dialog_type, DialogType::BranchPicker);
    handle_dialog_event(key(KeyCode::Up), &mut d);
    assert_eq!(d.selected_branch, 0);
    handle_dialog_event(key(KeyCode::Char('j')), &mut d);
    handle_dialog_event(key(KeyCode::Down), &mut d);
    assert_eq!(d.selected_branch, 1);
    handle_dialog_event(key(KeyCode::Char('x')), &mut d);
    assert_eq!(d.input, "");
    let out = handle_dialog_event(key(KeyCode::Enter), &mut d);
    assert!(out.close);
    assert!(matches!(out.steps.as_slice(), [Step::SwitchBranch { name }, Step::Refresh] if name == "main"));
    let mut empty = DialogState::new_branch(Vec::new());
    let out = handle_dialog_event(key(KeyCode::Enter), &mut empty);
    assert!(out.close && out.steps.is_empty());
}

#[test]
fn filter_typing_and_escape() {
    let mut app = app_with(&["a", "b", "c"]);
    let mut dialog = None;
    app.selected_file = 2;
    handle_event(key(KeyCode::Char('/')), &mut app, &mut dialog, &files_screen());
    assert!(app.filter_active && app.filter_text.is_empty());
    assert!(!handle_filter_event(key(KeyCode::Char('b')), &mut app));
    assert_eq!(app.selected_file, 0);
    handle_filter_event(key(KeyCode::Char('\u{7}')), &mut app);
    assert_eq!(app.filter_text, "b");
    handle_filter_event(key(KeyCode::Char('q')), &mut app);
    assert_eq!(app.filter_text, "bq");
    handle_filter_event(key(KeyCode::Backspace), &mut app);
    assert_eq!(app.filter_text, "b");
    assert_eq!(app.filtered_files().len(), 1);
    handle_filter_event(key(KeyCode::Enter), &mut app);
    assert!(!app.filter_active);
    assert_eq!(app.filter_text, "b");
    assert_eq!(app.filtered_files().len(), 3);
    app.filter_active = true;
    handle_filter_event(key(KeyCode::Esc), &mut app);
    assert!(!app.filter_active && app.filter_text.is_empty());
}

#[test]
fn mouse_scrolls_the_focused_panel() {
    let mut app = app_with(&["a", "b"]);
    let scroll_down = mouse(MouseEventKind::ScrollDown, 0, 0);
    let scroll_up = mouse(MouseEventKind::ScrollUp, 0, 0);
    handle_mouse(scroll_down, &mut app, &files_screen());
    handle_mouse(scroll_down, &mut app, &files_screen());
    assert_eq!(app.selected_file, 1);
    handle_mouse(scroll_up, &mut app, &files_screen());
    assert_eq!(app.selected_file, 0);
    app.focus = PanelFocus::Diff;
    handle_mouse(scroll_down, &mut app, &files_screen());
    assert_eq!(app.diff_scroll, 3);
    handle_mouse(scroll_up, &mut app, &files_screen());
    handle_mouse(scroll_up, &mut app, &files_screen());
    assert_eq!(app.diff_scroll, 0);
    handle_mouse(mouse(MouseEventKind::Other, 5, 5), &mut app, &files_screen());
    assert_eq!(app.diff_scroll, 0);
}

#[test]
fn clicking_a_listed_file_selects_it() {
    let mut app = app_with(&["a", "b", "c"]);
    let steps = handle_mouse(mouse(MouseEventKind::LeftClick, 5, 3), &mut app, &files_screen());
    assert_eq!(app.selected_file, 2);
    assert!(matches!(steps.as_slice(), [Step::LoadDiff]));
    // below the last file, on the border, or in the diff panel: nothing happens
    for (column, row) in [(5, 4), (5, 0), (0, 2), (29, 2), (50, 2)] {
        let steps = handle_mouse(mouse(MouseEventKind::LeftClick, column, row), &mut app, &files_screen());
        assert_eq!(app.selected_file, 2);
        assert!(steps.is_empty());
    }
    // the list is scrolled so that the selection stays in view
    let names: Vec<String> = (0..60).map(|i| format!("f{:02}", i)).collect();
    let refs: Vec<&str> = names.iter().map(|n| n.as_str()).collect();
    let mut app = app_with(&refs);
    app.selected_file = 55;
    handle_mouse(mouse(MouseEventKind::LeftClick, 1, 1), &mut app, &files_screen());
    assert_eq!(app.selected_file, 8);
    // in the commit log the file list is not on screen; a click picks a commit there,
    // three rows per commit
    app.mode = AppMode::CommitLog;
    assert!(handle_mouse(mouse(MouseEventKind::LeftClick, 1, 1), &mut app, &log_screen()).is_empty());
    app.commits = vec![commit("c0"), commit("c1"), commit("c2")];
    assert!(handle_mouse(mouse(MouseEventKind::LeftClick, 1, 5), &mut app, &log_screen()).is_empty());
    assert_eq!(app.selected_file, 8);
    assert_eq!(app.selected_commit, 1);
    handle_mouse(mouse(MouseEventKind::LeftClick, 30, 9), &mut app, &log_screen());
    assert_eq!(app.selected_commit, 2);
    handle_mouse(mouse(MouseEventKind::LeftClick, 30, 10), &mut app, &log_screen());
    assert_eq!(app.selected_commit, 2);
    handle_mouse(mouse(MouseEventKind::LeftClick, 45, 2), &mut app, &log_screen());
    assert_eq!(app.selected_commit, 2);
    // the main loop passes clicks on; with file 8 selected the list is no longer scrolled
    app.mode = AppMode::Tree;
    let mut dialog = None;
    let out = handle_event(Event::Mouse(mouse(MouseEventKind::LeftClick, 1, 2)), &mut app, &mut dialog, &files_screen());
    assert_eq!(app.selected_file, 1);
    assert!(matches!(out.steps.as_slice(), [Step::LoadDiff]));
}

#[test]
fn dialog_takes_events_before_keys() {
    let mut app = app_with(&["a"]);
    let mut dialog = Some(DialogState::new_commit());
    let out = handle_event(key(KeyCode::Char('q')), &mut app, &mut dialog, &files_screen());
    assert!(!out.quit);
    assert_eq!(dialog.as_ref().unwrap().input, "q");
    let out = handle_event(Event::Other, &mut app, &mut dialog, &files_screen());
    assert!(!out.quit && dialog.is_some());
    handle_event(key(KeyCode::Esc), &mut app, &mut dialog, &files_screen());
    assert!(dialog.is_none());
    assert!(handle_event(key(KeyCode::Char('q')), &mut app, &mut dialog, &files_screen()).quit);
    let release = Event::Key(KeyEvent { code: KeyCode::Char('q'), ctrl: false, kind: KeyEventKind::Release });
    assert!(!handle_event(release, &mut app, &mut dialog, &files_screen()).quit);
    let out = handle_event(key(KeyCode::Char('b')), &mut app, &mut dialog, &files_screen());
    assert!(matches!(out.steps.as_slice(), [Step::OpenBranchPicker]));
    let out = handle_event(key(KeyCode::Char('r')), &mut app, &mut dialog, &files_screen());
    assert!(matches!(out.steps.as_slice(), [Step::Refresh]));
}

#[test]
fn refresh_pulls_the_selection_back() {
    let mut app = app_with(&["a", "b", "c"]);
    app.selected_file = 2;
    let branches = vec![BranchInfo { name: "main".to_string(), current: true, local: true }];
    refresh_state(&mut app, vec![file("z", false)], "main".to_string(), branches);
    assert_eq!(app.selected_file, 0);
    assert_eq!(app.current_branch, "main");
    assert_eq!(app.branches.len(), 1);
    app.selected_file = 4;
    refresh_state(&mut app, vec![file("a", false), file("b", false)], "dev".to_string(), Vec::new());
    assert_eq!(app.selected_file, 1);
    refresh_state(&mut app, Vec::new(), "dev".to_string(), Vec::new());
    assert_eq!(app.selected_file, 0);
}

#[test]
fn loading_a_diff_prefers_staged_changes() {
    let mut app = app_with(&["a"]);
    app.diff_scroll = 7;
    assert_eq!(begin_load_diff(&mut app), Some("a".to_string()));
    assert_eq!(app.diff_scroll, 0);
    finish_load_diff(&mut app, Some(diff_with_hunks(2)), Some(diff_with_hunks(1)));
    assert_eq!(app.diff.as_ref().unwrap().hunks.len(), 2);
    finish_load_diff(&mut app, Some(diff_with_hunks(0)), Some(diff_with_hunks(1)));
    assert_eq!(app.diff.as_ref().unwrap().hunks.len(), 1);
    finish_load_diff(&mut app, Some(diff_with_hunks(3)), None);
    assert_eq!(app.diff.as_ref().unwrap().hunks.len(), 3);
    finish_load_diff(&mut app, None, Some(diff_with_hunks(0)));
    assert!(app.diff.is_none());
    app.diff = Some(diff_with_hunks(1));
    app.selected_file = 5;
    assert_eq!(begin_load_diff(&mut app), None);
    assert!(app.diff.is_none());
}

#[test]
fn commit_diff_shows_the_first_file() {
    let mut app = app_with(&[]);
    load_commit_diff(&mut app, vec![diff_with_hunks(4), diff_with_hunks(1)]);
    assert_eq!(app.diff.as_ref().unwrap().hunks.len(), 4);
    load_commit_diff(&mut app, Vec::new());
    assert!(app.diff.is_none());
}

#[test]
fn branch_picker_opens_on_local_branch_names() {
    let mut dialog = None;
    open_branch_picker(
        &mut dialog,
        vec![
            BranchInfo { name: "dev".to_string(), current: false, local: true },
            BranchInfo { name: "main".to_string(), current: true, local: true },
            BranchInfo { name: "origin/main".to_string(), current: false, local: false },
        ],
    );
    let d = dialog.unwrap();
    assert_eq!(d.dialog_type, DialogType::BranchPicker);
    assert_eq!(d.branches, vec!["dev".to_string(), "main".to_string()]);
    assert_eq!(d.selected_branch, 0);
}

#[test]
fn selection_stays_on_a_shown_file() {
    let mut app = app_with(&["alpha", "beta", "gamma", "delta"]);
    let mut dialog = None;
    for _ in 0..10 {
        handle_event(key(KeyCode::Down), &mut app, &mut dialog, &files_screen());
    }
    assert_eq!(app.selected_file, 3);
    handle_event(key(KeyCode::Char('/')), &mut app, &mut dialog, &files_screen());
    handle_event(key(KeyCode::Char('t')), &mut app, &mut dialog, &files_screen());
    assert_eq!(app.selected_file, 0);
    for _ in 0..10 {
        handle_event(Event::Mouse(mouse(MouseEventKind::ScrollDown, 0, 0)), &mut app, &mut dialog, &files_screen());
    }
    assert_eq!(app.filtered_files().len(), 2);
    assert_eq!(app.selected_file, 0);
    handle_event(key(KeyCode::Enter), &mut app, &mut dialog, &files_screen());
    for _ in 0..10 {
        handle_event(Event::Mouse(mouse(MouseEventKind::ScrollDown, 0, 0)), &mut app, &mut dialog, &files_screen());
    }
    assert_eq!(app.selected_file, 3);
    refresh_state(&mut app, vec![file("only", false)], "main".to_string(), Vec::new());
    assert!(app.selected_file < app.filtered_files().len());
}

#[test]
fn only_reading_the_state_again_ends_the_session_on_failure() {
    assert!(ends_session_on_failure(&Step::Refresh));
    assert!(ends_session_on_failure(&Step::LoadCommitDiff { commit_id: "abc".to_string() }));
    assert!(!ends_session_on_failure(&Step::LoadDiff));
    assert!(!ends_session_on_failure(&Step::StageAll));
    assert!(!ends_session_on_failure(&Step::CreateCommit { message: "m".to_string() }));
    assert!(!ends_session_on_failure(&Step::OpenBranchPicker));
    assert!(!ends_session_on_failure(&Step::LoadCommitHistory { max_count: 100 }));
}
