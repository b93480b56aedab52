use rune::app::{AppMode, ChangedFile, CommitInfo, DiffLine, DiffLineKind, FileDiff, FileStatus, Hunk, PanelFocus, RuneApp};
use rune::text::{contains_chars, first_line_of, right_aligned_4, trim_string};
use rune::theme::{Color, Style};
use rune::tui::geometry::{centered_rect, popup_lengths, Area};
use rune::tui::panels::commitlog::commit_log_panel;
use rune::tui::panels::dialog::{branch_dialog_layout, branch_list_text, commit_dialog_layout, DialogState};
use rune::tui::panels::diff::{cell_padding, diff_panel, diff_prefix_style, file_extension, padding_width, prefix_and_kind, side_cell, DiffBody, DiffRow, TextMode};
use rune::tui::panels::tree::tree_panel;
use rune::tui::{screen, Screen};

fn line(kind: DiffLineKind, text: &str, old: Option<u32>, new: Option<u32>) -> DiffLine {
    DiffLine { kind, content: text.to_string(), old_lineno: old, new_lineno: new }
}

#[test]
fn tree_rows_show_stage_mark_icon_and_path() {
    let mut app = RuneApp::new("/r".to_string());
    app.changed_files = vec![
        ChangedFile { path: "a.rs".to_string(), status: FileStatus::Copied, staged: true },
        ChangedFile { path: "b.rs".to_string(), status: FileStatus::Untracked, staged: false },
    ];
    let panel = tree_panel(&app);
    assert_eq!(panel.title, " Files (2) ");
    assert_eq!(panel.items[0].label, "* >> a.rs");
    assert_eq!(panel.items[0].style.fg, Some(Color::Magenta));
    assert!(panel.items[0].style.bold);
    assert_eq!(panel.items[1].label, "  ? b.rs");
    assert!(!panel.items[1].style.bold);
    assert_eq!(panel.border.fg, Some(Color::Cyan));
    app.focus = PanelFocus::Diff;
    assert_eq!(tree_panel(&app).border.fg, None);
}

#[test]
fn commit_log_items() {
    let mut app = RuneApp::new("/r".to_string());
    assert!(commit_log_panel(&app).empty);
    app.commits = vec![CommitInfo {
        id: "0123456789abcdef0123456789abcdef01234567".to_string(),
        author: "Ann".to_string(),
        message: "Fix".to_string(),
        time: 0,
    }];
    app.mode = AppMode::CommitLog;
    let panel = commit_log_panel(&app);
    assert_eq!(panel.title, " Commit Log (1) ");
    assert!(!panel.empty);
    assert_eq!(panel.items[0].hash_line, " 0123456");
    assert_eq!(panel.items[0].message_line, " Fix");
    assert_eq!(panel.items[0].author_line, " Ann");
    assert_eq!(panel.border.fg, Some(Color::Cyan));
    assert!(panel.author_style.dim);
}

#[test]
fn bordered_inside_and_dialog_rows() {
    let area = Area { x: 10, y: 5, width: 30, height: 10 };
    let l = commit_dialog_layout(area);
    assert_eq!(l.inner, Area { x: 11, y: 6, width: 28, height: 8 });
    assert_eq!(l.input_area, Area { x: 11, y: 7, width: 28, height: 1 });
    assert_eq!(l.hint_area, Area { x: 11, y: 9, width: 28, height: 1 });
    let b = branch_dialog_layout(area);
    assert_eq!(b.hint_area, Area { x: 11, y: 13, width: 28, height: 1 });
    let thin = branch_dialog_layout(Area { x: 0, y: 0, width: 1, height: 0 });
    assert_eq!(thin.inner, Area { x: 1, y: 0, width: 0, height: 0 });
    assert_eq!(thin.hint_area, Area { x: 1, y: 0, width: 0, height: 1 });
}

#[test]
fn branch_list_marks_the_selection() {
    let mut d = DialogState::new_branch(vec!["dev".to_string(), "main".to_string(), "x".to_string()]);
    d.selected_branch = 1;
    assert_eq!(branch_list_text(&d), "  dev\n> main\n  x");
    assert_eq!(branch_list_text(&DialogState::new_branch(Vec::new())), "");
}

#[test]
fn popup_is_centered() {
    assert_eq!(popup_lengths(50, 10), (22, 5, 22));
    assert_eq!(popup_lengths(100, 50), (25, 50, 25));
    assert_eq!(centered_rect(50, 10, Area { x: 0, y: 0, width: 100, height: 50 }), Area { x: 25, y: 22, width: 50, height: 5 });
}

#[test]
fn marks_and_styles_of_cells() {
    let del = line(DiffLineKind::Delete, "x", Some(1), None);
    let add = line(DiffLineKind::Add, "y", None, Some(1));
    assert_eq!(prefix_and_kind(Some(&del), true), ("-", DiffLineKind::Delete));
    assert_eq!(prefix_and_kind(Some(&del), false), (" ", DiffLineKind::Delete));
    assert_eq!(prefix_and_kind(Some(&add), false), ("+", DiffLineKind::Add));
    assert_eq!(prefix_and_kind(None, true), ("", DiffLineKind::Context));
    assert_eq!(diff_prefix_style(&DiffLineKind::Add).fg, Some(Color::Rgb(80, 210, 120)));
    assert_eq!(diff_prefix_style(&DiffLineKind::Delete).fg, Some(Color::Rgb(240, 85, 85)));
}

#[test]
fn cells_window_the_text_and_number_the_line() {
    let l = line(DiffLineKind::Add, "abcdefghij\n\n", Some(3), Some(12345));
    let c = side_cell(Some(&l), false, "rs", 12, 2);
    assert_eq!(c.prefix, "+");
    assert_eq!(c.lineno, "12345");
    assert_eq!(c.text, "cdefg");
    assert_eq!(c.mode, TextMode::Plain { style: Style { fg: Some(Color::Rgb(80, 210, 120)), bg: Some(Color::Rgb(22, 42, 28)), bold: false, italic: false, dim: false } });
    let c = side_cell(Some(&l), true, "", 30, 8);
    assert_eq!(c.lineno, "   3");
    assert_eq!(c.text, "ij");
    assert_eq!(c.mode, TextMode::Plain { style: Style { fg: Some(Color::Rgb(80, 210, 120)), bg: Some(Color::Rgb(22, 42, 28)), bold: false, italic: false, dim: false } });
    let ctx = line(DiffLineKind::Context, "same", Some(7), Some(7));
    assert_eq!(side_cell(Some(&ctx), true, "rs", 30, 0).mode, TextMode::Syntax);
    assert_eq!(side_cell(Some(&ctx), false, "", 30, 0).mode, TextMode::Plain { style: Style { fg: Some(Color::Rgb(220, 220, 235)), bg: Some(Color::Rgb(0, 0, 0)), bold: false, italic: false, dim: false } });
    let del = line(DiffLineKind::Delete, "gone", Some(4), None);
    assert_eq!(side_cell(Some(&del), true, "rs", 30, 0).mode, TextMode::Plain { style: Style { fg: Some(Color::Rgb(240, 85, 85)), bg: Some(Color::Rgb(42, 22, 22)), bold: false, italic: false, dim: false } });
    assert_eq!(side_cell(Some(&ctx), true, "rs", 30, 9).mode, TextMode::Hidden);
    assert_eq!(side_cell(Some(&ctx), true, "rs", 7, 0).mode, TextMode::Hidden);
    let gap = side_cell(None, true, "rs", 30, 0);
    assert_eq!((gap.prefix.as_str(), gap.lineno.as_str(), gap.text.as_str()), ("", "    ", ""));
    assert_eq!(padding_width(30, 12), 18);
    assert_eq!(padding_width(30, 31), 0);
}

#[test]
fn cells_fill_their_column() {
    let l = line(DiffLineKind::Add, "abcdefghij\n", None, Some(42));
    for (width, h) in [(12usize, 0u16), (30, 0), (30, 4), (7, 0), (9, 20)] {
        let c = side_cell(Some(&l), false, "", width, h);
        let used = c.prefix.len() + 1 + c.lineno.len() + 1 + c.text.len();
        assert_eq!(used + cell_padding(&c, width), width);
    }
    let gap = side_cell(None, true, "", 20, 0);
    assert_eq!(cell_padding(&gap, 20), 14);
    let wide = line(DiffLineKind::Context, "\u{e9}\u{e9}\u{e9}", Some(1), Some(1));
    let c = side_cell(Some(&wide), true, "", 20, 0);
    assert_eq!(cell_padding(&c, 20), 20 - (1 + 1 + 4 + 1 + 6));
}

#[test]
fn extensions_follow_path_rules() {
    assert_eq!(file_extension("src/main.rs"), "rs");
    assert_eq!(file_extension("a.tar.gz"), "gz");
    assert_eq!(file_extension(".bashrc"), "");
    assert_eq!(file_extension("Makefile"), "");
    assert_eq!(file_extension("dir.d/"), "d");
    assert_eq!(file_extension("a/.."), "");
    assert_eq!(file_extension("a."), "");
}

#[test]
fn diff_panel_bodies() {
    let mut app = RuneApp::new("/r".to_string());
    let wide = Area { x: 0, y: 0, width: 60, height: 6 };
    assert!(matches!(diff_panel(&app, Area { x: 0, y: 0, width: 39, height: 6 }).body, DiffBody::TooNarrow));
    assert!(matches!(diff_panel(&app, wide).body, DiffBody::NoDiff));
    app.diff = Some(FileDiff { old_path: "a.rs".to_string(), new_path: "a.rs".to_string(), hunks: Vec::new() });
    assert!(matches!(diff_panel(&app, wide).body, DiffBody::NoChanges));
    let lines = vec![
        line(DiffLineKind::Context, "c1", Some(1), Some(1)),
        line(DiffLineKind::Delete, "d1", Some(2), None),
        line(DiffLineKind::Add, "a1", None, Some(2)),
        line(DiffLineKind::Context, "c2", Some(3), Some(3)),
        line(DiffLineKind::Context, "c3", Some(4), Some(4)),
        line(DiffLineKind::Context, "c4", Some(5), Some(5)),
    ];
    app.diff = Some(FileDiff {
        old_path: "a.rs".to_string(),
        new_path: "a.rs".to_string(),
        hunks: vec![Hunk { header: "  @@ -1 +1 @@\n".to_string(), lines }],
    });
    match diff_panel(&app, wide).body {
        DiffBody::Rows { rows, file_ext, col_width } => {
            assert_eq!(file_ext, "rs");
            assert_eq!(col_width, 28);
            assert_eq!(rows.len(), 4);
            assert!(matches!(&rows[0], DiffRow::Header(h) if h == " @@ -1 +1 @@ "));
            assert!(matches!(&rows[2], DiffRow::Pair(l, r) if l.text == "d1" && r.text == "a1"));
        },
        _ => panic!("expected rows"),
    }
    app.diff_scroll = 100;
    match diff_panel(&app, wide).body {
        DiffBody::Rows { rows, .. } => {
            assert_eq!(rows.len(), 4);
            assert!(matches!(&rows[3], DiffRow::Pair(l, _) if l.text == "c4"));
        },
        _ => panic!("expected rows"),
    }
}

#[test]
fn screen_follows_help_dialog_and_mode() {
    let mut app = RuneApp::new("/r".to_string());
    app.current_branch = "main".to_string();
    let frame = Area { x: 0, y: 0, width: 100, height: 50 };
    match screen(&app, &None, frame) {
        Screen::Files { tree_area, diff_area, status_line, status_area } => {
            assert_eq!(tree_area, Area { x: 0, y: 0, width: 30, height: 50 });
            assert_eq!(diff_area, Area { x: 30, y: 0, width: 70, height: 50 });
            assert_eq!(status_line, " main | ? help | q quit | Tab focus | s stage | c commit | l log | / filter");
            assert_eq!(status_area, Area { x: 0, y: 49, width: 100, height: 1 });
        },
        other => panic!("unexpected {:?}", other),
    }
    let dialog = Some(DialogState::new_commit());
    assert!(matches!(screen(&app, &dialog, frame), Screen::CommitDialog { area } if area == Area { x: 25, y: 22, width: 50, height: 5 }));
    app.mode = AppMode::CommitLog;
    match screen(&app, &None, frame) {
        Screen::History { log_area, diff_area } => {
            assert_eq!(log_area, Area { x: 0, y: 0, width: 40, height: 50 });
            assert_eq!(diff_area, Area { x: 40, y: 0, width: 60, height: 50 });
        },
        other => panic!("unexpected {:?}", other),
    }
    app.show_help = true;
    assert!(matches!(screen(&app, &dialog, frame), Screen::Help));
}

#[test]
fn text_helpers() {
    let v = |s: &str| s.chars().collect::<Vec<char>>();
    assert!(contains_chars(&v("hello"), &v("ll")));
    assert!(contains_chars(&v("hello"), &v("")));
    assert!(!contains_chars(&v("he"), &v("hello")));
    assert_eq!(first_line_of("a\r\nb"), "a");
    assert_eq!(first_line_of("abc"), "abc");
    assert_eq!(trim_string(" \t fix: a b \n"), "fix: a b");
    assert_eq!(trim_string("\u{3000}x\u{a0}"), "x");
    assert_eq!(trim_string(" \n "), "");
    assert_eq!(trim_string("\u{200b}y"), "\u{200b}y");
    assert_eq!(right_aligned_4(0), "   0");
    assert_eq!(right_aligned_4(4321), "4321");
}
