use rune::app::{DiffLineKind, FileStatus};
use rune::git::diff::{
    diff_patch_to_hunks, diff_to_hunks, file_diff, get_commit_diff, get_side_by_side, matching_deltas,
    RawFilePatch, RawHunk, RawLine,
};
use rune::git::{
    classify_status, BranchRef, get_commit_files, get_commit_history, get_current_branch, list_branches,
    list_changed_files, DeltaStatus, RawCommit, RawDelta, StatusEntry, StatusFlags,
};

fn flags() -> StatusFlags {
    StatusFlags {
        index_new: false,
        index_modified: false,
        index_deleted: false,
        index_renamed: false,
        index_typechange: false,
        wt_new: false,
        wt_deleted: false,
        wt_renamed: false,
        wt_typechange: false,
    }
}

fn raw_line(origin: char, text: &str, old: Option<u32>, new: Option<u32>) -> RawLine {
    RawLine { origin, content: text.as_bytes().to_vec(), old_lineno: old, new_lineno: new }
}

fn hunk(lines: Vec<RawLine>) -> RawHunk {
    RawHunk { header: b"@@ -1,3 +1,3 @@\n".to_vec(), lines }
}

#[test]
fn label_of_each_status() {
    assert_eq!(FileStatus::Added.label(), "A");
    assert_eq!(FileStatus::Modified.label(), "M");
    assert_eq!(FileStatus::Deleted.label(), "D");
    assert_eq!(FileStatus::Renamed.label(), "R");
    assert_eq!(FileStatus::Copied.label(), "C");
    assert_eq!(FileStatus::Untracked.label(), "?");
}

#[test]
fn status_precedence_and_staging() {
    let mut f = flags();
    f.wt_new = true;
    f.index_deleted = true;
    assert_eq!(classify_status(&f), (FileStatus::Added, true));
    let mut f = flags();
    f.wt_new = true;
    assert_eq!(classify_status(&f), (FileStatus::Untracked, false));
    let mut f = flags();
    f.index_new = true;
    assert_eq!(classify_status(&f), (FileStatus::Added, true));
    let mut f = flags();
    f.wt_deleted = true;
    assert_eq!(classify_status(&f), (FileStatus::Deleted, false));
    let mut f = flags();
    f.index_renamed = true;
    assert_eq!(classify_status(&f), (FileStatus::Renamed, true));
    let mut f = flags();
    f.wt_typechange = true;
    assert_eq!(classify_status(&f), (FileStatus::Copied, false));
    let mut f = flags();
    f.index_modified = true;
    assert_eq!(classify_status(&f), (FileStatus::Modified, true));
    assert_eq!(classify_status(&flags()), (FileStatus::Modified, false));
}

#[test]
fn changed_files_are_sorted_by_path_components() {
    let entries = vec![
        StatusEntry { path: Some("b".to_string()), flags: flags() },
        StatusEntry { path: Some("a.b".to_string()), flags: flags() },
        StatusEntry { path: Some("a/b".to_string()), flags: { let mut f = flags(); f.wt_new = true; f } },
        StatusEntry { path: None, flags: flags() },
    ];
    let files = list_changed_files(entries);
    let paths: Vec<&str> = files.iter().map(|f| f.path.as_str()).collect();
    assert_eq!(paths, vec!["<unknown>", "a/b", "a.b", "b"]);
    assert_eq!(files[1].status, FileStatus::Untracked);
    assert!(!files[1].staged);
}

#[test]
fn changed_files_of_an_empty_status() {
    assert!(list_changed_files(Vec::new()).is_empty());
}

#[test]
fn branches_are_sorted_and_current_is_marked() {
    let r = |name: &str, local: bool| BranchRef { name: name.to_string(), local };
    let refs = vec![r("main", true), r("dev", true), r("origin/main", false), r("Zed", true), r("dev", false)];
    let branches = list_branches(refs, "main");
    let listed: Vec<(&str, bool, bool)> = branches.iter().map(|b| (b.name.as_str(), b.current, b.local)).collect();
    assert_eq!(
        listed,
        vec![("Zed", false, true), ("dev", false, true), ("dev", false, false), ("main", true, true), ("origin/main", false, false)]
    );
}

#[test]
fn current_branch_name_or_detached() {
    assert_eq!(get_current_branch(Some("main".to_string())), "main");
    assert_eq!(get_current_branch(None), "detached");
}

#[test]
fn history_takes_first_message_line() {
    let raw = vec![
        RawCommit { id: "a".repeat(40), author: Some("Ann".to_string()), message: Some("Title\r\nbody\n".to_string()), time: 5 },
        RawCommit { id: "b".repeat(40), author: None, message: None, time: -1 },
        RawCommit { id: "c".repeat(40), author: Some("Bo".to_string()), message: Some("\nsecond".to_string()), time: 0 },
        RawCommit { id: "d".repeat(40), author: Some("Cy".to_string()), message: Some("only\r".to_string()), time: 0 },
    ];
    let commits = get_commit_history(raw);
    assert_eq!(commits.len(), 4);
    assert_eq!(commits[0].message, "Title");
    assert_eq!(commits[0].author, "Ann");
    assert_eq!(commits[0].time, 5);
    assert_eq!(commits[1].author, "unknown");
    assert_eq!(commits[1].message, "");
    assert_eq!(commits[2].message, "");
    assert_eq!(commits[3].message, "only\r");
}

#[test]
fn commit_files_use_new_then_old_path() {
    let deltas = vec![
        RawDelta { status: DeltaStatus::Added, old_path: Some("old".to_string()), new_path: Some("new".to_string()) },
        RawDelta { status: DeltaStatus::Deleted, old_path: Some("gone".to_string()), new_path: None },
        RawDelta { status: DeltaStatus::Typechange, old_path: None, new_path: None },
        RawDelta { status: DeltaStatus::Copied, old_path: None, new_path: Some("copy".to_string()) },
    ];
    let files = get_commit_files(&deltas);
    let got: Vec<(&str, FileStatus, bool)> = files.iter().map(|f| (f.path.as_str(), f.status, f.staged)).collect();
    assert_eq!(
        got,
        vec![
            ("new", FileStatus::Added, true),
            ("gone", FileStatus::Deleted, true),
            ("<unknown>", FileStatus::Modified, true),
            ("copy", FileStatus::Copied, true),
        ]
    );
}

#[test]
fn hunks_are_converted_line_by_line() {
    let patch = vec![hunk(vec![
        raw_line(' ', "same\n", Some(1), Some(1)),
        raw_line('-', "old\n", Some(2), None),
        raw_line('+', "new\n", None, Some(2)),
        RawLine { origin: '=', content: vec![b'x', 0xff], old_lineno: None, new_lineno: None },
    ])];
    let hunks = diff_patch_to_hunks(&patch);
    assert_eq!(hunks.len(), 1);
    assert_eq!(hunks[0].header, "@@ -1,3 +1,3 @@\n");
    let kinds: Vec<DiffLineKind> = hunks[0].lines.iter().map(|l| l.kind).collect();
    assert_eq!(kinds, vec![DiffLineKind::Context, DiffLineKind::Delete, DiffLineKind::Add, DiffLineKind::Context]);
    assert_eq!(hunks[0].lines[1].content, "old\n");
    assert_eq!(hunks[0].lines[1].old_lineno, Some(2));
    assert_eq!(hunks[0].lines[2].new_lineno, Some(2));
    assert_eq!(hunks[0].lines[3].content, "x\u{fffd}");
}

#[test]
fn deltas_match_by_path_components() {
    let deltas = vec![
        RawDelta { status: DeltaStatus::Modified, old_path: None, new_path: Some("src//main.rs".to_string()) },
        RawDelta { status: DeltaStatus::Modified, old_path: Some("src/main.rs/".to_string()), new_path: None },
        RawDelta { status: DeltaStatus::Modified, old_path: None, new_path: Some("src/lib.rs".to_string()) },
        RawDelta { status: DeltaStatus::Modified, old_path: None, new_path: None },
        RawDelta { status: DeltaStatus::Modified, old_path: Some("src/main.rs".to_string()), new_path: Some("x".to_string()) },
    ];
    assert_eq!(matching_deltas(&deltas, "src/main.rs"), vec![0, 1]);
    assert_eq!(matching_deltas(&deltas, "./x"), Vec::<usize>::new());
}

#[test]
fn hunks_of_several_patches_are_concatenated() {
    let patches = vec![vec![hunk(vec![raw_line('+', "a", None, Some(1))])], vec![], vec![hunk(vec![]), hunk(vec![])]];
    let hunks = diff_to_hunks(&patches);
    assert_eq!(hunks.len(), 3);
    assert_eq!(hunks[0].lines.len(), 1);
    let d = file_diff("f.txt", hunks);
    assert_eq!(d.old_path, "f.txt");
    assert_eq!(d.new_path, "f.txt");
    assert!(!d.is_empty());
    assert!(file_diff("g", Vec::new()).is_empty());
}

#[test]
fn commit_diff_paths_fall_back() {
    let patches = vec![
        RawFilePatch {
            delta: RawDelta { status: DeltaStatus::Renamed, old_path: Some("a".to_string()), new_path: Some("b".to_string()) },
            hunks: vec![hunk(vec![])],
        },
        RawFilePatch { delta: RawDelta { status: DeltaStatus::Added, old_path: None, new_path: Some("n".to_string()) }, hunks: vec![] },
    ];
    let diffs = get_commit_diff(&patches);
    assert_eq!(diffs.len(), 2);
    assert_eq!((diffs[0].old_path.as_str(), diffs[0].new_path.as_str()), ("a", "b"));
    assert_eq!(diffs[0].hunks.len(), 1);
    assert_eq!((diffs[1].old_path.as_str(), diffs[1].new_path.as_str()), ("n", "n"));
    assert!(diffs[1].is_empty());
}

#[test]
fn side_by_side_aligns_runs_and_mirrors_context() {
    let patch = vec![hunk(vec![
        raw_line(' ', "c1", Some(1), Some(1)),
        raw_line('-', "d1", Some(2), None),
        raw_line('-', "d2", Some(3), None),
        raw_line('+', "a1", None, Some(2)),
        raw_line(' ', "c2", Some(4), Some(3)),
        raw_line('+', "a2", None, Some(4)),
    ])];
    let hunks = diff_patch_to_hunks(&patch);
    let pairs = get_side_by_side(&hunks[0]);
    let text: Vec<(Option<&str>, Option<&str>)> = pairs
        .iter()
        .map(|(l, r)| (l.map(|x| x.content.as_str()), r.map(|x| x.content.as_str())))
        .collect();
    assert_eq!(
        text,
        vec![
            (Some("c1"), Some("c1")),
            (Some("d1"), Some("a1")),
            (Some("d2"), None),
            (Some("c2"), Some("c2")),
            (None, Some("a2")),
        ]
    );
    let left: Vec<&str> = pairs.iter().filter_map(|(l, _)| l.map(|x| x.content.as_str())).collect();
    let right: Vec<&str> = pairs.iter().filter_map(|(_, r)| r.map(|x| x.content.as_str())).collect();
    assert_eq!(left, vec!["c1", "d1", "d2", "c2"]);
    assert_eq!(right, vec!["c1", "a1", "c2", "a2"]);
    assert!(pairs.iter().all(|(l, r)| l.is_some() || r.is_some()));
}

#[test]
fn side_by_side_ignores_order_within_a_run() {
    let rows_of = |lines: Vec<RawLine>| {
        let hunks = diff_patch_to_hunks(&vec![hunk(lines)]);
        get_side_by_side(&hunks[0])
            .iter()
            .map(|(l, r)| (l.map(|x| x.content.clone()), r.map(|x| x.content.clone())))
            .collect::<Vec<_>>()
    };
    let a = rows_of(vec![
        raw_line(' ', "c1", Some(1), Some(1)),
        raw_line('-', "d1", Some(2), None),
        raw_line('+', "a1", None, Some(2)),
        raw_line('-', "d2", Some(3), None),
        raw_line('+', "a2", None, Some(3)),
        raw_line(' ', "c2", Some(4), Some(4)),
    ]);
    let b = rows_of(vec![
        raw_line(' ', "c1", Some(1), Some(1)),
        raw_line('+', "a1", None, Some(2)),
        raw_line('+', "a2", None, Some(3)),
        raw_line('-', "d1", Some(2), None),
        raw_line('-', "d2", Some(3), None),
        raw_line(' ', "c2", Some(4), Some(4)),
    ]);
    assert_eq!(a, b);
    assert_eq!(a[1], (Some("d1".to_string()), Some("a1".to_string())));
}

#[test]
fn side_by_side_of_an_empty_hunk() {
    let hunks = diff_patch_to_hunks(&vec![hunk(vec![])]);
    assert!(get_side_by_side(&hunks[0]).is_empty());
}

#[test]
fn side_by_side_ignores_interleaving_in_every_run() {
    let rows_of = |lines: Vec<RawLine>| {
        let hunks = diff_patch_to_hunks(&vec![hunk(lines)]);
        get_side_by_side(&hunks[0])
            .iter()
            .map(|(l, r)| (l.map(|x| x.content.clone()), r.map(|x| x.content.clone())))
            .collect::<Vec<_>>()
    };
    let a = rows_of(vec![
        raw_line('+', "a1", None, Some(1)),
        raw_line('-', "d1", Some(1), None),
        raw_line(' ', "c", Some(2), Some(2)),
        raw_line('-', "d2", Some(3), None),
        raw_line('+', "a2", None, Some(3)),
        raw_line('+', "a3", None, Some(4)),
    ]);
    let b = rows_of(vec![
        raw_line('-', "d1", Some(1), None),
        raw_line('+', "a1", None, Some(1)),
        raw_line(' ', "c", Some(2), Some(2)),
        raw_line('+', "a2", None, Some(3)),
        raw_line('-', "d2", Some(3), None),
        raw_line('+', "a3", None, Some(4)),
    ]);
    assert_eq!(a, b);
    assert_eq!(a.len(), 4);
    assert_eq!(a[3], (None, Some("a3".to_string())));
}
