use vstd::prelude::*;

use crate::text::{chars_of, contains_chars, is_substring, lowercase, to_lowercase};

verus! {

/// How a file differs from the state it is compared against.
#[derive(Clone, Copy, PartialEq, Eq, Structural, Debug)]
pub enum FileStatus {
    Added,
    Modified,
    Deleted,
    Renamed,
    Copied,
    Untracked,
}

/// The one-letter label shown for a status.
pub open spec fn status_label(s: FileStatus) -> Seq<char> {
    match s {
        FileStatus::Added => seq!['A'],
        FileStatus::Modified => seq!['M'],
        FileStatus::Deleted => seq!['D'],
        FileStatus::Renamed => seq!['R'],
        FileStatus::Copied => seq!['C'],
        FileStatus::Untracked => seq!['?'],
    }
}

impl FileStatus {
    pub fn label(&self) -> (res: &'static str)
        ensures
            res@ == status_label(*self),
    {
        match self {
            FileStatus::Added => {
                proof {
                    reveal_strlit("A");
                }
                "A"
            },
            FileStatus::Modified => {
                proof {
                    reveal_strlit("M");
                }
                "M"
            },
            FileStatus::Deleted => {
                proof {
                    reveal_strlit("D");
                }
                "D"
            },
            FileStatus::Renamed => {
                proof {
                    reveal_strlit("R");
                }
                "R"
            },
            FileStatus::Copied => {
                proof {
                    reveal_strlit("C");
                }
                "C"
            },
            FileStatus::Untracked => {
                proof {
                    reveal_strlit("?");
                }
                "?"
            },
        }
    }
}

/// A file with changes, as listed in the file tree.
#[derive(Debug)]
pub struct ChangedFile {
    /// Path relative to the work tree, with `/` between components.
    pub path: String,
    pub status: FileStatus,
    pub staged: bool,
}

/// The value of a changed file: its path's characters, status and staged flag.
pub struct FileView {
    pub path: Seq<char>,
    pub status: FileStatus,
    pub staged: bool,
}

impl View for ChangedFile {
    type V = FileView;

    open spec fn view(&self) -> FileView {
        FileView { path: self.path@, status: self.status, staged: self.staged }
    }
}

/// One commit of the history; `id` is the commit's hexadecimal object id.
#[derive(Debug)]
pub struct CommitInfo {
    pub id: String,
    pub author: String,
    pub message: String,
    pub time: i64,
}

/// A branch name, whether it is the checked-out one, and whether it is a local branch
/// (rather than a remote-tracking one).
#[derive(Debug)]
pub struct BranchInfo {
    pub name: String,
    pub current: bool,
    pub local: bool,
}

/// The value of a branch entry: its name's characters and its two flags.
pub struct BranchView {
    pub name: Seq<char>,
    pub current: bool,
    pub local: bool,
}

impl View for BranchInfo {
    type V = BranchView;

    open spec fn view(&self) -> BranchView {
        BranchView { name: self.name@, current: self.current, local: self.local }
    }
}

/// The value of a commit entry.
pub struct CommitView {
    pub id: Seq<char>,
    pub author: Seq<char>,
    pub message: Seq<char>,
    pub time: i64,
}

impl View for CommitInfo {
    type V = CommitView;

    open spec fn view(&self) -> CommitView {
        CommitView { id: self.id@, author: self.author@, message: self.message@, time: self.time }
    }
}

/// What a line of a hunk does.
#[derive(Clone, Copy, PartialEq, Eq, Structural, Debug)]
pub enum DiffLineKind {
    Add,
    Delete,
    Context,
}

/// One line of a hunk.
#[derive(Debug)]
pub struct DiffLine {
    pub kind: DiffLineKind,
    pub content: String,
    pub old_lineno: Option<u32>,
    pub new_lineno: Option<u32>,
}

/// The value of a diff line.
pub struct DiffLineView {
    pub kind: DiffLineKind,
    pub content: Seq<char>,
    pub old_lineno: Option<u32>,
    pub new_lineno: Option<u32>,
}

impl View for DiffLine {
    type V = DiffLineView;

    open spec fn view(&self) -> DiffLineView {
        DiffLineView {
            kind: self.kind,
            content: self.content@,
            old_lineno: self.old_lineno,
            new_lineno: self.new_lineno,
        }
    }
}

/// A hunk: its header line and its lines in order.
#[derive(Debug)]
pub struct Hunk {
    pub header: String,
    pub lines: Vec<DiffLine>,
}

/// The value of a hunk.
pub struct HunkView {
    pub header: Seq<char>,
    pub lines: Seq<DiffLineView>,
}

impl View for Hunk {
    type V = HunkView;

    open spec fn view(&self) -> HunkView {
        HunkView { header: self.header@, lines: self.lines@.map_values(|l: DiffLine| l@) }
    }
}

/// The hunks of one file's diff.
#[derive(Debug)]
pub struct FileDiff {
    pub old_path: String,
    pub new_path: String,
    pub hunks: Vec<Hunk>,
}

/// The value of a file diff.
pub struct FileDiffView {
    pub old_path: Seq<char>,
    pub new_path: Seq<char>,
    pub hunks: Seq<HunkView>,
}

impl View for FileDiff {
    type V = FileDiffView;

    open spec fn view(&self) -> FileDiffView {
        FileDiffView {
            old_path: self.old_path@,
            new_path: self.new_path@,
            hunks: self.hunks@.map_values(|h: Hunk| h@),
        }
    }
}

impl FileDiff {
    pub fn is_empty(&self) -> (res: bool)
        ensures
            res == (self.hunks@.len() == 0),
    {
        self.hunks.len() == 0
    }
}

/// Which view fills the screen.
#[derive(Clone, Copy, PartialEq, Eq, Structural, Debug)]
pub enum AppMode {
    Tree,
    Diff,
    CommitLog,
    Help,
}

/// Which panel takes keyboard input.
#[derive(Clone, Copy, PartialEq, Eq, Structural, Debug)]
pub enum PanelFocus {
    Tree,
    Diff,
}

/// The application's state: the files, diff, history and branches read from the
/// repository, and what the user has selected, scrolled and typed.
#[derive(Debug)]
pub struct RuneApp {
    pub repo_path: String,
    pub mode: AppMode,
    pub focus: PanelFocus,
    pub changed_files: Vec<ChangedFile>,
    pub selected_file: usize,
    pub diff: Option<FileDiff>,
    pub diff_scroll: u16,
    /// How far the diff columns are scrolled to the right, in characters.
    pub diff_h_scroll: u16,
    pub commits: Vec<CommitInfo>,
    pub selected_commit: usize,
    pub branches: Vec<BranchInfo>,
    pub current_branch: String,
    pub show_help: bool,
    pub filter_text: String,
    pub filter_active: bool,
}

/// The value of the application's state.
pub struct AppView {
    pub repo_path: Seq<char>,
    pub mode: AppMode,
    pub focus: PanelFocus,
    pub files: Seq<FileView>,
    pub selected_file: usize,
    pub diff: Option<FileDiffView>,
    pub diff_scroll: u16,
    pub diff_h_scroll: u16,
    pub commits: Seq<CommitView>,
    pub selected_commit: usize,
    pub branches: Seq<BranchView>,
    pub current_branch: Seq<char>,
    pub show_help: bool,
    pub filter_text: Seq<char>,
    pub filter_active: bool,
}

/// The value of an optional diff.
pub open spec fn diff_view(d: Option<FileDiff>) -> Option<FileDiffView> {
    match d {
        Some(x) => Some(x@),
        None => None,
    }
}

impl View for RuneApp {
    type V = AppView;

    open spec fn view(&self) -> AppView {
        AppView {
            repo_path: self.repo_path@,
            mode: self.mode,
            focus: self.focus,
            files: self.changed_files@.map_values(|f: ChangedFile| f@),
            selected_file: self.selected_file,
            diff: diff_view(self.diff),
            diff_scroll: self.diff_scroll,
            diff_h_scroll: self.diff_h_scroll,
            commits: self.commits@.map_values(|c: CommitInfo| c@),
            selected_commit: self.selected_commit,
            branches: self.branches@.map_values(|b: BranchInfo| b@),
            current_branch: self.current_branch@,
            show_help: self.show_help,
            filter_text: self.filter_text@,
            filter_active: self.filter_active,
        }
    }
}

/// Whether a file's path matches a filter, on values.
pub open spec fn view_matches(f: FileView, filter: Seq<char>) -> bool {
    is_substring(lowercase(filter), lowercase(f.path))
}

impl AppView {
    /// Whether the file list is filtered.
    pub open spec fn filter_on(self) -> bool {
        self.filter_active && self.filter_text.len() > 0
    }

    /// The files the tree shows.
    pub open spec fn shown(self) -> Seq<FileView> {
        if self.filter_on() {
            self.files.filter(|f: FileView| view_matches(f, self.filter_text))
        } else {
            self.files
        }
    }
}

/// Whether a file's path matches a filter: the lowercased filter occurs in the
/// lowercased path.
pub open spec fn file_matches(f: ChangedFile, filter: Seq<char>) -> bool {
    is_substring(lowercase(filter), lowercase(f.path@))
}

/// Whether a lowercased path contains a lowercased filter.
pub fn path_matches(lower_path: &str, lower_filter: &str) -> (res: bool)
    ensures
        res == is_substring(lower_filter@, lower_path@),
{
    let hay = chars_of(lower_path);
    let needle = chars_of(lower_filter);
    contains_chars(&hay, &needle)
}

/// The tree shows every changed file while no filter is on; with one on, it shows, in
/// their order, exactly the files whose lowercased path contains the lowercased filter.
pub proof fn the_filter_keeps_exactly_the_matching_files(a: AppView)
    ensures
        !a.filter_on() ==> a.shown() == a.files,
        a.filter_on() ==> forall|i: int| 0 <= i < a.shown().len() ==> is_substring(
            lowercase(a.filter_text),
            lowercase((#[trigger] a.shown()[i]).path),
        ),
        a.filter_on() ==> forall|i: int|
            0 <= i < a.files.len() && is_substring(lowercase(a.filter_text), lowercase((#[trigger] a.files[i]).path))
                ==> a.shown().contains(a.files[i]),
        a.shown().len() <= a.files.len(),
        forall|i: int| 0 <= i < a.shown().len() ==> a.files.contains(#[trigger] a.shown()[i]),
{
    if a.filter_on() {
        let p = |f: FileView| view_matches(f, a.filter_text);
        let sh = a.files.filter(p);
        assert(a.shown() == sh);
        a.files.lemma_filter_len(p);
        assert forall|i: int| 0 <= i < a.shown().len() implies is_substring(
            lowercase(a.filter_text),
            lowercase((#[trigger] a.shown()[i]).path),
        ) by {
            a.files.lemma_filter_pred(p, i);
        }
        assert forall|i: int|
            0 <= i < a.files.len() && is_substring(lowercase(a.filter_text), lowercase((#[trigger] a.files[i]).path))
                implies a.shown().contains(a.files[i]) by {
            a.files.lemma_filter_contains(p, i);
        }
        assert forall|i: int| 0 <= i < a.shown().len() implies a.files.contains(#[trigger] a.shown()[i]) by {
            assert(sh.contains(sh[i]));
            a.files.lemma_filter_contains_rev(p, sh[i]);
        }
    } else {
        assert forall|i: int| 0 <= i < a.shown().len() implies a.files.contains(#[trigger] a.shown()[i]) by {
            assert(a.files[i] == a.shown()[i]);
        }
    }
}

impl RuneApp {
    /// Whether the file list is filtered: the filter is being typed and is not empty.
    pub open spec fn filter_on(&self) -> bool {
        self.filter_active && self.filter_text@.len() > 0
    }

    /// The files the tree shows: all of them, or those matching the filter while it is on.
    pub open spec fn shown_files(&self) -> Seq<ChangedFile> {
        if self.filter_on() {
            self.changed_files@.filter(|f: ChangedFile| file_matches(f, self.filter_text@))
        } else {
            self.changed_files@
        }
    }

    /// A fresh state for the repository at `repo_path`: tree view, nothing loaded or selected.
    pub fn new(repo_path: String) -> (app: Self)
        ensures
            app.repo_path == repo_path,
            app.mode == AppMode::Tree,
            app.focus == PanelFocus::Tree,
            app.changed_files@.len() == 0,
            app.selected_file == 0,
            app.diff is None,
            app.diff_scroll == 0,
            app.diff_h_scroll == 0,
            app.commits@.len() == 0,
            app.selected_commit == 0,
            app.branches@.len() == 0,
            app.current_branch@.len() == 0,
            !app.show_help,
            app.filter_text@.len() == 0,
            !app.filter_active,
    {
        RuneApp {
            repo_path,
            mode: AppMode::Tree,
            focus: PanelFocus::Tree,
            changed_files: Vec::new(),
            selected_file: 0,
            diff: None,
            diff_scroll: 0,
            diff_h_scroll: 0,
            commits: Vec::new(),
            selected_commit: 0,
            branches: Vec::new(),
            current_branch: String::new(),
            show_help: false,
            filter_text: String::new(),
            filter_active: false,
        }
    }

    /// The files the tree shows, in order.
    pub fn filtered_files(&self) -> (files: Vec<&ChangedFile>)
        ensures
            files@.map_values(|f: &ChangedFile| *f) == self.shown_files(),
    {
        let mut files: Vec<&ChangedFile> = Vec::new();
        if !self.filter_active || self.filter_text.as_str().is_empty() {
            let mut i: usize = 0;
            while i < self.changed_files.len()
                invariant
                    i <= self.changed_files@.len(),
                    files@.map_values(|f: &ChangedFile| *f) == self.changed_files@.take(i as int),
                decreases self.changed_files.len() - i,
            {
                let ghost prev = files@;
                let f = &self.changed_files[i];
                assert(*f == self.changed_files@[i as int]);
                files.push(f);
                assert(files@.map_values(|f: &ChangedFile| *f) =~= prev.map_values(|f: &ChangedFile| *f).push(*f));
                assert(self.changed_files@.take(i as int).push(self.changed_files@[i as int]) =~= self.changed_files@.take(i + 1));
                i = i + 1;
            }
            assert(self.changed_files@.take(self.changed_files@.len() as int) =~= self.changed_files@);
            return files;
        }
        let lower = to_lowercase(self.filter_text.as_str());
        let ghost pred = |f: ChangedFile| file_matches(f, self.filter_text@);
        let mut i: usize = 0;
        while i < self.changed_files.len()
            invariant
                i <= self.changed_files@.len(),
                lower@ == lowercase(self.filter_text@),
                pred == (|f: ChangedFile| file_matches(f, self.filter_text@)),
                files@.map_values(|f: &ChangedFile| *f) == self.changed_files@.take(i as int).filter(pred),
            decreases self.changed_files.len() - i,
        {
            reveal_with_fuel(Seq::filter, 1);
            let f = &self.changed_files[i];
            let lower_path = to_lowercase(f.path.as_str());
            let ghost prev = files@;
            assert(self.changed_files@.take(i + 1).drop_last() =~= self.changed_files@.take(i as int));
            if path_matches(lower_path.as_str(), lower.as_str()) {
                files.push(f);
                assert(files@.map_values(|f: &ChangedFile| *f) =~= prev.map_values(|f: &ChangedFile| *f).push(*f));
            }
            i = i + 1;
        }
        assert(self.changed_files@.take(self.changed_files@.len() as int) =~= self.changed_files@);
        files
    }

    /// The file at the selection among the shown files, if the selection is on one.
    pub fn selected_file_entry(&self) -> (entry: Option<&ChangedFile>)
        ensures
            self.selected_file < self.shown_files().len() ==> (entry matches Some(f) && *f
                == self.shown_files()[self.selected_file as int]),
            self.selected_file >= self.shown_files().len() ==> entry is None,
    {
        let filtered = self.filtered_files();
        if self.selected_file < filtered.len() {
            assert(*filtered@[self.selected_file as int] == self.shown_files()[self.selected_file as int]);
            Some(filtered[self.selected_file])
        } else {
            None
        }
    }
}

} // verus!
