pub mod geometry;
pub mod panels;

use vstd::prelude::*;

use crate::app::{AppMode, AppView, ChangedFile, CommitInfo, FileView, PanelFocus, RuneApp, file_matches, view_matches};
use crate::keybind::{Action, Event, KeyCode, KeyEvent, KeyEventKind, MouseEvent, MouseEventKind, key_action, map_key};
use crate::tui::panels::dialog::{DialogState, DialogType, DialogView, branch_dialog, commit_dialog, dialog_view};
use crate::app::{BranchInfo, BranchView, FileDiff, FileDiffView, CommitView, diff_view};
use crate::text::{is_control, is_control_char, push_str_chars, string_from_chars, trim_string, trimmed};
use crate::tui::geometry::{Area, Extent, block_inner, bordered_inner, centered_rect, sat_add, split_area};

verus! {

/// A piece of work on the repository that an event asks for, done after the event is
/// handled and in the order given.
#[derive(Debug)]
pub enum Step {
    /// Read the selected file's staged and unstaged diffs and show one of them
    /// (`begin_load_diff`, then `finish_load_diff`).
    LoadDiff,
    /// Read the diffs of a commit and show the first (`load_commit_diff`);
    /// failing to read them ends the session.
    LoadCommitDiff { commit_id: String },
    /// Add a file to the index; a failure is ignored.
    StageFile { path: String },
    /// Put a file's index entry back to what HEAD holds; a failure is ignored.
    UnstageFile { path: String },
    /// Add every file to the index; a failure is ignored.
    StageAll,
    /// Reset the index to HEAD; a failure is ignored.
    UnstageAll,
    /// Read the status, current branch and branches again (`refresh_state`);
    /// failing to read them ends the session.
    Refresh,
    /// Read up to `max_count` commits of the history (`set_commits`); a failure
    /// leaves the history as it was.
    LoadCommitHistory { max_count: usize },
    /// List the branches and open the branch picker on the local ones (`open_branch_picker`); a
    /// failure leaves the dialog closed.
    OpenBranchPicker,
    /// Commit the index with this message; a failure is ignored.
    CreateCommit { message: String },
    /// Check out this local branch; a failure is ignored.
    SwitchBranch { name: String },
}

/// The value of a step.
pub enum StepView {
    LoadDiff,
    LoadCommitDiff { commit_id: Seq<char> },
    StageFile { path: Seq<char> },
    UnstageFile { path: Seq<char> },
    StageAll,
    UnstageAll,
    Refresh,
    LoadCommitHistory { max_count: usize },
    OpenBranchPicker,
    CreateCommit { message: Seq<char> },
    SwitchBranch { name: Seq<char> },
}

impl View for Step {
    type V = StepView;

    open spec fn view(&self) -> StepView {
        match self {
            Step::LoadDiff => StepView::LoadDiff,
            Step::LoadCommitDiff { commit_id } => StepView::LoadCommitDiff { commit_id: commit_id@ },
            Step::StageFile { path } => StepView::StageFile { path: path@ },
            Step::UnstageFile { path } => StepView::UnstageFile { path: path@ },
            Step::StageAll => StepView::StageAll,
            Step::UnstageAll => StepView::UnstageAll,
            Step::Refresh => StepView::Refresh,
            Step::LoadCommitHistory { max_count } => StepView::LoadCommitHistory { max_count: *max_count },
            Step::OpenBranchPicker => StepView::OpenBranchPicker,
            Step::CreateCommit { message } => StepView::CreateCommit { message: message@ },
            Step::SwitchBranch { name } => StepView::SwitchBranch { name: name@ },
        }
    }
}

/// The values of a list of steps.
pub open spec fn steps_view(s: Seq<Step>) -> Seq<StepView> {
    s.map_values(|x: Step| x@)
}

/// What handling an event did: whether the session ends, and the steps to do.
#[derive(Debug)]
pub struct Outcome {
    pub quit: bool,
    pub steps: Vec<Step>,
}

/// The state after an event, with whether the session ends and the steps asked for.
pub struct Transition {
    pub app: AppView,
    pub dialog: Option<DialogView>,
    pub quit: bool,
    pub steps: Seq<StepView>,
}

/// The number of commits the history shows.
pub open spec fn history_len() -> usize {
    100
}

/// A transition that changes the application state and asks for `steps`.
pub open spec fn go(app: AppView, dialog: Option<DialogView>, steps: Seq<StepView>) -> Transition {
    Transition { app, dialog, quit: false, steps }
}

/// `x - n`, or 0 when `n` is larger.
pub open spec fn sat_sub(x: u16, n: u16) -> u16 {
    if x >= n {
        (x - n) as u16
    } else {
        0
    }
}

/// What an action does to the state.
pub open spec fn action_next(a: AppView, d: Option<DialogView>, action: Action) -> Transition {
    match action {
        Action::Quit => Transition { app: a, dialog: d, quit: true, steps: Seq::empty() },
        Action::Help => go(AppView { show_help: !a.show_help, ..a }, d, Seq::empty()),
        Action::Up => if a.mode == AppMode::CommitLog {
            if a.selected_commit > 0 {
                go(AppView { selected_commit: (a.selected_commit - 1) as usize, ..a }, d, Seq::empty())
            } else {
                go(a, d, Seq::empty())
            }
        } else if a.selected_file > 0 {
            go(AppView { selected_file: (a.selected_file - 1) as usize, ..a }, d, seq![StepView::LoadDiff])
        } else {
            go(a, d, Seq::empty())
        },
        Action::Down => if a.mode == AppMode::CommitLog {
            if a.selected_commit + 1 < a.commits.len() {
                go(AppView { selected_commit: (a.selected_commit + 1) as usize, ..a }, d, Seq::empty())
            } else {
                go(a, d, Seq::empty())
            }
        } else if a.selected_file + 1 < a.shown().len() {
            go(AppView { selected_file: (a.selected_file + 1) as usize, ..a }, d, seq![StepView::LoadDiff])
        } else {
            go(a, d, Seq::empty())
        },
        Action::ScrollUp => go(AppView { diff_scroll: sat_sub(a.diff_scroll, 5), ..a }, d, Seq::empty()),
        Action::ScrollDown => if a.diff_scroll < 10000 {
            go(AppView { diff_scroll: (a.diff_scroll + 5) as u16, ..a }, d, Seq::empty())
        } else {
            go(a, d, Seq::empty())
        },
        Action::Enter => if a.mode == AppMode::CommitLog {
            if a.selected_commit < a.commits.len() {
                go(a, d, seq![StepView::LoadCommitDiff { commit_id: a.commits[a.selected_commit as int].id }])
            } else {
                go(a, d, Seq::empty())
            }
        } else {
            go(AppView { mode: AppMode::Diff, focus: PanelFocus::Diff, ..a }, d, seq![StepView::LoadDiff])
        },
        Action::Back => go(AppView { mode: AppMode::Tree, focus: PanelFocus::Tree, diff: None, ..a }, d, Seq::empty()),
        Action::Tab => if a.focus == PanelFocus::Tree {
            go(AppView { focus: PanelFocus::Diff, ..a }, d, seq![StepView::LoadDiff])
        } else {
            go(AppView { focus: PanelFocus::Tree, ..a }, d, Seq::empty())
        },
        Action::StageToggle => if a.selected_file < a.shown().len() {
            let f = a.shown()[a.selected_file as int];
            go(
                a,
                d,
                seq![
                    if f.staged {
                        StepView::UnstageFile { path: f.path }
                    } else {
                        StepView::StageFile { path: f.path }
                    },
                    StepView::Refresh,
                    StepView::LoadDiff,
                ],
            )
        } else {
            go(a, d, Seq::empty())
        },
        Action::StageAll => go(a, d, seq![StepView::StageAll, StepView::Refresh]),
        Action::UnstageAll => go(a, d, seq![StepView::UnstageAll, StepView::Refresh]),
        Action::Commit => go(a, Some(commit_dialog()), Seq::empty()),
        Action::CommitLog => if a.mode == AppMode::CommitLog {
            go(AppView { mode: AppMode::Tree, ..a }, d, Seq::empty())
        } else {
            go(
                AppView { mode: AppMode::CommitLog, selected_commit: 0, ..a },
                d,
                seq![StepView::LoadCommitHistory { max_count: history_len() }],
            )
        },
        Action::Refresh => go(a, d, seq![StepView::Refresh]),
        Action::BranchSwitch => go(a, d, seq![StepView::OpenBranchPicker]),
        Action::Filter => go(AppView { filter_active: true, filter_text: Seq::empty(), ..a }, d, Seq::empty()),
        Action::ScrollLeft | Action::ScrollRight | Action::Mouse(_) => go(a, d, Seq::empty()),
    }
}

/// The files a state shows are the views of the files its application shows.
pub proof fn shown_files_view(app: RuneApp)
    ensures
        app.shown_files().map_values(|f: ChangedFile| f@) == app@.shown(),
{
    if app.filter_on() {
        let t = app.filter_text@;
        vstd::seq_lib::lemma_filter_view_commute(
            app.changed_files@,
            |f: ChangedFile| file_matches(f, t),
            |f: FileView| view_matches(f, t),
        );
    }
}

/// Carries out an action: changes the state as `action_next` says and returns the
/// steps it asks for.
pub fn handle_action(action: Action, app: &mut RuneApp, dialog: &mut Option<DialogState>) -> (out: Outcome)
    ensures
        ({
            let t = action_next(old(app)@, dialog_view(*old(dialog)), action);
            &&& final(app)@ == t.app
            &&& dialog_view(*final(dialog)) == t.dialog
            &&& out.quit == t.quit
            &&& steps_view(out.steps@) == t.steps
        }),
{
    let ghost a = app@;
    let mut steps: Vec<Step> = Vec::new();
    match action {
        Action::Quit => {
            return Outcome { quit: true, steps };
        },
        Action::Help => {
            app.show_help = !app.show_help;
        },
        Action::Up => {
            if app.mode == AppMode::CommitLog {
                if app.selected_commit > 0 {
                    app.selected_commit = app.selected_commit - 1;
                }
            } else {
                if app.selected_file > 0 {
                    app.selected_file = app.selected_file - 1;
                    steps.push(Step::LoadDiff);
                }
            }
        },
        Action::Down => {
            if app.mode == AppMode::CommitLog {
                if app.selected_commit < app.commits.len() && app.selected_commit + 1 < app.commits.len() {
                    app.selected_commit = app.selected_commit + 1;
                }
            } else {
                let count = app.filtered_files().len();
                proof {
                    shown_files_view(*app);
                }
                if app.selected_file < count && app.selected_file + 1 < count {
                    app.selected_file = app.selected_file + 1;
                    steps.push(Step::LoadDiff);
                }
            }
        },
        Action::ScrollUp => {
            app.diff_scroll = if app.diff_scroll >= 5 { app.diff_scroll - 5 } else { 0 };
        },
        Action::ScrollDown => {
            if app.diff_scroll < 10000 {
                app.diff_scroll = app.diff_scroll + 5;
            }
        },
        Action::Enter => {
            if app.mode == AppMode::CommitLog {
                if app.selected_commit < app.commits.len() {
                    let commit_id = app.commits[app.selected_commit].id.clone();
                    steps.push(Step::LoadCommitDiff { commit_id });
                }
            } else {
                steps.push(Step::LoadDiff);
                app.mode = AppMode::Diff;
                app.focus = PanelFocus::Diff;
            }
        },
        Action::Back => {
            app.mode = AppMode::Tree;
            app.focus = PanelFocus::Tree;
            app.diff = None;
        },
        Action::Tab => {
            if app.focus == PanelFocus::Tree {
                steps.push(Step::LoadDiff);
                app.focus = PanelFocus::Diff;
            } else {
                app.focus = PanelFocus::Tree;
            }
        },
        Action::StageToggle => {
            proof {
                shown_files_view(*app);
            }
            match app.selected_file_entry() {
                Some(file) => {
                    let path = file.path.clone();
                    if file.staged {
                        steps.push(Step::UnstageFile { path });
                    } else {
                        steps.push(Step::StageFile { path });
                    }
                    steps.push(Step::Refresh);
                    steps.push(Step::LoadDiff);
                },
                None => {},
            }
        },
        Action::StageAll => {
            steps.push(Step::StageAll);
            steps.push(Step::Refresh);
        },
        Action::UnstageAll => {
            steps.push(Step::UnstageAll);
            steps.push(Step::Refresh);
        },
        Action::Commit => {
            *dialog = Some(DialogState::new_commit());
        },
        Action::CommitLog => {
            if app.mode == AppMode::CommitLog {
                app.mode = AppMode::Tree;
            } else {
                steps.push(Step::LoadCommitHistory { max_count: 100 });
                app.mode = AppMode::CommitLog;
                app.selected_commit = 0;
            }
        },
        Action::Refresh => {
            steps.push(Step::Refresh);
        },
        Action::BranchSwitch => {
            steps.push(Step::OpenBranchPicker);
        },
        Action::Filter => {
            app.filter_active = true;
            app.filter_text.clear();
        },
        _ => {},
    }
    let out = Outcome { quit: false, steps };
    proof {
        let t = action_next(a, dialog_view(*old(dialog)), action);
        assert(steps_view(out.steps@) =~= t.steps);
        assert(app@ =~= t.app);
    }
    out
}

/// What a dialog does with an event: its new value, whether it closes, and the steps
/// asked for.
pub struct DialogTransition {
    pub dialog: DialogView,
    pub close: bool,
    pub steps: Seq<StepView>,
}

/// What a dialog does with a key: Esc closes it; Enter closes it, committing the
/// trimmed message when it is not empty, or checking out the selected branch; in the
/// branch picker Up/`k` and Down/`j` move the selection within the list; in the commit
/// dialog other characters are typed; Backspace deletes the last character typed.
pub open spec fn dialog_key_next(d: DialogView, key: KeyEvent) -> DialogTransition {
    let stay = DialogTransition { dialog: d, close: false, steps: Seq::empty() };
    let picker = d.dialog_type == DialogType::BranchPicker;
    if key.kind != KeyEventKind::Press {
        stay
    } else {
        match key.code {
            KeyCode::Esc => DialogTransition { dialog: d, close: true, steps: Seq::empty() },
            KeyCode::Enter => if d.dialog_type == DialogType::CommitMessage {
                let msg = trimmed(d.input);
                if msg.len() > 0 {
                    DialogTransition {
                        dialog: d,
                        close: true,
                        steps: seq![StepView::CreateCommit { message: msg }, StepView::Refresh],
                    }
                } else {
                    DialogTransition { dialog: d, close: true, steps: Seq::empty() }
                }
            } else if d.selected_branch < d.branches.len() {
                DialogTransition {
                    dialog: d,
                    close: true,
                    steps: seq![
                        StepView::SwitchBranch { name: d.branches[d.selected_branch as int] },
                        StepView::Refresh,
                    ],
                }
            } else {
                DialogTransition { dialog: d, close: true, steps: Seq::empty() }
            },
            KeyCode::Up if picker && d.selected_branch > 0 => DialogTransition {
                dialog: DialogView { selected_branch: (d.selected_branch - 1) as usize, ..d },
                close: false,
                steps: Seq::empty(),
            },
            KeyCode::Char('k') if picker && d.selected_branch > 0 => DialogTransition {
                dialog: DialogView { selected_branch: (d.selected_branch - 1) as usize, ..d },
                close: false,
                steps: Seq::empty(),
            },
            KeyCode::Down if picker && d.selected_branch + 1 < d.branches.len() => DialogTransition {
                dialog: DialogView { selected_branch: (d.selected_branch + 1) as usize, ..d },
                close: false,
                steps: Seq::empty(),
            },
            KeyCode::Char('j') if picker && d.selected_branch + 1 < d.branches.len() => DialogTransition {
                dialog: DialogView { selected_branch: (d.selected_branch + 1) as usize, ..d },
                close: false,
                steps: Seq::empty(),
            },
            KeyCode::Char(c) => if d.dialog_type == DialogType::CommitMessage {
                DialogTransition { dialog: DialogView { input: d.input.push(c), ..d }, close: false, steps: Seq::empty() }
            } else {
                stay
            },
            KeyCode::Backspace => if d.input.len() > 0 {
                DialogTransition { dialog: DialogView { input: d.input.drop_last(), ..d }, close: false, steps: Seq::empty() }
            } else {
                stay
            },
            _ => stay,
        }
    }
}

/// What a dialog does with an event: keys as `dialog_key_next` says, other events nothing.
pub open spec fn dialog_event_next(d: DialogView, event: Event) -> DialogTransition {
    match event {
        Event::Key(key) => dialog_key_next(d, key),
        _ => DialogTransition { dialog: d, close: false, steps: Seq::empty() },
    }
}

/// The outcome of an event in a dialog.
#[derive(Debug)]
pub struct DialogOutcome {
    pub close: bool,
    pub steps: Vec<Step>,
}

/// Carries out an event in an open dialog, as `dialog_event_next` says.
pub fn handle_dialog_event(event: Event, dialog_state: &mut DialogState) -> (out: DialogOutcome)
    ensures
        ({
            let t = dialog_event_next(old(dialog_state)@, event);
            &&& final(dialog_state)@ == t.dialog
            &&& out.close == t.close
            &&& steps_view(out.steps@) == t.steps
        }),
{
    let ghost d = dialog_state@;
    let mut steps: Vec<Step> = Vec::new();
    let mut close = false;
    match event {
        Event::Key(key) => {
            if key.kind == KeyEventKind::Press {
                let picker = dialog_state.dialog_type == DialogType::BranchPicker;
                match key.code {
                    KeyCode::Esc => {
                        close = true;
                    },
                    KeyCode::Enter => {
                        if dialog_state.dialog_type == DialogType::CommitMessage {
                            let msg = trim_string(dialog_state.input.as_str());
                            if !msg.as_str().is_empty() {
                                steps.push(Step::CreateCommit { message: msg });
                                steps.push(Step::Refresh);
                            }
                        } else if dialog_state.selected_branch < dialog_state.branches.len() {
                            let name = dialog_state.branches[dialog_state.selected_branch].clone();
                            steps.push(Step::SwitchBranch { name });
                            steps.push(Step::Refresh);
                        }
                        close = true;
                    },
                    KeyCode::Up if picker && dialog_state.selected_branch > 0 => {
                        dialog_state.selected_branch = dialog_state.selected_branch - 1;
                    },
                    KeyCode::Char('k') if picker && dialog_state.selected_branch > 0 => {
                        dialog_state.selected_branch = dialog_state.selected_branch - 1;
                    },
                    KeyCode::Down if picker && dialog_state.selected_branch < dialog_state.branches.len()
                        && dialog_state.selected_branch + 1 < dialog_state.branches.len() => {
                        dialog_state.selected_branch = dialog_state.selected_branch + 1;
                    },
                    KeyCode::Char('j') if picker && dialog_state.selected_branch < dialog_state.branches.len()
                        && dialog_state.selected_branch + 1 < dialog_state.branches.len() => {
                        dialog_state.selected_branch = dialog_state.selected_branch + 1;
                    },
                    KeyCode::Char(c) => {
                        if dialog_state.dialog_type == DialogType::CommitMessage {
                            dialog_state.input.push(c);
                        }
                    },
                    KeyCode::Backspace => {
                        dialog_state.input.pop();
                    },
                    _ => {},
                }
            }
        },
        _ => {},
    }
    let out = DialogOutcome { close, steps };
    proof {
        let t = dialog_event_next(d, event);
        assert(steps_view(out.steps@) =~= t.steps);
        assert(dialog_state@ =~= t.dialog);
    }
    out
}

/// What a key does while the filter is typed: Esc ends the filter and clears it, Enter
/// ends it, a non-control character is typed and Backspace deletes (both moving the
/// selection to the first file).
pub open spec fn filter_key_next(a: AppView, key: KeyEvent) -> AppView {
    if key.kind != KeyEventKind::Press {
        a
    } else {
        match key.code {
            KeyCode::Esc => AppView { filter_active: false, filter_text: Seq::empty(), ..a },
            KeyCode::Enter => AppView { filter_active: false, ..a },
            KeyCode::Char(c) => if !is_control(c) {
                AppView { filter_text: a.filter_text.push(c), selected_file: 0, ..a }
            } else {
                a
            },
            KeyCode::Backspace => AppView {
                filter_text: if a.filter_text.len() > 0 { a.filter_text.drop_last() } else { a.filter_text },
                selected_file: 0,
                ..a
            },
            _ => a,
        }
    }
}

/// What an event does while the filter is typed.
pub open spec fn filter_event_next(a: AppView, event: Event) -> AppView {
    match event {
        Event::Key(key) => filter_key_next(a, key),
        _ => a,
    }
}

/// Carries out an event while the filter is typed, as `filter_event_next` says; it never
/// ends the session.
pub fn handle_filter_event(event: Event, app: &mut RuneApp) -> (quit: bool)
    ensures
        final(app)@ == filter_event_next(old(app)@, event),
        !quit,
{
    let ghost a = app@;
    match event {
        Event::Key(key) => {
            if key.kind == KeyEventKind::Press {
                match key.code {
                    KeyCode::Esc => {
                        app.filter_active = false;
                        app.filter_text.clear();
                    },
                    KeyCode::Enter => {
                        app.filter_active = false;
                    },
                    KeyCode::Char(c) if !is_control_char(c) => {
                        app.filter_text.push(c);
                        app.selected_file = 0;
                    },
                    KeyCode::Backspace => {
                        app.filter_text.pop();
                        app.selected_file = 0;
                    },
                    _ => {},
                }
            }
        },
        _ => {},
    }
    assert(app@ =~= filter_event_next(a, event));
    false
}

/// The index of the first entry a list shows when it has `n` entries, room for `fit`
/// whole entries, and keeps the `selected` one in view: it scrolls only as far as that
/// needs.
pub open spec fn first_listed(selected: usize, n: nat, fit: nat) -> nat {
    let s: nat = if selected < n { selected as nat } else { (n - 1) as nat };
    if s >= fit {
        (s + 1 - fit) as nat
    } else {
        0
    }
}

/// The entry of a list of `n` entries, each `rows` rows high, shown in `area` with the
/// `selected` one kept in view, under the cell (`column`, `row`); none when the cell is
/// outside the list or on no entry.
pub open spec fn entry_at(area: Area, n: nat, rows: nat, selected: usize, column: u16, row: u16) -> Option<nat> {
    let fit = area.height as nat / rows;
    if n > 0 && rows > 0 && area.x <= column < area.x + area.width && area.y <= row < area.y + area.height {
        let r = ((row - area.y) as nat) / rows;
        let k = first_listed(selected, n, fit) + r;
        if r < fit && k < n {
            Some(k as nat)
        } else {
            None
        }
    } else {
        None
    }
}

/// The shown file under the cell (`column`, `row`) of the screen last drawn, when that
/// screen shows the file tree: its list fills the inside of the tree panel, one row per
/// file.
pub open spec fn clicked_file(a: AppView, s: Screen, column: u16, row: u16) -> Option<nat> {
    match s {
        Screen::Files { tree_area, .. } => entry_at(
            bordered_inner(tree_area),
            a.shown().len(),
            1,
            a.selected_file,
            column,
            row,
        ),
        _ => None,
    }
}

/// The commit under the cell (`column`, `row`) of the screen last drawn, when that screen
/// shows the commit log: its list fills the inside of the log panel, three rows per
/// commit.
pub open spec fn clicked_commit(a: AppView, s: Screen, column: u16, row: u16) -> Option<nat> {
    match s {
        Screen::History { log_area, .. } => entry_at(
            bordered_inner(log_area),
            a.commits.len(),
            3,
            a.selected_commit,
            column,
            row,
        ),
        _ => None,
    }
}

/// What a mouse event does on the screen last drawn: scrolling moves the file
/// selection within the shown files when the tree has focus, and scrolls the diff by 3
/// rows (down only below 10000) when the diff has focus; a left click on a file of the
/// file list selects it and loads its diff, and one on a commit of the commit log
/// selects it.
pub open spec fn mouse_next(a: AppView, event: MouseEvent, screen: Screen) -> (AppView, Seq<StepView>) {
    match event.kind {
        MouseEventKind::ScrollDown => (
            if a.focus == PanelFocus::Tree {
                if a.selected_file + 1 < a.shown().len() {
                    AppView { selected_file: (a.selected_file + 1) as usize, ..a }
                } else {
                    a
                }
            } else if a.diff_scroll < 10000 {
                AppView { diff_scroll: (a.diff_scroll + 3) as u16, ..a }
            } else {
                a
            },
            Seq::empty(),
        ),
        MouseEventKind::ScrollUp => (
            if a.focus == PanelFocus::Tree {
                if a.selected_file > 0 {
                    AppView { selected_file: (a.selected_file - 1) as usize, ..a }
                } else {
                    a
                }
            } else {
                AppView { diff_scroll: sat_sub(a.diff_scroll, 3), ..a }
            },
            Seq::empty(),
        ),
        MouseEventKind::LeftClick => match clicked_file(a, screen, event.column, event.row) {
            Some(k) => (AppView { selected_file: k as usize, ..a }, seq![StepView::LoadDiff]),
            None => match clicked_commit(a, screen, event.column, event.row) {
                Some(k) => (AppView { selected_commit: k as usize, ..a }, Seq::empty()),
                None => (a, Seq::empty()),
            },
        },
        MouseEventKind::Other => (a, Seq::empty()),
    }
}

/// The entry under a cell, as `entry_at` says.
fn list_entry_at(area: Area, n: usize, rows: u16, selected: usize, column: u16, row: u16) -> (k: Option<usize>)
    requires
        rows > 0,
    ensures
        k matches Some(i) ==> entry_at(area, n as nat, rows as nat, selected, column, row) == Some(i as nat),
        k is None ==> entry_at(area, n as nat, rows as nat, selected, column, row) is None,
{
    if n == 0 || column < area.x || column - area.x >= area.width || row < area.y || row - area.y >= area.height {
        return None;
    }
    let fit = (area.height / rows) as usize;
    let s = if selected < n { selected } else { n - 1 };
    let first = if s >= fit { s + 1 - fit } else { 0 };
    let r = ((row - area.y) / rows) as usize;
    if r < fit && first < n && r < n - first {
        Some(first + r)
    } else {
        None
    }
}

/// Carries out a mouse event on the screen last drawn, as `mouse_next` says, and returns
/// the steps it asks for.
pub fn handle_mouse(event: MouseEvent, app: &mut RuneApp, screen: &Screen) -> (steps: Vec<Step>)
    ensures
        final(app)@ == mouse_next(old(app)@, event, *screen).0,
        steps_view(steps@) == mouse_next(old(app)@, event, *screen).1,
{
    let ghost a = app@;
    let mut steps: Vec<Step> = Vec::new();
    match event.kind {
        MouseEventKind::ScrollDown => {
            if app.focus == PanelFocus::Tree {
                let count = app.filtered_files().len();
                proof {
                    shown_files_view(*app);
                }
                if app.selected_file < count && app.selected_file + 1 < count {
                    app.selected_file = app.selected_file + 1;
                }
            } else {
                if app.diff_scroll < 10000 {
                    app.diff_scroll = app.diff_scroll + 3;
                }
            }
        },
        MouseEventKind::ScrollUp => {
            if app.focus == PanelFocus::Tree {
                if app.selected_file > 0 {
                    app.selected_file = app.selected_file - 1;
                }
            } else {
                app.diff_scroll = if app.diff_scroll >= 3 { app.diff_scroll - 3 } else { 0 };
            }
        },
        MouseEventKind::LeftClick => {
            match screen {
                Screen::Files { tree_area, .. } => {
                    let n = app.filtered_files().len();
                    proof {
                        shown_files_view(*app);
                    }
                    let area = block_inner(*tree_area);
                    match list_entry_at(area, n, 1, app.selected_file, event.column, event.row) {
                        Some(k) => {
                            app.selected_file = k;
                            steps.push(Step::LoadDiff);
                        },
                        None => {},
                    }
                },
                Screen::History { log_area, .. } => {
                    let area = block_inner(*log_area);
                    match list_entry_at(area, app.commits.len(), 3, app.selected_commit, event.column, event.row) {
                        Some(k) => {
                            app.selected_commit = k;
                        },
                        None => {},
                    }
                },
                _ => {},
            }
        },
        MouseEventKind::Other => {},
    }
    assert(app@ =~= mouse_next(a, event, *screen).0);
    assert(steps_view(steps@) =~= mouse_next(a, event, *screen).1);
    steps
}

/// What an event does in the main loop: an open dialog takes it (and is gone once it
/// closes); else the filter, while it is typed, takes it; else a key press is mapped to
/// its action and a mouse event scrolls or selects; anything else does nothing.
pub open spec fn event_next(a: AppView, d: Option<DialogView>, event: Event, screen: Screen) -> Transition {
    match d {
        Some(dv) => {
            let t = dialog_event_next(dv, event);
            go(a, if t.close { None } else { Some(t.dialog) }, t.steps)
        },
        None => if a.filter_active {
            go(filter_event_next(a, event), d, Seq::empty())
        } else {
            match event {
                Event::Key(key) => if key.kind == KeyEventKind::Press {
                    match key_action(key) {
                        Some(action) => action_next(a, d, action),
                        None => go(a, d, Seq::empty()),
                    }
                } else {
                    go(a, d, Seq::empty())
                },
                Event::Mouse(m) => go(mouse_next(a, m, screen).0, d, mouse_next(a, m, screen).1),
                Event::Other => go(a, d, Seq::empty()),
            }
        },
    }
}

/// Handles one event of the main loop, the screen last drawn being `screen`, as
/// `event_next` says.
pub fn handle_event(event: Event, app: &mut RuneApp, dialog: &mut Option<DialogState>, screen: &Screen) -> (out: Outcome)
    ensures
        ({
            let t = event_next(old(app)@, dialog_view(*old(dialog)), event, *screen);
            &&& final(app)@ == t.app
            &&& dialog_view(*final(dialog)) == t.dialog
            &&& out.quit == t.quit
            &&& steps_view(out.steps@) == t.steps
        }),
{
    match dialog {
        Some(ds) => {
            let r = handle_dialog_event(event, ds);
            if r.close {
                *dialog = None;
            }
            return Outcome { quit: false, steps: r.steps };
        },
        None => {},
    }
    if app.filter_active {
        handle_filter_event(event, app);
        let out = Outcome { quit: false, steps: Vec::new() };
        assert(steps_view(out.steps@) =~= Seq::<StepView>::empty());
        return out;
    }
    match event {
        Event::Key(key) => {
            if key.kind == KeyEventKind::Press {
                match map_key(key) {
                    Some(action) => {
                        return handle_action(action, app, dialog);
                    },
                    None => {},
                }
            }
        },
        Event::Mouse(mouse) => {
            let steps = handle_mouse(mouse, app, screen);
            return Outcome { quit: false, steps };
        },
        Event::Other => {},
    }
    let out = Outcome { quit: false, steps: Vec::new() };
    assert(steps_view(out.steps@) =~= Seq::<StepView>::empty());
    out
}

/// The selection after the file list has `n` entries: kept when still in range, else
/// the last entry (or 0 when there is none).
pub open spec fn clamp_selection(selected: usize, n: nat) -> usize {
    if selected >= n {
        if n >= 1 {
            (n - 1) as usize
        } else {
            0
        }
    } else {
        selected
    }
}

/// Takes what a refresh read from the repository: the changed files, the current
/// branch and the branches; the file selection is pulled back into range.
pub fn refresh_state(
    app: &mut RuneApp,
    files: Vec<ChangedFile>,
    current_branch: String,
    branches: Vec<BranchInfo>,
)
    ensures
        final(app)@ == (AppView {
            files: files@.map_values(|f: ChangedFile| f@),
            current_branch: current_branch@,
            branches: branches@.map_values(|b: BranchInfo| b@),
            selected_file: clamp_selection(old(app)@.selected_file, files@.len()),
            ..old(app)@
        }),
{
    app.changed_files = files;
    app.current_branch = current_branch;
    app.branches = branches;
    if app.selected_file >= app.changed_files.len() {
        app.selected_file = if app.changed_files.len() >= 1 { app.changed_files.len() - 1 } else { 0 };
    }
}

/// The diff shown for a file: its staged diff when that has hunks, else its work-tree
/// diff when that has hunks, else none.
pub open spec fn chosen_diff(staged: Option<FileDiffView>, workdir: Option<FileDiffView>) -> Option<FileDiffView> {
    match staged {
        Some(s) if s.hunks.len() > 0 => Some(s),
        _ => match workdir {
            Some(w) if w.hunks.len() > 0 => Some(w),
            _ => None,
        },
    }
}

/// Loading a file's diff shows its staged changes when there are any, else its unstaged
/// changes when there are any, else nothing; a diff without hunks is never shown.
pub proof fn loading_prefers_staged_changes(staged: Option<FileDiffView>, workdir: Option<FileDiffView>)
    ensures
        staged matches Some(s) && s.hunks.len() > 0 ==> chosen_diff(staged, workdir) == staged,
        !(staged matches Some(s) && s.hunks.len() > 0) && (workdir matches Some(w) && w.hunks.len() > 0)
            ==> chosen_diff(staged, workdir) == workdir,
        chosen_diff(staged, workdir) matches Some(c) ==> c.hunks.len() > 0 && (Some(c) == staged || Some(c) == workdir),
        !(staged matches Some(s) && s.hunks.len() > 0) && !(workdir matches Some(w) && w.hunks.len() > 0)
            ==> chosen_diff(staged, workdir) is None,
{
}

/// Starts loading the selected file's diff: with a file selected, resets the diff
/// scroll and returns the file's path to read the diffs of; with none, clears the diff.
pub fn begin_load_diff(app: &mut RuneApp) -> (path: Option<String>)
    ensures
        old(app)@.selected_file < old(app)@.shown().len() ==> (path matches Some(p) && p@ == old(app)@.shown()[old(app)@.selected_file as int].path
            && final(app)@ == AppView { diff_scroll: 0, ..old(app)@ }),
        old(app)@.selected_file >= old(app)@.shown().len() ==> (path is None
            && final(app)@ == AppView { diff: None, ..old(app)@ }),
{
    proof {
        shown_files_view(*app);
    }
    let path = match app.selected_file_entry() {
        Some(f) => Some(f.path.clone()),
        None => None,
    };
    match path {
        Some(p) => {
            app.diff_scroll = 0;
            Some(p)
        },
        None => {
            app.diff = None;
            None
        },
    }
}

/// Finishes loading a diff from the staged and work-tree diffs read (`None` where
/// reading failed), as `chosen_diff` picks.
pub fn finish_load_diff(app: &mut RuneApp, staged: Option<FileDiff>, workdir: Option<FileDiff>)
    ensures
        final(app)@ == (AppView { diff: chosen_diff(diff_view(staged), diff_view(workdir)), ..old(app)@ }),
{
    let chosen = match staged {
        Some(s) if !s.is_empty() => Some(s),
        _ => match workdir {
            Some(w) if !w.is_empty() => Some(w),
            _ => None,
        },
    };
    app.diff = chosen;
}

/// Shows the first of a commit's file diffs, or none when it has none.
pub fn load_commit_diff(app: &mut RuneApp, diffs: Vec<FileDiff>)
    ensures
        final(app)@ == (AppView {
            diff: if diffs@.len() > 0 { Some(diffs@[0]@) } else { None },
            ..old(app)@
        }),
{
    let mut diffs = diffs;
    if diffs.len() > 0 {
        app.diff = Some(diffs.remove(0));
    } else {
        app.diff = None;
    }
}

/// Takes the history read, starting the selection at its first commit.
pub fn set_commits(app: &mut RuneApp, commits: Vec<CommitInfo>)
    ensures
        final(app)@ == (AppView {
            commits: commits@.map_values(|c: CommitInfo| c@),
            selected_commit: 0,
            ..old(app)@
        }),
{
    app.commits = commits;
    app.selected_commit = 0;
}

/// The names of the local branches of a list, in order.
pub open spec fn local_branch_names(s: Seq<BranchView>) -> Seq<Seq<char>> {
    s.filter(|b: BranchView| b.local).map_values(|b: BranchView| b.name)
}

/// Opens the branch picker on the names of the local branches listed, in order.
pub fn open_branch_picker(dialog: &mut Option<DialogState>, branches: Vec<BranchInfo>)
    ensures
        dialog_view(*final(dialog)) == Some(branch_dialog(local_branch_names(branches@.map_values(|b: BranchInfo| b@)))),
{
    let mut names: Vec<String> = Vec::new();
    let ghost all = branches@.map_values(|b: BranchInfo| b@);
    let ghost loc = |b: BranchView| b.local;
    let mut i: usize = 0;
    while i < branches.len()
        invariant
            all == branches@.map_values(|b: BranchInfo| b@),
            loc == (|b: BranchView| b.local),
            i <= branches@.len(),
            names@.map_values(|n: String| n@) == all.take(i as int).filter(loc).map_values(|b: BranchView| b.name),
        decreases branches.len() - i,
    {
        reveal_with_fuel(Seq::filter, 1);
        let ghost prev = names@;
        assert(all.take(i + 1).drop_last() =~= all.take(i as int));
        assert(all[i as int] == branches@[i as int]@);
        if branches[i].local {
            let name = branches[i].name.clone();
            names.push(name);
            assert(all.take(i + 1).filter(loc) == all.take(i as int).filter(loc).push(all[i as int]));
            assert(names@.map_values(|n: String| n@) =~= prev.map_values(|n: String| n@).push(all[i as int].name));
            assert(all.take(i + 1).filter(loc).map_values(|b: BranchView| b.name) =~= all.take(i as int).filter(loc).map_values(
                |b: BranchView| b.name,
            ).push(all[i as int].name));
        } else {
            assert(all.take(i + 1).filter(loc) == all.take(i as int).filter(loc));
        }
        i = i + 1;
    }
    assert(all.take(branches@.len() as int) =~= all);
    *dialog = Some(DialogState::new_branch(names));
}

/// Whether a failure of a step's outside work ends the session: failing to read the
/// repository's state again, or a commit's diffs, does; every other failure is ignored
/// and leaves the state as the step found it.
pub open spec fn failure_ends_session(s: StepView) -> bool {
    s is Refresh || s is LoadCommitDiff
}

/// Whether a failure of this step's outside work ends the session.
pub fn ends_session_on_failure(step: &Step) -> (ends: bool)
    ensures
        ends == failure_ends_session(step@),
{
    match step {
        Step::Refresh | Step::LoadCommitDiff { .. } => true,
        _ => false,
    }
}

/// The session's invariant: the file selection is on a shown file (or 0), the commit
/// selection on a commit (or 0), the diff scroll at most 10004, the filter not typed
/// while a dialog is open, and the branch selection on a branch (or 0).
pub open spec fn session_ok(a: AppView, d: Option<DialogView>) -> bool {
    &&& (a.selected_file == 0 || a.selected_file < a.shown().len())
    &&& (a.selected_commit == 0 || a.selected_commit < a.commits.len())
    &&& a.diff_scroll <= 10004
    &&& (d is Some ==> !a.filter_active)
    &&& (d matches Some(dv) ==> (dv.selected_branch == 0 || dv.selected_branch < dv.branches.len()))
}

proof fn lemma_shown_len(a: AppView)
    ensures
        a.shown().len() <= a.files.len(),
{
    if a.filter_on() {
        a.files.lemma_filter_len(|f: FileView| view_matches(f, a.filter_text));
    }
}

/// A new session, with no dialog, satisfies the invariant.
pub proof fn new_session_ok(app: RuneApp)
    requires
        app.selected_file == 0,
        app.selected_commit == 0,
        app.diff_scroll == 0,
    ensures
        session_ok(app@, None),
{
}

/// Every event of the main loop keeps the session's invariant.
pub proof fn event_keeps_session_ok(a: AppView, d: Option<DialogView>, event: Event, screen: Screen)
    requires
        session_ok(a, d),
    ensures
        session_ok(event_next(a, d, event, screen).app, event_next(a, d, event, screen).dialog),
{
    let t = event_next(a, d, event, screen);
    match d {
        Some(dv) => {
            let dt = dialog_event_next(dv, event);
            assert(dt.dialog.branches == dv.branches);
        },
        None => {
            if a.filter_active {
                lemma_shown_len(a);
                assert(t.app.shown().len() >= a.shown().len() || t.app.selected_file == 0) by {
                    if t.app.filter_on() {
                        assert(t.app.selected_file == 0 || t.app == a);
                    } else {
                        assert(t.app.shown() == a.files);
                    }
                }
            } else {
                assert(a.shown() == a.files);
            }
        },
    }
}

/// Reading the selected file's diff keeps the session's invariant.
pub proof fn load_diff_keeps_session_ok(a: AppView, d: Option<DialogView>, diff: Option<FileDiffView>)
    requires
        session_ok(a, d),
    ensures
        session_ok(AppView { diff_scroll: 0, ..a }, d),
        session_ok(AppView { diff, ..a }, d),
{
}

/// A refresh keeps the session's invariant when the filter is not being typed, as it
/// never is when a refresh is asked for.
pub proof fn refresh_keeps_session_ok(
    a: AppView,
    d: Option<DialogView>,
    files: Seq<FileView>,
    current_branch: Seq<char>,
    branches: Seq<BranchView>,
)
    requires
        session_ok(a, d),
        !a.filter_active,
    ensures
        session_ok(
            AppView {
                files,
                current_branch,
                branches,
                selected_file: clamp_selection(a.selected_file, files.len()),
                ..a
            },
            d,
        ),
{
}

/// Taking a new history, or opening the branch picker while the filter is not being
/// typed, keeps the session's invariant.
pub proof fn history_and_picker_keep_session_ok(
    a: AppView,
    d: Option<DialogView>,
    commits: Seq<CommitView>,
    names: Seq<Seq<char>>,
)
    requires
        session_ok(a, d),
    ensures
        session_ok(AppView { commits, selected_commit: 0, ..a }, d),
        !a.filter_active ==> session_ok(a, Some(branch_dialog(names))),
{
}

/// Toggling help twice gives back the state it started from.
pub proof fn help_twice_restores(a: AppView, d: Option<DialogView>)
    ensures
        action_next(action_next(a, d, Action::Help).app, d, Action::Help).app == a,
        action_next(a, d, Action::Help).steps.len() == 0,
{
    assert(action_next(action_next(a, d, Action::Help).app, d, Action::Help).app =~= a);
}

/// Tab moves the focus to the other panel, loading the diff when it moves to the diff;
/// two Tabs give the focus back.
pub proof fn tab_twice_restores_focus(a: AppView, d: Option<DialogView>)
    ensures
        action_next(a, d, Action::Tab).app.focus != a.focus,
        a.focus == PanelFocus::Tree ==> action_next(a, d, Action::Tab).steps == seq![StepView::LoadDiff],
        a.focus == PanelFocus::Diff ==> action_next(a, d, Action::Tab).steps.len() == 0,
        action_next(a, d, Action::Tab).app == (AppView { focus: action_next(a, d, Action::Tab).app.focus, ..a }),
        action_next(action_next(a, d, Action::Tab).app, d, Action::Tab).app.focus == a.focus,
{
}

/// Back always returns to the file tree with focus on it and no diff, asking for nothing.
pub proof fn back_returns_to_tree(a: AppView, d: Option<DialogView>)
    ensures
        action_next(a, d, Action::Back).app.mode == AppMode::Tree,
        action_next(a, d, Action::Back).app.focus == PanelFocus::Tree,
        action_next(a, d, Action::Back).app.diff is None,
        action_next(a, d, Action::Back).steps.len() == 0,
        !action_next(a, d, Action::Back).quit,
{
}

/// Quitting changes nothing and asks for nothing.
pub proof fn quit_changes_nothing(a: AppView, d: Option<DialogView>)
    ensures
        action_next(a, d, Action::Quit).quit,
        action_next(a, d, Action::Quit).app == a,
        action_next(a, d, Action::Quit).dialog == d,
        action_next(a, d, Action::Quit).steps.len() == 0,
{
}

/// Esc in a dialog closes it without doing anything to the repository.
pub proof fn escape_closes_dialog(a: AppView, dv: DialogView, ctrl: bool, screen: Screen)
    ensures
        ({
            let t = event_next(a, Some(dv), Event::Key(KeyEvent { code: KeyCode::Esc, ctrl, kind: KeyEventKind::Press }), screen);
            &&& t.dialog is None
            &&& t.steps.len() == 0
            &&& t.app == a
            &&& !t.quit
        }),
{
}

/// Enter in the commit dialog with a message that is blank once trimmed closes it
/// without committing; with a message that is not blank, it commits the trimmed
/// message and then refreshes.
pub proof fn commit_needs_a_message(a: AppView, dv: DialogView, ctrl: bool, screen: Screen)
    requires
        dv.dialog_type == DialogType::CommitMessage,
    ensures
        ({
            let t = event_next(a, Some(dv), Event::Key(KeyEvent { code: KeyCode::Enter, ctrl, kind: KeyEventKind::Press }), screen);
            &&& t.dialog is None
            &&& trimmed(dv.input).len() == 0 ==> t.steps.len() == 0
            &&& trimmed(dv.input).len() > 0 ==> t.steps == seq![
                StepView::CreateCommit { message: trimmed(dv.input) },
                StepView::Refresh,
            ]
        }),
{
}

/// Esc while typing the filter clears it, so that every file is shown again.
pub proof fn escape_clears_filter(a: AppView, ctrl: bool, screen: Screen)
    requires
        a.filter_active,
    ensures
        ({
            let t = event_next(a, None, Event::Key(KeyEvent { code: KeyCode::Esc, ctrl, kind: KeyEventKind::Press }), screen);
            &&& !t.app.filter_active
            &&& t.app.filter_text.len() == 0
            &&& t.app.shown() == a.files
            &&& t.steps.len() == 0
        }),
{
}

/// Staging toggles: the selected file is unstaged when it is staged and staged when it
/// is not, then the state is refreshed and its diff loaded again.
pub proof fn stage_toggle_flips(a: AppView, d: Option<DialogView>)
    requires
        a.selected_file < a.shown().len(),
    ensures
        ({
            let f = a.shown()[a.selected_file as int];
            let t = action_next(a, d, Action::StageToggle);
            &&& t.steps.len() == 3
            &&& (f.staged ==> t.steps[0] == StepView::UnstageFile { path: f.path })
            &&& (!f.staged ==> t.steps[0] == StepView::StageFile { path: f.path })
            &&& t.steps[1] == StepView::Refresh
            &&& t.steps[2] == StepView::LoadDiff
            &&& t.app == a
        }),
{
}

/// A left click on a file of the file list selects that file and loads its diff; one on
/// a commit of the commit log selects that commit.
pub proof fn clicking_selects_the_entry_under_the_pointer(a: AppView, screen: Screen, column: u16, row: u16)
    requires
        !a.filter_active,
    ensures
        ({
            let t = event_next(a, None, Event::Mouse(MouseEvent { kind: MouseEventKind::LeftClick, column, row }), screen);
            &&& clicked_file(a, screen, column, row) matches Some(k) ==> t.app == (AppView { selected_file: k as usize, ..a })
                && t.steps == seq![StepView::LoadDiff]
            &&& clicked_commit(a, screen, column, row) matches Some(k) ==> t.app == (AppView {
                selected_commit: k as usize,
                ..a
            }) && t.steps.len() == 0
            &&& !t.quit
        }),
{
    if clicked_commit(a, screen, column, row) is Some {
        assert(clicked_file(a, screen, column, row) is None);
    }
}

/// Moving the file selection by keyboard outside the commit log: Up (or `k`) moves it
/// one file up unless it is on the first, Down (or `j`) one file down unless it is on the
/// last shown file; whenever the selection moves, the new file's diff is loaded (the only
/// step asked for) and nothing else in the state changes.
pub proof fn moving_the_file_selection_loads_its_diff(a: AppView, ctrl: bool, screen: Screen)
    requires
        !a.filter_active,
        a.mode != AppMode::CommitLog,
    ensures
        forall|code: KeyCode|
            (code == KeyCode::Up || code == KeyCode::Char('k')) && a.selected_file > 0 ==> {
                let t = #[trigger] event_next(a, None, Event::Key(KeyEvent { code, ctrl, kind: KeyEventKind::Press }), screen);
                &&& t.app == (AppView { selected_file: (a.selected_file - 1) as usize, ..a })
                &&& t.steps == seq![StepView::LoadDiff]
                &&& t.dialog is None
                &&& !t.quit
            },
        forall|code: KeyCode|
            (code == KeyCode::Down || code == KeyCode::Char('j')) && a.selected_file + 1 < a.shown().len() ==> {
                let t = #[trigger] event_next(a, None, Event::Key(KeyEvent { code, ctrl, kind: KeyEventKind::Press }), screen);
                &&& t.app == (AppView { selected_file: (a.selected_file + 1) as usize, ..a })
                &&& t.steps == seq![StepView::LoadDiff]
                &&& t.dialog is None
                &&& !t.quit
            },
{
}

/// In the branch picker, Up (or `k`) moves the selection one branch up unless it is on
/// the first, and Down (or `j`) one branch down unless it is on the last; neither closes
/// the picker or asks for a step, and Down followed by Up comes back to where it was.
pub proof fn picker_moves_one_branch_at_a_time(a: AppView, dv: DialogView, ctrl: bool, screen: Screen)
    requires
        dv.dialog_type == DialogType::BranchPicker,
    ensures
        forall|code: KeyCode|
            (code == KeyCode::Up || code == KeyCode::Char('k')) && dv.selected_branch > 0 ==> {
                let t = #[trigger] event_next(a, Some(dv), Event::Key(KeyEvent { code, ctrl, kind: KeyEventKind::Press }), screen);
                &&& t.dialog == Some(DialogView { selected_branch: (dv.selected_branch - 1) as usize, ..dv })
                &&& t.app == a
                &&& t.steps.len() == 0
                &&& !t.quit
            },
        forall|code: KeyCode|
            (code == KeyCode::Down || code == KeyCode::Char('j')) && dv.selected_branch + 1 < dv.branches.len() ==> {
                let t = #[trigger] event_next(a, Some(dv), Event::Key(KeyEvent { code, ctrl, kind: KeyEventKind::Press }), screen);
                &&& t.dialog == Some(DialogView { selected_branch: (dv.selected_branch + 1) as usize, ..dv })
                &&& t.app == a
                &&& t.steps.len() == 0
                &&& !t.quit
            },
        dv.selected_branch + 1 < dv.branches.len() <= usize::MAX ==> ({
            let down = event_next(a, Some(dv), Event::Key(KeyEvent { code: KeyCode::Down, ctrl, kind: KeyEventKind::Press }), screen);
            let up = event_next(
                down.app,
                down.dialog,
                Event::Key(KeyEvent { code: KeyCode::Up, ctrl, kind: KeyEventKind::Press }),
                screen,
            );
            up.dialog == Some(dv) && up.app == a
        }),
{
    if dv.selected_branch + 1 < dv.branches.len() <= usize::MAX {
        let down = event_next(a, Some(dv), Event::Key(KeyEvent { code: KeyCode::Down, ctrl, kind: KeyEventKind::Press }), screen);
        let dv2 = DialogView { selected_branch: (dv.selected_branch + 1) as usize, ..dv };
        assert(down.dialog == Some(dv2));
        assert(down.app == a);
        let up = event_next(a, Some(dv2), Event::Key(KeyEvent { code: KeyCode::Up, ctrl, kind: KeyEventKind::Press }), screen);
        assert(up.dialog == Some(DialogView { selected_branch: (dv2.selected_branch - 1) as usize, ..dv2 }));
        assert(DialogView { selected_branch: (dv2.selected_branch - 1) as usize, ..dv2 } == dv);
    }
}

/// In the commit log, Up and Down move the commit selection one commit within the list
/// without asking for anything, Enter asks for the selected commit's diff, and `l` goes
/// back to the file tree.
pub proof fn commit_log_moves_and_opens(a: AppView, d: Option<DialogView>)
    requires
        a.mode == AppMode::CommitLog,
    ensures
        a.selected_commit > 0 ==> action_next(a, d, Action::Up).app == (AppView {
            selected_commit: (a.selected_commit - 1) as usize,
            ..a
        }) && action_next(a, d, Action::Up).steps.len() == 0,
        a.selected_commit + 1 < a.commits.len() ==> action_next(a, d, Action::Down).app == (AppView {
            selected_commit: (a.selected_commit + 1) as usize,
            ..a
        }) && action_next(a, d, Action::Down).steps.len() == 0,
        a.selected_commit == 0 ==> action_next(a, d, Action::Up).app == a,
        a.selected_commit + 1 >= a.commits.len() ==> action_next(a, d, Action::Down).app == a,
        a.selected_commit < a.commits.len() ==> action_next(a, d, Action::Enter).steps == seq![
            StepView::LoadCommitDiff { commit_id: a.commits[a.selected_commit as int].id },
        ] && action_next(a, d, Action::Enter).app == a,
        action_next(a, d, Action::CommitLog).app == (AppView { mode: AppMode::Tree, ..a }),
        action_next(a, d, Action::CommitLog).steps.len() == 0,
{
}

/// Outside the commit log, Enter shows the selected file's diff with the diff focused;
/// `l` opens the commit log on its first commit and reads the last 100 commits; Up on the
/// first file and Down on the last shown file change nothing.
pub proof fn tree_enter_and_log(a: AppView, d: Option<DialogView>)
    requires
        a.mode != AppMode::CommitLog,
    ensures
        action_next(a, d, Action::Enter).app == (AppView { mode: AppMode::Diff, focus: PanelFocus::Diff, ..a }),
        action_next(a, d, Action::Enter).steps == seq![StepView::LoadDiff],
        action_next(a, d, Action::CommitLog).app == (AppView { mode: AppMode::CommitLog, selected_commit: 0, ..a }),
        action_next(a, d, Action::CommitLog).steps == seq![StepView::LoadCommitHistory { max_count: 100 }],
        a.selected_file == 0 ==> action_next(a, d, Action::Up).app == a && action_next(a, d, Action::Up).steps.len() == 0,
        a.selected_file + 1 >= a.shown().len() ==> action_next(a, d, Action::Down).app == a && action_next(
            a,
            d,
            Action::Down,
        ).steps.len() == 0,
{
}

/// PageDown scrolls the diff 5 rows down (while it is above row 10000) and PageUp 5 rows
/// up (not past the top); mouse wheel scrolling over the diff moves it by 3 rows the same
/// way, and over the tree moves the file selection.
pub proof fn scrolling_moves_by_fixed_steps(a: AppView, d: Option<DialogView>, m: MouseEvent, screen: Screen)
    ensures
        a.diff_scroll < 10000 ==> action_next(a, d, Action::ScrollDown).app.diff_scroll == a.diff_scroll + 5,
        a.diff_scroll >= 10000 ==> action_next(a, d, Action::ScrollDown).app.diff_scroll == a.diff_scroll,
        action_next(a, d, Action::ScrollUp).app.diff_scroll == (if a.diff_scroll >= 5 { a.diff_scroll - 5 } else { 0 }),
        action_next(a, d, Action::ScrollDown).app == (AppView { diff_scroll: action_next(a, d, Action::ScrollDown).app.diff_scroll, ..a }),
        action_next(a, d, Action::ScrollUp).app == (AppView { diff_scroll: action_next(a, d, Action::ScrollUp).app.diff_scroll, ..a }),
        a.focus == PanelFocus::Diff && m.kind == MouseEventKind::ScrollDown && a.diff_scroll < 10000 ==> mouse_next(
            a,
            m,
            screen,
        ).0 == (AppView { diff_scroll: (a.diff_scroll + 3) as u16, ..a }),
        a.focus == PanelFocus::Diff && m.kind == MouseEventKind::ScrollUp ==> mouse_next(a, m, screen).0 == (AppView {
            diff_scroll: if a.diff_scroll >= 3 { (a.diff_scroll - 3) as u16 } else { 0 },
            ..a
        }),
        a.focus == PanelFocus::Tree && m.kind == MouseEventKind::ScrollDown && a.selected_file + 1 < a.shown().len()
            ==> mouse_next(a, m, screen).0 == (AppView { selected_file: (a.selected_file + 1) as usize, ..a }),
        a.focus == PanelFocus::Tree && m.kind == MouseEventKind::ScrollUp && a.selected_file > 0 ==> mouse_next(
            a,
            m,
            screen,
        ).0 == (AppView { selected_file: (a.selected_file - 1) as usize, ..a }),
{
}

/// The repository actions ask for their work and change nothing else: `S` stages all then
/// refreshes, `u` unstages all then refreshes, `r` refreshes, `b` opens the branch picker;
/// `c` opens an empty commit dialog; `/` starts an empty filter; `?` toggles the help.
pub proof fn actions_ask_for_their_work(a: AppView, d: Option<DialogView>)
    ensures
        action_next(a, d, Action::StageAll).steps == seq![StepView::StageAll, StepView::Refresh],
        action_next(a, d, Action::UnstageAll).steps == seq![StepView::UnstageAll, StepView::Refresh],
        action_next(a, d, Action::Refresh).steps == seq![StepView::Refresh],
        action_next(a, d, Action::BranchSwitch).steps == seq![StepView::OpenBranchPicker],
        action_next(a, d, Action::StageAll).app == a,
        action_next(a, d, Action::UnstageAll).app == a,
        action_next(a, d, Action::Refresh).app == a,
        action_next(a, d, Action::BranchSwitch).app == a,
        action_next(a, d, Action::Commit).dialog == Some(DialogView {
            dialog_type: DialogType::CommitMessage,
            input: Seq::empty(),
            cursor_position: 0,
            branches: Seq::empty(),
            selected_branch: 0,
        }),
        action_next(a, d, Action::Commit).steps.len() == 0,
        action_next(a, d, Action::Filter).app == (AppView { filter_active: true, filter_text: Seq::empty(), ..a }),
        action_next(a, d, Action::Help).app == (AppView { show_help: !a.show_help, ..a }),
        !action_next(a, d, Action::StageAll).quit && !action_next(a, d, Action::Commit).quit,
{
}

/// In the commit dialog a typed character is appended to the message and Backspace
/// deletes its last character; in the branch picker other characters than `j` and `k`
/// change nothing. The dialog stays open and nothing is asked for.
pub proof fn typing_in_the_commit_dialog(a: AppView, dv: DialogView, c: char, ctrl: bool, screen: Screen)
    ensures
        dv.dialog_type == DialogType::CommitMessage ==> {
            let t = event_next(a, Some(dv), Event::Key(KeyEvent { code: KeyCode::Char(c), ctrl, kind: KeyEventKind::Press }), screen);
            t.dialog == Some(DialogView { input: dv.input.push(c), ..dv }) && t.steps.len() == 0 && t.app == a
        },
        dv.input.len() > 0 ==> {
            let t = event_next(a, Some(dv), Event::Key(KeyEvent { code: KeyCode::Backspace, ctrl, kind: KeyEventKind::Press }), screen);
            t.dialog == Some(DialogView { input: dv.input.drop_last(), ..dv }) && t.steps.len() == 0
        },
        dv.dialog_type == DialogType::BranchPicker && c != 'j' && c != 'k' ==> {
            let t = event_next(a, Some(dv), Event::Key(KeyEvent { code: KeyCode::Char(c), ctrl, kind: KeyEventKind::Press }), screen);
            t.dialog == Some(dv) && t.steps.len() == 0
        },
{
}

/// While the filter is typed, a printable character is appended to it and Backspace
/// deletes its last character, each time putting the selection back on the first file;
/// Enter stops typing and keeps the filter.
pub proof fn typing_the_filter(a: AppView, c: char, ctrl: bool, screen: Screen)
    requires
        a.filter_active,
    ensures
        !is_control(c) ==> event_next(a, None, Event::Key(KeyEvent { code: KeyCode::Char(c), ctrl, kind: KeyEventKind::Press }), screen).app
            == (AppView { filter_text: a.filter_text.push(c), selected_file: 0, ..a }),
        a.filter_text.len() > 0 ==> event_next(a, None, Event::Key(KeyEvent { code: KeyCode::Backspace, ctrl, kind: KeyEventKind::Press }), screen).app
            == (AppView { filter_text: a.filter_text.drop_last(), selected_file: 0, ..a }),
        event_next(a, None, Event::Key(KeyEvent { code: KeyCode::Enter, ctrl, kind: KeyEventKind::Press }), screen).app
            == (AppView { filter_active: false, ..a }),
{
}

/// What the screen shows.
#[derive(Debug)]
pub enum Screen {
    /// The key help, over everything.
    Help,
    /// The commit dialog in the given area.
    CommitDialog { area: Area },
    /// The branch picker in the given area.
    BranchDialog { area: Area },
    /// The file tree beside the diff, and the status line in its area.
    Files { tree_area: Area, diff_area: Area, status_line: String, status_area: Area },
    /// The commit log beside the diff.
    History { log_area: Area, diff_area: Area },
}

/// Whether `inner` lies inside `outer`.
pub open spec fn inside(inner: Area, outer: Area) -> bool {
    &&& outer.x <= inner.x
    &&& inner.x + inner.width <= sat_add(outer.x, outer.width)
    &&& outer.y <= inner.y
    &&& inner.y + inner.height <= sat_add(outer.y, outer.height)
}

/// Whether `part` is a column of `whole`: at the same rows, and within its width.
pub open spec fn column_of(part: Area, whole: Area) -> bool {
    &&& part.y == whole.y
    &&& part.height == whole.height
    &&& whole.x <= part.x
    &&& part.x + part.width <= sat_add(whole.x, whole.width)
}

/// The key hints after the branch name in the status line.
pub open spec fn status_hints() -> Seq<char> {
    " | ? help | q quit | Tab focus | s stage | c commit | l log | / filter"@
}

/// What the screen of size `frame` shows: help while it is toggled on; else an open
/// dialog, centered in half the width and a tenth of the height (`centered_rect`); else
/// the view of the mode: the file tree beside the diff, the screen split 30 to 70 percent
/// across its width, with a status line on the bottom row; or the commit log beside the
/// diff, split 40 to 60 percent.
pub fn screen(app: &RuneApp, dialog: &Option<DialogState>, frame: Area) -> (s: Screen)
    requires
        dialog is Some ==> frame.height * 90 <= u16::MAX && frame.width * 50 <= u16::MAX,
    ensures
        app.show_help ==> s is Help,
        !app.show_help && dialog is Some ==> if dialog->0.dialog_type == DialogType::CommitMessage {
            s matches Screen::CommitDialog { area } && inside(area, frame)
        } else {
            s matches Screen::BranchDialog { area } && inside(area, frame)
        },
        !app.show_help && dialog is None ==> match app.mode {
            AppMode::Tree | AppMode::Diff => s matches Screen::Files { tree_area, diff_area, status_line, status_area }
                && column_of(tree_area, frame)
                && column_of(diff_area, frame)
                && status_line@ == seq![' '] + app.current_branch@ + status_hints()
                && status_area == (Area {
                    x: 0,
                    y: if frame.height >= 1 { (frame.height - 1) as u16 } else { 0 },
                    width: frame.width,
                    height: 1,
                }),
            AppMode::CommitLog => s matches Screen::History { log_area, diff_area }
                && column_of(log_area, frame)
                && column_of(diff_area, frame),
            AppMode::Help => s is Help,
        },
{
    if app.show_help {
        return Screen::Help;
    }
    match dialog {
        Some(d) => {
            let area = centered_rect(50, 10, frame);
            return match d.dialog_type {
                DialogType::CommitMessage => Screen::CommitDialog { area },
                DialogType::BranchPicker => Screen::BranchDialog { area },
            };
        },
        None => {},
    }
    match app.mode {
        AppMode::Tree | AppMode::Diff => {
            let mut line: Vec<char> = Vec::new();
            line.push(' ');
            push_str_chars(&mut line, app.current_branch.as_str());
            push_str_chars(&mut line, " | ? help | q quit | Tab focus | s stage | c commit | l log | / filter");
            let status_area = Area {
                x: 0,
                y: if frame.height >= 1 { frame.height - 1 } else { 0 },
                width: frame.width,
                height: 1,
            };
            let extents = vec![Extent::Percentage(30), Extent::Percentage(70)];
            assert(extents@ =~= seq![Extent::Percentage(30), Extent::Percentage(70)]);
            let parts = split_area(frame, false, &extents);
            Screen::Files { tree_area: parts[0], diff_area: parts[1], status_line: string_from_chars(&line), status_area }
        },
        AppMode::CommitLog => {
            let extents = vec![Extent::Percentage(40), Extent::Percentage(60)];
            assert(extents@ =~= seq![Extent::Percentage(40), Extent::Percentage(60)]);
            let parts = split_area(frame, false, &extents);
            Screen::History { log_area: parts[0], diff_area: parts[1] }
        },
        AppMode::Help => Screen::Help,
    }
}

} // verus!
