use vstd::prelude::*;

use crate::text::{push_str_chars, string_from_chars};
use crate::tui::geometry::{Area, block_inner, bordered_inner, sat_sub};

verus! {

/// Which dialog is open.
#[derive(Clone, Copy, PartialEq, Eq, Structural, Debug)]
pub enum DialogType {
    CommitMessage,
    BranchPicker,
}

/// An open dialog: the commit message typed so far, or the branches to pick from and
/// the one selected.
#[derive(Debug)]
pub struct DialogState {
    pub dialog_type: DialogType,
    pub input: String,
    pub _cursor_position: usize,
    pub branches: Vec<String>,
    pub selected_branch: usize,
}

/// The value of a dialog.
pub struct DialogView {
    pub dialog_type: DialogType,
    pub input: Seq<char>,
    pub cursor_position: usize,
    pub branches: Seq<Seq<char>>,
    pub selected_branch: usize,
}

impl View for DialogState {
    type V = DialogView;

    open spec fn view(&self) -> DialogView {
        DialogView {
            dialog_type: self.dialog_type,
            input: self.input@,
            cursor_position: self._cursor_position,
            branches: self.branches@.map_values(|b: String| b@),
            selected_branch: self.selected_branch,
        }
    }
}

/// The value of an optional dialog.
pub open spec fn dialog_view(d: Option<DialogState>) -> Option<DialogView> {
    match d {
        Some(s) => Some(s@),
        None => None,
    }
}

/// A fresh commit-message dialog.
pub open spec fn commit_dialog() -> DialogView {
    DialogView {
        dialog_type: DialogType::CommitMessage,
        input: Seq::empty(),
        cursor_position: 0,
        branches: Seq::empty(),
        selected_branch: 0,
    }
}

/// A fresh branch picker over the given names, the first one selected.
pub open spec fn branch_dialog(branches: Seq<Seq<char>>) -> DialogView {
    DialogView {
        dialog_type: DialogType::BranchPicker,
        input: Seq::empty(),
        cursor_position: 0,
        branches,
        selected_branch: 0,
    }
}

impl DialogState {
    /// An empty commit-message dialog.
    pub fn new_commit() -> (d: Self)
        ensures
            d@ == commit_dialog(),
    {
        let d = DialogState {
            dialog_type: DialogType::CommitMessage,
            input: String::new(),
            _cursor_position: 0,
            branches: Vec::new(),
            selected_branch: 0,
        };
        assert(d@.branches =~= Seq::<Seq<char>>::empty());
        d
    }

    /// A branch picker over `branches`, the first one selected.
    pub fn new_branch(branches: Vec<String>) -> (d: Self)
        ensures
            d@ == branch_dialog(branches@.map_values(|b: String| b@)),
    {
        DialogState {
            dialog_type: DialogType::BranchPicker,
            input: String::new(),
            _cursor_position: 0,
            branches,
            selected_branch: 0,
        }
    }
}

/// Where the commit dialog draws: the dialog's inside, the input line one row below its
/// top, and the hint line three rows below it.
#[derive(Debug)]
pub struct CommitDialogLayout {
    pub inner: Area,
    pub input_area: Area,
    pub hint_area: Area,
}

/// Where the commit dialog drawn in `area` puts its parts.
pub fn commit_dialog_layout(area: Area) -> (layout: CommitDialogLayout)
    requires
        bordered_inner(area).y + 3 <= u16::MAX,
    ensures
        layout.inner == bordered_inner(area),
        layout.input_area == (Area {
            x: bordered_inner(area).x,
            y: (bordered_inner(area).y + 1) as u16,
            width: bordered_inner(area).width,
            height: 1,
        }),
        layout.hint_area == (Area {
            x: bordered_inner(area).x,
            y: (bordered_inner(area).y + 3) as u16,
            width: bordered_inner(area).width,
            height: 1,
        }),
{
    let inner = block_inner(area);
    CommitDialogLayout {
        inner,
        input_area: Area { x: inner.x, y: inner.y + 1, width: inner.width, height: 1 },
        hint_area: Area { x: inner.x, y: inner.y + 3, width: inner.width, height: 1 },
    }
}

/// The line of one branch in the picker: `> ` before the selected one, two spaces
/// before the others.
pub open spec fn branch_line(name: Seq<char>, selected: bool) -> Seq<char> {
    (if selected { seq!['>', ' '] } else { seq![' ', ' '] }) + name
}

/// The lines of the first `n` branches, joined by newlines.
pub open spec fn branch_lines(branches: Seq<Seq<char>>, selected: usize, n: int) -> Seq<char>
    decreases n,
{
    if n <= 0 {
        Seq::empty()
    } else if n == 1 {
        branch_line(branches[0], selected == 0)
    } else {
        branch_lines(branches, selected, n - 1) + seq!['\n'] + branch_line(
            branches[n - 1],
            selected == n - 1,
        )
    }
}

/// Each branch of the picker gets a line of its own: `> ` and its name when it is the
/// selected one, two spaces and its name otherwise; the text begins with the first
/// branch's line and the lines are separated by line breaks, one fewer than the branches.
pub proof fn picker_lines_mark_the_selection(branches: Seq<Seq<char>>, selected: usize, n: int, name: Seq<char>)
    requires
        1 <= n <= branches.len(),
    ensures
        branch_line(name, true) == seq!['>', ' '] + name,
        branch_line(name, false) == seq![' ', ' '] + name,
        branch_lines(branches, selected, n).take(branch_line(branches[0], selected == 0).len() as int)
            == branch_line(branches[0], selected == 0),
        branch_lines(branches, selected, n).len() >= branch_line(branches[0], selected == 0).len(),
        n >= 2 ==> branch_lines(branches, selected, n) == branch_lines(branches, selected, n - 1) + seq!['\n']
            + branch_line(branches[n - 1], selected == n - 1),
    decreases n,
{
    if n >= 2 {
        picker_lines_mark_the_selection(branches, selected, n - 1, name);
        let prev = branch_lines(branches, selected, n - 1);
        let first = branch_line(branches[0], selected == 0);
        let whole = prev + seq!['\n'] + branch_line(branches[n - 1], selected == n - 1);
        assert(whole.take(first.len() as int) =~= prev.take(first.len() as int));
    }
}

/// The text of the branch picker: one line per branch, the selected one marked.
pub fn branch_list_text(dialog: &DialogState) -> (text: String)
    ensures
        text@ == branch_lines(dialog@.branches, dialog.selected_branch, dialog@.branches.len() as int),
{
    let mut out: Vec<char> = Vec::new();
    let n = dialog.branches.len();
    let mut i: usize = 0;
    while i < n
        invariant
            n == dialog@.branches.len(),
            i <= n,
            out@ == branch_lines(dialog@.branches, dialog.selected_branch, i as int),
        decreases n - i,
    {
        let ghost before = out@;
        if i > 0 {
            out.push('\n');
        }
        if i == dialog.selected_branch {
            out.push('>');
            out.push(' ');
        } else {
            out.push(' ');
            out.push(' ');
        }
        push_str_chars(&mut out, dialog.branches[i].as_str());
        proof {
            let line = branch_line(dialog@.branches[i as int], i == dialog.selected_branch);
            assert(dialog.branches@[i as int]@ == dialog@.branches[i as int]);
            if i == 0 {
                assert(out@ =~= line);
            } else {
                assert(out@ =~= before + seq!['\n'] + line);
            }
        }
        i = i + 1;
    }
    string_from_chars(&out)
}

/// Where the branch picker drawn in `area` puts its parts: the list fills the inside,
/// the hint takes the inside's last row.
#[derive(Debug)]
pub struct BranchDialogLayout {
    pub inner: Area,
    pub hint_area: Area,
}

/// Where the branch picker drawn in `area` puts its parts.
pub fn branch_dialog_layout(area: Area) -> (layout: BranchDialogLayout)
    requires
        bordered_inner(area).y + sat_sub(bordered_inner(area).height, 1) <= u16::MAX,
    ensures
        layout.inner == bordered_inner(area),
        layout.hint_area == (Area {
            x: bordered_inner(area).x,
            y: (bordered_inner(area).y + sat_sub(bordered_inner(area).height, 1)) as u16,
            width: bordered_inner(area).width,
            height: 1,
        }),
{
    let inner = block_inner(area);
    let last = if inner.height >= 1 { inner.height - 1 } else { 0 };
    BranchDialogLayout {
        inner,
        hint_area: Area { x: inner.x, y: inner.y + last, width: inner.width, height: 1 },
    }
}

} // verus!
