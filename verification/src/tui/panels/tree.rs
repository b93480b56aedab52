use vstd::prelude::*;

use crate::app::{ChangedFile, FileStatus, FileView, PanelFocus, RuneApp};
use crate::text::{decimal, push_decimal, push_str_chars, string_from_chars};
use crate::theme::{Color, Style, default_style, fg, plain};

verus! {

/// One row of the file tree: its text and style.
#[derive(Debug)]
pub struct TreeItem {
    pub label: String,
    pub style: Style,
}

/// What the file tree shows: its title and border, its rows, the selected row and the
/// selection's highlight.
#[derive(Debug)]
pub struct TreePanel {
    pub title: String,
    pub border: Style,
    pub items: Vec<TreeItem>,
    pub selected: usize,
    pub highlight: Style,
}

/// The icon and color of a status in the tree.
pub open spec fn status_icon(s: FileStatus) -> (Seq<char>, Color) {
    match s {
        FileStatus::Added => (seq![' ', '+'], Color::Green),
        FileStatus::Modified => (seq![' ', '~'], Color::Yellow),
        FileStatus::Deleted => (seq![' ', '-'], Color::Red),
        FileStatus::Renamed => (seq![' ', '>'], Color::Cyan),
        FileStatus::Copied => (seq![' ', '>', '>'], Color::Magenta),
        FileStatus::Untracked => (seq![' ', '?'], Color::Gray),
    }
}

/// The text of a file's row: `*` when staged (else a space), the status icon, a space
/// and the path.
pub open spec fn item_label(f: FileView) -> Seq<char> {
    (if f.staged { seq!['*'] } else { seq![' '] }) + status_icon(f.status).0 + seq![' '] + f.path
}

/// The style of a file's row: the status color, bold when staged.
pub open spec fn item_style(f: FileView) -> Style {
    Style { fg: Some(status_icon(f.status).1), bold: f.staged, ..plain() }
}

/// The tree's title: ` Files (n) ` with the number of changed files, shown or not.
pub open spec fn tree_title(n: nat) -> Seq<char> {
    seq![' ', 'F', 'i', 'l', 'e', 's', ' ', '('] + decimal(n) + seq![')', ' ']
}

/// The icon of each status, as the file tree shows it: after the stage mark and a space
/// comes `+` for an added file, `~` for a modified one, `-` for a deleted one, `>` for a
/// renamed one, `>>` for a copied one and `?` for an untracked one; so files that differ
/// only in status have different rows. The row ends with the file's path, is bold when
/// the file is staged, and is colored green, yellow, red or gray for an added, modified,
/// deleted or untracked file.
pub proof fn each_status_has_its_own_icon(f: FileView, g: FileView)
    ensures
        item_label(f)[0] == (if f.staged { '*' } else { ' ' }),
        item_label(f)[1] == ' ',
        f.status == FileStatus::Added ==> item_label(f)[2] == '+' && item_label(f)[3] == ' ',
        f.status == FileStatus::Modified ==> item_label(f)[2] == '~' && item_label(f)[3] == ' ',
        f.status == FileStatus::Deleted ==> item_label(f)[2] == '-' && item_label(f)[3] == ' ',
        f.status == FileStatus::Renamed ==> item_label(f)[2] == '>' && item_label(f)[3] == ' ',
        f.status == FileStatus::Copied ==> item_label(f)[2] == '>' && item_label(f)[3] == '>',
        f.status == FileStatus::Untracked ==> item_label(f)[2] == '?' && item_label(f)[3] == ' ',
        f.path == g.path && f.staged == g.staged && f.status != g.status ==> item_label(f) != item_label(g),
        item_label(f).len() >= f.path.len() + 4,
        item_label(f).skip(item_label(f).len() - f.path.len()) == f.path,
        item_style(f).bold == f.staged,
        f.status == FileStatus::Added ==> item_style(f).fg == Some(Color::Green),
        f.status == FileStatus::Modified ==> item_style(f).fg == Some(Color::Yellow),
        f.status == FileStatus::Deleted ==> item_style(f).fg == Some(Color::Red),
        f.status == FileStatus::Untracked ==> item_style(f).fg == Some(Color::Gray),
{
    let l = item_label(f);
    assert(l.skip(l.len() - f.path.len()) =~= f.path);
    if f.path == g.path && f.staged == g.staged && f.status != g.status {
        if item_label(f) == item_label(g) {
            assert(item_label(f)[2] == item_label(g)[2]);
            assert(item_label(f)[3] == item_label(g)[3]);
        }
    }
}

fn push_icon(out: &mut Vec<char>, s: FileStatus) -> (c: Color)
    ensures
        final(out)@ == old(out)@ + status_icon(s).0,
        c == status_icon(s).1,
{
    let ghost start = out@;
    out.push(' ');
    let c = match s {
        FileStatus::Added => {
            out.push('+');
            Color::Green
        },
        FileStatus::Modified => {
            out.push('~');
            Color::Yellow
        },
        FileStatus::Deleted => {
            out.push('-');
            Color::Red
        },
        FileStatus::Renamed => {
            out.push('>');
            Color::Cyan
        },
        FileStatus::Copied => {
            out.push('>');
            out.push('>');
            Color::Magenta
        },
        FileStatus::Untracked => {
            out.push('?');
            Color::Gray
        },
    };
    assert(out@ =~= start + status_icon(s).0);
    c
}

/// The row of one file.
pub fn tree_item(f: &ChangedFile) -> (item: TreeItem)
    ensures
        item.label@ == item_label(f@),
        item.style == item_style(f@),
{
    let mut out: Vec<char> = Vec::new();
    out.push(if f.staged { '*' } else { ' ' });
    let ghost mark = out@;
    let color = push_icon(&mut out, f.status);
    out.push(' ');
    push_str_chars(&mut out, f.path.as_str());
    assert(out@ =~= item_label(f@));
    TreeItem {
        label: string_from_chars(&out),
        style: Style { fg: Some(color), bg: None, bold: f.staged, italic: false, dim: false },
    }
}

/// What the file tree shows: one row per shown file, the title counting all changed
/// files, a cyan border while the tree has focus, and the selection.
pub fn tree_panel(app: &RuneApp) -> (panel: TreePanel)
    ensures
        panel.title@ == tree_title(app.changed_files@.len() as nat),
        panel.border == (if app.focus == PanelFocus::Tree { Style { fg: Some(Color::Cyan), ..plain() } } else { plain() }),
        panel.items@.len() == app.shown_files().len(),
        forall|k: int|
            0 <= k < panel.items@.len() ==> #[trigger] panel.items@[k].label@ == item_label(app.shown_files()[k]@)
                && panel.items@[k].style == item_style(app.shown_files()[k]@),
        panel.selected == app.selected_file,
        panel.highlight == (Style { fg: Some(Color::White), bg: Some(Color::DarkGray), bold: true, ..plain() }),
{
    let mut title: Vec<char> = Vec::new();
    push_str_chars(&mut title, " Files (");
    proof {
        reveal_strlit(" Files (");
    }
    push_decimal(app.changed_files.len() as u64, &mut title);
    title.push(')');
    title.push(' ');
    assert(title@ =~= tree_title(app.changed_files@.len() as nat));
    let files = app.filtered_files();
    let mut items: Vec<TreeItem> = Vec::new();
    let mut i: usize = 0;
    while i < files.len()
        invariant
            i <= files@.len(),
            files@.map_values(|f: &ChangedFile| *f) == app.shown_files(),
            items@.len() == i,
            forall|k: int|
                0 <= k < i ==> #[trigger] items@[k].label@ == item_label(app.shown_files()[k]@)
                    && items@[k].style == item_style(app.shown_files()[k]@),
        decreases files.len() - i,
    {
        assert(*files@[i as int] == app.shown_files()[i as int]);
        items.push(tree_item(files[i]));
        i = i + 1;
    }
    TreePanel {
        title: string_from_chars(&title),
        border: if app.focus == PanelFocus::Tree { fg(Color::Cyan) } else { default_style() },
        items,
        selected: app.selected_file,
        highlight: Style { fg: Some(Color::White), bg: Some(Color::DarkGray), bold: true, italic: false, dim: false },
    }
}

} // verus!
