use vstd::prelude::*;

use crate::app::{AppMode, CommitInfo, CommitView, RuneApp};
use crate::text::{chars_of, decimal, push_decimal, push_str_chars, string_from_chars};
use crate::theme::{Color, Style, focused_border, plain, selected_item, text, text_dim, unfocused_border, yellow};

verus! {

/// The three lines of a commit in the log: short id, first message line, author.
#[derive(Debug)]
pub struct CommitItem {
    pub hash_line: String,
    pub message_line: String,
    pub author_line: String,
}

/// What the commit log shows: title, border, one item per commit, the selection, and
/// the styles of the selection and of each line of an item.
#[derive(Debug)]
pub struct CommitLogPanel {
    pub title: String,
    pub border: Style,
    pub items: Vec<CommitItem>,
    /// No commit to list: the panel shows `No commits found` instead.
    pub empty: bool,
    pub selected: usize,
    pub highlight: Style,
    pub hash_style: Style,
    pub message_style: Style,
    pub author_style: Style,
}

/// A commit id whose first seven characters are ASCII, so that its first seven bytes
/// are a prefix of whole characters.
pub open spec fn short_id_ok(id: Seq<char>) -> bool {
    id.len() >= 7 && forall|j: int| 0 <= j < 7 ==> (id[j] as u32) < 128
}

/// Whether a commit id can be shortened to its first seven characters.
pub fn has_short_id(id: &str) -> (ok: bool)
    ensures
        ok == short_id_ok(id@),
{
    let chars = chars_of(id);
    if chars.len() < 7 {
        return false;
    }
    let mut j: usize = 0;
    while j < 7
        invariant
            j <= 7,
            chars@ == id@,
            chars@.len() >= 7,
            forall|k: int| 0 <= k < j ==> (id@[k] as u32) < 128,
        decreases 7 - j,
    {
        if (chars[j] as u32) >= 128 {
            return false;
        }
        j = j + 1;
    }
    true
}

/// The log's title: ` Commit Log (n) `.
pub open spec fn log_title(n: nat) -> Seq<char> {
    " Commit Log ("@ + decimal(n) + seq![')', ' ']
}

/// The item of a commit: its id's first seven characters, its message and its author,
/// each after a space.
pub open spec fn commit_item_ok(item: CommitItem, c: CommitView) -> bool {
    &&& item.hash_line@ == seq![' '] + c.id.take(7)
    &&& item.message_line@ == seq![' '] + c.message
    &&& item.author_line@ == seq![' '] + c.author
}

fn commit_item(c: &CommitInfo) -> (item: CommitItem)
    requires
        short_id_ok(c.id@),
    ensures
        commit_item_ok(item, c@),
{
    let id = chars_of(c.id.as_str());
    let mut hash: Vec<char> = Vec::new();
    hash.push(' ');
    let mut j: usize = 0;
    while j < 7
        invariant
            j <= 7,
            id@ == c.id@,
            id@.len() >= 7,
            hash@ == seq![' '] + id@.take(j as int),
        decreases 7 - j,
    {
        hash.push(id[j]);
        assert(hash@ =~= seq![' '] + id@.take(j + 1));
        j = j + 1;
    }
    let mut message: Vec<char> = Vec::new();
    message.push(' ');
    push_str_chars(&mut message, c.message.as_str());
    let mut author: Vec<char> = Vec::new();
    author.push(' ');
    push_str_chars(&mut author, c.author.as_str());
    CommitItem {
        hash_line: string_from_chars(&hash),
        message_line: string_from_chars(&message),
        author_line: string_from_chars(&author),
    }
}

/// What the commit log shows.
pub fn commit_log_panel(app: &RuneApp) -> (panel: CommitLogPanel)
    requires
        forall|k: int| 0 <= k < app.commits@.len() ==> short_id_ok(#[trigger] app.commits@[k].id@),
    ensures
        panel.title@ == log_title(app.commits@.len() as nat),
        panel.border == (if app.mode == AppMode::CommitLog {
            Style { fg: Some(Color::Cyan), ..plain() }
        } else {
            Style { fg: Some(Color::Rgb(65, 65, 78)), ..plain() }
        }),
        panel.items@.len() == app.commits@.len(),
        forall|k: int| 0 <= k < app.commits@.len() ==> commit_item_ok(#[trigger] panel.items@[k], app.commits@[k]@),
        panel.empty == (app.commits@.len() == 0),
        panel.selected == app.selected_commit,
        panel.highlight == (Style {
            fg: Some(Color::Rgb(220, 220, 235)),
            bg: Some(Color::Rgb(55, 55, 75)),
            bold: true,
            ..plain()
        }),
        panel.hash_style == (Style { fg: Some(Color::Rgb(245, 210, 80)), ..plain() }),
        panel.message_style == (Style { fg: Some(Color::Rgb(220, 220, 235)), ..plain() }),
        panel.author_style == (Style { fg: Some(Color::Rgb(140, 140, 158)), dim: true, ..plain() }),
{
    let mut title: Vec<char> = Vec::new();
    push_str_chars(&mut title, " Commit Log (");
    push_decimal(app.commits.len() as u64, &mut title);
    title.push(')');
    title.push(' ');
    assert(title@ =~= log_title(app.commits@.len() as nat));
    let mut items: Vec<CommitItem> = Vec::new();
    let mut i: usize = 0;
    while i < app.commits.len()
        invariant
            i <= app.commits@.len(),
            forall|k: int| 0 <= k < app.commits@.len() ==> short_id_ok(#[trigger] app.commits@[k].id@),
            items@.len() == i,
            forall|k: int| 0 <= k < i ==> commit_item_ok(#[trigger] items@[k], app.commits@[k]@),
        decreases app.commits.len() - i,
    {
        items.push(commit_item(&app.commits[i]));
        i = i + 1;
    }
    CommitLogPanel {
        title: string_from_chars(&title),
        border: if app.mode == AppMode::CommitLog { focused_border() } else { unfocused_border() },
        empty: items.len() == 0,
        items,
        selected: app.selected_commit,
        highlight: selected_item(),
        hash_style: Style { fg: Some(yellow()), bg: None, bold: false, italic: false, dim: false },
        message_style: Style { fg: Some(text()), bg: None, bold: false, italic: false, dim: false },
        author_style: Style { fg: Some(text_dim()), bg: None, bold: false, italic: false, dim: true },
    }
}

} // verus!
