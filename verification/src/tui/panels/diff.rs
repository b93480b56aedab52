use vstd::prelude::*;

use crate::app::{DiffLine, DiffLineKind, FileDiff, Hunk, PanelFocus, RuneApp};
use crate::git::diff::{get_side_by_side, deref_pair, side_by_side, SidePair};
use crate::path::{components, parts_of, path_components, Component};
use crate::text::{chars_of, decimal, digit_char, pad_left, push_str_chars, right_aligned_4, string_from_chars, trim_string, trimmed};
use crate::theme::{Color, Style, focused_border, plain, unfocused_border};
use crate::tui::geometry::{Area, block_inner, bordered_inner, sat_sub};
use vstd::utf8::{encode_utf8, is_ascii_chars, is_ascii_chars_encode_utf8};

verus! {

/// The mark before a line in its column: `-` for a deletion on the left, `+` for an
/// addition on the right, a space otherwise; nothing for a gap.
pub open spec fn cell_prefix(line: Option<DiffLine>, is_left: bool) -> Seq<char> {
    match line {
        Some(l) => if is_left && l.kind == DiffLineKind::Delete {
            seq!['-']
        } else if !is_left && l.kind == DiffLineKind::Add {
            seq!['+']
        } else {
            seq![' ']
        },
        None => Seq::empty(),
    }
}

/// The kind a cell is drawn as: its line's kind, context for a gap.
pub open spec fn cell_kind(line: Option<DiffLine>) -> DiffLineKind {
    match line {
        Some(l) => l.kind,
        None => DiffLineKind::Context,
    }
}

/// The mark and kind of a cell.
pub fn prefix_and_kind(line: Option<&DiffLine>, is_left: bool) -> (res: (&'static str, DiffLineKind))
    ensures
        res.0@ == cell_prefix(crate::git::diff::deref_line(line), is_left),
        res.1 == cell_kind(crate::git::diff::deref_line(line)),
{
    proof {
        reveal_strlit("-");
        reveal_strlit("+");
        reveal_strlit(" ");
        reveal_strlit("");
    }
    match line {
        Some(l) => {
            let p = if is_left {
                match l.kind {
                    DiffLineKind::Delete => "-",
                    DiffLineKind::Add => " ",
                    DiffLineKind::Context => " ",
                }
            } else {
                match l.kind {
                    DiffLineKind::Add => "+",
                    DiffLineKind::Delete => " ",
                    DiffLineKind::Context => " ",
                }
            };
            (p, l.kind)
        },
        None => ("", DiffLineKind::Context),
    }
}

/// The color of a kind's mark: green for additions, red for deletions, the text color
/// for context.
pub open spec fn kind_color(kind: DiffLineKind) -> Color {
    match kind {
        DiffLineKind::Add => Color::Rgb(80, 210, 120),
        DiffLineKind::Delete => Color::Rgb(240, 85, 85),
        DiffLineKind::Context => Color::Rgb(220, 220, 235),
    }
}

/// The style of a kind's mark.
pub fn diff_prefix_style(kind: &DiffLineKind) -> (s: Style)
    ensures
        s == (Style { fg: Some(kind_color(*kind)), ..plain() }),
{
    let c = match kind {
        DiffLineKind::Add => crate::theme::green(),
        DiffLineKind::Delete => crate::theme::red(),
        DiffLineKind::Context => crate::theme::text(),
    };
    Style { fg: Some(c), bg: None, bold: false, italic: false, dim: false }
}

/// The background of a changed line's text.
pub open spec fn change_bg(kind: DiffLineKind) -> Color {
    match kind {
        DiffLineKind::Add => Color::Rgb(22, 42, 28),
        DiffLineKind::Delete => Color::Rgb(42, 22, 22),
        DiffLineKind::Context => Color::Rgb(0, 0, 0),
    }
}

/// How a cell's text is drawn.
#[derive(Clone, Copy, PartialEq, Eq, Structural, Debug)]
pub enum TextMode {
    /// No text is shown.
    Hidden,
    /// Syntax-highlighted by the file's extension.
    Syntax,
    /// In one style.
    Plain { style: Style },
}

/// One cell of a side-by-side row: mark, line number and the visible part of the text.
#[derive(Debug)]
pub struct SideCell {
    pub prefix: String,
    pub prefix_style: Style,
    pub lineno: String,
    pub lineno_style: Style,
    pub text: String,
    pub mode: TextMode,
}

/// The value of a cell.
pub struct CellView {
    pub prefix: Seq<char>,
    pub prefix_style: Style,
    pub lineno: Seq<char>,
    pub lineno_style: Style,
    pub text: Seq<char>,
    pub mode: TextMode,
}

impl View for SideCell {
    type V = CellView;

    open spec fn view(&self) -> CellView {
        CellView {
            prefix: self.prefix@,
            prefix_style: self.prefix_style,
            lineno: self.lineno@,
            lineno_style: self.lineno_style,
            text: self.text@,
            mode: self.mode,
        }
    }
}

/// `s` without its trailing newlines, as `trim_end_matches('\n')` leaves it.
pub open spec fn strip_newlines(s: Seq<char>) -> Seq<char>
    decreases s.len(),
{
    if s.len() > 0 && s.last() == '\n' {
        strip_newlines(s.drop_last())
    } else {
        s
    }
}

/// The part of a line's text a column of `col_width` cells shows when scrolled `h`
/// characters to the right: seven cells go to the mark and line number.
pub open spec fn visible_text(content: Seq<char>, h: nat, col_width: nat) -> Seq<char> {
    let chars = strip_newlines(content);
    let avail = if col_width >= 7 { col_width - 7 } else { 0 };
    if chars.len() == 0 || avail == 0 {
        Seq::empty()
    } else {
        let start = if h <= chars.len() { h } else { chars.len() };
        let end = if start + avail <= chars.len() { start + avail } else { chars.len() as int };
        chars.subrange(start as int, end)
    }
}

/// The line number shown in a cell: the old number on the left, the new one on the right,
/// right-aligned in four characters; four spaces where there is none.
pub open spec fn cell_lineno(line: Option<DiffLine>, is_left: bool) -> Seq<char> {
    let four = seq![' ', ' ', ' ', ' '];
    match line {
        Some(l) => match (if is_left { l.old_lineno } else { l.new_lineno }) {
            Some(n) => pad_left(decimal(n as nat), 4),
            None => four,
        },
        None => four,
    }
}

/// How a cell's visible text is drawn: only context lines are highlighted by the file's
/// syntax, when the file has an extension; changed lines, and every line of a file
/// without one, are drawn in their mark's color on the change background.
pub open spec fn cell_mode(kind: DiffLineKind, ext: Seq<char>, visible: Seq<char>) -> TextMode {
    if visible.len() == 0 {
        TextMode::Hidden
    } else if kind == DiffLineKind::Context && ext.len() > 0 {
        TextMode::Syntax
    } else {
        TextMode::Plain { style: Style { fg: Some(kind_color(kind)), bg: Some(change_bg(kind)), ..plain() } }
    }
}

/// The cell a line (or a gap) becomes.
pub open spec fn cell_of(line: Option<DiffLine>, is_left: bool, ext: Seq<char>, col_width: nat, h: nat) -> CellView {
    let kind = cell_kind(line);
    let visible = match line {
        Some(l) => visible_text(l.content@, h, col_width),
        None => Seq::empty(),
    };
    CellView {
        prefix: cell_prefix(line, is_left),
        prefix_style: Style { fg: Some(kind_color(kind)), ..plain() },
        lineno: cell_lineno(line, is_left),
        lineno_style: Style { fg: Some(Color::Rgb(140, 140, 158)), ..plain() },
        text: visible,
        mode: cell_mode(kind, ext, visible),
    }
}

/// Only context lines are syntax-highlighted; an added or deleted line is drawn in plain
/// green or red on its change background.
pub proof fn only_context_lines_are_highlighted(
    line: Option<DiffLine>,
    is_left: bool,
    ext: Seq<char>,
    col_width: nat,
    h: nat,
)
    ensures
        cell_of(line, is_left, ext, col_width, h).mode == TextMode::Syntax ==> (line is Some
            && cell_kind(line) == DiffLineKind::Context),
        ({
            let cell = cell_of(line, is_left, ext, col_width, h);
            let kind = cell_kind(line);
            kind != DiffLineKind::Context && cell.text.len() > 0 ==> cell.mode == (TextMode::Plain {
                style: Style { fg: Some(kind_color(kind)), bg: Some(change_bg(kind)), ..plain() },
            })
        }),
{
}

fn strip_newlines_exec(chars: &Vec<char>) -> (n: usize)
    ensures
        n <= chars@.len(),
        chars@.take(n as int) == strip_newlines(chars@),
{
    let mut n = chars.len();
    assert(chars@.take(n as int) =~= chars@);
    while n > 0 && chars[n - 1] == '\n'
        invariant
            n <= chars@.len(),
            strip_newlines(chars@.take(n as int)) == strip_newlines(chars@),
        decreases n,
    {
        assert(chars@.take(n as int).drop_last() =~= chars@.take(n - 1));
        n = n - 1;
    }
    n
}

/// The cell a line (or a gap) becomes, in a column of `col_width` cells scrolled `h_scroll`
/// characters to the right, for a file with extension `file_ext`.
pub fn side_cell(line: Option<&DiffLine>, is_left: bool, file_ext: &str, col_width: usize, h_scroll: u16) -> (cell: SideCell)
    ensures
        cell@ == cell_of(crate::git::diff::deref_line(line), is_left, file_ext@, col_width as nat, h_scroll as nat),
{
    let (prefix, kind) = prefix_and_kind(line, is_left);
    let lineno = match line {
        Some(l) => {
            let n = if is_left { l.old_lineno } else { l.new_lineno };
            match n {
                Some(n) => right_aligned_4(n),
                None => {
                    proof { reveal_strlit("    "); }
                    crate::text::string_of("    ")
                },
            }
        },
        None => {
            proof { reveal_strlit("    "); }
            crate::text::string_of("    ")
        },
    };
    let ghost spec_visible = match crate::git::diff::deref_line(line) {
        Some(l) => visible_text(l.content@, h_scroll as nat, col_width as nat),
        None => Seq::<char>::empty(),
    };
    let mut visible: Vec<char> = Vec::new();
    match line {
        Some(l) => {
            let chars = chars_of(l.content.as_str());
            let len = strip_newlines_exec(&chars);
            let avail = if col_width >= 7 { col_width - 7 } else { 0 };
            if len > 0 && avail > 0 {
                let h = h_scroll as usize;
                let start = if h <= len { h } else { len };
                let end = if avail <= len - start { start + avail } else { len };
                let mut i = start;
                while i < end
                    invariant
                        start <= i <= end <= len <= chars@.len(),
                        visible@ == chars@.subrange(start as int, i as int),
                    decreases end - i,
                {
                    visible.push(chars[i]);
                    assert(visible@ =~= chars@.subrange(start as int, i + 1));
                    i = i + 1;
                }
                assert(chars@.take(len as int).subrange(start as int, end as int) =~= chars@.subrange(start as int, end as int));
            }
            assert(visible@ =~= spec_visible);
        },
        None => {},
    }
    let ext_empty = file_ext.is_empty();
    let mode = if visible.len() == 0 {
        TextMode::Hidden
    } else if kind == DiffLineKind::Context && !ext_empty {
        TextMode::Syntax
    } else {
        let base = diff_prefix_style(&kind);
        let bg = match kind {
            DiffLineKind::Add => Color::Rgb(22, 42, 28),
            DiffLineKind::Delete => Color::Rgb(42, 22, 22),
            DiffLineKind::Context => Color::Rgb(0, 0, 0),
        };
        TextMode::Plain { style: Style { bg: Some(bg), ..base } }
    };
    let cell = SideCell {
        prefix: crate::text::string_of(prefix),
        prefix_style: diff_prefix_style(&kind),
        lineno,
        lineno_style: Style { fg: Some(crate::theme::text_dim()), bg: None, bold: false, italic: false, dim: false },
        text: string_from_chars(&visible),
        mode,
    };
    let ghost spec_cell = cell_of(crate::git::diff::deref_line(line), is_left, file_ext@, col_width as nat, h_scroll as nat);
    assert(cell@.prefix == spec_cell.prefix);
    assert(cell@.prefix_style == spec_cell.prefix_style);
    assert(cell@.lineno == spec_cell.lineno);
    assert(cell@.lineno_style == spec_cell.lineno_style);
    assert(cell@.text == spec_cell.text);
    assert(cell@.mode == spec_cell.mode);
    cell
}

/// The number of spaces that pad a column whose cells already take `used` bytes to
/// `col_width`.
pub fn padding_width(col_width: usize, used: usize) -> (pad: usize)
    ensures
        pad == (if used < col_width { col_width - used } else { 0 }),
{
    if used < col_width {
        col_width - used
    } else {
        0
    }
}

/// The bytes a cell's spans take before the padding: the mark, a space, the line number,
/// a space and the visible text, each in UTF-8.
pub open spec fn cell_bytes(c: CellView) -> nat {
    encode_utf8(c.prefix).len() + 1 + encode_utf8(c.lineno).len() + 1 + encode_utf8(c.text).len()
}

/// The spaces that pad a cell to a column of `col_width` bytes.
pub open spec fn cell_pad(c: CellView, col_width: nat) -> nat {
    if cell_bytes(c) < col_width {
        (col_width - cell_bytes(c)) as nat
    } else {
        0
    }
}

/// The spaces that pad a cell to a column of `col_width` bytes: what its spans take is
/// counted in bytes, as the column is measured.
pub fn cell_padding(cell: &SideCell, col_width: usize) -> (pad: usize)
    requires
        cell_bytes(cell@) <= usize::MAX,
    ensures
        pad == cell_pad(cell@, col_width as nat),
{
    let a = cell.prefix.as_str().len();
    let b = cell.lineno.as_str().len();
    let c = cell.text.as_str().len();
    padding_width(col_width, a + b + c + 2)
}

proof fn lemma_decimal_1(n: nat)
    requires
        n < 10,
    ensures
        decimal(n).len() == 1,
        is_ascii_chars(decimal(n)),
{
    assert(decimal(n) == seq![digit_char(n)]);
}

proof fn lemma_decimal_push(n: nat)
    requires
        n >= 10,
        is_ascii_chars(decimal(n / 10)),
    ensures
        decimal(n).len() == decimal(n / 10).len() + 1,
        is_ascii_chars(decimal(n)),
{
    let d = decimal(n / 10);
    assert(decimal(n) == d.push(digit_char(n % 10)));
    assert forall|i: int| 0 <= i < d.push(digit_char(n % 10)).len() implies '\0' <= #[trigger] d.push(
        digit_char(n % 10),
    )[i] <= '\u{7f}' by {
        if i < d.len() {
            assert(d.push(digit_char(n % 10))[i] == d[i]);
        }
    }
}

proof fn lemma_decimal_small(n: nat)
    requires
        n < 10000,
    ensures
        decimal(n).len() <= 4,
        is_ascii_chars(decimal(n)),
{
    if n < 10 {
        lemma_decimal_1(n);
    } else if n < 100 {
        lemma_decimal_1(n / 10);
        lemma_decimal_push(n);
    } else if n < 1000 {
        lemma_decimal_1(n / 100);
        lemma_decimal_push(n / 10);
        lemma_decimal_push(n);
    } else {
        lemma_decimal_1(n / 1000);
        assert(n / 10 / 10 == n / 100);
        assert(n / 100 / 10 == n / 1000);
        lemma_decimal_push(n / 100);
        lemma_decimal_push(n / 10);
        lemma_decimal_push(n);
    }
}

proof fn lemma_strip_newlines_prefix(s: Seq<char>)
    ensures
        strip_newlines(s).len() <= s.len(),
        forall|i: int| 0 <= i < strip_newlines(s).len() ==> #[trigger] strip_newlines(s)[i] == s[i],
    decreases s.len(),
{
    if s.len() > 0 && s.last() == '\n' {
        lemma_strip_newlines_prefix(s.drop_last());
    }
}

/// A cell of an ASCII line whose number has at most four digits fits its column: with the
/// padding, its spans take exactly `col_width` bytes, which are then also its characters.
pub proof fn ascii_cells_fill_their_column(
    line: Option<DiffLine>,
    is_left: bool,
    ext: Seq<char>,
    col_width: nat,
    h: nat,
)
    requires
        col_width >= 7,
        line matches Some(l) ==> is_ascii_chars(l.content@),
        line matches Some(l) ==> match (if is_left { l.old_lineno } else { l.new_lineno }) {
            Some(n) => n < 10000,
            None => true,
        },
    ensures
        ({
            let c = cell_of(line, is_left, ext, col_width, h);
            &&& cell_bytes(c) + cell_pad(c, col_width) == col_width
            &&& c.prefix.len() + 1 + c.lineno.len() + 1 + c.text.len() + cell_pad(c, col_width) == col_width
        }),
{
    let c = cell_of(line, is_left, ext, col_width, h);
    let four = seq![' ', ' ', ' ', ' '];
    assert(is_ascii_chars(c.prefix));
    is_ascii_chars_encode_utf8(c.prefix);
    assert(c.prefix.len() <= 1);
    match line {
        Some(l) => {
            match (if is_left { l.old_lineno } else { l.new_lineno }) {
                Some(n) => {
                    lemma_decimal_small(n as nat);
                    let d = decimal(n as nat);
                    let sp = Seq::new((4 - d.len()) as nat, |i: int| ' ');
                    if d.len() < 4 {
                        assert(c.lineno == sp + d);
                        assert(is_ascii_chars(sp + d)) by {
                            assert forall|i: int| 0 <= i < (sp + d).len() implies '\0' <= #[trigger] (sp + d)[i] <= '\u{7f}' by {
                                if i >= sp.len() {
                                    assert((sp + d)[i] == d[i - sp.len()]);
                                }
                            }
                        }
                    } else {
                        assert(c.lineno == d);
                    }
                    assert(c.lineno.len() == 4);
                },
                None => {
                    assert(c.lineno == four);
                },
            }
            lemma_strip_newlines_prefix(l.content@);
            let chars = strip_newlines(l.content@);
            assert(is_ascii_chars(chars)) by {
                assert forall|i: int| 0 <= i < chars.len() implies '\0' <= #[trigger] chars[i] <= '\u{7f}' by {
                    assert(chars[i] == l.content@[i]);
                }
            }
            assert(is_ascii_chars(c.text)) by {
                assert forall|i: int| 0 <= i < c.text.len() implies '\0' <= #[trigger] c.text[i] <= '\u{7f}' by {
                    let start = if h <= chars.len() { h as int } else { chars.len() as int };
                    assert(c.text[i] == chars[start + i]);
                }
            }
            assert(c.text.len() <= col_width - 7);
        },
        None => {
            assert(c.lineno == four);
            assert(c.text.len() == 0);
        },
    }
    assert(is_ascii_chars(c.lineno));
    is_ascii_chars_encode_utf8(c.lineno);
    is_ascii_chars_encode_utf8(c.text);
}

/// The index of the last `.` of `s`, or -1 when it has none.
pub open spec fn last_dot(s: Seq<char>) -> int
    decreases s.len(),
{
    if s.len() == 0 {
        -1
    } else if s.last() == '.' {
        s.len() - 1
    } else {
        last_dot(s.drop_last())
    }
}

/// The extension of a path, as `Path::extension` gives it (empty when there is none):
/// after the last `.` of the file name, the last component when that is a normal one,
/// unless that `.` starts the name.
pub open spec fn path_extension(path: Seq<char>) -> Seq<char> {
    let c = path_components(path);
    if c.len() > 0 && c.last() is Normal {
        let name = c.last()->0;
        let i = last_dot(name);
        if i > 0 {
            name.skip(i + 1)
        } else {
            Seq::empty()
        }
    } else {
        Seq::empty()
    }
}

/// The extension of a path, or the empty string.
pub fn file_extension(path: &str) -> (ext: String)
    ensures
        ext@ == path_extension(path@),
{
    let c = components(path);
    let n = c.len();
    if n == 0 {
        return String::new();
    }
    assert(parts_of(c@).last() == c@[n - 1]@);
    match &c[n - 1] {
        Component::Normal(name) => {
            let mut i = name.len();
            assert(name@.take(name@.len() as int) =~= name@);
            while i > 0 && name[i - 1] != '.'
                invariant
                    i <= name@.len(),
                    last_dot(name@.take(i as int)) == last_dot(name@),
                decreases i,
            {
                assert(name@.take(i as int).drop_last() =~= name@.take(i - 1));
                i = i - 1;
            }
            proof {
                assert(name@.take(name@.len() as int) =~= name@);
                if i > 0 {
                    assert(last_dot(name@.take(i as int)) == i - 1);
                }
            }
            if i > 1 {
                let mut out: Vec<char> = Vec::new();
                let mut j = i;
                while j < name.len()
                    invariant
                        i <= j <= name@.len(),
                        out@ == name@.subrange(i as int, j as int),
                    decreases name.len() - j,
                {
                    out.push(name[j]);
                    assert(out@ =~= name@.subrange(i as int, j + 1));
                    j = j + 1;
                }
                assert(out@ =~= name@.skip(i as int));
                string_from_chars(&out)
            } else {
                String::new()
            }
        },
        _ => String::new(),
    }
}

/// A row of the diff panel: a hunk header, or a side-by-side pair of cells.
#[derive(Debug)]
pub enum DiffRow {
    Header(String),
    Pair(SideCell, SideCell),
}

/// The value of a row.
pub enum RowView {
    Header(Seq<char>),
    Pair(CellView, CellView),
}

impl View for DiffRow {
    type V = RowView;

    open spec fn view(&self) -> RowView {
        match self {
            DiffRow::Header(h) => RowView::Header(h@),
            DiffRow::Pair(l, r) => RowView::Pair(l@, r@),
        }
    }
}

/// The values of a list of rows.
pub open spec fn rows_view(rows: Seq<DiffRow>) -> Seq<RowView> {
    rows.map_values(|r: DiffRow| r@)
}

/// The rows of a hunk: its trimmed header between spaces, then its side-by-side pairs.
pub open spec fn hunk_rows(h: Hunk, ext: Seq<char>, col_width: nat, h_scroll: nat) -> Seq<RowView> {
    seq![RowView::Header(seq![' '] + trimmed(h.header@) + seq![' '])] + side_by_side(h.lines@).map_values(
        |p: SidePair| RowView::Pair(cell_of(p.0, true, ext, col_width, h_scroll), cell_of(p.1, false, ext, col_width, h_scroll)),
    )
}

/// The rows of all hunks, in order.
pub open spec fn all_rows(hunks: Seq<Hunk>, ext: Seq<char>, col_width: nat, h_scroll: nat) -> Seq<RowView>
    decreases hunks.len(),
{
    if hunks.len() == 0 {
        Seq::empty()
    } else {
        all_rows(hunks.drop_last(), ext, col_width, h_scroll) + hunk_rows(hunks.last(), ext, col_width, h_scroll)
    }
}

/// The rows of several hunks are the rows of each hunk in turn, in the hunks' order:
/// one hunk gives its own rows, and the rows of two runs of hunks one after the other are
/// the rows of the first run followed by those of the second.
pub proof fn rows_follow_the_hunks(hunks1: Seq<Hunk>, hunks2: Seq<Hunk>, ext: Seq<char>, col_width: nat, h_scroll: nat)
    ensures
        all_rows(hunks1 + hunks2, ext, col_width, h_scroll) == all_rows(hunks1, ext, col_width, h_scroll) + all_rows(
            hunks2,
            ext,
            col_width,
            h_scroll,
        ),
        hunks1.len() == 1 ==> all_rows(hunks1, ext, col_width, h_scroll) == hunk_rows(hunks1[0], ext, col_width, h_scroll),
        hunks1.len() == 0 ==> all_rows(hunks1, ext, col_width, h_scroll).len() == 0,
    decreases hunks2.len(),
{
    if hunks1.len() == 1 {
        assert(hunks1.drop_last() =~= Seq::<Hunk>::empty());
        assert(all_rows(hunks1.drop_last(), ext, col_width, h_scroll) == Seq::<RowView>::empty());
        assert(hunks1.last() == hunks1[0]);
        assert(Seq::<RowView>::empty() + hunk_rows(hunks1[0], ext, col_width, h_scroll) =~= hunk_rows(
            hunks1[0],
            ext,
            col_width,
            h_scroll,
        ));
    }
    if hunks2.len() == 0 {
        assert(hunks1 + hunks2 =~= hunks1);
        assert(all_rows(hunks1, ext, col_width, h_scroll) + Seq::<RowView>::empty() =~= all_rows(hunks1, ext, col_width, h_scroll));
    } else {
        rows_follow_the_hunks(hunks1, hunks2.drop_last(), ext, col_width, h_scroll);
        assert((hunks1 + hunks2).drop_last() =~= hunks1 + hunks2.drop_last());
        assert((hunks1 + hunks2).last() == hunks2.last());
        assert(all_rows(hunks1, ext, col_width, h_scroll) + all_rows(hunks2.drop_last(), ext, col_width, h_scroll)
            + hunk_rows(hunks2.last(), ext, col_width, h_scroll) =~= all_rows(hunks1, ext, col_width, h_scroll)
            + (all_rows(hunks2.drop_last(), ext, col_width, h_scroll) + hunk_rows(hunks2.last(), ext, col_width, h_scroll)));
    }
}

fn push_hunk_rows(rows: &mut Vec<DiffRow>, hunk: &Hunk, file_ext: &str, col_width: usize, h_scroll: u16)
    ensures
        rows_view(final(rows)@) == rows_view(old(rows)@) + hunk_rows(*hunk, file_ext@, col_width as nat, h_scroll as nat),
{
    let ghost start = rows_view(rows@);
    let mut header: Vec<char> = Vec::new();
    header.push(' ');
    let trimmed_header = trim_string(hunk.header.as_str());
    push_str_chars(&mut header, trimmed_header.as_str());
    header.push(' ');
    assert(header@ =~= seq![' '] + trimmed(hunk.header@) + seq![' ']);
    let hs = string_from_chars(&header);
    let ghost before_header = rows@;
    rows.push(DiffRow::Header(hs));
    assert(rows_view(rows@) =~= rows_view(before_header).push(RowView::Header(hs@)));
    let ghost with_header = rows_view(rows@);
    assert(with_header =~= start + seq![RowView::Header(seq![' '] + trimmed(hunk.header@) + seq![' '])]);
    let pairs = get_side_by_side(hunk);
    let ghost sbs = side_by_side(hunk.lines@);
    let ghost f = |p: SidePair| RowView::Pair(
        cell_of(p.0, true, file_ext@, col_width as nat, h_scroll as nat),
        cell_of(p.1, false, file_ext@, col_width as nat, h_scroll as nat),
    );
    let mut i: usize = 0;
    while i < pairs.len()
        invariant
            i <= pairs@.len(),
            pairs@.map_values(|p: (Option<&DiffLine>, Option<&DiffLine>)| deref_pair(p)) == sbs,
            rows_view(rows@) == with_header + sbs.take(i as int).map_values(f),
            f == (|p: SidePair| RowView::Pair(
                cell_of(p.0, true, file_ext@, col_width as nat, h_scroll as nat),
                cell_of(p.1, false, file_ext@, col_width as nat, h_scroll as nat),
            )),
        decreases pairs.len() - i,
    {
        let p = pairs[i];
        let l = p.0;
        let r = p.1;
        assert(p == pairs@[i as int]);
        assert(sbs[i as int] == deref_pair(pairs@[i as int]));
        assert(crate::git::diff::deref_line(l) == sbs[i as int].0);
        assert(crate::git::diff::deref_line(r) == sbs[i as int].1);
        let left = side_cell(l, true, file_ext, col_width, h_scroll);
        let right = side_cell(r, false, file_ext, col_width, h_scroll);
        let ghost prev_rows = rows@;
        let ghost prev = rows_view(rows@);
        let ghost lv = left@;
        let ghost rv = right@;
        rows.push(DiffRow::Pair(left, right));
        assert(sbs[i as int] == deref_pair(pairs@[i as int]));
        assert(rows_view(rows@) =~= rows_view(prev_rows).push(RowView::Pair(lv, rv)));
        assert(f(sbs[i as int]) == RowView::Pair(lv, rv));
        assert(rows_view(rows@) =~= prev.push(f(sbs[i as int])));
        assert(sbs.take(i + 1).map_values(f) =~= sbs.take(i as int).map_values(f).push(f(sbs[i as int])));
        i = i + 1;
    }
    assert(sbs.take(sbs.len() as int) =~= sbs);
    assert(rows_view(rows@) =~= start + hunk_rows(*hunk, file_ext@, col_width as nat, h_scroll as nat));
}

/// What the diff panel's body shows.
#[derive(Debug)]
pub enum DiffBody {
    /// The panel is under 40 cells wide: `Window too narrow`.
    TooNarrow,
    /// No diff is loaded: `Select a file to view diff`.
    NoDiff,
    /// The diff has no hunks: `No changes`.
    NoChanges,
    /// The visible rows, the extension that picks the syntax highlighting, and the
    /// width each side is padded to.
    Rows { rows: Vec<DiffRow>, file_ext: String, col_width: usize },
}

/// What the diff panel shows: its border, the style of hunk headers and its body.
#[derive(Debug)]
pub struct DiffPanel {
    pub border: Style,
    pub header_style: Style,
    pub body: DiffBody,
}

/// The width of each side of the panel drawn in `area`: half the inside less two
/// cells, at least 20.
pub open spec fn column_width(area: Area) -> nat {
    let half = sat_sub(bordered_inner(area).width, 2) / 2;
    if half >= 20 {
        half as nat
    } else {
        20
    }
}

/// The first row shown: the scroll, at most the rows past one screenful.
pub open spec fn first_row(scroll: u16, rows: nat, height: u16) -> nat {
    let last = if rows >= height { (rows - height) as nat } else { 0 };
    if scroll <= last {
        scroll as nat
    } else {
        last
    }
}

/// The rows of a file diff shown in `area`, for the given scroll positions.
pub open spec fn visible_rows(d: FileDiff, area: Area, scroll: u16, h_scroll: u16) -> Seq<RowView> {
    let all = all_rows(d.hunks@, path_extension(d.new_path@), column_width(area), h_scroll as nat);
    let height = bordered_inner(area).height;
    let first = first_row(scroll, all.len(), height);
    let end = if first + height <= all.len() { first + height } else { all.len() as int };
    all.subrange(first as int, end)
}

/// The diff panel shows a window of the diff's rows as high as its inside (or all rows
/// when fewer): the rows from the scroll position on, the window stopping at the last
/// row; scrolling one row further, while rows remain below the window, shifts the window
/// by one row. Each column is half the inside less the separator, at least 20 cells.
pub proof fn the_panel_shows_a_scrolled_window(d: FileDiff, area: Area, scroll: u16, h_scroll: u16)
    ensures
        ({
            let all = all_rows(d.hunks@, path_extension(d.new_path@), column_width(area), h_scroll as nat);
            let height = bordered_inner(area).height as nat;
            let v = visible_rows(d, area, scroll, h_scroll);
            &&& v.len() == (if all.len() < height { all.len() } else { height })
            &&& scroll + height <= all.len() ==> forall|k: int| 0 <= k < v.len() ==> #[trigger] v[k] == all[scroll + k]
            &&& scroll + height > all.len() ==> forall|k: int| 0 <= k < v.len() ==> #[trigger] v[k] == all[all.len() - v.len() + k]
            &&& scroll + 1 + height <= all.len() && scroll < u16::MAX ==> forall|k: int|
                0 <= k < v.len() - 1 ==> #[trigger] visible_rows(d, area, (scroll + 1) as u16, h_scroll)[k] == v[k + 1]
        }),
        column_width(area) >= 20,
        (bordered_inner(area).width as int - 2) / 2 >= 20 ==> column_width(area) == (bordered_inner(area).width - 2) / 2,
{
}

/// What the diff panel drawn in `area` shows.
pub fn diff_panel(app: &RuneApp, area: Area) -> (panel: DiffPanel)
    ensures
        panel.border == (if app.focus == PanelFocus::Diff {
            Style { fg: Some(Color::Cyan), ..plain() }
        } else {
            Style { fg: Some(Color::Rgb(65, 65, 78)), ..plain() }
        }),
        panel.header_style == (Style { fg: Some(Color::Rgb(90, 90, 180)), bg: Some(Color::Rgb(30, 30, 42)), ..plain() }),
        area.width < 40 ==> panel.body is TooNarrow,
        area.width >= 40 && app.diff is None ==> panel.body is NoDiff,
        area.width >= 40 && app.diff is Some && app.diff->0.hunks@.len() == 0 ==> panel.body is NoChanges,
        area.width >= 40 && app.diff is Some && app.diff->0.hunks@.len() > 0 ==> (panel.body matches DiffBody::Rows { rows, file_ext, col_width }
            && rows_view(rows@) == visible_rows(app.diff->0, area, app.diff_scroll, app.diff_h_scroll)
            && file_ext@ == path_extension(app.diff->0.new_path@)
            && col_width == column_width(area)),
{
    let border = if app.focus == PanelFocus::Diff { focused_border() } else { unfocused_border() };
    let header_style = Style {
        fg: Some(crate::theme::diff_header()),
        bg: Some(crate::theme::surface()),
        bold: false,
        italic: false,
        dim: false,
    };
    if area.width < 40 {
        return DiffPanel { border, header_style, body: DiffBody::TooNarrow };
    }
    match &app.diff {
        None => DiffPanel { border, header_style, body: DiffBody::NoDiff },
        Some(d) => {
            if d.is_empty() {
                return DiffPanel { border, header_style, body: DiffBody::NoChanges };
            }
            let file_ext = file_extension(d.new_path.as_str());
            let inner = block_inner(area);
            let half = (if inner.width >= 2 { inner.width - 2 } else { 0 }) / 2;
            let col_width: usize = if half >= 20 { half as usize } else { 20 };
            let mut rows: Vec<DiffRow> = Vec::new();
            let mut i: usize = 0;
            while i < d.hunks.len()
                invariant
                    i <= d.hunks@.len(),
                    rows_view(rows@) == all_rows(d.hunks@.take(i as int), file_ext@, col_width as nat, app.diff_h_scroll as nat),
                decreases d.hunks.len() - i,
            {
                push_hunk_rows(&mut rows, &d.hunks[i], file_ext.as_str(), col_width, app.diff_h_scroll);
                assert(d.hunks@.take(i + 1).drop_last() =~= d.hunks@.take(i as int));
                i = i + 1;
            }
            assert(d.hunks@.take(d.hunks@.len() as int) =~= d.hunks@);
            let ghost all = rows_view(rows@);
            let height = inner.height as usize;
            let last = if rows.len() >= height { rows.len() - height } else { 0 };
            let scroll = app.diff_scroll as usize;
            let first = if scroll <= last { scroll } else { last };
            let mut visible = rows.split_off(first);
            visible.truncate(height);
            assert(rows_view(visible@) =~= visible_rows(*d, area, app.diff_scroll, app.diff_h_scroll));
            DiffPanel { border, header_style, body: DiffBody::Rows { rows: visible, file_ext, col_width } }
        },
    }
}

} // verus!
