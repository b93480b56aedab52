use vstd::prelude::*;

use crate::app::{DiffLine, DiffLineKind, DiffLineView, FileDiff, FileDiffView, Hunk, HunkView};
use crate::git::{delta_path, delta_path_of, RawDelta};
use crate::path::{path_eq, paths_equal};
use crate::text::{from_utf8_lossy, string_of, utf8_lossy};

verus! {

/// A line of a patch as the patch reads it: its origin mark, its bytes, and its line
/// numbers in the old and new file.
#[derive(Debug)]
pub struct RawLine {
    pub origin: char,
    pub content: Vec<u8>,
    pub old_lineno: Option<u32>,
    pub new_lineno: Option<u32>,
}

/// A hunk of a patch as the patch reads it: its header bytes and its lines.
#[derive(Debug)]
pub struct RawHunk {
    pub header: Vec<u8>,
    pub lines: Vec<RawLine>,
}

/// A file of a tree diff with the hunks of its patch (none when it has no patch).
#[derive(Debug)]
pub struct RawFilePatch {
    pub delta: RawDelta,
    pub hunks: Vec<RawHunk>,
}

/// The kind of a line with the given origin mark: `+` adds, `-` deletes, anything else
/// is context.
pub open spec fn line_kind(origin: char) -> DiffLineKind {
    if origin == '+' {
        DiffLineKind::Add
    } else if origin == '-' {
        DiffLineKind::Delete
    } else {
        DiffLineKind::Context
    }
}

/// The diff line a patch line becomes; its bytes are read as UTF-8, lossily.
pub open spec fn line_of(raw: RawLine) -> DiffLineView {
    DiffLineView {
        kind: line_kind(raw.origin),
        content: utf8_lossy(raw.content@),
        old_lineno: raw.old_lineno,
        new_lineno: raw.new_lineno,
    }
}

/// The hunk a patch hunk becomes.
pub open spec fn hunk_of(raw: RawHunk) -> HunkView {
    HunkView {
        header: utf8_lossy(raw.header@),
        lines: raw.lines@.map_values(|l: RawLine| line_of(l)),
    }
}

/// The hunks of a patch.
pub open spec fn hunks_of(patch: Seq<RawHunk>) -> Seq<HunkView> {
    patch.map_values(|h: RawHunk| hunk_of(h))
}

/// The views of a list of hunks.
pub open spec fn hunk_views(hunks: Seq<Hunk>) -> Seq<HunkView> {
    hunks.map_values(|h: Hunk| h@)
}

fn convert_hunk(raw: &RawHunk) -> (hunk: Hunk)
    ensures
        hunk@ == hunk_of(*raw),
{
    let mut lines: Vec<DiffLine> = Vec::new();
    let mut i: usize = 0;
    while i < raw.lines.len()
        invariant
            i <= raw.lines@.len(),
            lines@.len() == i,
            forall|k: int| 0 <= k < i ==> #[trigger] lines@[k]@ == line_of(raw.lines@[k]),
        decreases raw.lines.len() - i,
    {
        let line = &raw.lines[i];
        let kind = if line.origin == '+' {
            DiffLineKind::Add
        } else if line.origin == '-' {
            DiffLineKind::Delete
        } else {
            DiffLineKind::Context
        };
        let content = from_utf8_lossy(line.content.as_slice());
        lines.push(
            DiffLine { kind, content, old_lineno: line.old_lineno, new_lineno: line.new_lineno },
        );
        i = i + 1;
    }
    let hunk = Hunk { header: from_utf8_lossy(raw.header.as_slice()), lines };
    assert(hunk@.lines =~= raw.lines@.map_values(|l: RawLine| line_of(l)));
    hunk
}

/// Appends the hunks of a patch, converted, to `hunks`.
pub fn extract_hunks(patch: &Vec<RawHunk>, hunks: &mut Vec<Hunk>)
    ensures
        hunk_views(final(hunks)@) == hunk_views(old(hunks)@) + hunks_of(patch@),
{
    let ghost start = hunk_views(hunks@);
    let mut i: usize = 0;
    while i < patch.len()
        invariant
            i <= patch@.len(),
            hunk_views(hunks@) == start + hunks_of(patch@.take(i as int)),
        decreases patch.len() - i,
    {
        let ghost prev = hunks@;
        let h = convert_hunk(&patch[i]);
        hunks.push(h);
        assert(hunk_views(hunks@) =~= hunk_views(prev).push(hunk_of(patch@[i as int])));
        assert(hunks_of(patch@.take(i + 1)) =~= hunks_of(patch@.take(i as int)).push(
            hunk_of(patch@[i as int]),
        ));
        i = i + 1;
    }
    assert(patch@.take(patch@.len() as int) =~= patch@);
}

/// The hunks of one patch.
pub fn diff_patch_to_hunks(patch: &Vec<RawHunk>) -> (hunks: Vec<Hunk>)
    ensures
        hunk_views(hunks@) == hunks_of(patch@),
{
    let mut hunks: Vec<Hunk> = Vec::new();
    extract_hunks(patch, &mut hunks);
    assert(hunk_views(Seq::<Hunk>::empty()) + hunks_of(patch@) =~= hunks_of(patch@));
    hunks
}

/// The path a delta is matched under: its new path, else its old path.
pub open spec fn delta_match_path(d: RawDelta) -> Option<Seq<char>> {
    match d.new_path {
        Some(p) => Some(p@),
        None => match d.old_path {
            Some(p) => Some(p@),
            None => None,
        },
    }
}

/// Whether a delta is about the file `file_path` (paths compared as paths).
pub open spec fn delta_matches(d: RawDelta, file_path: Seq<char>) -> bool {
    match delta_match_path(d) {
        Some(p) => path_eq(p, file_path),
        None => false,
    }
}

/// The positions, in order, of the deltas that are about the file `file_path`.
pub fn matching_deltas(deltas: &Vec<RawDelta>, file_path: &str) -> (idx: Vec<usize>)
    ensures
        forall|k: int| 0 <= k < idx@.len() ==> #[trigger] idx@[k] < deltas@.len(),
        forall|k: int| 0 <= k < idx@.len() ==> delta_matches(deltas@[#[trigger] idx@[k] as int], file_path@),
        forall|a: int, b: int| 0 <= a < b < idx@.len() ==> #[trigger] idx@[a] < #[trigger] idx@[b],
        forall|j: int|
            0 <= j < deltas@.len() && delta_matches(deltas@[j], file_path@) ==> idx@.contains(j as usize),
{
    let mut idx: Vec<usize> = Vec::new();
    let mut i: usize = 0;
    while i < deltas.len()
        invariant
            i <= deltas@.len(),
            forall|k: int| 0 <= k < idx@.len() ==> #[trigger] idx@[k] < i,
            forall|k: int| 0 <= k < idx@.len() ==> delta_matches(deltas@[#[trigger] idx@[k] as int], file_path@),
            forall|a: int, b: int| 0 <= a < b < idx@.len() ==> #[trigger] idx@[a] < #[trigger] idx@[b],
            forall|j: int| 0 <= j < i && delta_matches(deltas@[j], file_path@) ==> idx@.contains(j as usize),
        decreases deltas.len() - i,
    {
        let d = &deltas[i];
        let found = match &d.new_path {
            Some(p) => paths_equal(p.as_str(), file_path),
            None => match &d.old_path {
                Some(p) => paths_equal(p.as_str(), file_path),
                None => false,
            },
        };
        if found {
            let ghost prev = idx@;
            idx.push(i);
            assert forall|j: int| 0 <= j < i + 1 && delta_matches(deltas@[j], file_path@) implies idx@.contains(
                j as usize,
            ) by {
                if j < i {
                    assert(prev.contains(j as usize));
                    let w = choose|w: int| 0 <= w < prev.len() && prev[w] == j as usize;
                    assert(idx@[w] == j as usize);
                } else {
                    assert(idx@[prev.len() as int] == i);
                }
            }
        }
        i = i + 1;
    }
    idx
}

/// The concatenated hunks of the given patches, in order.
pub open spec fn concat_hunks(patches: Seq<Vec<RawHunk>>) -> Seq<HunkView>
    decreases patches.len(),
{
    if patches.len() == 0 {
        Seq::empty()
    } else {
        concat_hunks(patches.drop_last()) + hunks_of(patches.last()@)
    }
}

/// The hunks of the patches of the deltas about one file, in order.
pub fn diff_to_hunks(patches: &Vec<Vec<RawHunk>>) -> (hunks: Vec<Hunk>)
    ensures
        hunk_views(hunks@) == concat_hunks(patches@),
{
    let mut hunks: Vec<Hunk> = Vec::new();
    let mut i: usize = 0;
    while i < patches.len()
        invariant
            i <= patches@.len(),
            hunk_views(hunks@) == concat_hunks(patches@.take(i as int)),
        decreases patches.len() - i,
    {
        extract_hunks(&patches[i], &mut hunks);
        assert(patches@.take(i + 1).drop_last() =~= patches@.take(i as int));
        i = i + 1;
    }
    assert(patches@.take(patches@.len() as int) =~= patches@);
    hunks
}

/// The diff of one file of the work tree or the index: both paths are the file's path.
pub fn file_diff(path: &str, hunks: Vec<Hunk>) -> (diff: FileDiff)
    ensures
        diff@ == (FileDiffView { old_path: path@, new_path: path@, hunks: hunk_views(hunks@) }),
{
    FileDiff { old_path: string_of(path), new_path: string_of(path), hunks }
}

/// The diff of one file of a commit: its old and new paths, each falling back to the
/// path it is shown under, and the hunks of its patch.
pub open spec fn commit_file_diff(p: RawFilePatch) -> FileDiffView {
    FileDiffView {
        old_path: match p.delta.old_path {
            Some(o) => o@,
            None => delta_path(p.delta),
        },
        new_path: match p.delta.new_path {
            Some(n) => n@,
            None => delta_path(p.delta),
        },
        hunks: hunks_of(p.hunks@),
    }
}

/// The diffs of the files a commit changed, in the diff's order.
pub fn get_commit_diff(patches: &Vec<RawFilePatch>) -> (diffs: Vec<FileDiff>)
    ensures
        diffs@.len() == patches@.len(),
        forall|k: int| 0 <= k < patches@.len() ==> #[trigger] diffs@[k]@ == commit_file_diff(patches@[k]),
{
    let mut diffs: Vec<FileDiff> = Vec::new();
    let mut i: usize = 0;
    while i < patches.len()
        invariant
            i <= patches@.len(),
            diffs@.len() == i,
            forall|k: int| 0 <= k < i ==> #[trigger] diffs@[k]@ == commit_file_diff(patches@[k]),
        decreases patches.len() - i,
    {
        let p = &patches[i];
        let path = delta_path_of(&p.delta);
        let old_path = match &p.delta.old_path {
            Some(o) => o.clone(),
            None => path.clone(),
        };
        let new_path = match &p.delta.new_path {
            Some(n) => n.clone(),
            None => path.clone(),
        };
        let hunks = diff_patch_to_hunks(&p.hunks);
        diffs.push(FileDiff { old_path, new_path, hunks });
        i = i + 1;
    }
    diffs
}

/// A row of the side-by-side view: the old line on the left, the new one on the right.
pub type SidePair = (Option<DiffLine>, Option<DiffLine>);

/// The element at `i`, if `s` has one.
pub open spec fn line_at(s: Seq<DiffLine>, i: int) -> Option<DiffLine> {
    if 0 <= i < s.len() {
        Some(s[i])
    } else {
        None
    }
}

/// The rows that align a run of deleted lines with a run of added lines:
/// the i-th deleted line beside the i-th added line, the shorter run padded with gaps.
pub open spec fn align_run(old: Seq<DiffLine>, new: Seq<DiffLine>) -> Seq<SidePair> {
    Seq::new(
        if old.len() >= new.len() { old.len() } else { new.len() },
        |i: int| (line_at(old, i), line_at(new, i)),
    )
}

/// The rows for `lines`, given the deleted lines `old` and added lines `new` of the
/// change run that precedes them.
pub open spec fn pair_lines(lines: Seq<DiffLine>, old: Seq<DiffLine>, new: Seq<DiffLine>) -> Seq<
    SidePair,
>
    decreases lines.len(),
{
    if lines.len() == 0 {
        align_run(old, new)
    } else {
        let l = lines[0];
        match l.kind {
            DiffLineKind::Delete => pair_lines(lines.drop_first(), old.push(l), new),
            DiffLineKind::Add => pair_lines(lines.drop_first(), old, new.push(l)),
            DiffLineKind::Context => align_run(old, new) + seq![(Some(l), Some(l))] + pair_lines(
                lines.drop_first(),
                Seq::empty(),
                Seq::empty(),
            ),
        }
    }
}

/// The side-by-side rows of a hunk's lines.
pub open spec fn side_by_side(lines: Seq<DiffLine>) -> Seq<SidePair> {
    pair_lines(lines, Seq::empty(), Seq::empty())
}

/// A borrowed line, read as the line itself.
pub open spec fn deref_line(o: Option<&DiffLine>) -> Option<DiffLine> {
    match o {
        Some(l) => Some(*l),
        None => None,
    }
}

/// A row of borrowed lines, read as a row of lines.
pub open spec fn deref_pair(p: (Option<&DiffLine>, Option<&DiffLine>)) -> SidePair {
    (deref_line(p.0), deref_line(p.1))
}

/// Borrowed lines, read as lines.
pub open spec fn deref_lines(s: Seq<&DiffLine>) -> Seq<DiffLine> {
    s.map_values(|l: &DiffLine| *l)
}

fn push_aligned_run<'a>(
    pairs: &mut Vec<(Option<&'a DiffLine>, Option<&'a DiffLine>)>,
    old_lines: &Vec<&'a DiffLine>,
    new_lines: &Vec<&'a DiffLine>,
)
    ensures
        final(pairs)@.map_values(|p: (Option<&DiffLine>, Option<&DiffLine>)| deref_pair(p))
            == old(pairs)@.map_values(|p: (Option<&DiffLine>, Option<&DiffLine>)| deref_pair(p))
            + align_run(deref_lines(old_lines@), deref_lines(new_lines@)),
{
    let max = if old_lines.len() >= new_lines.len() {
        old_lines.len()
    } else {
        new_lines.len()
    };
    let ghost start = pairs@;
    let ghost run = align_run(deref_lines(old_lines@), deref_lines(new_lines@));
    let mut i: usize = 0;
    while i < max
        invariant
            i <= max,
            max == run.len(),
            run == align_run(deref_lines(old_lines@), deref_lines(new_lines@)),
            pairs@.len() == start.len() + i,
            forall|k: int| 0 <= k < start.len() ==> #[trigger] pairs@[k] == start[k],
            forall|k: int|
                0 <= k < i ==> #[trigger] deref_pair(pairs@[start.len() + k]) == run[k],
        decreases max - i,
    {
        let left = if i < old_lines.len() {
            Some(old_lines[i])
        } else {
            None
        };
        let right = if i < new_lines.len() {
            Some(new_lines[i])
        } else {
            None
        };
        pairs.push((left, right));
        i = i + 1;
    }
    assert(pairs@.map_values(|p: (Option<&DiffLine>, Option<&DiffLine>)| deref_pair(p)) =~= start.map_values(
        |p: (Option<&DiffLine>, Option<&DiffLine>)| deref_pair(p),
    ) + run) by {
        assert forall|k: int| start.len() <= k < pairs@.len() implies #[trigger] deref_pair(pairs@[k])
            == run[k - start.len()] by {
            assert(deref_pair(pairs@[start.len() + (k - start.len())]) == run[k - start.len()]);
        }
    }
}

/// Pairs the lines of a hunk for side-by-side display.
///
/// Context lines stand on both sides; each run of deleted and added lines between
/// context lines is aligned so that its i-th deleted line sits beside its i-th added line.
pub fn get_side_by_side(hunk: &Hunk) -> (pairs: Vec<(Option<&DiffLine>, Option<&DiffLine>)>)
    ensures
        pairs@.map_values(|p: (Option<&DiffLine>, Option<&DiffLine>)| deref_pair(p))
            == side_by_side(hunk.lines@),
{
    let mut pairs: Vec<(Option<&DiffLine>, Option<&DiffLine>)> = Vec::new();
    let mut old_lines: Vec<&DiffLine> = Vec::new();
    let mut new_lines: Vec<&DiffLine> = Vec::new();
    let ghost lines = hunk.lines@;
    let n = hunk.lines.len();
    let mut i: usize = 0;
    assert(lines.skip(0) =~= lines);
    assert(deref_lines(old_lines@) =~= Seq::<DiffLine>::empty());
    assert(deref_lines(new_lines@) =~= Seq::<DiffLine>::empty());
    assert(pairs@.map_values(|p: (Option<&DiffLine>, Option<&DiffLine>)| deref_pair(p)) =~= Seq::<
        SidePair,
    >::empty());
    assert(Seq::<SidePair>::empty() + side_by_side(lines) =~= side_by_side(lines));
    while i < n
        invariant
            n == lines.len(),
            lines == hunk.lines@,
            i <= n,
            pairs@.map_values(|p: (Option<&DiffLine>, Option<&DiffLine>)| deref_pair(p))
                + pair_lines(lines.skip(i as int), deref_lines(old_lines@), deref_lines(new_lines@))
                == side_by_side(lines),
        decreases n - i,
    {
        let line = &hunk.lines[i];
        let ghost rest = lines.skip(i as int);
        let ghost before = pairs@.map_values(|p: (Option<&DiffLine>, Option<&DiffLine>)| deref_pair(p));
        let ghost old_view = deref_lines(old_lines@);
        let ghost new_view = deref_lines(new_lines@);
        assert(rest[0] == *line);
        assert(rest.drop_first() =~= lines.skip(i + 1));
        match line.kind {
            DiffLineKind::Delete => {
                old_lines.push(line);
                assert(deref_lines(old_lines@) =~= old_view.push(*line));
            },
            DiffLineKind::Add => {
                new_lines.push(line);
                assert(deref_lines(new_lines@) =~= new_view.push(*line));
            },
            DiffLineKind::Context => {
                push_aligned_run(&mut pairs, &old_lines, &new_lines);
                old_lines = Vec::new();
                new_lines = Vec::new();
                let ghost mid = pairs@;
                pairs.push((Some(line), Some(line)));
                assert(pairs@.map_values(|p: (Option<&DiffLine>, Option<&DiffLine>)| deref_pair(p))
                    =~= mid.map_values(|p: (Option<&DiffLine>, Option<&DiffLine>)| deref_pair(p))
                    + seq![(Some(*line), Some(*line))]);
                assert(deref_lines(old_lines@) =~= Seq::<DiffLine>::empty());
                assert(deref_lines(new_lines@) =~= Seq::<DiffLine>::empty());
                assert(pair_lines(rest, old_view, new_view) == align_run(old_view, new_view) + seq![
                    (Some(*line), Some(*line)),
                ] + pair_lines(lines.skip(i + 1), Seq::empty(), Seq::empty()));
                assert(before + pair_lines(rest, old_view, new_view) =~= before + align_run(
                    old_view,
                    new_view,
                ) + seq![(Some(*line), Some(*line))] + pair_lines(
                    lines.skip(i + 1),
                    Seq::empty(),
                    Seq::empty(),
                ));
            },
        }
        i = i + 1;
    }
    assert(lines.skip(n as int) =~= Seq::<DiffLine>::empty());
    push_aligned_run(&mut pairs, &old_lines, &new_lines);
    pairs
}

/// The line in a cell, as a sequence of zero or one lines.
pub open spec fn cell_lines(o: Option<DiffLine>) -> Seq<DiffLine> {
    match o {
        Some(l) => seq![l],
        None => Seq::empty(),
    }
}

/// The lines of the left column of `rows`, gaps left out.
pub open spec fn left_column(rows: Seq<SidePair>) -> Seq<DiffLine>
    decreases rows.len(),
{
    if rows.len() == 0 {
        Seq::empty()
    } else {
        cell_lines(rows[0].0) + left_column(rows.drop_first())
    }
}

/// The lines of the right column of `rows`, gaps left out.
pub open spec fn right_column(rows: Seq<SidePair>) -> Seq<DiffLine>
    decreases rows.len(),
{
    if rows.len() == 0 {
        Seq::empty()
    } else {
        cell_lines(rows[0].1) + right_column(rows.drop_first())
    }
}

/// The lines of the old version: every line that is not an addition, in order.
pub open spec fn old_side(lines: Seq<DiffLine>) -> Seq<DiffLine>
    decreases lines.len(),
{
    if lines.len() == 0 {
        Seq::empty()
    } else if lines[0].kind == DiffLineKind::Add {
        old_side(lines.drop_first())
    } else {
        seq![lines[0]] + old_side(lines.drop_first())
    }
}

/// The lines of the new version: every line that is not a deletion, in order.
pub open spec fn new_side(lines: Seq<DiffLine>) -> Seq<DiffLine>
    decreases lines.len(),
{
    if lines.len() == 0 {
        Seq::empty()
    } else if lines[0].kind == DiffLineKind::Delete {
        new_side(lines.drop_first())
    } else {
        seq![lines[0]] + new_side(lines.drop_first())
    }
}

/// A well-shaped row: a context line on both sides, or a deleted line (or a gap) beside
/// an added line (or a gap), never two gaps.
pub open spec fn row_is_aligned(p: SidePair) -> bool {
    ||| (p.0 matches Some(l) && l.kind == DiffLineKind::Context && p.1 == p.0)
    ||| {
        &&& (p.0 matches Some(l) ==> l.kind == DiffLineKind::Delete)
        &&& (p.1 matches Some(r) ==> r.kind == DiffLineKind::Add)
        &&& (p.0 is Some || p.1 is Some)
    }
}

/// A sequence without its first element, or the empty sequence.
pub open spec fn tail_of(s: Seq<DiffLine>) -> Seq<DiffLine> {
    if s.len() == 0 {
        s
    } else {
        s.drop_first()
    }
}

proof fn lemma_columns_append(a: Seq<SidePair>, b: Seq<SidePair>)
    ensures
        left_column(a + b) == left_column(a) + left_column(b),
        right_column(a + b) == right_column(a) + right_column(b),
    decreases a.len(),
{
    if a.len() == 0 {
        assert(a + b =~= b);
        assert(left_column(a) + left_column(b) =~= left_column(b));
        assert(right_column(a) + right_column(b) =~= right_column(b));
    } else {
        lemma_columns_append(a.drop_first(), b);
        assert((a + b).drop_first() =~= a.drop_first() + b);
        assert(cell_lines(a[0].0) + (left_column(a.drop_first()) + left_column(b)) =~= (cell_lines(
            a[0].0,
        ) + left_column(a.drop_first())) + left_column(b));
        assert(cell_lines(a[0].1) + (right_column(a.drop_first()) + right_column(b)) =~= (
        cell_lines(a[0].1) + right_column(a.drop_first())) + right_column(b));
    }
}

proof fn lemma_columns_of_run(old: Seq<DiffLine>, new: Seq<DiffLine>)
    ensures
        left_column(align_run(old, new)) == old,
        right_column(align_run(old, new)) == new,
    decreases old.len() + new.len(),
{
    let run = align_run(old, new);
    if run.len() == 0 {
        assert(old =~= Seq::<DiffLine>::empty());
        assert(new =~= Seq::<DiffLine>::empty());
    } else {
        lemma_columns_of_run(tail_of(old), tail_of(new));
        assert(run.drop_first() =~= align_run(tail_of(old), tail_of(new)));
        assert(cell_lines(run[0].0) + tail_of(old) =~= old);
        assert(cell_lines(run[0].1) + tail_of(new) =~= new);
    }
}

proof fn lemma_columns_of_pairs(lines: Seq<DiffLine>, old: Seq<DiffLine>, new: Seq<DiffLine>)
    ensures
        left_column(pair_lines(lines, old, new)) == old + old_side(lines),
        right_column(pair_lines(lines, old, new)) == new + new_side(lines),
    decreases lines.len(),
{
    if lines.len() == 0 {
        lemma_columns_of_run(old, new);
        assert(old + old_side(lines) =~= old);
        assert(new + new_side(lines) =~= new);
    } else {
        let l = lines[0];
        let rest = lines.drop_first();
        match l.kind {
            DiffLineKind::Delete => {
                lemma_columns_of_pairs(rest, old.push(l), new);
                assert(old.push(l) + old_side(rest) =~= old + old_side(lines));
            },
            DiffLineKind::Add => {
                lemma_columns_of_pairs(rest, old, new.push(l));
                assert(new.push(l) + new_side(rest) =~= new + new_side(lines));
            },
            DiffLineKind::Context => {
                let e = Seq::<DiffLine>::empty();
                lemma_columns_of_pairs(rest, e, e);
                lemma_columns_of_run(old, new);
                let row: Seq<SidePair> = seq![(Some(l), Some(l))];
                lemma_columns_append(align_run(old, new), row);
                lemma_columns_append(align_run(old, new) + row, pair_lines(rest, e, e));
                assert(left_column(row) =~= seq![l]) by {
                    assert(row.drop_first() =~= Seq::<SidePair>::empty());
                    assert(left_column(row.drop_first()) == Seq::<DiffLine>::empty());
                    assert(cell_lines(row[0].0) =~= seq![l]);
                    assert(seq![l] + Seq::<DiffLine>::empty() =~= seq![l]);
                }
                assert(right_column(row) =~= seq![l]) by {
                    assert(row.drop_first() =~= Seq::<SidePair>::empty());
                    assert(right_column(row.drop_first()) == Seq::<DiffLine>::empty());
                    assert(cell_lines(row[0].1) =~= seq![l]);
                    assert(seq![l] + Seq::<DiffLine>::empty() =~= seq![l]);
                }
                assert(old + seq![l] + (e + old_side(rest)) =~= old + old_side(lines));
                assert(new + seq![l] + (e + new_side(rest)) =~= new + new_side(lines));
            },
        }
    }
}

/// The side-by-side view loses and invents no line: its left column, read top to bottom
/// without gaps, is the old version of the hunk (every line but the additions), and its
/// right column is the new version (every line but the deletions).
pub proof fn side_by_side_keeps_both_versions(lines: Seq<DiffLine>)
    ensures
        left_column(side_by_side(lines)) == old_side(lines),
        right_column(side_by_side(lines)) == new_side(lines),
{
    let e = Seq::<DiffLine>::empty();
    lemma_columns_of_pairs(lines, e, e);
    assert(e + old_side(lines) =~= old_side(lines));
    assert(e + new_side(lines) =~= new_side(lines));
}

proof fn lemma_rows_aligned(lines: Seq<DiffLine>, old: Seq<DiffLine>, new: Seq<DiffLine>)
    requires
        forall|k: int| 0 <= k < old.len() ==> (#[trigger] old[k]).kind == DiffLineKind::Delete,
        forall|k: int| 0 <= k < new.len() ==> (#[trigger] new[k]).kind == DiffLineKind::Add,
    ensures
        forall|k: int|
            0 <= k < pair_lines(lines, old, new).len() ==> row_is_aligned(
                #[trigger] pair_lines(lines, old, new)[k],
            ),
    decreases lines.len(),
{
    let run = align_run(old, new);
    assert forall|k: int| 0 <= k < run.len() implies row_is_aligned(#[trigger] run[k]) by {
        assert(run[k] == (line_at(old, k), line_at(new, k)));
    }
    if lines.len() > 0 {
        let l = lines[0];
        let rest = lines.drop_first();
        let e = Seq::<DiffLine>::empty();
        match l.kind {
            DiffLineKind::Delete => {
                assert forall|k: int| 0 <= k < old.push(l).len() implies (#[trigger] old.push(
                    l,
                )[k]).kind == DiffLineKind::Delete by {
                    if k < old.len() {
                        assert(old.push(l)[k] == old[k]);
                    }
                }
                lemma_rows_aligned(rest, old.push(l), new);
                assert(pair_lines(lines, old, new) == pair_lines(rest, old.push(l), new));
            },
            DiffLineKind::Add => {
                assert forall|k: int| 0 <= k < new.push(l).len() implies (#[trigger] new.push(
                    l,
                )[k]).kind == DiffLineKind::Add by {
                    if k < new.len() {
                        assert(new.push(l)[k] == new[k]);
                    }
                }
                lemma_rows_aligned(rest, old, new.push(l));
                assert(pair_lines(lines, old, new) == pair_lines(rest, old, new.push(l)));
            },
            DiffLineKind::Context => {
                lemma_rows_aligned(rest, e, e);
                let all = pair_lines(lines, old, new);
                let tail = pair_lines(rest, e, e);
                assert forall|k: int| 0 <= k < all.len() implies row_is_aligned(#[trigger] all[k]) by {
                    if k < run.len() {
                        assert(all[k] == run[k]);
                    } else if k == run.len() {
                        assert(all[k] == (Some(l), Some(l)));
                    } else {
                        assert(all[k] == tail[k - run.len() - 1]);
                    }
                }
            },
        }
    }
}

/// Every row of the side-by-side view is aligned: a context line mirrored on both sides,
/// or a deleted line beside an added line, one of them possibly a gap but never both.
pub proof fn side_by_side_rows_are_aligned(lines: Seq<DiffLine>)
    ensures
        forall|k: int|
            0 <= k < side_by_side(lines).len() ==> row_is_aligned(#[trigger] side_by_side(lines)[k]),
{
    lemma_rows_aligned(lines, Seq::empty(), Seq::empty());
}

/// Whether a run of lines holds no context line: only deletions and additions.
pub open spec fn is_change_run(run: Seq<DiffLine>) -> bool {
    forall|k: int| 0 <= k < run.len() ==> (#[trigger] run[k]).kind != DiffLineKind::Context
}

proof fn lemma_change_run_collects(run: Seq<DiffLine>, rest: Seq<DiffLine>, old: Seq<DiffLine>, new: Seq<DiffLine>)
    requires
        is_change_run(run),
    ensures
        pair_lines(run + rest, old, new) == pair_lines(rest, old + old_side(run), new + new_side(run)),
    decreases run.len(),
{
    if run.len() == 0 {
        assert(run + rest =~= rest);
        assert(old + old_side(run) =~= old);
        assert(new + new_side(run) =~= new);
    } else {
        let l = run[0];
        let tail = run.drop_first();
        assert((run + rest).drop_first() =~= tail + rest);
        assert((run + rest)[0] == l);
        assert(is_change_run(tail)) by {
            assert forall|k: int| 0 <= k < tail.len() implies (#[trigger] tail[k]).kind != DiffLineKind::Context by {
                assert(tail[k] == run[k + 1]);
            }
        }
        assert(l.kind != DiffLineKind::Context);
        if l.kind == DiffLineKind::Delete {
            lemma_change_run_collects(tail, rest, old.push(l), new);
            assert(old.push(l) + old_side(tail) =~= old + old_side(run));
        } else {
            lemma_change_run_collects(tail, rest, old, new.push(l));
            assert(new.push(l) + new_side(tail) =~= new + new_side(run));
        }
    }
}

proof fn lemma_same_tail_same_rows(prefix: Seq<DiffLine>, x1: Seq<DiffLine>, x2: Seq<DiffLine>, old: Seq<DiffLine>, new: Seq<DiffLine>)
    requires
        forall|o: Seq<DiffLine>, n: Seq<DiffLine>| #[trigger] pair_lines(x1, o, n) == pair_lines(x2, o, n),
    ensures
        pair_lines(prefix + x1, old, new) == pair_lines(prefix + x2, old, new),
    decreases prefix.len(),
{
    if prefix.len() == 0 {
        assert(prefix + x1 =~= x1);
        assert(prefix + x2 =~= x2);
        assert(pair_lines(x1, old, new) == pair_lines(x2, old, new));
    } else {
        let l = prefix[0];
        let tail = prefix.drop_first();
        assert((prefix + x1).drop_first() =~= tail + x1);
        assert((prefix + x2).drop_first() =~= tail + x2);
        assert((prefix + x1)[0] == l);
        assert((prefix + x2)[0] == l);
        match l.kind {
            DiffLineKind::Delete => lemma_same_tail_same_rows(tail, x1, x2, old.push(l), new),
            DiffLineKind::Add => lemma_same_tail_same_rows(tail, x1, x2, old, new.push(l)),
            DiffLineKind::Context => lemma_same_tail_same_rows(tail, x1, x2, Seq::empty(), Seq::empty()),
        }
    }
}

/// Reordering the lines of a run of changes does not change the side-by-side view, as
/// long as the deleted lines keep their order and the added lines keep theirs.
pub proof fn side_by_side_ignores_order_within_a_change_run(
    prefix: Seq<DiffLine>,
    run1: Seq<DiffLine>,
    run2: Seq<DiffLine>,
    suffix: Seq<DiffLine>,
)
    requires
        is_change_run(run1),
        is_change_run(run2),
        old_side(run1) == old_side(run2),
        new_side(run1) == new_side(run2),
    ensures
        side_by_side(prefix + run1 + suffix) == side_by_side(prefix + run2 + suffix),
{
    assert forall|o: Seq<DiffLine>, n: Seq<DiffLine>| #[trigger] pair_lines(run1 + suffix, o, n) == pair_lines(
        run2 + suffix,
        o,
        n,
    ) by {
        lemma_change_run_collects(run1, suffix, o, n);
        lemma_change_run_collects(run2, suffix, o, n);
    }
    let e = Seq::<DiffLine>::empty();
    lemma_same_tail_same_rows(prefix, run1 + suffix, run2 + suffix, e, e);
    assert(prefix + run1 + suffix =~= prefix + (run1 + suffix));
    assert(prefix + run2 + suffix =~= prefix + (run2 + suffix));
}

/// The lines with each run of changes rearranged into its deletions followed by its
/// additions, each kept in their order; `old` and `new` are the deletions and additions
/// of the run already under way. Context lines keep their places.
pub open spec fn runs_in_order(lines: Seq<DiffLine>, old: Seq<DiffLine>, new: Seq<DiffLine>) -> Seq<DiffLine>
    decreases lines.len(),
{
    if lines.len() == 0 {
        old + new
    } else {
        let l = lines[0];
        match l.kind {
            DiffLineKind::Delete => runs_in_order(lines.drop_first(), old.push(l), new),
            DiffLineKind::Add => runs_in_order(lines.drop_first(), old, new.push(l)),
            DiffLineKind::Context => old + new + seq![l] + runs_in_order(lines.drop_first(), Seq::empty(), Seq::empty()),
        }
    }
}

/// The lines of a hunk with each run of changes rearranged into its deletions followed by
/// its additions.
pub open spec fn changes_in_order(lines: Seq<DiffLine>) -> Seq<DiffLine> {
    runs_in_order(lines, Seq::empty(), Seq::empty())
}

proof fn lemma_sides_concat(a: Seq<DiffLine>, b: Seq<DiffLine>)
    ensures
        old_side(a + b) == old_side(a) + old_side(b),
        new_side(a + b) == new_side(a) + new_side(b),
    decreases a.len(),
{
    if a.len() == 0 {
        assert(a + b =~= b);
        assert(old_side(a) + old_side(b) =~= old_side(b));
        assert(new_side(a) + new_side(b) =~= new_side(b));
    } else {
        lemma_sides_concat(a.drop_first(), b);
        assert((a + b).drop_first() =~= a.drop_first() + b);
        assert((a + b)[0] == a[0]);
        assert(seq![a[0]] + (old_side(a.drop_first()) + old_side(b)) =~= seq![a[0]] + old_side(a.drop_first()) + old_side(b));
        assert(seq![a[0]] + (new_side(a.drop_first()) + new_side(b)) =~= seq![a[0]] + new_side(a.drop_first()) + new_side(b));
    }
}

proof fn lemma_sides_of_one_kind(s: Seq<DiffLine>, kind: DiffLineKind)
    requires
        kind != DiffLineKind::Context,
        forall|k: int| 0 <= k < s.len() ==> (#[trigger] s[k]).kind == kind,
    ensures
        kind == DiffLineKind::Delete ==> old_side(s) == s && new_side(s) == Seq::<DiffLine>::empty(),
        kind == DiffLineKind::Add ==> new_side(s) == s && old_side(s) == Seq::<DiffLine>::empty(),
    decreases s.len(),
{
    if s.len() > 0 {
        let t = s.drop_first();
        assert forall|k: int| 0 <= k < t.len() implies (#[trigger] t[k]).kind == kind by {
            assert(t[k] == s[k + 1]);
        }
        lemma_sides_of_one_kind(t, kind);
        assert(s[0].kind == kind);
        assert(seq![s[0]] + t =~= s);
    } else {
        assert(s =~= Seq::<DiffLine>::empty());
    }
}

proof fn lemma_rows_of_runs_in_order(lines: Seq<DiffLine>, old: Seq<DiffLine>, new: Seq<DiffLine>)
    requires
        forall|k: int| 0 <= k < old.len() ==> (#[trigger] old[k]).kind == DiffLineKind::Delete,
        forall|k: int| 0 <= k < new.len() ==> (#[trigger] new[k]).kind == DiffLineKind::Add,
    ensures
        pair_lines(lines, old, new) == pair_lines(runs_in_order(lines, old, new), Seq::empty(), Seq::empty()),
    decreases lines.len(),
{
    let e = Seq::<DiffLine>::empty();
    let run = old + new;
    assert(is_change_run(run)) by {
        assert forall|k: int| 0 <= k < run.len() implies (#[trigger] run[k]).kind != DiffLineKind::Context by {
            if k < old.len() {
                assert(run[k] == old[k]);
            } else {
                assert(run[k] == new[k - old.len()]);
            }
        }
    }
    lemma_sides_concat(old, new);
    lemma_sides_of_one_kind(old, DiffLineKind::Delete);
    lemma_sides_of_one_kind(new, DiffLineKind::Add);
    assert(old_side(run) == old) by {
        assert(old + Seq::<DiffLine>::empty() =~= old);
    }
    assert(new_side(run) == new) by {
        assert(Seq::<DiffLine>::empty() + new =~= new);
    }
    assert(e + old =~= old);
    assert(e + new =~= new);
    if lines.len() == 0 {
        lemma_change_run_collects(run, e, e, e);
        assert(run + e =~= run);
    } else {
        let l = lines[0];
        let rest = lines.drop_first();
        match l.kind {
            DiffLineKind::Delete => {
                assert forall|k: int| 0 <= k < old.push(l).len() implies (#[trigger] old.push(l)[k]).kind
                    == DiffLineKind::Delete by {
                    if k < old.len() {
                        assert(old.push(l)[k] == old[k]);
                    }
                }
                lemma_rows_of_runs_in_order(rest, old.push(l), new);
            },
            DiffLineKind::Add => {
                assert forall|k: int| 0 <= k < new.push(l).len() implies (#[trigger] new.push(l)[k]).kind
                    == DiffLineKind::Add by {
                    if k < new.len() {
                        assert(new.push(l)[k] == new[k]);
                    }
                }
                lemma_rows_of_runs_in_order(rest, old, new.push(l));
            },
            DiffLineKind::Context => {
                lemma_rows_of_runs_in_order(rest, e, e);
                let r = runs_in_order(rest, e, e);
                let tail = seq![l] + r;
                lemma_change_run_collects(run, tail, e, e);
                assert(old + new + seq![l] + r =~= run + tail);
                assert(tail[0] == l);
                assert(tail.drop_first() =~= r);
            },
        }
    }
}

/// The side-by-side view of a hunk depends on each run of changes only through its
/// deletions and its additions, each in order: hunks whose lines differ only by how the
/// deletions and additions of their runs interleave have the same view.
pub proof fn side_by_side_depends_only_on_ordered_changes(lines1: Seq<DiffLine>, lines2: Seq<DiffLine>)
    requires
        changes_in_order(lines1) == changes_in_order(lines2),
    ensures
        side_by_side(lines1) == side_by_side(lines2),
{
    let e = Seq::<DiffLine>::empty();
    lemma_rows_of_runs_in_order(lines1, e, e);
    lemma_rows_of_runs_in_order(lines2, e, e);
}

/// A patch line's origin mark decides its kind: `+` adds, `-` deletes, anything else is
/// context; a hunk keeps its lines, in order, with their line numbers.
pub proof fn patch_lines_keep_their_kind_and_numbers(raw: RawHunk, c: char)
    ensures
        (line_kind(c) == DiffLineKind::Add) <==> c == '+',
        (line_kind(c) == DiffLineKind::Delete) <==> c == '-',
        hunk_of(raw).lines.len() == raw.lines@.len(),
        forall|i: int|
            0 <= i < raw.lines@.len() ==> {
                &&& (#[trigger] hunk_of(raw).lines[i]).old_lineno == raw.lines@[i].old_lineno
                &&& hunk_of(raw).lines[i].new_lineno == raw.lines@[i].new_lineno
                &&& (hunk_of(raw).lines[i].kind == DiffLineKind::Add <==> raw.lines@[i].origin == '+')
                &&& (hunk_of(raw).lines[i].kind == DiffLineKind::Delete <==> raw.lines@[i].origin == '-')
            },
{
}

} // verus!
