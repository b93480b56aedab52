pub mod diff;

use vstd::prelude::*;

use crate::app::{BranchInfo, BranchView, ChangedFile, CommitInfo, CommitView, FileStatus, FileView};
use crate::order::{char_less, lemma_filter_map_commute, lemma_map_keeps_permutation, lex_less};
use crate::path::{components, keys_sorted, part_less, parts_of, path_components, path_less, sort_by_components, with_key, Component, PathPart};
use crate::path::chars_equal;
use crate::text::{chars_of, first_line, first_line_of};

verus! {

/// The status bits of one entry of the repository status that decide how it is listed.
#[derive(Clone, Copy, Debug)]
pub struct StatusFlags {
    pub index_new: bool,
    pub index_modified: bool,
    pub index_deleted: bool,
    pub index_renamed: bool,
    pub index_typechange: bool,
    pub wt_new: bool,
    pub wt_deleted: bool,
    pub wt_renamed: bool,
    pub wt_typechange: bool,
}

/// One entry of the repository status: its path, when it is valid UTF-8, and its bits.
#[derive(Debug)]
pub struct StatusEntry {
    pub path: Option<String>,
    pub flags: StatusFlags,
}

/// The status shown for an entry: a file that only the work tree has, with no change in
/// the index, is untracked; otherwise new beats deleted beats renamed beats type-changed
/// (shown as copied); anything else is modified.
pub open spec fn status_of(f: StatusFlags) -> FileStatus {
    if f.wt_new && !staged_of(f) {
        FileStatus::Untracked
    } else if f.wt_new || f.index_new {
        FileStatus::Added
    } else if f.wt_deleted || f.index_deleted {
        FileStatus::Deleted
    } else if f.wt_renamed || f.index_renamed {
        FileStatus::Renamed
    } else if f.wt_typechange || f.index_typechange {
        FileStatus::Copied
    } else {
        FileStatus::Modified
    }
}

/// An entry is staged when the index differs from HEAD for it.
pub open spec fn staged_of(f: StatusFlags) -> bool {
    f.index_new || f.index_modified || f.index_deleted || f.index_renamed || f.index_typechange
}

/// The path shown when a path is not valid UTF-8.
pub open spec fn unknown_path() -> Seq<char> {
    "<unknown>"@
}

/// The shown path of an optional path.
pub open spec fn shown_path(p: Option<String>) -> Seq<char> {
    match p {
        Some(s) => s@,
        None => unknown_path(),
    }
}

/// The changed file that a status entry is listed as.
pub open spec fn status_file(e: StatusEntry) -> FileView {
    FileView { path: shown_path(e.path), status: status_of(e.flags), staged: staged_of(e.flags) }
}

/// How an entry's bits decide what it is listed as. It is staged exactly when the index
/// differs from HEAD for it (some index bit is set). A file new in the index is added; a
/// file only the work tree has, with nothing staged, is untracked. Otherwise a deletion —
/// in the index or in the work tree alike — shows as deleted, then a rename as renamed,
/// then a type change as copied; an entry with none of these bits is modified.
pub proof fn status_follows_the_bits(f: StatusFlags)
    ensures
        staged_of(f) <==> (f.index_new || f.index_modified || f.index_deleted || f.index_renamed
            || f.index_typechange),
        f.index_new ==> status_of(f) == FileStatus::Added,
        f.wt_new && !staged_of(f) ==> status_of(f) == FileStatus::Untracked,
        f.wt_new && staged_of(f) ==> status_of(f) == FileStatus::Added,
        !f.wt_new && !f.index_new && (f.index_deleted || f.wt_deleted) ==> status_of(f) == FileStatus::Deleted,
        !f.wt_new && !f.index_new && !f.index_deleted && !f.wt_deleted && (f.index_renamed || f.wt_renamed)
            ==> status_of(f) == FileStatus::Renamed,
        !f.wt_new && !f.index_new && !f.index_deleted && !f.wt_deleted && !f.index_renamed && !f.wt_renamed
            && (f.index_typechange || f.wt_typechange) ==> status_of(f) == FileStatus::Copied,
        !f.wt_new && !f.index_new && !f.index_deleted && !f.wt_deleted && !f.index_renamed && !f.wt_renamed
            && !f.index_typechange && !f.wt_typechange ==> status_of(f) == FileStatus::Modified,
{
}

/// The status and staged flag of a status entry.
pub fn classify_status(flags: &StatusFlags) -> (res: (FileStatus, bool))
    ensures
        res.0 == status_of(*flags),
        res.1 == staged_of(*flags),
{
    let staged = flags.index_new || flags.index_modified || flags.index_deleted
        || flags.index_renamed || flags.index_typechange;
    let status = if flags.wt_new && !staged {
        FileStatus::Untracked
    } else if flags.wt_new || flags.index_new {
        FileStatus::Added
    } else if flags.wt_deleted || flags.index_deleted {
        FileStatus::Deleted
    } else if flags.wt_renamed || flags.index_renamed {
        FileStatus::Renamed
    } else if flags.wt_typechange || flags.index_typechange {
        FileStatus::Copied
    } else {
        FileStatus::Modified
    };
    (status, staged)
}

fn shown_path_of(p: &Option<String>) -> (res: String)
    ensures
        res@ == shown_path(*p),
{
    match p {
        Some(s) => s.clone(),
        None => String::from_str("<unknown>"),
    }
}

/// Takes the files of a keyed list whose keys are their paths' components, in order.
fn files_of_sorted(sorted: Vec<(Vec<Component>, ChangedFile)>) -> (files: Vec<ChangedFile>)
    ensures
        files@ == sorted@.map_values(|p: (Vec<Component>, ChangedFile)| p.1),
{
    let ghost all = sorted@;
    let mut rest = sorted;
    let mut files: Vec<ChangedFile> = Vec::new();
    while rest.len() > 0
        invariant
            rest@ == all.take(rest@.len() as int),
            rest@.len() <= all.len(),
            files@ == all.skip(rest@.len() as int).map_values(|p: (Vec<Component>, ChangedFile)| p.1),
        decreases rest.len(),
    {
        let ghost n = rest@.len();
        let pair = rest.pop().unwrap();
        assert(pair == all[n - 1]);
        assert(rest@ =~= all.take(n - 1));
        files.insert(0, pair.1);
        assert(files@ =~= all.skip(n - 1).map_values(|p: (Vec<Component>, ChangedFile)| p.1));
    }
    assert(all.skip(0) =~= all);
    files
}

/// The views of a list of changed files.
pub open spec fn file_views(s: Seq<ChangedFile>) -> Seq<FileView> {
    s.map_values(|f: ChangedFile| f@)
}

/// The changed files that a list of status entries is listed as, in order.
pub open spec fn status_files(s: Seq<StatusEntry>) -> Seq<FileView> {
    s.map_values(|e: StatusEntry| status_file(e))
}

/// The files whose path has the components `k`, in order.
pub open spec fn files_at(s: Seq<FileView>, k: Seq<PathPart>) -> Seq<FileView> {
    s.filter(|f: FileView| path_components(f.path) == k)
}

/// Lists the changed files of a repository status: each entry classified, the whole
/// list in ascending path order, entries with equal paths in the order read.
pub fn list_changed_files(entries: Vec<StatusEntry>) -> (files: Vec<ChangedFile>)
    ensures
        file_views(files@).to_multiset() == status_files(entries@).to_multiset(),
        forall|i: int, j: int| 0 <= i < j < files@.len() ==> !path_less(#[trigger] files@[j].path@, #[trigger] files@[i].path@),
        forall|k: Seq<PathPart>| #[trigger] files_at(file_views(files@), k) == files_at(status_files(entries@), k),
{
    let mut keyed: Vec<(Vec<Component>, ChangedFile)> = Vec::new();
    let mut i: usize = 0;
    while i < entries.len()
        invariant
            i <= entries.len(),
            keyed@.len() == i,
            forall|k: int| 0 <= k < i ==> #[trigger] keyed@[k].1@ == status_file(entries@[k]),
            forall|k: int| 0 <= k < i ==> parts_of(#[trigger] keyed@[k].0@) == path_components(keyed@[k].1.path@),
        decreases entries.len() - i,
    {
        let entry = &entries[i];
        let path = shown_path_of(&entry.path);
        let key = components(path.as_str());
        let (status, staged) = classify_status(&entry.flags);
        keyed.push((key, ChangedFile { path, status, staged }));
        i = i + 1;
    }
    let ghost keyed_view = keyed@;
    assert(keyed_view.map_values(|p: (Vec<Component>, ChangedFile)| p.1@) =~= entries@.map_values(
        |e: StatusEntry| status_file(e),
    ));
    let sorted = sort_by_components(keyed);
    let ghost sorted_view = sorted@;
    proof {
        lemma_map_keeps_permutation(sorted_view, keyed_view, |p: (Vec<Component>, ChangedFile)| p.1@);
        assert forall|k: int| 0 <= k < sorted_view.len() implies parts_of(#[trigger] sorted_view[k].0@)
            == path_components(sorted_view[k].1.path@) by {
            broadcast use vstd::seq_lib::group_to_multiset_ensures;
            vstd::seq_lib::to_multiset_contains(sorted_view, sorted_view[k]);
            vstd::seq_lib::to_multiset_contains(keyed_view, sorted_view[k]);
            assert(sorted_view.contains(sorted_view[k]));
            let w = choose|w: int| 0 <= w < keyed_view.len() && keyed_view[w] == sorted_view[k];
            assert(parts_of(keyed_view[w].0@) == path_components(keyed_view[w].1.path@));
        }
    }
    let files = files_of_sorted(sorted);
    proof {
        assert(files@.map_values(|f: ChangedFile| f@) =~= sorted_view.map_values(
            |p: (Vec<Component>, ChangedFile)| p.1@,
        ));
        let fv = |p: (Vec<Component>, ChangedFile)| p.1@;
        assert forall|k: Seq<PathPart>| #[trigger] files_at(file_views(files@), k) == files_at(status_files(entries@), k) by {
            let pk = |p: (Vec<Component>, ChangedFile)| parts_of(p.0@) == k;
            let qk = |f: FileView| path_components(f.path) == k;
            assert forall|i: int| 0 <= i < sorted_view.len() implies pk(#[trigger] sorted_view[i]) == qk(fv(sorted_view[i])) by {
            }
            assert forall|i: int| 0 <= i < keyed_view.len() implies pk(#[trigger] keyed_view[i]) == qk(fv(keyed_view[i])) by {
            }
            lemma_filter_map_commute(sorted_view, fv, pk, qk);
            lemma_filter_map_commute(keyed_view, fv, pk, qk);
            assert(with_key(sorted_view, k) == with_key(keyed_view, k));
            assert(file_views(files@) == sorted_view.map_values(fv));
            assert(keyed_view.map_values(fv) == status_files(entries@));
        }
        assert forall|i: int, j: int| 0 <= i < j < files@.len() implies !path_less(
            #[trigger] files@[j].path@,
            #[trigger] files@[i].path@,
        ) by {
            assert(files@[i] == sorted_view[i].1);
            assert(files@[j] == sorted_view[j].1);
            assert(keys_sorted(sorted_view));
            assert(!lex_less(parts_of(sorted_view[j].0@), parts_of(sorted_view[i].0@), part_less()));
        }
    }
    files
}

/// The name shown for the checked-out branch: HEAD's short name, or `detached`.
pub open spec fn current_branch_name(shorthand: Option<String>) -> Seq<char> {
    match shorthand {
        Some(s) => s@,
        None => "detached"@,
    }
}

/// The current branch's name, from HEAD's short name when HEAD has one.
pub fn get_current_branch(shorthand: Option<String>) -> (res: String)
    ensures
        res@ == current_branch_name(shorthand),
{
    match shorthand {
        Some(s) => s,
        None => String::from_str("detached"),
    }
}

/// A branch as the repository lists it: its name and whether it is local.
#[derive(Debug)]
pub struct BranchRef {
    pub name: String,
    pub local: bool,
}

/// The branch entry listed for a branch, given the current branch's name.
pub open spec fn branch_entry(b: BranchRef, current: Seq<char>) -> BranchView {
    BranchView { name: b.name@, current: b.name@ == current, local: b.local }
}

/// The entries of a list of branches, in order.
pub open spec fn branch_entries(s: Seq<BranchRef>, current: Seq<char>) -> Seq<BranchView> {
    s.map_values(|b: BranchRef| branch_entry(b, current))
}

/// The views of a list of branch entries.
pub open spec fn branch_views(s: Seq<BranchInfo>) -> Seq<BranchView> {
    s.map_values(|b: BranchInfo| b@)
}

/// The entries named `n`, in order.
pub open spec fn branches_named(s: Seq<BranchView>, n: Seq<char>) -> Seq<BranchView> {
    s.filter(|b: BranchView| b.name == n)
}

fn branches_of_sorted(sorted: Vec<(Vec<Component>, BranchInfo)>) -> (branches: Vec<BranchInfo>)
    ensures
        branches@ == sorted@.map_values(|p: (Vec<Component>, BranchInfo)| p.1),
{
    let ghost all = sorted@;
    let mut rest = sorted;
    let mut branches: Vec<BranchInfo> = Vec::new();
    while rest.len() > 0
        invariant
            rest@ == all.take(rest@.len() as int),
            rest@.len() <= all.len(),
            branches@ == all.skip(rest@.len() as int).map_values(|p: (Vec<Component>, BranchInfo)| p.1),
        decreases rest.len(),
    {
        let ghost n = rest@.len();
        let pair = rest.pop().unwrap();
        assert(pair == all[n - 1]);
        assert(rest@ =~= all.take(n - 1));
        branches.insert(0, pair.1);
        assert(branches@ =~= all.skip(n - 1).map_values(|p: (Vec<Component>, BranchInfo)| p.1));
    }
    assert(all.skip(0) =~= all);
    branches
}

/// Lists branches: each marked current when its name equals the current branch's name,
/// the whole list in ascending name order, branches of equal names in the order read.
pub fn list_branches(refs: Vec<BranchRef>, current: &str) -> (branches: Vec<BranchInfo>)
    ensures
        branch_views(branches@).to_multiset() == branch_entries(refs@, current@).to_multiset(),
        forall|i: int, j: int|
            0 <= i < j < branches@.len() ==> !lex_less(
                #[trigger] branches@[j].name@,
                #[trigger] branches@[i].name@,
                char_less(),
            ),
        forall|n: Seq<char>| #[trigger] branches_named(branch_views(branches@), n) == branches_named(
            branch_entries(refs@, current@),
            n,
        ),
{
    let current_chars = chars_of(current);
    let mut keyed: Vec<(Vec<Component>, BranchInfo)> = Vec::new();
    let mut i: usize = 0;
    while i < refs.len()
        invariant
            i <= refs.len(),
            current_chars@ == current@,
            keyed@.len() == i,
            forall|k: int| 0 <= k < i ==> #[trigger] keyed@[k].1@ == branch_entry(refs@[k], current@),
            forall|k: int| 0 <= k < i ==> parts_of(#[trigger] keyed@[k].0@) == seq![PathPart::Normal(keyed@[k].1.name@)],
        decreases refs.len() - i,
    {
        let name = refs[i].name.clone();
        let name_chars = chars_of(name.as_str());
        let is_current = chars_equal(&name_chars, &current_chars);
        let mut key: Vec<Component> = Vec::new();
        key.push(Component::Normal(name_chars));
        assert(parts_of(key@) =~= seq![PathPart::Normal(name@)]);
        keyed.push((key, BranchInfo { name, current: is_current, local: refs[i].local }));
        i = i + 1;
    }
    let ghost keyed_view = keyed@;
    let ghost bv = |p: (Vec<Component>, BranchInfo)| p.1@;
    assert(keyed_view.map_values(bv) =~= branch_entries(refs@, current@));
    let sorted = sort_by_components(keyed);
    let ghost sorted_view = sorted@;
    proof {
        lemma_map_keeps_permutation(sorted_view, keyed_view, bv);
        assert forall|k: int| 0 <= k < sorted_view.len() implies parts_of(#[trigger] sorted_view[k].0@)
            == seq![PathPart::Normal(sorted_view[k].1.name@)] by {
            vstd::seq_lib::to_multiset_contains(sorted_view, sorted_view[k]);
            vstd::seq_lib::to_multiset_contains(keyed_view, sorted_view[k]);
            assert(sorted_view.contains(sorted_view[k]));
            let w = choose|w: int| 0 <= w < keyed_view.len() && keyed_view[w] == sorted_view[k];
            assert(parts_of(keyed_view[w].0@) == seq![PathPart::Normal(keyed_view[w].1.name@)]);
        }
    }
    let branches = branches_of_sorted(sorted);
    proof {
        assert(branch_views(branches@) =~= sorted_view.map_values(bv));
        assert forall|n: Seq<char>| #[trigger] branches_named(branch_views(branches@), n) == branches_named(
            branch_entries(refs@, current@),
            n,
        ) by {
            let key = seq![PathPart::Normal(n)];
            let pk = |p: (Vec<Component>, BranchInfo)| parts_of(p.0@) == key;
            let qk = |b: BranchView| b.name == n;
            assert forall|i: int| 0 <= i < sorted_view.len() implies pk(#[trigger] sorted_view[i]) == qk(bv(sorted_view[i])) by {
                let m = sorted_view[i].1.name@;
                assert(parts_of(sorted_view[i].0@) == seq![PathPart::Normal(m)]);
                if seq![PathPart::Normal(m)] == key {
                    assert(seq![PathPart::Normal(m)][0] == key[0]);
                }
            }
            assert forall|i: int| 0 <= i < keyed_view.len() implies pk(#[trigger] keyed_view[i]) == qk(bv(keyed_view[i])) by {
                let m = keyed_view[i].1.name@;
                assert(parts_of(keyed_view[i].0@) == seq![PathPart::Normal(m)]);
                if seq![PathPart::Normal(m)] == key {
                    assert(seq![PathPart::Normal(m)][0] == key[0]);
                }
            }
            lemma_filter_map_commute(sorted_view, bv, pk, qk);
            lemma_filter_map_commute(keyed_view, bv, pk, qk);
            assert(with_key(sorted_view, key) == with_key(keyed_view, key));
        }
        crate::order::char_less_is_strict_total();
        assert forall|i: int, j: int| 0 <= i < j < branches@.len() implies !lex_less(
            #[trigger] branches@[j].name@,
            #[trigger] branches@[i].name@,
            char_less(),
        ) by {
            let a = sorted_view[j].1.name@;
            let b = sorted_view[i].1.name@;
            assert(branches@[i] == sorted_view[i].1);
            assert(branches@[j] == sorted_view[j].1);
            assert(keys_sorted(sorted_view));
            let ka = seq![PathPart::Normal(a)];
            let kb = seq![PathPart::Normal(b)];
            assert(parts_of(sorted_view[j].0@) == ka);
            assert(parts_of(sorted_view[i].0@) == kb);
            assert(!lex_less(ka, kb, part_less()));
            if a == b {
                crate::order::lex_less_is_strict_total(char_less());
                let cl = |x: Seq<char>, y: Seq<char>| lex_less(x, y, char_less());
                assert(!cl(a, a));
            } else {
                assert(ka[0] != kb[0]);
            }
        }
    }
    branches
}

/// A commit as the history walk reads it: id in hexadecimal, author name and message
/// when they are valid UTF-8, and time in seconds.
#[derive(Debug)]
pub struct RawCommit {
    pub id: String,
    pub author: Option<String>,
    pub message: Option<String>,
    pub time: i64,
}

/// The history entry for a commit: `unknown` for a missing author name, and the first
/// line of the message (empty for a missing message).
pub open spec fn commit_entry(c: RawCommit) -> CommitView {
    CommitView {
        id: c.id@,
        author: match c.author {
            Some(a) => a@,
            None => "unknown"@,
        },
        message: first_line(
            match c.message {
                Some(m) => m@,
                None => Seq::empty(),
            },
        ),
        time: c.time,
    }
}

/// A history entry keeps the commit's id and time, shows its author's name (`unknown`
/// when the name is not readable) and only the first line of its message (nothing when
/// the message is not readable).
pub proof fn history_entries_show_author_and_first_line(c: RawCommit)
    ensures
        commit_entry(c).id == c.id@,
        commit_entry(c).time == c.time,
        c.author matches Some(a) ==> commit_entry(c).author == a@,
        c.author is None ==> commit_entry(c).author == "unknown"@,
        c.message matches Some(m) ==> commit_entry(c).message == first_line(m@),
        c.message is None ==> commit_entry(c).message.len() == 0,
        forall|k: int| 0 <= k < commit_entry(c).message.len() ==> #[trigger] commit_entry(c).message[k] != '\n',
{
    let m = match c.message {
        Some(m) => m@,
        None => Seq::empty(),
    };
    crate::text::first_line_is_the_text_up_to_the_first_break(m);
    if c.message is None {
        assert(!(exists|i: int| 0 <= i < m.len() && m[i] == '\n'));
    }
}

/// The history entries of the commits read, in the order read.
pub fn get_commit_history(raw: Vec<RawCommit>) -> (commits: Vec<CommitInfo>)
    ensures
        commits@.len() == raw@.len(),
        forall|k: int| 0 <= k < raw@.len() ==> #[trigger] commits@[k]@ == commit_entry(raw@[k]),
{
    let mut commits: Vec<CommitInfo> = Vec::new();
    let mut i: usize = 0;
    while i < raw.len()
        invariant
            i <= raw.len(),
            commits@.len() == i,
            forall|k: int| 0 <= k < i ==> #[trigger] commits@[k]@ == commit_entry(raw@[k]),
        decreases raw.len() - i,
    {
        let c = &raw[i];
        let author = match &c.author {
            Some(a) => a.clone(),
            None => String::from_str("unknown"),
        };
        let message = match &c.message {
            Some(m) => first_line_of(m.as_str()),
            None => {
                let e = String::new();
                proof {
                    assert(first_line(Seq::<char>::empty()) =~= Seq::<char>::empty());
                }
                e
            },
        };
        commits.push(CommitInfo { id: c.id.clone(), author, message, time: c.time });
        i = i + 1;
    }
    commits
}

/// How a file changed between two trees, as the tree diff reports it.
#[derive(Clone, Copy, PartialEq, Eq, Structural, Debug)]
pub enum DeltaStatus {
    Unmodified,
    Added,
    Deleted,
    Modified,
    Renamed,
    Copied,
    Ignored,
    Untracked,
    Typechange,
    Unreadable,
    Conflicted,
}

/// One file of a tree diff: how it changed, and its old and new paths when they are
/// valid UTF-8.
#[derive(Debug)]
pub struct RawDelta {
    pub status: DeltaStatus,
    pub old_path: Option<String>,
    pub new_path: Option<String>,
}

/// The status a tree-diff change is listed with.
pub open spec fn delta_file_status(d: DeltaStatus) -> FileStatus {
    match d {
        DeltaStatus::Added => FileStatus::Added,
        DeltaStatus::Deleted => FileStatus::Deleted,
        DeltaStatus::Modified => FileStatus::Modified,
        DeltaStatus::Renamed => FileStatus::Renamed,
        DeltaStatus::Copied => FileStatus::Copied,
        _ => FileStatus::Modified,
    }
}

/// A file of a commit is listed with the kind of change the commit made to it: added,
/// deleted, modified, renamed or copied alike; any other kind of delta shows as modified.
/// Distinct kinds among these five stay distinct.
pub proof fn commit_files_keep_the_kind_of_change(d: DeltaStatus, e: DeltaStatus)
    ensures
        d == DeltaStatus::Added <==> delta_file_status(d) == FileStatus::Added,
        d == DeltaStatus::Deleted <==> delta_file_status(d) == FileStatus::Deleted,
        d == DeltaStatus::Renamed <==> delta_file_status(d) == FileStatus::Renamed,
        d == DeltaStatus::Copied <==> delta_file_status(d) == FileStatus::Copied,
        delta_file_status(d) != FileStatus::Untracked,
        !(d == DeltaStatus::Added || d == DeltaStatus::Deleted || d == DeltaStatus::Renamed || d == DeltaStatus::Copied)
            ==> delta_file_status(d) == FileStatus::Modified,
{
}

/// The path a delta is shown under: its new path, else its old path, else `<unknown>`.
pub open spec fn delta_path(d: RawDelta) -> Seq<char> {
    match d.new_path {
        Some(p) => p@,
        None => shown_path(d.old_path),
    }
}

/// The path a delta is shown under.
pub fn delta_path_of(d: &RawDelta) -> (res: String)
    ensures
        res@ == delta_path(*d),
{
    match &d.new_path {
        Some(p) => p.clone(),
        None => shown_path_of(&d.old_path),
    }
}

/// The files that a commit changed, in the diff's order, all marked staged.
pub fn get_commit_files(deltas: &Vec<RawDelta>) -> (files: Vec<ChangedFile>)
    ensures
        files@.len() == deltas@.len(),
        forall|k: int|
            0 <= k < deltas@.len() ==> #[trigger] files@[k]@ == (FileView {
                path: delta_path(deltas@[k]),
                status: delta_file_status(deltas@[k].status),
                staged: true,
            }),
{
    let mut files: Vec<ChangedFile> = Vec::new();
    let mut i: usize = 0;
    while i < deltas.len()
        invariant
            i <= deltas.len(),
            files@.len() == i,
            forall|k: int|
                0 <= k < i ==> #[trigger] files@[k]@ == (FileView {
                    path: delta_path(deltas@[k]),
                    status: delta_file_status(deltas@[k].status),
                    staged: true,
                }),
        decreases deltas.len() - i,
    {
        let d = &deltas[i];
        let status = match d.status {
            DeltaStatus::Added => FileStatus::Added,
            DeltaStatus::Deleted => FileStatus::Deleted,
            DeltaStatus::Modified => FileStatus::Modified,
            DeltaStatus::Renamed => FileStatus::Renamed,
            DeltaStatus::Copied => FileStatus::Copied,
            _ => FileStatus::Modified,
        };
        files.push(ChangedFile { path: delta_path_of(d), status, staged: true });
        i = i + 1;
    }
    files
}

} // verus!
