use vstd::prelude::*;

use crate::order::{char_less, char_less_is_strict_total, is_strict_total, lex_less, lex_less_is_strict_total};
use crate::text::chars_of;

verus! {

/// One component of a path, as `std::path::Path::components` yields it.
pub enum PathPart {
    RootDir,
    CurDir,
    ParentDir,
    Normal(Seq<char>),
}

/// A component of a path, held as characters.
#[derive(Debug)]
pub enum Component {
    RootDir,
    CurDir,
    ParentDir,
    Normal(Vec<char>),
}

impl View for Component {
    type V = PathPart;

    open spec fn view(&self) -> PathPart {
        match self {
            Component::RootDir => PathPart::RootDir,
            Component::CurDir => PathPart::CurDir,
            Component::ParentDir => PathPart::ParentDir,
            Component::Normal(v) => PathPart::Normal(v@),
        }
    }
}

/// The components of a component list.
pub open spec fn parts_of(v: Seq<Component>) -> Seq<PathPart> {
    v.map_values(|c: Component| c@)
}

/// The pieces of `s` between `/` separators (one more than the separators).
pub open spec fn split_pieces(s: Seq<char>) -> Seq<Seq<char>>
    decreases s.len(),
{
    if s.len() == 0 {
        seq![Seq::empty()]
    } else {
        let p = split_pieces(s.drop_last());
        if s.last() == '/' {
            p.push(Seq::empty())
        } else {
            p.drop_last().push(p.last().push(s.last()))
        }
    }
}

/// The components that the pieces of a path stand for, past its start: empty pieces and
/// `.` pieces are dropped, `..` is the parent directory.
pub open spec fn inner_parts(pieces: Seq<Seq<char>>) -> Seq<PathPart>
    decreases pieces.len(),
{
    if pieces.len() == 0 {
        Seq::empty()
    } else {
        let rest = inner_parts(pieces.drop_last());
        let p = pieces.last();
        if p.len() == 0 || p == seq!['.'] {
            rest
        } else if p == seq!['.', '.'] {
            rest.push(PathPart::ParentDir)
        } else {
            rest.push(PathPart::Normal(p))
        }
    }
}

/// The components of a path written with `/` separators: a root for a leading `/`, a
/// current directory for a leading `.` piece of a relative path, then the other pieces
/// with repeated separators, `.` pieces and a trailing separator normalized away.
pub open spec fn path_components(s: Seq<char>) -> Seq<PathPart> {
    let pieces = split_pieces(s);
    let head = if s.len() > 0 && s[0] == '/' {
        seq![PathPart::RootDir]
    } else if pieces[0] == seq!['.'] {
        seq![PathPart::CurDir]
    } else {
        Seq::empty()
    };
    head + inner_parts(pieces)
}

/// The rank of a component kind in `Component`'s derived order.
pub open spec fn part_rank(p: PathPart) -> int {
    match p {
        PathPart::RootDir => 0,
        PathPart::CurDir => 1,
        PathPart::ParentDir => 2,
        PathPart::Normal(_) => 3,
    }
}

/// The order of components: by kind, then normal components by their text.
pub open spec fn part_less() -> spec_fn(PathPart, PathPart) -> bool {
    |a: PathPart, b: PathPart|
        if part_rank(a) != part_rank(b) {
            part_rank(a) < part_rank(b)
        } else {
            match (a, b) {
                (PathPart::Normal(x), PathPart::Normal(y)) => lex_less(x, y, char_less()),
                _ => false,
            }
        }
}

/// The order of paths, as `Path`'s `Ord` compares them: component by component.
pub open spec fn path_less(a: Seq<char>, b: Seq<char>) -> bool {
    lex_less(path_components(a), path_components(b), part_less())
}

/// Path equality, as `Path`'s `==` decides it: equal components.
pub open spec fn path_eq(a: Seq<char>, b: Seq<char>) -> bool {
    path_components(a) == path_components(b)
}

/// The component order is a strict total order.
pub proof fn part_less_is_strict_total()
    ensures
        is_strict_total(part_less()),
{
    let less = part_less();
    char_less_is_strict_total();
    lex_less_is_strict_total(char_less());
    let cl = |a: Seq<char>, b: Seq<char>| lex_less(a, b, char_less());
    assert(is_strict_total(cl));
    assert forall|x: PathPart| !#[trigger] less(x, x) by {
        if let PathPart::Normal(s) = x {
            assert(!cl(s, s));
        }
    }
    assert forall|x: PathPart, y: PathPart, z: PathPart| #[trigger] less(x, y) && #[trigger] less(y, z) implies less(
        x,
        z,
    ) by {
        if let (PathPart::Normal(a), PathPart::Normal(b), PathPart::Normal(c)) = (x, y, z) {
            assert(cl(a, b) && cl(b, c));
        }
    }
    assert forall|x: PathPart, y: PathPart| x != y implies #[trigger] less(x, y) || #[trigger] less(y, x) by {
        if let (PathPart::Normal(a), PathPart::Normal(b)) = (x, y) {
            assert(a != b);
            assert(cl(a, b) || cl(b, a));
        }
    }
}

/// The path order is a strict total order on component lists.
pub proof fn path_order_is_strict_total()
    ensures
        is_strict_total(|a: Seq<PathPart>, b: Seq<PathPart>| lex_less(a, b, part_less())),
{
    part_less_is_strict_total();
    lex_less_is_strict_total(part_less());
}

proof fn lemma_split_pieces_nonempty(s: Seq<char>)
    ensures
        split_pieces(s).len() >= 1,
    decreases s.len(),
{
    if s.len() > 0 {
        lemma_split_pieces_nonempty(s.drop_last());
    }
}

/// A copy of a character vector.
pub fn copy_chars(v: &Vec<char>) -> (res: Vec<char>)
    ensures
        res@ == v@,
{
    let mut out: Vec<char> = Vec::new();
    let mut i: usize = 0;
    while i < v.len()
        invariant
            i <= v.len(),
            out@ == v@.take(i as int),
        decreases v.len() - i,
    {
        out.push(v[i]);
        assert(v@.take(i as int).push(v@[i as int]) =~= v@.take(i + 1));
        i = i + 1;
    }
    assert(v@.take(v.len() as int) =~= v@);
    out
}

/// The components of a path.
pub fn components(path: &str) -> (res: Vec<Component>)
    ensures
        parts_of(res@) == path_components(path@),
{
    let chars = chars_of(path);
    let n = chars.len();
    let mut done: Vec<Vec<char>> = Vec::new();
    let mut current: Vec<char> = Vec::new();
    let mut i: usize = 0;
    while i < n
        invariant
            n == chars@.len(),
            chars@ == path@,
            i <= n,
            done@.map_values(|v: Vec<char>| v@).push(current@) == split_pieces(chars@.take(i as int)),
        decreases n - i,
    {
        let c = chars[i];
        let ghost before = chars@.take(i as int);
        assert(chars@.take(i + 1).drop_last() =~= before);
        assert(chars@.take(i + 1).last() == c);
        let ghost pv = done@.map_values(|v: Vec<char>| v@);
        let ghost cur = current@;
        if c == '/' {
            done.push(current);
            current = Vec::new();
            assert(done@.map_values(|v: Vec<char>| v@) =~= pv.push(cur));
        } else {
            current.push(c);
            assert(pv.push(current@) =~= pv.push(cur).drop_last().push(cur.push(c)));
        }
        i = i + 1;
    }
    assert(chars@.take(n as int) =~= chars@);
    done.push(current);
    let ghost pieces = split_pieces(path@);
    assert(done@.map_values(|v: Vec<char>| v@) == pieces);
    let mut out: Vec<Component> = Vec::new();
    let absolute = n > 0 && chars[0] == '/';
    let first_is_dot = done[0].len() == 1 && done[0][0] == '.';
    if absolute {
        out.push(Component::RootDir);
    } else if first_is_dot {
        out.push(Component::CurDir);
    }
    let ghost head = parts_of(out@);
    proof {
        lemma_split_pieces_nonempty(path@);
        assert(head == (if path@.len() > 0 && path@[0] == '/' {
            seq![PathPart::RootDir]
        } else if pieces[0] == seq!['.'] {
            seq![PathPart::CurDir]
        } else {
            Seq::empty()
        })) by {
            assert(done@[0]@ == pieces[0]);
            if first_is_dot {
                assert(pieces[0] =~= seq!['.']);
            }
            if pieces[0] == seq!['.'] {
                assert(pieces[0].len() == 1 && pieces[0][0] == '.');
            }
        }
        assert(pieces.take(0) =~= Seq::<Seq<char>>::empty());
        assert(head + inner_parts(pieces.take(0)) =~= head);
    }
    let m = done.len();
    let mut j: usize = 0;
    while j < m
        invariant
            m == done@.len(),
            m == pieces.len(),
            done@.map_values(|v: Vec<char>| v@) == pieces,
            j <= m,
            parts_of(out@) == head + inner_parts(pieces.take(j as int)),
        decreases m - j,
    {
        let piece = &done[j];
        assert(piece@ == pieces[j as int]);
        assert(pieces.take(j + 1).drop_last() =~= pieces.take(j as int));
        assert(pieces.take(j + 1).last() == pieces[j as int]);
        let ghost prev = out@;
        let is_dot = piece.len() == 1 && piece[0] == '.';
        let is_dot_dot = piece.len() == 2 && piece[0] == '.' && piece[1] == '.';
        proof {
            if is_dot {
                assert(piece@ =~= seq!['.']);
            }
            if piece@ == seq!['.'] {
                assert(piece@.len() == 1 && piece@[0] == '.');
            }
            if is_dot_dot {
                assert(piece@ =~= seq!['.', '.']);
            }
            if piece@ == seq!['.', '.'] {
                assert(piece@.len() == 2 && piece@[0] == '.' && piece@[1] == '.');
            }
        }
        if piece.len() == 0 || is_dot {
        } else if is_dot_dot {
            out.push(Component::ParentDir);
            assert(parts_of(out@) =~= parts_of(prev).push(PathPart::ParentDir));
        } else {
            out.push(Component::Normal(copy_chars(piece)));
            assert(parts_of(out@) =~= parts_of(prev).push(PathPart::Normal(piece@)));
        }
        j = j + 1;
    }
    assert(pieces.take(m as int) =~= pieces);
    out
}

/// Whether two character vectors hold the same characters.
pub fn chars_equal(a: &Vec<char>, b: &Vec<char>) -> (res: bool)
    ensures
        res == (a@ == b@),
{
    if a.len() != b.len() {
        return false;
    }
    let mut i: usize = 0;
    while i < a.len()
        invariant
            a.len() == b.len(),
            i <= a.len(),
            forall|k: int| 0 <= k < i ==> a@[k] == b@[k],
        decreases a.len() - i,
    {
        if a[i] != b[i] {
            return false;
        }
        i = i + 1;
    }
    assert(a@ =~= b@);
    true
}

fn part_equal(a: &Component, b: &Component) -> (res: bool)
    ensures
        res == (a@ == b@),
{
    match (a, b) {
        (Component::RootDir, Component::RootDir) => true,
        (Component::CurDir, Component::CurDir) => true,
        (Component::ParentDir, Component::ParentDir) => true,
        (Component::Normal(x), Component::Normal(y)) => chars_equal(x, y),
        _ => false,
    }
}

fn part_rank_of(a: &Component) -> (res: u8)
    ensures
        res as int == part_rank(a@),
{
    match a {
        Component::RootDir => 0,
        Component::CurDir => 1,
        Component::ParentDir => 2,
        Component::Normal(_) => 3,
    }
}

fn part_is_less(a: &Component, b: &Component) -> (res: bool)
    ensures
        res == (part_less())(a@, b@),
{
    let ra = part_rank_of(a);
    let rb = part_rank_of(b);
    if ra != rb {
        return ra < rb;
    }
    match (a, b) {
        (Component::Normal(x), Component::Normal(y)) => crate::order::chars_less(x, y),
        _ => false,
    }
}

/// Whether the component list `a` comes before `b`.
pub fn components_less(a: &Vec<Component>, b: &Vec<Component>) -> (res: bool)
    ensures
        res == lex_less(parts_of(a@), parts_of(b@), part_less()),
{
    let ghost pa = parts_of(a@);
    let ghost pb = parts_of(b@);
    let mut i: usize = 0;
    while i < a.len() && i < b.len()
        invariant
            pa == parts_of(a@),
            pb == parts_of(b@),
            i <= a.len(),
            i <= b.len(),
            pa.take(i as int) == pb.take(i as int),
        decreases a.len() - i,
    {
        if !part_equal(&a[i], &b[i]) {
            proof {
                crate::order::lemma_lex_step(pa, pb, part_less(), i as int);
                assert(pa.skip(i as int)[0] == a@[i as int]@);
                assert(pb.skip(i as int)[0] == b@[i as int]@);
            }
            return part_is_less(&a[i], &b[i]);
        }
        assert(pa.take(i + 1) =~= pa.take(i as int).push(pa[i as int]));
        assert(pb.take(i + 1) =~= pb.take(i as int).push(pb[i as int]));
        i = i + 1;
    }
    proof {
        crate::order::lemma_lex_step(pa, pb, part_less(), i as int);
    }
    i < b.len()
}

/// Whether two component lists are equal.
pub fn components_equal(a: &Vec<Component>, b: &Vec<Component>) -> (res: bool)
    ensures
        res == (parts_of(a@) == parts_of(b@)),
{
    if a.len() != b.len() {
        assert(parts_of(a@).len() != parts_of(b@).len());
        return false;
    }
    let mut i: usize = 0;
    while i < a.len()
        invariant
            a.len() == b.len(),
            i <= a.len(),
            forall|k: int| 0 <= k < i ==> a@[k]@ == b@[k]@,
        decreases a.len() - i,
    {
        if !part_equal(&a[i], &b[i]) {
            assert(parts_of(a@)[i as int] != parts_of(b@)[i as int]);
            return false;
        }
        i = i + 1;
    }
    assert(parts_of(a@) =~= parts_of(b@));
    true
}

/// Whether two paths are equal as paths, as `Path`'s `==` answers.
pub fn paths_equal(a: &str, b: &str) -> (res: bool)
    ensures
        res == path_eq(a@, b@),
{
    let ca = components(a);
    let cb = components(b);
    components_equal(&ca, &cb)
}

/// Entries in ascending order of their keys.
pub open spec fn keys_sorted<T>(s: Seq<(Vec<Component>, T)>) -> bool {
    forall|i: int, j: int|
        0 <= i < j < s.len() ==> !lex_less(
            parts_of(#[trigger] s[j].0@),
            parts_of(#[trigger] s[i].0@),
            part_less(),
        )
}

/// The entries whose key is `k`, in order.
pub open spec fn with_key<T>(s: Seq<(Vec<Component>, T)>, k: Seq<PathPart>) -> Seq<(Vec<Component>, T)> {
    s.filter(|p: (Vec<Component>, T)| parts_of(p.0@) == k)
}

proof fn lemma_with_key_insert<T>(
    prev: Seq<(Vec<Component>, T)>,
    pos: int,
    item: (Vec<Component>, T),
    k: Seq<PathPart>,
)
    requires
        0 <= pos <= prev.len(),
        forall|j: int| 0 <= j < pos ==> parts_of(#[trigger] prev[j].0@) != parts_of(item.0@),
    ensures
        with_key(prev.insert(pos, item), k) == with_key(seq![item], k) + with_key(prev, k),
{
    let pred = |p: (Vec<Component>, T)| parts_of(p.0@) == k;
    let front = prev.take(pos);
    let back = prev.skip(pos);
    assert(prev =~= front + back);
    assert(prev.insert(pos, item) =~= front + seq![item] + back);
    Seq::filter_distributes_over_add(front + seq![item], back, pred);
    Seq::filter_distributes_over_add(front, seq![item], pred);
    Seq::filter_distributes_over_add(front, back, pred);
    crate::order::lemma_filter_single(item, pred);
    if parts_of(item.0@) == k {
        assert forall|j: int| 0 <= j < front.len() implies !pred(#[trigger] front[j]) by {
            assert(front[j] == prev[j]);
        }
        crate::order::lemma_filter_none(front, pred);
        assert(with_key(prev.insert(pos, item), k) =~= seq![item] + with_key(back, k));
        assert(with_key(prev, k) =~= with_key(back, k));
    } else {
        assert(with_key(prev.insert(pos, item), k) =~= with_key(front, k) + with_key(back, k));
        assert(with_key(seq![item], k) =~= Seq::<(Vec<Component>, T)>::empty());
    }
}

/// Sorts keyed entries by their component-list keys; entries with equal keys keep
/// their relative order.
pub fn sort_by_components<T>(entries: Vec<(Vec<Component>, T)>) -> (res: Vec<(Vec<Component>, T)>)
    ensures
        res@.to_multiset() == entries@.to_multiset(),
        keys_sorted(res@),
        forall|k: Seq<PathPart>| #[trigger] with_key(res@, k) == with_key(entries@, k),
{
    broadcast use vstd::seq_lib::group_to_multiset_ensures;
    broadcast use vstd::multiset::group_multiset_axioms;

    proof {
        path_order_is_strict_total();
    }
    let ghost less = |a: Seq<PathPart>, b: Seq<PathPart>| lex_less(a, b, part_less());
    let ghost all = entries@;
    let mut rest = entries;
    let mut out: Vec<(Vec<Component>, T)> = Vec::new();
    proof {
        assert forall|k: Seq<PathPart>| #[trigger] with_key(out@, k) == with_key(all.skip(all.len() as int), k) by {
            assert(all.skip(all.len() as int) =~= out@);
        }
    }
    while rest.len() > 0
        invariant
            is_strict_total(less),
            less == (|a: Seq<PathPart>, b: Seq<PathPart>| lex_less(a, b, part_less())),
            rest@.to_multiset().add(out@.to_multiset()) == all.to_multiset(),
            keys_sorted(out@),
            rest@.len() <= all.len(),
            rest@ == all.take(rest@.len() as int),
            forall|k: Seq<PathPart>| #[trigger] with_key(out@, k) == with_key(all.skip(rest@.len() as int), k),
        decreases rest.len(),
    {
        let ghost before_rest = rest@;
        let item = rest.pop().unwrap();
        assert(before_rest == rest@.push(item));
        let mut pos: usize = 0;
        while pos < out.len() && components_less(&out[pos].0, &item.0)
            invariant
                pos <= out.len(),
                forall|k: int| 0 <= k < pos ==> lex_less(parts_of(#[trigger] out@[k].0@), parts_of(item.0@), part_less()),
            decreases out.len() - pos,
        {
            pos = pos + 1;
        }
        let ghost key = parts_of(item.0@);
        let ghost prev = out@;
        proof {
            assert forall|k: int| 0 <= k < pos implies !less(key, parts_of(#[trigger] prev[k].0@)) by {
                assert(less(parts_of(prev[k].0@), key));
                if less(key, parts_of(prev[k].0@)) {
                    assert(less(key, key));
                }
            }
            assert forall|k: int| pos <= k < prev.len() implies !less(parts_of(#[trigger] prev[k].0@), key) by {
                assert(!less(parts_of(prev[pos as int].0@), key));
                if k > pos {
                    assert(!less(parts_of(prev[k].0@), parts_of(prev[pos as int].0@)));
                    if less(parts_of(prev[k].0@), key) {
                        if parts_of(prev[pos as int].0@) == parts_of(prev[k].0@) {
                        } else {
                            assert(less(parts_of(prev[pos as int].0@), parts_of(prev[k].0@)));
                            assert(less(parts_of(prev[pos as int].0@), key));
                        }
                    }
                }
            }
        }
        out.insert(pos, item);
        proof {
            assert(out@ == prev.insert(pos as int, item));
            let n = before_rest.len();
            assert(item == all[n - 1]);
            assert(rest@ =~= all.take(n - 1));
            assert(all.skip(n - 1) =~= seq![item] + all.skip(n as int));
            assert forall|j: int| 0 <= j < pos implies parts_of(#[trigger] prev[j].0@) != key by {
                assert(less(parts_of(prev[j].0@), key));
                if parts_of(prev[j].0@) == key {
                    assert(less(key, key));
                }
            }
            assert forall|k: Seq<PathPart>| #[trigger] with_key(out@, k) == with_key(all.skip(rest@.len() as int), k) by {
                lemma_with_key_insert(prev, pos as int, item, k);
                Seq::filter_distributes_over_add(seq![item], all.skip(n as int), |p: (Vec<Component>, T)| parts_of(p.0@) == k);
            }
            assert forall|i: int, j: int| 0 <= i < j < out@.len() implies !lex_less(
                parts_of(#[trigger] out@[j].0@),
                parts_of(#[trigger] out@[i].0@),
                part_less(),
            ) by {
                if j < pos {
                    assert(out@[i] == prev[i] && out@[j] == prev[j]);
                } else if j == pos {
                    assert(out@[i] == prev[i]);
                } else if i == pos {
                    assert(out@[j] == prev[j - 1]);
                } else if i < pos {
                    assert(out@[i] == prev[i] && out@[j] == prev[j - 1]);
                } else {
                    assert(out@[i] == prev[i - 1] && out@[j] == prev[j - 1]);
                }
            }
            vstd::seq_lib::to_multiset_build(rest@, item);
            vstd::seq_lib::to_multiset_insert(prev, pos as int, item);
            assert(before_rest.to_multiset() == rest@.to_multiset().insert(item));
            assert(out@.to_multiset() == prev.to_multiset().insert(item));
            assert(rest@.to_multiset().add(out@.to_multiset()) =~= before_rest.to_multiset().add(
                prev.to_multiset(),
            ));
        }
    }
    proof {
        assert(rest@.to_multiset() =~= vstd::multiset::Multiset::empty());
        assert(out@.to_multiset() =~= vstd::multiset::Multiset::empty().add(out@.to_multiset()));
        assert(all.skip(0) =~= all);
    }
    out
}

} // verus!
