use vstd::prelude::*;

verus! {

/// Lexicographic order on sequences, over a strict order on their elements:
/// a proper prefix comes first.
pub open spec fn lex_less<T>(a: Seq<T>, b: Seq<T>, less: spec_fn(T, T) -> bool) -> bool
    decreases a.len(),
{
    if a.len() == 0 {
        b.len() > 0
    } else if b.len() == 0 {
        false
    } else if a[0] == b[0] {
        lex_less(a.drop_first(), b.drop_first(), less)
    } else {
        less(a[0], b[0])
    }
}

/// `less` is a strict total order: irreflexive, transitive, and any two distinct
/// values are comparable.
pub open spec fn is_strict_total<T>(less: spec_fn(T, T) -> bool) -> bool {
    &&& forall|x: T| !#[trigger] less(x, x)
    &&& forall|x: T, y: T, z: T| #[trigger] less(x, y) && #[trigger] less(y, z) ==> less(x, z)
    &&& forall|x: T, y: T| x != y ==> #[trigger] less(x, y) || #[trigger] less(y, x)
}

/// The order of characters by code point, which for UTF-8 text is also the byte order.
pub open spec fn char_less() -> spec_fn(char, char) -> bool {
    |x: char, y: char| x < y
}

proof fn lemma_lex_irreflexive<T>(a: Seq<T>, less: spec_fn(T, T) -> bool)
    requires
        is_strict_total(less),
    ensures
        !lex_less(a, a, less),
    decreases a.len(),
{
    if a.len() > 0 {
        lemma_lex_irreflexive(a.drop_first(), less);
    }
}

proof fn lemma_lex_transitive<T>(a: Seq<T>, b: Seq<T>, c: Seq<T>, less: spec_fn(T, T) -> bool)
    requires
        is_strict_total(less),
        lex_less(a, b, less),
        lex_less(b, c, less),
    ensures
        lex_less(a, c, less),
    decreases a.len(),
{
    if a.len() > 0 && b.len() > 0 && c.len() > 0 {
        if a[0] == b[0] && b[0] == c[0] {
            lemma_lex_transitive(a.drop_first(), b.drop_first(), c.drop_first(), less);
        } else if a[0] == b[0] {
            assert(less(b[0], c[0]));
        } else if b[0] == c[0] {
            assert(less(a[0], b[0]));
        } else {
            assert(less(a[0], b[0]) && less(b[0], c[0]));
            if a[0] == c[0] {
                assert(less(a[0], a[0]));
            }
        }
    }
}

proof fn lemma_lex_total<T>(a: Seq<T>, b: Seq<T>, less: spec_fn(T, T) -> bool)
    requires
        is_strict_total(less),
        a != b,
    ensures
        lex_less(a, b, less) || lex_less(b, a, less),
    decreases a.len(),
{
    if a.len() == 0 {
        assert(b.len() > 0) by {
            if b.len() == 0 {
                assert(a =~= b);
            }
        }
    } else if b.len() > 0 {
        if a[0] == b[0] {
            assert(a.drop_first() != b.drop_first()) by {
                if a.drop_first() =~= b.drop_first() {
                    assert(a =~= b) by {
                        assert(a =~= seq![a[0]] + a.drop_first());
                        assert(b =~= seq![b[0]] + b.drop_first());
                    }
                }
            }
            lemma_lex_total(a.drop_first(), b.drop_first(), less);
        } else {
            assert(less(a[0], b[0]) || less(b[0], a[0]));
        }
    }
}

/// The lexicographic order over a strict total order is itself a strict total order.
pub proof fn lex_less_is_strict_total<T>(less: spec_fn(T, T) -> bool)
    requires
        is_strict_total(less),
    ensures
        is_strict_total(|a: Seq<T>, b: Seq<T>| lex_less(a, b, less)),
{
    let lex = |a: Seq<T>, b: Seq<T>| lex_less(a, b, less);
    assert forall|x: Seq<T>| !#[trigger] lex(x, x) by {
        lemma_lex_irreflexive(x, less);
    }
    assert forall|x: Seq<T>, y: Seq<T>, z: Seq<T>| #[trigger] lex(x, y) && #[trigger] lex(y, z) implies lex(
        x,
        z,
    ) by {
        lemma_lex_transitive(x, y, z, less);
    }
    assert forall|x: Seq<T>, y: Seq<T>| x != y implies #[trigger] lex(x, y) || #[trigger] lex(y, x) by {
        lemma_lex_total(x, y, less);
    }
}

/// The character order is a strict total order.
pub proof fn char_less_is_strict_total()
    ensures
        is_strict_total(char_less()),
{
}

/// Whether `a` comes before `b` in the lexicographic order over `less`, for two
/// sequences that share their first `i` elements.
pub proof fn lemma_lex_step<T>(a: Seq<T>, b: Seq<T>, less: spec_fn(T, T) -> bool, i: int)
    requires
        0 <= i <= a.len(),
        0 <= i <= b.len(),
        a.take(i) == b.take(i),
    ensures
        lex_less(a, b, less) == lex_less(a.skip(i), b.skip(i), less),
    decreases i,
{
    if i > 0 {
        assert(a[0] == a.take(i)[0]);
        assert(b[0] == b.take(i)[0]);
        assert(a.drop_first().take(i - 1) =~= a.take(i).drop_first());
        assert(b.drop_first().take(i - 1) =~= b.take(i).drop_first());
        lemma_lex_step(a.drop_first(), b.drop_first(), less, i - 1);
        assert(a.drop_first().skip(i - 1) =~= a.skip(i));
        assert(b.drop_first().skip(i - 1) =~= b.skip(i));
    } else {
        assert(a.skip(0) =~= a);
        assert(b.skip(0) =~= b);
    }
}

/// Whether `a` comes before `b` in code point order, as `<` on strings answers.
pub fn chars_less(a: &Vec<char>, b: &Vec<char>) -> (res: bool)
    ensures
        res == lex_less(a@, b@, char_less()),
{
    let mut i: usize = 0;
    while i < a.len() && i < b.len()
        invariant
            i <= a.len(),
            i <= b.len(),
            a@.take(i as int) == b@.take(i as int),
        decreases a.len() - i,
    {
        if a[i] != b[i] {
            proof {
                lemma_lex_step(a@, b@, char_less(), i as int);
            }
            return a[i] < b[i];
        }
        assert(a@.take(i + 1) =~= a@.take(i as int).push(a@[i as int]));
        assert(b@.take(i + 1) =~= b@.take(i as int).push(b@[i as int]));
        i = i + 1;
    }
    proof {
        lemma_lex_step(a@, b@, char_less(), i as int);
    }
    i < b.len()
}

/// Filtering and then mapping gives what mapping and then filtering by the matching
/// predicate gives.
pub proof fn lemma_filter_map_commute<A, B>(
    s: Seq<A>,
    f: spec_fn(A) -> B,
    p: spec_fn(A) -> bool,
    q: spec_fn(B) -> bool,
)
    requires
        forall|i: int| 0 <= i < s.len() ==> p(#[trigger] s[i]) == q(f(s[i])),
    ensures
        s.filter(p).map_values(f) == s.map_values(f).filter(q),
    decreases s.len(),
{
    reveal(Seq::filter);
    if s.len() == 0 {
        assert(s.filter(p) =~= Seq::<A>::empty());
        assert(s.map_values(f) =~= Seq::<B>::empty());
        assert(s.map_values(f).filter(q) =~= Seq::<B>::empty());
        assert(s.filter(p).map_values(f) =~= Seq::<B>::empty());
    } else {
        assert forall|i: int| 0 <= i < s.drop_last().len() implies p(#[trigger] s.drop_last()[i]) == q(
            f(s.drop_last()[i]),
        ) by {
            assert(s.drop_last()[i] == s[i]);
        }
        lemma_filter_map_commute(s.drop_last(), f, p, q);
        let m = s.map_values(f);
        assert(m.drop_last() =~= s.drop_last().map_values(f));
        assert(m.last() == f(s.last()));
        assert(p(s[s.len() - 1]) == q(f(s[s.len() - 1])));
        if p(s.last()) {
            assert(s.filter(p) == s.drop_last().filter(p).push(s.last()));
            assert(s.filter(p).map_values(f) =~= s.drop_last().filter(p).map_values(f).push(f(s.last())));
        } else {
            assert(s.filter(p) == s.drop_last().filter(p));
        }
    }
}

/// A filter that keeps none of the elements gives the empty sequence.
pub proof fn lemma_filter_none<A>(s: Seq<A>, p: spec_fn(A) -> bool)
    requires
        forall|i: int| 0 <= i < s.len() ==> !p(#[trigger] s[i]),
    ensures
        s.filter(p) == Seq::<A>::empty(),
    decreases s.len(),
{
    reveal(Seq::filter);
    if s.len() == 0 {
        assert(s.filter(p) =~= Seq::<A>::empty());
    } else {
        assert forall|i: int| 0 <= i < s.drop_last().len() implies !p(#[trigger] s.drop_last()[i]) by {
            assert(s.drop_last()[i] == s[i]);
        }
        lemma_filter_none(s.drop_last(), p);
        assert(!p(s[s.len() - 1]));
    }
}

/// Filtering one element keeps it exactly when it satisfies the predicate.
pub proof fn lemma_filter_single<A>(x: A, p: spec_fn(A) -> bool)
    ensures
        seq![x].filter(p) == (if p(x) { seq![x] } else { Seq::<A>::empty() }),
{
    reveal_with_fuel(Seq::filter, 2);
    assert(seq![x].drop_last() =~= Seq::<A>::empty());
    assert(seq![x].drop_last().filter(p) =~= Seq::<A>::empty());
    if p(x) {
        assert(seq![x].filter(p) =~= Seq::<A>::empty().push(x));
    }
}

/// Two sequences that hold the same elements, counted with multiplicity, still do once
/// each element is mapped through `f`.
pub proof fn lemma_map_keeps_permutation<A, B>(s1: Seq<A>, s2: Seq<A>, f: spec_fn(A) -> B)
    requires
        s1.to_multiset() == s2.to_multiset(),
    ensures
        s1.map_values(f).to_multiset() == s2.map_values(f).to_multiset(),
    decreases s1.len(),
{
    broadcast use vstd::seq_lib::group_to_multiset_ensures;
    broadcast use vstd::multiset::group_multiset_axioms;

    if s1.len() == 0 {
        assert(s2.len() == 0) by {
            vstd::seq_lib::to_multiset_len(s1);
            vstd::seq_lib::to_multiset_len(s2);
        }
        assert(s1.map_values(f) =~= s2.map_values(f));
    } else {
        let x = s1.last();
        let init = s1.drop_last();
        assert(s1 =~= init.push(x));
        vstd::seq_lib::to_multiset_build(init, x);
        assert(s2.to_multiset().count(x) > 0);
        vstd::seq_lib::to_multiset_contains(s2, x);
        let j = choose|j: int| 0 <= j < s2.len() && s2[j] == x;
        vstd::seq_lib::to_multiset_remove(s2, j);
        assert(s2.remove(j).to_multiset() =~= init.to_multiset());
        lemma_map_keeps_permutation(init, s2.remove(j), f);
        let m1 = s1.map_values(f);
        let m2 = s2.map_values(f);
        assert(m1 =~= init.map_values(f).push(f(x)));
        vstd::seq_lib::to_multiset_build(init.map_values(f), f(x));
        assert(m2.remove(j) =~= s2.remove(j).map_values(f));
        vstd::seq_lib::to_multiset_remove(m2, j);
        assert(m2[j] == f(x));
        vstd::seq_lib::to_multiset_contains(m2, f(x));
        assert(m2.contains(f(x)));
        assert(m2.to_multiset() =~= m2.to_multiset().remove(f(x)).insert(f(x)));
    }
}

} // verus!
