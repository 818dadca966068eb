use vstd::prelude::*;

verus! {

/// The elements of `s` that satisfy `p`, in their order.
pub open spec fn keep<A>(s: Seq<A>, p: spec_fn(A) -> bool) -> Seq<A>
    decreases s.len(),
{
    if s.len() == 0 {
        Seq::empty()
    } else if p(s.last()) {
        keep(s.drop_last(), p).push(s.last())
    } else {
        keep(s.drop_last(), p)
    }
}

/// The elements of `s` whose mark in `m` is set, in their order.
pub open spec fn select<A>(s: Seq<A>, m: Seq<bool>) -> Seq<A>
    decreases s.len(),
{
    if s.len() == 0 {
        Seq::empty()
    } else if m[s.len() - 1] {
        select(s.drop_last(), m).push(s.last())
    } else {
        select(s.drop_last(), m)
    }
}

/// Marks computed by `p` select exactly what `p` keeps.
pub proof fn lemma_select_keep<A>(s: Seq<A>, m: Seq<bool>, p: spec_fn(A) -> bool)
    requires
        m.len() >= s.len(),
        forall|i: int| 0 <= i < s.len() ==> m[i] == p(s[i]),
    ensures
        select(s, m) == keep(s, p),
    decreases s.len(),
{
    if s.len() > 0 {
        lemma_select_keep(s.drop_last(), m, p);
    }
}

/// `keep` of a prefix extended by one element.
pub proof fn lemma_keep_push<A>(s: Seq<A>, x: A, p: spec_fn(A) -> bool)
    ensures
        keep(s.push(x), p) == if p(x) { keep(s, p).push(x) } else { keep(s, p) },
{
    assert(s.push(x).drop_last() =~= s);
}

/// `select` of a prefix extended by one element.
pub proof fn lemma_select_take<A>(s: Seq<A>, m: Seq<bool>, i: int)
    requires
        0 <= i < s.len(),
        m.len() >= s.len(),
    ensures
        select(s.take(i + 1), m) == if m[i] {
            select(s.take(i), m).push(s[i])
        } else {
            select(s.take(i), m)
        },
{
    assert(s.take(i + 1).drop_last() =~= s.take(i));
}

/// Every kept element satisfies the predicate and occurs in the input.
pub proof fn lemma_keep_sound<A>(s: Seq<A>, p: spec_fn(A) -> bool)
    ensures
        forall|i: int| 0 <= i < keep(s, p).len() ==> p(#[trigger] keep(s, p)[i]),
        forall|i: int| 0 <= i < keep(s, p).len() ==> s.contains(#[trigger] keep(s, p)[i]),
        keep(s, p).len() <= s.len(),
    decreases s.len(),
{
    if s.len() > 0 {
        lemma_keep_sound(s.drop_last(), p);
        let k = keep(s.drop_last(), p);
        assert forall|i: int| 0 <= i < keep(s, p).len() implies s.contains(
            #[trigger] keep(s, p)[i],
        ) by {
            if i < k.len() {
                let j = choose|j: int| 0 <= j < s.drop_last().len() && s.drop_last()[j] == k[i];
                assert(s[j] == k[i]);
            } else {
                assert(s[s.len() - 1] == s.last());
            }
        }
    }
}

/// Strict lexicographic order on character sequences, by code point.
pub open spec fn lex_lt(a: Seq<char>, b: Seq<char>) -> bool
    decreases a.len(),
{
    if a.len() == 0 {
        b.len() > 0
    } else if b.len() == 0 {
        false
    } else if a[0] != b[0] {
        (a[0] as u32) < (b[0] as u32)
    } else {
        lex_lt(a.drop_first(), b.drop_first())
    }
}

/// Lexicographic order of two strings given as characters (what `<` on `String` decides).
pub fn lex_lt_exec(a: &Vec<char>, b: &Vec<char>) -> (r: bool)
    ensures
        r == lex_lt(a@, b@),
{
    let mut i: usize = 0;
    assert(a@.skip(0) =~= a@);
    assert(b@.skip(0) =~= b@);
    loop
        invariant
            i <= a.len(),
            i <= b.len(),
            lex_lt(a@, b@) == lex_lt(a@.skip(i as int), b@.skip(i as int)),
        decreases a.len() - i,
    {
        if i == a.len() {
            return i < b.len();
        }
        if i == b.len() {
            return false;
        }
        if a[i] != b[i] {
            return (a[i] as u32) < (b[i] as u32);
        }
        assert(a@.skip(i as int).drop_first() =~= a@.skip(i + 1));
        assert(b@.skip(i as int).drop_first() =~= b@.skip(i + 1));
        i = i + 1;
    }
}

/// What holds of every element of `s` holds of every kept element, and every
/// kept element satisfies the predicate.
pub proof fn lemma_keep_inv<A>(s: Seq<A>, p: spec_fn(A) -> bool, inv: spec_fn(A) -> bool)
    requires
        forall|i: int| 0 <= i < s.len() ==> inv(#[trigger] s[i]),
    ensures
        forall|i: int|
            0 <= i < keep(s, p).len() ==> inv(#[trigger] keep(s, p)[i]) && p(keep(s, p)[i]),
{
    lemma_keep_sound(s, p);
    assert forall|i: int| 0 <= i < keep(s, p).len() implies inv(#[trigger] keep(s, p)[i]) by {
        let j = choose|j: int| 0 <= j < s.len() && s[j] == keep(s, p)[i];
        assert(inv(s[j]));
    }
}

/// What holds of every element of two sequences holds of every element of
/// their concatenation.
pub proof fn lemma_concat_inv<A>(a: Seq<A>, b: Seq<A>, inv: spec_fn(A) -> bool)
    requires
        forall|i: int| 0 <= i < a.len() ==> inv(#[trigger] a[i]),
        forall|i: int| 0 <= i < b.len() ==> inv(#[trigger] b[i]),
    ensures
        forall|i: int| 0 <= i < (a + b).len() ==> inv(#[trigger] (a + b)[i]),
{
    assert forall|i: int| 0 <= i < (a + b).len() implies inv(#[trigger] (a + b)[i]) by {
        if i < a.len() {
            assert((a + b)[i] == a[i]);
        } else {
            assert((a + b)[i] == b[i - a.len()]);
        }
    }
}

/// What holds of every element of `t` holds of every element of a
/// rearrangement of `t`.
pub proof fn lemma_perm_inv<A>(s: Seq<A>, t: Seq<A>, inv: spec_fn(A) -> bool)
    requires
        s.to_multiset() == t.to_multiset(),
        forall|i: int| 0 <= i < t.len() ==> inv(#[trigger] t[i]),
    ensures
        forall|i: int| 0 <= i < s.len() ==> inv(#[trigger] s[i]),
{
    broadcast use vstd::seq_lib::group_to_multiset_ensures;

    assert forall|i: int| 0 <= i < s.len() implies inv(#[trigger] s[i]) by {
        assert(s.contains(s[i]));
        assert(s.to_multiset().count(s[i]) > 0);
        assert(t.contains(s[i]));
        let j = choose|j: int| 0 <= j < t.len() && t[j] == s[i];
        assert(inv(t[j]));
    }
}

/// An element that satisfies the predicate is kept.
pub proof fn lemma_keep_contains<A>(s: Seq<A>, p: spec_fn(A) -> bool, x: A)
    requires
        s.contains(x),
        p(x),
    ensures
        keep(s, p).contains(x),
    decreases s.len(),
{
    if s.last() == x {
        assert(keep(s, p).last() == x);
        assert(keep(s, p)[keep(s, p).len() - 1] == x);
    } else {
        let i = choose|i: int| 0 <= i < s.len() && s[i] == x;
        assert(s.drop_last()[i] == x);
        lemma_keep_contains(s.drop_last(), p, x);
        let k = keep(s.drop_last(), p);
        let j = choose|j: int| 0 <= j < k.len() && k[j] == x;
        assert(keep(s, p)[j] == x);
    }
}

} // verus!
