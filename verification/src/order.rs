use vstd::prelude::*;

use crate::seqs::{lex_lt, lex_lt_exec};

verus! {

/// First position at or after `p` in `s` whose key is greater than `k`
/// (or the length): where an element with key `k` goes so that it follows
/// every element with a key not greater than its own.
pub open spec fn upper<V>(s: Seq<V>, key: spec_fn(V) -> Seq<char>, k: Seq<char>, p: nat) -> nat
    decreases s.len() - p,
{
    if p >= s.len() || lex_lt(k, key(s[p as int])) {
        p
    } else {
        upper(s, key, k, p + 1)
    }
}

/// The stable sort of `s` by `key` (ascending, lexicographic), defined by
/// inserting each element, in order, after all elements whose key is not
/// greater than its own.
pub open spec fn sorted_by<V>(s: Seq<V>, key: spec_fn(V) -> Seq<char>) -> Seq<V>
    decreases s.len(),
{
    if s.len() == 0 {
        Seq::empty()
    } else {
        let t = sorted_by(s.drop_last(), key);
        t.insert(upper(t, key, key(s.last()), 0) as int, s.last())
    }
}

/// The views of a sequence of values.
pub open spec fn views_of<T: View>(s: Seq<T>) -> Seq<T::V> {
    s.map_values(|t: T| t@)
}

/// Sorts `items` stably by the given keys (`keys[i]` is the key of `items[i]`).
pub fn stable_sort_by_keys<T: View>(
    items: Vec<T>,
    keys: Vec<Vec<char>>,
    Ghost(key): Ghost<spec_fn(T::V) -> Seq<char>>,
) -> (r: Vec<T>)
    requires
        items.len() == keys.len(),
        forall|j: int| 0 <= j < items.len() ==> (#[trigger] keys@[j])@ == key(items@[j]@),
    ensures
        views_of(r@) == sorted_by(views_of(items@), key),
{
    let ghost orig = views_of(items@);
    let mut items = items;
    let mut keys = keys;
    let mut out: Vec<T> = Vec::new();
    let mut out_keys: Vec<Vec<char>> = Vec::new();
    let ghost mut taken: int = 0;
    assert(views_of(out@) =~= sorted_by(orig.take(0), key));
    assert(views_of(items@) =~= orig.skip(0));
    while items.len() > 0
        invariant
            0 <= taken <= orig.len(),
            items.len() == keys.len(),
            items.len() + taken == orig.len(),
            views_of(items@) == orig.skip(taken),
            forall|j: int| 0 <= j < items.len() ==> (#[trigger] keys@[j])@ == key(items@[j]@),
            out.len() == out_keys.len(),
            forall|j: int| 0 <= j < out.len() ==> (#[trigger] out_keys@[j])@ == key(out@[j]@),
            views_of(out@) == sorted_by(orig.take(taken), key),
        decreases items.len(),
    {
        let ghost rest = items@;
        let ghost rest_keys = keys@;
        let x = items.remove(0);
        let k = keys.remove(0);
        assert(views_of(rest)[0] == rest[0]@);
        assert(orig.skip(taken)[0] == orig[taken]);
        assert(x@ == orig[taken]);
        assert(k@ == key(x@));
        let ghost t = views_of(out@);
        let mut p: usize = 0;
        while p < out_keys.len() && !lex_lt_exec(&k, &out_keys[p])
            invariant
                p <= out_keys.len(),
                out.len() == out_keys.len(),
                t == views_of(out@),
                forall|j: int| 0 <= j < out.len() ==> (#[trigger] out_keys@[j])@ == key(out@[j]@),
                upper(t, key, k@, 0) == upper(t, key, k@, p as nat),
            decreases out_keys.len() - p,
        {
            p = p + 1;
        }
        assert(upper(t, key, k@, p as nat) == p);
        let ghost old_keys = out_keys@;
        out.insert(p, x);
        out_keys.insert(p, k);
        assert(views_of(out@) =~= t.insert(p as int, x@));
        proof {
            assert(orig.take(taken + 1).drop_last() =~= orig.take(taken));
            assert(orig.take(taken + 1).last() == orig[taken]);
            assert forall|j: int| 0 <= j < out.len() implies (#[trigger] out_keys@[j])@ == key(
                out@[j]@,
            ) by {
                if j < p {
                    assert(out_keys@[j] == old_keys[j]);
                } else if j > p {
                    assert(out_keys@[j] == old_keys[j - 1]);
                }
            }
            assert forall|j: int| 0 <= j < items.len() implies (#[trigger] keys@[j])@ == key(
                items@[j]@,
            ) by {
                assert(keys@[j] == rest_keys[j + 1]);
                assert(items@[j] == rest[j + 1]);
            }
            assert forall|j: int| 0 <= j < items.len() implies views_of(items@)[j] == orig.skip(
                taken + 1,
            )[j] by {
                assert(items@[j] == rest[j + 1]);
                assert(views_of(rest)[j + 1] == rest[j + 1]@);
                assert(orig.skip(taken)[j + 1] == orig[taken + 1 + j]);
            }
            assert(views_of(items@) =~= orig.skip(taken + 1));
            taken = taken + 1;
        }
    }
    assert(orig.take(taken) =~= orig);
    out
}

// ---------------------------------------------------------------------
// Laws of the order and of the sort
// ---------------------------------------------------------------------

/// No string comes before itself.
pub proof fn lemma_lex_irreflexive(a: Seq<char>)
    ensures
        !lex_lt(a, a),
    decreases a.len(),
{
    if a.len() > 0 {
        lemma_lex_irreflexive(a.drop_first());
    }
}

/// The order is transitive.
pub proof fn lemma_lex_transitive(a: Seq<char>, b: Seq<char>, c: Seq<char>)
    requires
        lex_lt(a, b),
        lex_lt(b, c),
    ensures
        lex_lt(a, c),
    decreases a.len(),
{
    if a.len() > 0 && b.len() > 0 && c.len() > 0 && a[0] == b[0] && b[0] == c[0] {
        lemma_lex_transitive(a.drop_first(), b.drop_first(), c.drop_first());
    }
}

/// Of two different strings, one comes before the other.
pub proof fn lemma_lex_total(a: Seq<char>, b: Seq<char>)
    requires
        a != b,
    ensures
        lex_lt(a, b) || lex_lt(b, a),
    decreases a.len(),
{
    if a.len() > 0 && b.len() > 0 {
        if a[0] == b[0] {
            if a.drop_first() == b.drop_first() {
                assert(a =~= seq![a[0]] + a.drop_first());
                assert(b =~= seq![b[0]] + b.drop_first());
            } else {
                lemma_lex_total(a.drop_first(), b.drop_first());
                assert(lex_lt(a, b) == lex_lt(a.drop_first(), b.drop_first()));
                assert(lex_lt(b, a) == lex_lt(b.drop_first(), a.drop_first()));
            }
        } else {
            let (x, y) = (a[0], b[0]);
            vstd::utf8::char_u32_cast(x, x as u32);
            vstd::utf8::char_u32_cast(y, y as u32);
            assert((x as u32) != (y as u32));
            assert(lex_lt(a, b) == ((x as u32) < (y as u32)));
            assert(lex_lt(b, a) == ((y as u32) < (x as u32)));
        }
    } else if a.len() == 0 && b.len() == 0 {
        assert(a =~= b);
    }
}

/// Ascending by key: no element's key comes before the key of an element
/// ahead of it.
pub open spec fn is_sorted_by<V>(s: Seq<V>, key: spec_fn(V) -> Seq<char>) -> bool {
    forall|i: int, j: int| 0 <= i < j < s.len() ==> !lex_lt(key(#[trigger] s[j]), key(#[trigger] s[i]))
}

/// Where `upper` stops: every key it passes is not greater than `k`, and the
/// key it stops at (if any) is.
proof fn lemma_upper<V>(s: Seq<V>, key: spec_fn(V) -> Seq<char>, k: Seq<char>, p: nat)
    requires
        p <= s.len(),
    ensures
        p <= upper(s, key, k, p) <= s.len(),
        forall|i: int| p <= i < upper(s, key, k, p) ==> !lex_lt(k, key(#[trigger] s[i])),
        upper(s, key, k, p) < s.len() ==> lex_lt(k, key(s[upper(s, key, k, p) as int])),
    decreases s.len() - p,
{
    if p < s.len() && !lex_lt(k, key(s[p as int])) {
        lemma_upper(s, key, k, p + 1);
    }
}

/// The sort orders its result by key and rearranges the input without
/// adding, dropping or changing an element.
pub proof fn lemma_sorted_by<V>(s: Seq<V>, key: spec_fn(V) -> Seq<char>)
    ensures
        is_sorted_by(sorted_by(s, key), key),
        sorted_by(s, key).to_multiset() == s.to_multiset(),
        sorted_by(s, key).len() == s.len(),
    decreases s.len(),
{
    broadcast use vstd::seq_lib::group_to_multiset_ensures;

    if s.len() > 0 {
        let t = sorted_by(s.drop_last(), key);
        let x = s.last();
        let k = key(x);
        lemma_sorted_by(s.drop_last(), key);
        lemma_upper(t, key, k, 0);
        let u = upper(t, key, k, 0) as int;
        let r = t.insert(u, x);
        assert(r == sorted_by(s, key));
        t.insert_ensures(u, x);
        assert forall|i: int, j: int| 0 <= i < j < r.len() implies !lex_lt(
            key(#[trigger] r[j]),
            key(#[trigger] r[i]),
        ) by {
            if j < u {
                assert(r[i] == t[i] && r[j] == t[j]);
            } else if j == u {
                assert(r[i] == t[i]);
            } else if i < u {
                assert(r[i] == t[i] && r[j] == t[j - 1]);
            } else if i == u {
                assert(r[j] == t[j - 1]);
                assert(lex_lt(k, key(t[u])));
                if j - 1 > u {
                    assert(!lex_lt(key(t[j - 1]), key(t[u])));
                } else {
                    lemma_lex_irreflexive(key(t[u]));
                }
                if lex_lt(key(t[j - 1]), k) {
                    lemma_lex_transitive(key(t[j - 1]), k, key(t[u]));
                }
            } else {
                assert(r[i] == t[i - 1] && r[j] == t[j - 1]);
            }
        }
        vstd::seq_lib::to_multiset_insert(t, u, x);
        assert(s =~= s.drop_last().push(x));
    }
}

} // verus!
