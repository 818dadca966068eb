use vstd::prelude::*;

use crate::models::{card_views, CardView, MemberView, TrelloCard};
use crate::stats::{count_key, distinct_keys, lemma_distinct_keys, lemma_sum_distinct, list_key, sum_counts};
use crate::text::{chars_of, seq_eq, string_of};

verus! {

// ---------------------------------------------------------------------
// Cards grouped for time statistics
// ---------------------------------------------------------------------

/// A group of cards sharing a member or a list: its name and the positions of
/// its cards (a card counted once for each of its entries).
pub struct TimeGroup {
    pub name: String,
    pub cards: Vec<usize>,
}

pub struct TimeGroupView {
    pub name: Seq<char>,
    pub cards: Seq<usize>,
}

impl View for TimeGroup {
    type V = TimeGroupView;

    open spec fn view(&self) -> TimeGroupView {
        TimeGroupView { name: self.name@, cards: self.cards@ }
    }
}

/// The values of a sequence of groups.
pub open spec fn group_views(s: Seq<TimeGroup>) -> Seq<TimeGroupView> {
    s.map_values(|g: TimeGroup| g@)
}

/// The positions of the entries whose key is `k`, in order.
pub open spec fn positions_for(keys: Seq<Seq<char>>, pos: Seq<usize>, k: Seq<char>) -> Seq<usize>
    decreases keys.len(),
{
    if keys.len() == 0 {
        Seq::empty()
    } else {
        let r = positions_for(keys.drop_last(), pos, k);
        if keys.last() == k {
            r.push(pos[keys.len() - 1])
        } else {
            r
        }
    }
}

/// The entries (key `keys[i]`, position `pos[i]`) grouped by key, in order of
/// first appearance, each group with the positions of its entries.
pub open spec fn time_groups(keys: Seq<Seq<char>>, pos: Seq<usize>) -> Seq<TimeGroupView> {
    distinct_keys(keys).map_values(
        |k: Seq<char>| TimeGroupView { name: k, cards: positions_for(keys, pos, k) },
    )
}

/// The positions of one key, over a prefix extended by one entry.
proof fn lemma_positions_step(keys: Seq<Seq<char>>, pos: Seq<usize>, i: int, k: Seq<char>)
    requires
        0 <= i < keys.len(),
    ensures
        positions_for(keys.take(i + 1), pos, k) == if keys[i] == k {
            positions_for(keys.take(i), pos, k).push(pos[i])
        } else {
            positions_for(keys.take(i), pos, k)
        },
{
    assert(keys.take(i + 1).drop_last() =~= keys.take(i));
}

/// A key that does not occur has no positions.
proof fn lemma_positions_absent(keys: Seq<Seq<char>>, pos: Seq<usize>, k: Seq<char>)
    requires
        !keys.contains(k),
    ensures
        positions_for(keys, pos, k) == Seq::<usize>::empty(),
    decreases keys.len(),
{
    if keys.len() > 0 {
        assert(keys.last() != k) by {
            assert(keys[keys.len() - 1] == keys.last());
        }
        assert(!keys.drop_last().contains(k)) by {
            if keys.drop_last().contains(k) {
                let i = choose|i: int| 0 <= i < keys.drop_last().len() && keys.drop_last()[i] == k;
                assert(keys[i] == k);
            }
        }
        lemma_positions_absent(keys.drop_last(), pos, k);
    }
}

/// Groups entries by key, in order of first appearance; see `time_groups`.
pub fn group_positions(keys: &Vec<Vec<char>>, pos: &Vec<usize>) -> (r: Vec<TimeGroup>)
    requires
        keys.len() == pos.len(),
    ensures
        group_views(r@) == time_groups(keys@.map_values(|k: Vec<char>| k@), pos@),
{
    let ghost ks = keys@.map_values(|k: Vec<char>| k@);
    let mut names: Vec<Vec<char>> = Vec::new();
    let mut out: Vec<TimeGroup> = Vec::new();
    let mut i: usize = 0;
    assert(ks.take(0) =~= Seq::<Seq<char>>::empty());
    assert(group_views(out@) =~= time_groups(ks.take(0), pos@));
    while i < keys.len()
        invariant
            i <= keys.len(),
            keys.len() == pos.len(),
            ks == keys@.map_values(|k: Vec<char>| k@),
            names.len() == out.len(),
            forall|j: int| 0 <= j < names.len() ==> (#[trigger] names@[j])@ == out@[j].name@,
            group_views(out@) == time_groups(ks.take(i as int), pos@),
        decreases keys.len() - i,
    {
        let ghost pre = ks.take(i as int);
        let ghost post = ks.take(i + 1);
        let ghost x = ks[i as int];
        assert(post.drop_last() =~= pre);
        assert(post.last() == x);
        assert(keys@[i as int]@ == x);
        proof {
            lemma_distinct_keys(pre);
        }
        let ghost d = distinct_keys(pre);
        assert(d == group_views(out@).map_values(|v: TimeGroupView| v.name)) by {
            assert(group_views(out@).map_values(|v: TimeGroupView| v.name) =~= d);
        }
        let mut found: usize = 0;
        let mut hit = false;
        while found < names.len()
            invariant_except_break
                found <= names.len(),
                forall|j: int| 0 <= j < found ==> names@[j]@ != x,
                !hit,
            invariant
                i < keys.len(),
                x == keys@[i as int]@,
            ensures
                hit ==> found < names.len() && names@[found as int]@ == x,
                !hit ==> forall|j: int| 0 <= j < names.len() ==> names@[j]@ != x,
            decreases names.len() - found,
        {
            if seq_eq(&names[found], &keys[i]) {
                hit = true;
                break;
            }
            found = found + 1;
        }
        let p = pos[i];
        if hit {
            assert(d[found as int] == x);
            assert(d.contains(x));
            assert(distinct_keys(post) == d);
            let ghost before = group_views(out@);
            let mut cards_f: Vec<usize> = Vec::new();
            let mut k: usize = 0;
            while k < out[found].cards.len()
                invariant
                    found < out.len(),
                    k <= out[found as int].cards.len(),
                    cards_f@ == out[found as int].cards@.take(k as int),
                decreases out[found as int].cards.len() - k,
            {
                cards_f.push(out[found].cards[k]);
                assert(cards_f@ =~= out[found as int].cards@.take(k + 1));
                k = k + 1;
            }
            assert(cards_f@ =~= out[found as int].cards@);
            cards_f.push(p);
            let item = TimeGroup { name: string_of(names[found].as_slice()), cards: cards_f };
            out.set(found, item);
            proof {
                assert forall|j: int| 0 <= j < d.len() implies #[trigger] group_views(out@)[j]
                    == time_groups(post, pos@)[j] by {
                    lemma_positions_step(ks, pos@, i as int, d[j]);
                    if j != found {
                        assert(d[j] != x);
                    }
                }
                assert(group_views(out@) =~= time_groups(post, pos@));
            }
        } else {
            assert(!d.contains(x)) by {
                if d.contains(x) {
                    let j = choose|j: int| 0 <= j < d.len() && d[j] == x;
                    assert(names@[j]@ == x);
                }
            }
            let mut cards_n: Vec<usize> = Vec::new();
            cards_n.push(p);
            names.push(keys[i].clone());
            out.push(TimeGroup { name: string_of(keys[i].as_slice()), cards: cards_n });
            proof {
                assert(!pre.contains(x));
                lemma_positions_absent(pre, pos@, x);
                lemma_positions_step(ks, pos@, i as int, x);
                assert forall|j: int| 0 <= j < d.len() implies #[trigger] group_views(out@)[j]
                    == time_groups(post, pos@)[j] by {
                    assert(d[j] != x);
                    lemma_positions_step(ks, pos@, i as int, d[j]);
                }
                assert(group_views(out@) =~= time_groups(post, pos@));
            }
        }
        i = i + 1;
    }
    assert(ks.take(keys.len() as int) =~= ks);
    out
}

// ---------------------------------------------------------------------
// Groups by member and by list
// ---------------------------------------------------------------------

/// The member names a card counts under: its members' full names, or
/// "Unassigned" when it has none.
pub open spec fn card_member_keys(c: CardView) -> Seq<Seq<char>> {
    if c.members.len() == 0 {
        seq!["Unassigned"@]
    } else {
        c.members.map_values(|m: MemberView| m.full_name)
    }
}

/// The member names of all cards, card after card.
pub open spec fn member_time_keys(cards: Seq<CardView>) -> Seq<Seq<char>>
    decreases cards.len(),
{
    if cards.len() == 0 {
        Seq::empty()
    } else {
        member_time_keys(cards.drop_last()) + card_member_keys(cards.last())
    }
}

/// The position of the card of each member name, card after card.
pub open spec fn member_time_pos(cards: Seq<CardView>) -> Seq<usize>
    decreases cards.len(),
{
    if cards.len() == 0 {
        Seq::empty()
    } else {
        member_time_pos(cards.drop_last()) + Seq::new(
            card_member_keys(cards.last()).len(),
            |j: int| (cards.len() - 1) as usize,
        )
    }
}

/// The positions `0 .. n`.
pub open spec fn all_positions(n: nat) -> Seq<usize> {
    Seq::new(n, |i: int| i as usize)
}

/// Where a group of size `n` goes among groups ordered by decreasing size so
/// that it follows every group at least as large: the first position at or
/// after `p` holding a smaller group (or the length).
pub open spec fn upper_size(s: Seq<TimeGroupView>, n: nat, p: nat) -> nat
    decreases s.len() - p,
{
    if p >= s.len() || s[p as int].cards.len() < n {
        p
    } else {
        upper_size(s, n, p + 1)
    }
}

/// The groups ordered by decreasing size; groups of equal size keep their
/// order.
pub open spec fn by_size_desc(s: Seq<TimeGroupView>) -> Seq<TimeGroupView>
    decreases s.len(),
{
    if s.len() == 0 {
        Seq::empty()
    } else {
        let t = by_size_desc(s.drop_last());
        t.insert(upper_size(t, s.last().cards.len(), 0) as int, s.last())
    }
}

/// Orders groups by decreasing size, stably; see `by_size_desc`.
pub fn sort_groups_by_size(groups: Vec<TimeGroup>) -> (r: Vec<TimeGroup>)
    ensures
        group_views(r@) == by_size_desc(group_views(groups@)),
{
    let ghost orig = group_views(groups@);
    let mut items = groups;
    let mut out: Vec<TimeGroup> = Vec::new();
    let ghost mut taken: int = 0;
    assert(group_views(out@) =~= by_size_desc(orig.take(0)));
    assert(group_views(items@) =~= orig.skip(0));
    while items.len() > 0
        invariant
            0 <= taken <= orig.len(),
            items.len() + taken == orig.len(),
            group_views(items@) == orig.skip(taken),
            group_views(out@) == by_size_desc(orig.take(taken)),
        decreases items.len(),
    {
        let ghost rest = items@;
        let x = items.remove(0);
        assert(group_views(rest)[0] == rest[0]@);
        assert(orig.skip(taken)[0] == orig[taken]);
        assert(x@ == orig[taken]);
        let ghost t = group_views(out@);
        let n = x.cards.len();
        let mut p: usize = 0;
        while p < out.len() && !(out[p].cards.len() < n)
            invariant
                p <= out.len(),
                t == group_views(out@),
                n == x@.cards.len(),
                upper_size(t, n as nat, 0) == upper_size(t, n as nat, p as nat),
            decreases out.len() - p,
        {
            assert(t[p as int] == out@[p as int]@);
            p = p + 1;
        }
        proof {
            if p < out.len() {
                assert(t[p as int] == out@[p as int]@);
            }
        }
        assert(upper_size(t, n as nat, p as nat) == p);
        out.insert(p, x);
        assert(group_views(out@) =~= t.insert(p as int, x@));
        proof {
            assert(orig.take(taken + 1).drop_last() =~= orig.take(taken));
            assert(orig.take(taken + 1).last() == orig[taken]);
            assert forall|j: int| 0 <= j < items.len() implies group_views(items@)[j] == orig.skip(
                taken + 1,
            )[j] by {
                assert(items@[j] == rest[j + 1]);
                assert(group_views(rest)[j + 1] == rest[j + 1]@);
                assert(orig.skip(taken)[j + 1] == orig[taken + 1 + j]);
            }
            assert(group_views(items@) =~= orig.skip(taken + 1));
            taken = taken + 1;
        }
    }
    assert(orig.take(taken) =~= orig);
    out
}

/// The member names of the cards with the positions of their cards.
fn member_entries_exec(cards: &Vec<TrelloCard>) -> (r: (Vec<Vec<char>>, Vec<usize>))
    ensures
        r.0.len() == r.1.len(),
        r.0@.map_values(|k: Vec<char>| k@) == member_time_keys(card_views(cards@)),
        r.1@ == member_time_pos(card_views(cards@)),
{
    let ghost cs = card_views(cards@);
    let mut keys: Vec<Vec<char>> = Vec::new();
    let mut pos: Vec<usize> = Vec::new();
    let mut i: usize = 0;
    assert(cs.take(0) =~= Seq::<CardView>::empty());
    assert(keys@.map_values(|k: Vec<char>| k@) =~= member_time_keys(cs.take(0)));
    while i < cards.len()
        invariant
            i <= cards.len(),
            cs == card_views(cards@),
            keys.len() == pos.len(),
            keys@.map_values(|k: Vec<char>| k@) == member_time_keys(cs.take(i as int)),
            pos@ == member_time_pos(cs.take(i as int)),
        decreases cards.len() - i,
    {
        let card = &cards[i];
        let ghost c = cs[i as int];
        assert(c == card@);
        let ghost k0 = keys@.map_values(|k: Vec<char>| k@);
        let ghost p0 = pos@;
        let ghost ck = card_member_keys(c);
        if card.members.len() == 0 {
            keys.push(chars_of("Unassigned"));
            pos.push(i);
            assert(keys@.map_values(|k: Vec<char>| k@) =~= k0 + ck);
            assert(pos@ =~= p0 + Seq::new(ck.len(), |j: int| i as usize));
        } else {
            let mut j: usize = 0;
            while j < card.members.len()
                invariant
                    j <= card.members.len(),
                    i < cards.len(),
                    card == &cards[i as int],
                    c == card@,
                    ck == card_member_keys(c),
                    c.members.len() > 0,
                    keys.len() == pos.len(),
                    keys@.map_values(|k: Vec<char>| k@) == k0 + ck.take(j as int),
                    pos@ == p0 + Seq::new(j as nat, |q: int| i as usize),
                decreases card.members.len() - j,
            {
                let ghost kb = keys@.map_values(|k: Vec<char>| k@);
                keys.push(chars_of(card.members[j].full_name.as_str()));
                pos.push(i);
                assert(ck[j as int] == card.members@[j as int]@.full_name);
                assert(ck.take(j + 1) =~= ck.take(j as int).push(ck[j as int]));
                assert(keys@.map_values(|k: Vec<char>| k@) =~= kb.push(ck[j as int]));
                assert(keys@.map_values(|k: Vec<char>| k@) =~= k0 + ck.take(j + 1));
                assert(pos@ =~= p0 + Seq::new((j + 1) as nat, |q: int| i as usize));
                j = j + 1;
            }
            assert(ck.len() == card.members.len());
            assert(ck.take(j as int) =~= ck);
        }
        assert(cs.take(i + 1).drop_last() =~= cs.take(i as int));
        assert(cs.take(i + 1).last() == c);
        assert(Seq::new(ck.len(), |q: int| i as usize) =~= Seq::new(
            card_member_keys(cs.take(i + 1).last()).len(),
            |q: int| (cs.take(i + 1).len() - 1) as usize,
        ));
        i = i + 1;
    }
    assert(cs.take(cards.len() as int) =~= cs);
    (keys, pos)
}

/// The cards grouped by member full name ("Unassigned" for cards without
/// members), in order of first appearance, each group with the positions of
/// its cards.
pub fn time_groups_by_member(cards: &Vec<TrelloCard>) -> (r: Vec<TimeGroup>)
    ensures
        group_views(r@) == time_groups(
            member_time_keys(card_views(cards@)),
            member_time_pos(card_views(cards@)),
        ),
{
    let (keys, pos) = member_entries_exec(cards);
    group_positions(&keys, &pos)
}

/// The cards grouped by list name ("Unknown" for cards without one), largest
/// group first (groups of equal size in order of first appearance), each
/// group with the positions of its cards.
pub fn time_groups_by_list(cards: &Vec<TrelloCard>) -> (r: Vec<TimeGroup>)
    ensures
        group_views(r@) == by_size_desc(
            time_groups(
                card_views(cards@).map_values(|c: CardView| list_key(c)),
                all_positions(cards@.len()),
            ),
        ),
{
    let ghost cs = card_views(cards@);
    let mut keys: Vec<Vec<char>> = Vec::new();
    let mut pos: Vec<usize> = Vec::new();
    let mut i: usize = 0;
    while i < cards.len()
        invariant
            i <= cards.len(),
            cs == card_views(cards@),
            keys.len() == i,
            pos.len() == i,
            forall|j: int| 0 <= j < i ==> (#[trigger] keys@[j])@ == list_key(cs[j]),
            forall|j: int| 0 <= j < i ==> #[trigger] pos@[j] == j as usize,
        decreases cards.len() - i,
    {
        let k = match &cards[i].list_name {
            Some(n) => chars_of(n.as_str()),
            None => chars_of("Unknown"),
        };
        assert(cs[i as int] == cards@[i as int]@);
        keys.push(k);
        pos.push(i);
        i = i + 1;
    }
    assert(keys@.map_values(|k: Vec<char>| k@) =~= cs.map_values(|c: CardView| list_key(c)));
    assert(pos@ =~= all_positions(cards@.len()));
    let g = group_positions(&keys, &pos);
    sort_groups_by_size(g)
}

// ---------------------------------------------------------------------
// Laws of the time groups
// ---------------------------------------------------------------------

/// Entry `i` has key `k` and position `x`.
pub open spec fn entry_at(keys: Seq<Seq<char>>, pos: Seq<usize>, k: Seq<char>, i: int, x: usize) -> bool {
    0 <= i < keys.len() && keys[i] == k && pos[i] == x
}

/// Some entry has key `k` and position `x`.
pub open spec fn has_entry(keys: Seq<Seq<char>>, pos: Seq<usize>, k: Seq<char>, x: usize) -> bool {
    exists|i: int| #[trigger] entry_at(keys, pos, k, i, x)
}

/// Every entry is in the group of its key, and a group holds only positions of
/// entries with its key.
pub proof fn lemma_positions_for(keys: Seq<Seq<char>>, pos: Seq<usize>, k: Seq<char>)
    requires
        keys.len() <= pos.len(),
    ensures
        forall|i: int|
            0 <= i < keys.len() && keys[i] == k ==> positions_for(keys, pos, k).contains(
                #[trigger] pos[i],
            ),
        forall|j: int|
            0 <= j < positions_for(keys, pos, k).len() ==> has_entry(
                keys,
                pos,
                k,
                #[trigger] positions_for(keys, pos, k)[j],
            ),
    decreases keys.len(),
{
    if keys.len() > 0 {
        let p = keys.drop_last();
        let n = keys.len() - 1;
        lemma_positions_for(p, pos, k);
        let r = positions_for(p, pos, k);
        let t = positions_for(keys, pos, k);
        assert forall|i: int| 0 <= i < keys.len() && keys[i] == k implies t.contains(
            #[trigger] pos[i],
        ) by {
            if i < n {
                assert(p[i] == keys[i]);
                assert(r.contains(pos[i]));
                let j = choose|j: int| 0 <= j < r.len() && r[j] == pos[i];
                assert(t[j] == pos[i]);
            } else {
                assert(t[t.len() - 1] == pos[i]);
            }
        }
        assert forall|j: int| 0 <= j < t.len() implies has_entry(keys, pos, k, #[trigger] t[j]) by {
            if j < r.len() {
                assert(t[j] == r[j]);
                assert(has_entry(p, pos, k, r[j]));
                let i = choose|i: int| #[trigger] entry_at(p, pos, k, i, r[j]);
                assert(entry_at(keys, pos, k, i, t[j]));
            } else {
                assert(keys.last() == k);
                assert(entry_at(keys, pos, k, n, t[j]));
            }
        }
    }
}

/// Where `upper_size` stops: every group it passes is at least as large as
/// `n`, and the group it stops at (if any) is smaller.
proof fn lemma_upper_size(s: Seq<TimeGroupView>, n: nat, p: nat)
    requires
        p <= s.len(),
    ensures
        p <= upper_size(s, n, p) <= s.len(),
        forall|i: int| p <= i < upper_size(s, n, p) ==> (#[trigger] s[i]).cards.len() >= n,
        upper_size(s, n, p) < s.len() ==> s[upper_size(s, n, p) as int].cards.len() < n,
    decreases s.len() - p,
{
    if p < s.len() && s[p as int].cards.len() >= n {
        lemma_upper_size(s, n, p + 1);
    }
}

/// Ordering by size puts larger groups first and rearranges the groups
/// without adding, dropping or changing one.
pub proof fn lemma_by_size_desc(s: Seq<TimeGroupView>)
    ensures
        forall|i: int, j: int|
            0 <= i < j < by_size_desc(s).len() ==> (#[trigger] by_size_desc(s)[i]).cards.len()
                >= (#[trigger] by_size_desc(s)[j]).cards.len(),
        by_size_desc(s).to_multiset() == s.to_multiset(),
        by_size_desc(s).len() == s.len(),
    decreases s.len(),
{
    broadcast use vstd::seq_lib::group_to_multiset_ensures;

    if s.len() > 0 {
        let t = by_size_desc(s.drop_last());
        let x = s.last();
        let n = x.cards.len();
        lemma_by_size_desc(s.drop_last());
        lemma_upper_size(t, n, 0);
        let u = upper_size(t, n, 0) as int;
        let r = t.insert(u, x);
        assert(r == by_size_desc(s));
        t.insert_ensures(u, x);
        assert forall|i: int, j: int| 0 <= i < j < r.len() implies (#[trigger] r[i]).cards.len()
            >= (#[trigger] r[j]).cards.len() by {
            if j < u {
                assert(r[i] == t[i] && r[j] == t[j]);
            } else if j == u {
                assert(r[i] == t[i]);
            } else if i < u {
                assert(r[i] == t[i] && r[j] == t[j - 1]);
            } else if i == u {
                assert(r[j] == t[j - 1]);
                if j - 1 > u {
                    assert(t[u].cards.len() >= t[j - 1].cards.len());
                }
            } else {
                assert(r[i] == t[i - 1] && r[j] == t[j - 1]);
            }
        }
        vstd::seq_lib::to_multiset_insert(t, u, x);
        assert(s =~= s.drop_last().push(x));
    }
}

/// The number of positions over all groups.
pub open spec fn total_size(g: Seq<TimeGroupView>) -> nat
    decreases g.len(),
{
    if g.len() == 0 {
        0
    } else {
        total_size(g.drop_last()) + g.last().cards.len()
    }
}

/// No two groups share a name.
pub open spec fn distinct_names(g: Seq<TimeGroupView>) -> bool {
    forall|i: int, j: int| 0 <= i < j < g.len() ==> (#[trigger] g[i]).name != (#[trigger] g[j]).name
}

/// Some group has the name `k`.
pub open spec fn has_group(g: Seq<TimeGroupView>, k: Seq<char>) -> bool {
    exists|i: int| 0 <= i < g.len() && (#[trigger] g[i]).name == k
}

/// A key has as many positions as occurrences.
proof fn lemma_positions_len(keys: Seq<Seq<char>>, pos: Seq<usize>, k: Seq<char>)
    ensures
        positions_for(keys, pos, k).len() == count_key(keys, k),
    decreases keys.len(),
{
    if keys.len() > 0 {
        lemma_positions_len(keys.drop_last(), pos, k);
    }
}

/// The sizes of the groups of the keys `d` add up to their occurrences.
proof fn lemma_total_of_time_groups(d: Seq<Seq<char>>, keys: Seq<Seq<char>>, pos: Seq<usize>)
    ensures
        total_size(
            d.map_values(|k: Seq<char>| TimeGroupView { name: k, cards: positions_for(keys, pos, k) }),
        ) == sum_counts(d, keys),
    decreases d.len(),
{
    let f = |k: Seq<char>| TimeGroupView { name: k, cards: positions_for(keys, pos, k) };
    if d.len() > 0 {
        lemma_total_of_time_groups(d.drop_last(), keys, pos);
        assert(d.map_values(f).drop_last() =~= d.drop_last().map_values(f));
        lemma_positions_len(keys, pos, d.last());
    }
}

/// Grouping puts every entry in exactly one group: the group sizes add up to
/// the number of entries, no two groups share a name, and every key has its
/// group.
pub proof fn lemma_time_groups_partition(keys: Seq<Seq<char>>, pos: Seq<usize>)
    ensures
        total_size(time_groups(keys, pos)) == keys.len(),
        distinct_names(time_groups(keys, pos)),
        forall|k: Seq<char>| #[trigger] has_group(time_groups(keys, pos), k) <==> keys.contains(k),
{
    let d = distinct_keys(keys);
    let g = time_groups(keys, pos);
    lemma_distinct_keys(keys);
    lemma_sum_distinct(keys);
    lemma_total_of_time_groups(d, keys, pos);
    assert forall|k: Seq<char>| #[trigger] has_group(g, k) <==> keys.contains(k) by {
        if has_group(g, k) {
            let i = choose|i: int| 0 <= i < g.len() && (#[trigger] g[i]).name == k;
            assert(d[i] == k);
            assert(d.contains(k));
        }
        if keys.contains(k) {
            assert(d.contains(k));
            let i = choose|i: int| 0 <= i < d.len() && d[i] == k;
            assert(g[i].name == k);
        }
    }
    assert forall|i: int, j: int| 0 <= i < j < g.len() implies (#[trigger] g[i]).name != (
    #[trigger] g[j]).name by {
        assert(g[i].name == d[i] && g[j].name == d[j]);
    }
}

/// Inserting a group adds its size to the total.
proof fn lemma_total_insert(t: Seq<TimeGroupView>, u: int, x: TimeGroupView)
    requires
        0 <= u <= t.len(),
    ensures
        total_size(t.insert(u, x)) == total_size(t) + x.cards.len(),
    decreases t.len(),
{
    if u == t.len() {
        assert(t.insert(u, x).drop_last() =~= t);
    } else {
        lemma_total_insert(t.drop_last(), u, x);
        assert(t.insert(u, x).drop_last() =~= t.drop_last().insert(u, x));
        assert(t.insert(u, x).last() == t.last());
    }
}

/// Ordering groups by size keeps the total, the names and their distinctness.
pub proof fn lemma_by_size_desc_partition(s: Seq<TimeGroupView>)
    requires
        distinct_names(s),
    ensures
        total_size(by_size_desc(s)) == total_size(s),
        distinct_names(by_size_desc(s)),
        forall|k: Seq<char>| #[trigger] has_group(by_size_desc(s), k) <==> has_group(s, k),
    decreases s.len(),
{
    broadcast use vstd::seq_lib::group_to_multiset_ensures;

    if s.len() > 0 {
        let p = s.drop_last();
        assert(distinct_names(p)) by {
            assert forall|i: int, j: int| 0 <= i < j < p.len() implies (#[trigger] p[i]).name != (
            #[trigger] p[j]).name by {
                assert(p[i] == s[i] && p[j] == s[j]);
            }
        }
        lemma_by_size_desc_partition(p);
        let t = by_size_desc(p);
        lemma_upper_size(t, s.last().cards.len(), 0);
        lemma_total_insert(t, upper_size(t, s.last().cards.len(), 0) as int, s.last());
    }
    let r = by_size_desc(s);
    lemma_by_size_desc(s);
    assert forall|k: Seq<char>| #[trigger] has_group(r, k) <==> has_group(s, k) by {
        if has_group(r, k) {
            let i = choose|i: int| 0 <= i < r.len() && (#[trigger] r[i]).name == k;
            assert(r.contains(r[i]));
            assert(r.to_multiset().count(r[i]) > 0);
            assert(s.contains(r[i]));
            let j = choose|j: int| 0 <= j < s.len() && s[j] == r[i];
            assert(s[j].name == k);
        }
        if has_group(s, k) {
            let j = choose|j: int| 0 <= j < s.len() && (#[trigger] s[j]).name == k;
            assert(s.contains(s[j]));
            assert(s.to_multiset().count(s[j]) > 0);
            assert(r.contains(s[j]));
            let i = choose|i: int| 0 <= i < r.len() && r[i] == s[j];
            assert(r[i].name == k);
        }
    }
    assert(s.no_duplicates()) by {
        assert forall|i: int, j: int| 0 <= i < s.len() && 0 <= j < s.len() && i != j implies s[i]
            != s[j] by {
            if i < j {
                assert(s[i].name != s[j].name);
            } else {
                assert(s[j].name != s[i].name);
            }
        }
    }
    s.lemma_multiset_has_no_duplicates();
    r.lemma_multiset_has_no_duplicates_conv();
    assert forall|i: int, j: int| 0 <= i < j < r.len() implies (#[trigger] r[i]).name != (
    #[trigger] r[j]).name by {
        assert(r[i] != r[j]);
        assert(r.contains(r[i]) && r.contains(r[j]));
        assert(r.to_multiset().count(r[i]) > 0 && r.to_multiset().count(r[j]) > 0);
        assert(s.contains(r[i]) && s.contains(r[j]));
        let a = choose|a: int| 0 <= a < s.len() && s[a] == r[i];
        let b = choose|b: int| 0 <= b < s.len() && s[b] == r[j];
        assert(a != b);
        if a < b {
            assert(s[a].name != s[b].name);
        } else {
            assert(s[b].name != s[a].name);
        }
    }
}

/// The number of member entries of the cards: each card counts once per
/// member, and once when it has none.
pub open spec fn member_entry_count(cards: Seq<CardView>) -> nat
    decreases cards.len(),
{
    if cards.len() == 0 {
        0
    } else {
        member_entry_count(cards.drop_last()) + if cards.last().members.len() == 0 {
            1nat
        } else {
            cards.last().members.len()
        }
    }
}

/// Grouping by member counts every card once per member (once when it has
/// none), and grouping by list counts every card once: the group sizes add up
/// to these numbers.
pub proof fn lemma_time_group_totals(cards: Seq<CardView>)
    ensures
        total_size(time_groups(member_time_keys(cards), member_time_pos(cards)))
            == member_entry_count(cards),
        total_size(
            by_size_desc(
                time_groups(cards.map_values(|c: CardView| list_key(c)), all_positions(cards.len())),
            ),
        ) == cards.len(),
{
    lemma_member_keys_len(cards);
    lemma_time_groups_partition(member_time_keys(cards), member_time_pos(cards));
    let lk = cards.map_values(|c: CardView| list_key(c));
    let g = time_groups(lk, all_positions(cards.len()));
    lemma_time_groups_partition(lk, all_positions(cards.len()));
    lemma_by_size_desc_partition(g);
}

/// There is one member key per member entry.
proof fn lemma_member_keys_len(cards: Seq<CardView>)
    ensures
        member_time_keys(cards).len() == member_entry_count(cards),
    decreases cards.len(),
{
    if cards.len() > 0 {
        lemma_member_keys_len(cards.drop_last());
    }
}

} // verus!
