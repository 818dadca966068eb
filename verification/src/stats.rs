use vstd::prelude::*;

use crate::cards::{has_due, is_overdue};
use crate::models::{card_views, opt_str, CardView, LabelView, MemberView, TrelloCard};
use crate::seqs::{keep, lemma_keep_push, lex_lt, lex_lt_exec};
use crate::text::{chars_of, decimal, fmt_usize, push_str, seq_eq, string_of};

verus! {

// ---------------------------------------------------------------------
// Grouping by key, in order of first appearance
// ---------------------------------------------------------------------

/// The distinct keys, in order of first appearance.
pub open spec fn distinct_keys(keys: Seq<Seq<char>>) -> Seq<Seq<char>>
    decreases keys.len(),
{
    if keys.len() == 0 {
        Seq::empty()
    } else {
        let d = distinct_keys(keys.drop_last());
        if d.contains(keys.last()) {
            d
        } else {
            d.push(keys.last())
        }
    }
}

/// How many times `k` occurs among the keys.
pub open spec fn count_key(keys: Seq<Seq<char>>, k: Seq<char>) -> nat
    decreases keys.len(),
{
    if keys.len() == 0 {
        0
    } else {
        count_key(keys.drop_last(), k) + if keys.last() == k { 1nat } else { 0nat }
    }
}

/// The payload that goes with the first occurrence of `k`.
pub open spec fn first_payload(
    keys: Seq<Seq<char>>,
    pay: Seq<Option<Seq<char>>>,
    k: Seq<char>,
) -> Option<Seq<char>>
    decreases keys.len(),
{
    if keys.len() == 0 {
        None
    } else if keys.drop_last().contains(k) {
        first_payload(keys.drop_last(), pay, k)
    } else if keys.last() == k {
        pay[keys.len() - 1]
    } else {
        None
    }
}

/// One group of a breakdown: its key, its size, and a colour.
pub struct StatItem {
    pub name: String,
    pub count: usize,
    pub color: Option<String>,
}

pub struct StatItemView {
    pub name: Seq<char>,
    pub count: nat,
    pub color: Option<Seq<char>>,
}

impl View for StatItem {
    type V = StatItemView;

    open spec fn view(&self) -> StatItemView {
        StatItemView { name: self.name@, count: self.count as nat, color: opt_str(self.color) }
    }
}

/// The values of a sequence of groups.
pub open spec fn item_views(s: Seq<StatItem>) -> Seq<StatItemView> {
    s.map_values(|x: StatItem| x@)
}

/// The breakdown of keys into groups, in order of first appearance, each with
/// its size and the payload of its first occurrence.
pub open spec fn groups(keys: Seq<Seq<char>>, pay: Seq<Option<Seq<char>>>) -> Seq<StatItemView> {
    distinct_keys(keys).map_values(
        |k: Seq<char>| StatItemView {
            name: k,
            count: count_key(keys, k),
            color: first_payload(keys, pay, k),
        },
    )
}

/// Distinct keys never repeat and each occurs among the keys.
pub proof fn lemma_distinct_keys(keys: Seq<Seq<char>>)
    ensures
        forall|i: int, j: int|
            0 <= i < j < distinct_keys(keys).len() ==> distinct_keys(keys)[i] != distinct_keys(
                keys,
            )[j],
        forall|k: Seq<char>| distinct_keys(keys).contains(k) <==> keys.contains(k),
    decreases keys.len(),
{
    if keys.len() > 0 {
        let p = keys.drop_last();
        let x = keys.last();
        lemma_distinct_keys(p);
        let d = distinct_keys(p);
        assert(keys =~= p.push(x));
        assert forall|k: Seq<char>| keys.contains(k) <==> (p.contains(k) || k == x) by {
            if keys.contains(k) {
                let i = choose|i: int| 0 <= i < keys.len() && keys[i] == k;
                if i < p.len() {
                    assert(p[i] == k);
                }
            }
            if p.contains(k) {
                let i = choose|i: int| 0 <= i < p.len() && p[i] == k;
                assert(keys[i] == k);
            }
            if k == x {
                assert(keys[keys.len() - 1] == k);
            }
        }
        if !d.contains(x) {
            let e = d.push(x);
            assert forall|k: Seq<char>| e.contains(k) <==> (d.contains(k) || k == x) by {
                if e.contains(k) {
                    let i = choose|i: int| 0 <= i < e.len() && e[i] == k;
                    if i < d.len() {
                        assert(d[i] == k);
                    }
                }
                if d.contains(k) {
                    let i = choose|i: int| 0 <= i < d.len() && d[i] == k;
                    assert(e[i] == k);
                }
                if k == x {
                    assert(e[d.len() as int] == k);
                }
            }
            assert forall|i: int, j: int| 0 <= i < j < e.len() implies e[i] != e[j] by {
                if j == d.len() {
                    assert(d[i] == e[i]);
                }
            }
        }
    }
}

/// Groups the keys in order of first appearance, counting each and keeping the
/// payload of its first occurrence.
pub fn group_keys(keys: &Vec<Vec<char>>, pay: &Vec<Option<String>>) -> (r: Vec<StatItem>)
    requires
        keys.len() == pay.len(),
    ensures
        item_views(r@) == groups(
            keys@.map_values(|k: Vec<char>| k@),
            pay@.map_values(|p: Option<String>| opt_str(p)),
        ),
{
    let ghost ks = keys@.map_values(|k: Vec<char>| k@);
    let ghost ps = pay@.map_values(|p: Option<String>| opt_str(p));
    let mut names: Vec<Vec<char>> = Vec::new();
    let mut out: Vec<StatItem> = Vec::new();
    let mut i: usize = 0;
    assert(ks.take(0) =~= Seq::<Seq<char>>::empty());
    assert(item_views(out@) =~= groups(ks.take(0), ps));
    while i < keys.len()
        invariant
            i <= keys.len(),
            keys.len() == pay.len(),
            ks == keys@.map_values(|k: Vec<char>| k@),
            ps == pay@.map_values(|p: Option<String>| opt_str(p)),
            names.len() == out.len(),
            forall|j: int| 0 <= j < names.len() ==> (#[trigger] names@[j])@ == out@[j].name@,
            item_views(out@) == groups(ks.take(i as int), ps),
            out.len() <= i,
        decreases keys.len() - i,
    {
        let ghost pre = ks.take(i as int);
        let ghost post = ks.take(i + 1);
        let ghost x = ks[i as int];
        assert(post.drop_last() =~= pre);
        assert(post.last() == x);
        assert(keys@[i as int]@ == x);
        proof {
            lemma_distinct_keys(pre);
        }
        let mut found: usize = 0;
        let mut hit = false;
        while found < names.len()
            invariant_except_break
                found <= names.len(),
                forall|j: int| 0 <= j < found ==> names@[j]@ != x,
                !hit,
            invariant
                i < keys.len(),
                x == keys@[i as int]@,
            ensures
                hit ==> found < names.len() && names@[found as int]@ == x,
                !hit ==> forall|j: int| 0 <= j < names.len() ==> names@[j]@ != x,
            decreases names.len() - found,
        {
            if seq_eq(&names[found], &keys[i]) {
                hit = true;
                break;
            }
            found = found + 1;
        }
        let ghost d = distinct_keys(pre);
        assert(d == item_views(out@).map_values(|v: StatItemView| v.name)) by {
            assert(item_views(out@).map_values(|v: StatItemView| v.name) =~= d);
        }
        if hit {
            assert(names@[found as int]@ == x);
            assert(d[found as int] == x);
            assert(d.contains(x));
            assert(distinct_keys(post) == d);
            let old_count = out[found].count;
            assert(old_count == count_key(pre, x));
            proof {
                lemma_count_bound(pre, x);
            }
            let ghost before = item_views(out@);
            let item = StatItem {
                name: out[found].name.clone(),
                count: old_count + 1,
                color: match &out[found].color { Some(c) => Some(c.clone()), None => None },
            };
            out.set(found, item);
            proof {
                assert forall|j: int| 0 <= j < d.len() implies #[trigger] item_views(out@)[j]
                    == groups(post, ps)[j] by {
                    lemma_distinct_keys(pre);
                    if j != found {
                        assert(d[j] != x);
                    }
                }
                assert(item_views(out@) =~= groups(post, ps));
            }
        } else {
            assert(!d.contains(x)) by {
                if d.contains(x) {
                    let j = choose|j: int| 0 <= j < d.len() && d[j] == x;
                    assert(names@[j]@ == x);
                }
            }
            let color = match &pay[i] { Some(c) => Some(c.clone()), None => None };
            names.push(keys[i].clone());
            out.push(StatItem { name: string_of(keys[i].as_slice()), count: 1, color });
            proof {
                lemma_distinct_keys(pre);
                assert(!pre.contains(x));
                assert forall|j: int| 0 <= j < d.len() implies #[trigger] item_views(out@)[j]
                    == groups(post, ps)[j] by {
                    assert(d[j] != x);
                }
                assert(count_key(pre, x) == 0) by {
                    lemma_count_absent(pre, x);
                }
                assert(item_views(out@) =~= groups(post, ps));
            }
        }
        i = i + 1;
    }
    assert(ks.take(keys.len() as int) =~= ks);
    out
}

/// A key is counted at most once per position.
proof fn lemma_count_bound(keys: Seq<Seq<char>>, k: Seq<char>)
    ensures
        count_key(keys, k) <= keys.len(),
    decreases keys.len(),
{
    if keys.len() > 0 {
        lemma_count_bound(keys.drop_last(), k);
    }
}

/// A key that does not occur is counted zero times.
proof fn lemma_count_absent(keys: Seq<Seq<char>>, k: Seq<char>)
    requires
        !keys.contains(k),
    ensures
        count_key(keys, k) == 0,
    decreases keys.len(),
{
    if keys.len() > 0 {
        assert(keys.last() != k) by {
            assert(keys[keys.len() - 1] == keys.last());
        }
        assert(!keys.drop_last().contains(k)) by {
            if keys.drop_last().contains(k) {
                let i = choose|i: int| 0 <= i < keys.drop_last().len() && keys.drop_last()[i] == k;
                assert(keys[i] == k);
            }
        }
        lemma_count_absent(keys.drop_last(), k);
    }
}

} // verus!

verus! {

// ---------------------------------------------------------------------
// Board statistics
// ---------------------------------------------------------------------

/// The list a card is counted under: its list name, or "Unknown".
pub open spec fn list_key(c: CardView) -> Seq<char> {
    match c.list_name {
        Some(n) => n,
        None => "Unknown"@,
    }
}

/// Labels that have a name.
pub open spec fn named_labels(ls: Seq<LabelView>) -> Seq<LabelView> {
    keep(ls, |l: LabelView| l.name.len() > 0)
}

/// The named labels of all cards, card after card.
pub open spec fn label_entries(cards: Seq<CardView>) -> Seq<LabelView>
    decreases cards.len(),
{
    if cards.len() == 0 {
        Seq::empty()
    } else {
        label_entries(cards.drop_last()) + named_labels(cards.last().labels)
    }
}

/// The members of all cards, card after card.
pub open spec fn member_entries(cards: Seq<CardView>) -> Seq<MemberView>
    decreases cards.len(),
{
    if cards.len() == 0 {
        Seq::empty()
    } else {
        member_entries(cards.drop_last()) + cards.last().members
    }
}

/// No payload for any key.
pub open spec fn no_payload(n: nat) -> Seq<Option<Seq<char>>> {
    Seq::new(n, |i: int| None::<Seq<char>>)
}

/// The deadline lies between `now` and `soon` (inclusive) and is not complete.
pub open spec fn is_due_soon(c: CardView, now: Seq<char>, soon: Seq<char>) -> bool {
    match c.due {
        Some(d) => !lex_lt(d, now) && !lex_lt(soon, d) && c.due_complete != Some(true),
        None => false,
    }
}

/// Board analytics.
pub struct StatsResponse {
    pub total_cards: usize,
    pub overdue_count: usize,
    pub due_soon_count: usize,
    pub no_due_count: usize,
    pub by_list: Vec<StatItem>,
    pub by_label: Vec<StatItem>,
    pub by_member: Vec<StatItem>,
}

/// Board analytics at the instant `now`, with `soon` the end of the "due soon"
/// window: totals, then cards per list, per label name (with the colour of its
/// first occurrence) and per member name, each in order of first appearance.
pub open spec fn stats_ok(r: StatsResponse, cards: Seq<CardView>, now: Seq<char>, soon: Seq<char>) -> bool {
    &&& r.total_cards == cards.len()
    &&& r.overdue_count == keep(cards, |c: CardView| is_overdue(c, now)).len()
    &&& r.due_soon_count == keep(cards, |c: CardView| is_due_soon(c, now, soon)).len()
    &&& r.no_due_count == keep(cards, |c: CardView| !has_due(c)).len()
    &&& item_views(r.by_list@) == groups(
        cards.map_values(|c: CardView| list_key(c)),
        no_payload(cards.len()),
    )
    &&& item_views(r.by_label@) == groups(
        label_entries(cards).map_values(|l: LabelView| l.name),
        label_entries(cards).map_values(|l: LabelView| l.color),
    )
    &&& item_views(r.by_member@) == groups(
        member_entries(cards).map_values(|m: MemberView| m.full_name),
        no_payload(member_entries(cards).len()),
    )
}

/// Whether the card's deadline is within `[now, soon]` and not complete.
fn card_due_soon(card: &TrelloCard, now: &Vec<char>, soon: &Vec<char>) -> (r: bool)
    ensures
        r == is_due_soon(card@, now@, soon@),
{
    match &card.due {
        Some(d) => {
            let dc = chars_of(d.as_str());
            let done = match card.due_complete {
                Some(b) => b,
                None => false,
            };
            !lex_lt_exec(&dc, now) && !lex_lt_exec(soon, &dc) && !done
        },
        None => false,
    }
}

/// Collects the keys (and, for labels, colours) of every card.
fn collect_keys(cards: &Vec<TrelloCard>) -> (r: (
    Vec<Vec<char>>,
    Vec<Vec<char>>,
    Vec<Option<String>>,
    Vec<Vec<char>>,
))
    ensures
        r.0@.map_values(|k: Vec<char>| k@) == card_views(cards@).map_values(|c: CardView| list_key(c)),
        r.1@.map_values(|k: Vec<char>| k@) == label_entries(card_views(cards@)).map_values(
            |l: LabelView| l.name,
        ),
        r.2@.map_values(|p: Option<String>| opt_str(p)) == label_entries(card_views(cards@)).map_values(
            |l: LabelView| l.color,
        ),
        r.3@.map_values(|k: Vec<char>| k@) == member_entries(card_views(cards@)).map_values(
            |m: MemberView| m.full_name,
        ),
{
    let ghost cs = card_views(cards@);
    let mut lists: Vec<Vec<char>> = Vec::new();
    let mut labels: Vec<Vec<char>> = Vec::new();
    let mut colors: Vec<Option<String>> = Vec::new();
    let mut members: Vec<Vec<char>> = Vec::new();
    let mut i: usize = 0;
    assert(cs.take(0) =~= Seq::<CardView>::empty());
    while i < cards.len()
        invariant
            i <= cards.len(),
            cs == card_views(cards@),
            lists@.map_values(|k: Vec<char>| k@) == cs.take(i as int).map_values(
                |c: CardView| list_key(c),
            ),
            labels@.map_values(|k: Vec<char>| k@) == label_entries(cs.take(i as int)).map_values(
                |l: LabelView| l.name,
            ),
            colors@.map_values(|p: Option<String>| opt_str(p)) == label_entries(
                cs.take(i as int),
            ).map_values(|l: LabelView| l.color),
            members@.map_values(|k: Vec<char>| k@) == member_entries(cs.take(i as int)).map_values(
                |m: MemberView| m.full_name,
            ),
        decreases cards.len() - i,
    {
        let card = &cards[i];
        let ghost c = cs[i as int];
        assert(c == card@);
        assert(cs.take(i + 1).drop_last() =~= cs.take(i as int));
        assert(cs.take(i + 1).last() == c);
        // list
        let key = match &card.list_name {
            Some(n) => chars_of(n.as_str()),
            None => chars_of("Unknown"),
        };
        let ghost before_lists = lists@.map_values(|k: Vec<char>| k@);
        let ghost kv = key@;
        assert(kv == list_key(c));
        lists.push(key);
        assert(lists@.map_values(|k: Vec<char>| k@) =~= before_lists.push(kv));
        assert(cs.take(i + 1).map_values(|c: CardView| list_key(c)) =~= cs.take(i as int).map_values(
            |c: CardView| list_key(c),
        ).push(list_key(c)));
        assert(lists@.map_values(|k: Vec<char>| k@) =~= cs.take(i + 1).map_values(
            |c: CardView| list_key(c),
        ));
        // labels
        let ghost lab0 = labels@.map_values(|k: Vec<char>| k@);
        let ghost col0 = colors@.map_values(|p: Option<String>| opt_str(p));
        let ghost ls = c.labels;
        let mut j: usize = 0;
        assert(ls.take(0) =~= Seq::<LabelView>::empty());
        assert(lab0 + named_labels(ls.take(0)).map_values(|l: LabelView| l.name) =~= lab0);
        assert(col0 + named_labels(ls.take(0)).map_values(|l: LabelView| l.color) =~= col0);
        while j < card.labels.len()
            invariant
                j <= card.labels.len(),
                ls == card@.labels,
                labels@.map_values(|k: Vec<char>| k@) == lab0 + named_labels(ls.take(j as int)).map_values(
                    |l: LabelView| l.name,
                ),
                colors@.map_values(|p: Option<String>| opt_str(p)) == col0 + named_labels(
                    ls.take(j as int),
                ).map_values(|l: LabelView| l.color),
            decreases card.labels.len() - j,
        {
            let l = &card.labels[j];
            assert(ls.take(j + 1) =~= ls.take(j as int).push(ls[j as int]));
            assert(ls[j as int] == l@);
            proof {
                lemma_keep_push(ls.take(j as int), ls[j as int], |l: LabelView| l.name.len() > 0);
            }
            if !l.name.as_str().is_empty() {
                let ghost b1 = labels@.map_values(|k: Vec<char>| k@);
                let ghost b2 = colors@.map_values(|p: Option<String>| opt_str(p));
                labels.push(chars_of(l.name.as_str()));
                colors.push(match &l.color { Some(c) => Some(c.clone()), None => None });
                assert(labels@.map_values(|k: Vec<char>| k@) =~= b1.push(l@.name));
                assert(colors@.map_values(|p: Option<String>| opt_str(p)) =~= b2.push(l@.color));
                assert(lab0 + named_labels(ls.take(j + 1)).map_values(|l: LabelView| l.name) =~= b1.push(
                    l@.name,
                ));
                assert(col0 + named_labels(ls.take(j + 1)).map_values(|l: LabelView| l.color) =~= b2.push(
                    l@.color,
                ));
            }
            j = j + 1;
        }
        assert(ls.take(card.labels.len() as int) =~= ls);
        assert(label_entries(cs.take(i + 1)) == label_entries(cs.take(i as int)) + named_labels(ls));
        assert(labels@.map_values(|k: Vec<char>| k@) =~= label_entries(cs.take(i + 1)).map_values(
            |l: LabelView| l.name,
        ));
        assert(colors@.map_values(|p: Option<String>| opt_str(p)) =~= label_entries(
            cs.take(i + 1),
        ).map_values(|l: LabelView| l.color));
        // members
        let ghost mem0 = members@.map_values(|k: Vec<char>| k@);
        let mut j: usize = 0;
        while j < card.members.len()
            invariant
                j <= card.members.len(),
                members@.map_values(|k: Vec<char>| k@) == mem0 + card@.members.take(j as int).map_values(
                    |m: MemberView| m.full_name,
                ),
            decreases card.members.len() - j,
        {
            let ghost b = members@.map_values(|k: Vec<char>| k@);
            let name = chars_of(card.members[j].full_name.as_str());
            let ghost nv = name@;
            members.push(name);
            assert(members@.map_values(|k: Vec<char>| k@) =~= b.push(nv));
            assert(card@.members.take(j + 1).map_values(|m: MemberView| m.full_name) =~= card@.members.take(
                j as int,
            ).map_values(|m: MemberView| m.full_name).push(card@.members[j as int].full_name));
            assert(members@.map_values(|k: Vec<char>| k@) =~= mem0 + card@.members.take(j + 1).map_values(
                |m: MemberView| m.full_name,
            ));
            j = j + 1;
        }
        assert(card@.members.take(card.members.len() as int) =~= card@.members);
        assert(member_entries(cs.take(i + 1)) == member_entries(cs.take(i as int)) + c.members);
        assert(members@.map_values(|k: Vec<char>| k@) =~= member_entries(cs.take(i + 1)).map_values(
            |m: MemberView| m.full_name,
        ));
        i = i + 1;
    }
    assert(cs.take(cards.len() as int) =~= cs);
    (lists, labels, colors, members)
}

/// No payloads, one per key.
fn nones(n: usize) -> (r: Vec<Option<String>>)
    ensures
        r@.map_values(|p: Option<String>| opt_str(p)) == no_payload(n as nat),
        r.len() == n,
{
    let mut r: Vec<Option<String>> = Vec::new();
    let mut i: usize = 0;
    while i < n
        invariant
            i <= n,
            r@.map_values(|p: Option<String>| opt_str(p)) == no_payload(i as nat),
        decreases n - i,
    {
        let ghost b = r@.map_values(|p: Option<String>| opt_str(p));
        r.push(None);
        assert(r@.map_values(|p: Option<String>| opt_str(p)) =~= b.push(None));
        assert(r@.map_values(|p: Option<String>| opt_str(p)) =~= no_payload((i + 1) as nat));
        i = i + 1;
    }
    r
}

/// The number of cards in each list, in order of first appearance.
pub fn cards_per_list(cards: &Vec<TrelloCard>) -> (r: Vec<StatItem>)
    ensures
        item_views(r@) == groups(
            card_views(cards@).map_values(|c: CardView| list_key(c)),
            no_payload(cards@.len()),
        ),
{
    let (lists, _labels, _colors, _members) = collect_keys(cards);
    let pay = nones(lists.len());
    assert(lists@.len() == cards@.len()) by {
        assert(lists@.map_values(|k: Vec<char>| k@).len() == card_views(cards@).map_values(|c: CardView| list_key(c)).len());
    }
    group_keys(&lists, &pay)
}

/// Computes board analytics at the instant `now`, with `soon` the end of the
/// "due soon" window (both RFC 3339 timestamps); see `stats_ok`.
pub fn board_stats_at(cards: &Vec<TrelloCard>, now: &str, soon: &str) -> (r: StatsResponse)
    ensures
        stats_ok(r, card_views(cards@), now@, soon@),
{
    let ghost cs = card_views(cards@);
    let nw = chars_of(now);
    let sn = chars_of(soon);
    let mut overdue: usize = 0;
    let mut due_soon: usize = 0;
    let mut no_due: usize = 0;
    let mut i: usize = 0;
    assert(cs.take(0) =~= Seq::<CardView>::empty());
    while i < cards.len()
        invariant
            i <= cards.len(),
            cs == card_views(cards@),
            nw@ == now@,
            sn@ == soon@,
            overdue == keep(cs.take(i as int), |c: CardView| is_overdue(c, now@)).len(),
            due_soon == keep(cs.take(i as int), |c: CardView| is_due_soon(c, now@, soon@)).len(),
            no_due == keep(cs.take(i as int), |c: CardView| !has_due(c)).len(),
            overdue <= i,
            due_soon <= i,
            no_due <= i,
        decreases cards.len() - i,
    {
        let card = &cards[i];
        proof {
            assert(cs.take(i + 1) =~= cs.take(i as int).push(cs[i as int]));
            lemma_keep_push(cs.take(i as int), cs[i as int], |c: CardView| is_overdue(c, now@));
            lemma_keep_push(cs.take(i as int), cs[i as int], |c: CardView| is_due_soon(c, now@, soon@));
            lemma_keep_push(cs.take(i as int), cs[i as int], |c: CardView| !has_due(c));
        }
        if crate::cards::card_is_overdue(card, &nw) {
            overdue = overdue + 1;
        }
        if card_due_soon(card, &nw, &sn) {
            due_soon = due_soon + 1;
        }
        if card.due.is_none() {
            no_due = no_due + 1;
        }
        i = i + 1;
    }
    assert(cs.take(cards.len() as int) =~= cs);
    let (lists, labels, colors, members) = collect_keys(cards);
    let list_pay = nones(lists.len());
    let member_pay = nones(members.len());
    proof {
        assert(lists@.len() == cs.len()) by {
            assert(lists@.map_values(|k: Vec<char>| k@).len() == cs.map_values(|c: CardView| list_key(c)).len());
        }
        assert(members@.len() == member_entries(cs).len()) by {
            assert(members@.map_values(|k: Vec<char>| k@).len() == member_entries(cs).map_values(|m: MemberView| m.full_name).len());
        }
        assert(labels@.len() == colors@.len()) by {
            assert(labels@.map_values(|k: Vec<char>| k@).len() == label_entries(cs).map_values(|l: LabelView| l.name).len());
            assert(colors@.map_values(|p: Option<String>| opt_str(p)).len() == label_entries(cs).map_values(|l: LabelView| l.color).len());
        }
    }
    StatsResponse {
        total_cards: cards.len(),
        overdue_count: overdue,
        due_soon_count: due_soon,
        no_due_count: no_due,
        by_list: group_keys(&lists, &list_pay),
        by_label: group_keys(&labels, &colors),
        by_member: group_keys(&members, &member_pay),
    }
}

} // verus!

verus! {

/// Computes board analytics now, with a "due soon" window of seven days.  The
/// result is what `board_stats_at` gives for some instants.
pub fn board_stats(cards: &Vec<TrelloCard>) -> (r: StatsResponse)
    ensures
        exists|now: Seq<char>, soon: Seq<char>|
            #[trigger] stats_ok(r, card_views(cards@), now, soon) && crate::clock::rfc3339_utc(now)
                && crate::clock::rfc3339_utc(soon),
{
    let now = crate::clock::utc_now_rfc3339();
    let soon = crate::clock::utc_rfc3339_in_days(7);
    board_stats_at(cards, now.as_str(), soon.as_str())
}

// ---------------------------------------------------------------------
// Laws of the breakdowns
// ---------------------------------------------------------------------

/// The sum of the sizes of the groups.
pub open spec fn total_count(g: Seq<StatItemView>) -> nat
    decreases g.len(),
{
    if g.len() == 0 {
        0
    } else {
        total_count(g.drop_last()) + g.last().count
    }
}

/// The number of occurrences, among the keys, of the keys of `d`.
pub open spec fn sum_counts(d: Seq<Seq<char>>, keys: Seq<Seq<char>>) -> nat
    decreases d.len(),
{
    if d.len() == 0 {
        0
    } else {
        sum_counts(d.drop_last(), keys) + count_key(keys, d.last())
    }
}

/// One more key adds one occurrence when its key is among `d` (which holds
/// no key twice), none otherwise.
proof fn lemma_sum_counts_push(d: Seq<Seq<char>>, keys: Seq<Seq<char>>, x: Seq<char>)
    requires
        forall|i: int, j: int| 0 <= i < j < d.len() ==> d[i] != d[j],
    ensures
        sum_counts(d, keys.push(x)) == sum_counts(d, keys) + if d.contains(x) { 1nat } else { 0nat },
    decreases d.len(),
{
    if d.len() > 0 {
        let e = d.drop_last();
        lemma_sum_counts_push(e, keys, x);
        assert(keys.push(x).drop_last() =~= keys);
        assert(d.contains(x) <==> (e.contains(x) || d.last() == x)) by {
            if d.contains(x) {
                let i = choose|i: int| 0 <= i < d.len() && d[i] == x;
                if i < e.len() {
                    assert(e[i] == x);
                }
            }
            if e.contains(x) {
                let i = choose|i: int| 0 <= i < e.len() && e[i] == x;
                assert(d[i] == x);
            }
        }
        assert(!(e.contains(x) && d.last() == x)) by {
            if e.contains(x) && d.last() == x {
                let i = choose|i: int| 0 <= i < e.len() && e[i] == x;
                assert(d[i] == d[d.len() - 1]);
            }
        }
    }
}

/// Every key is counted in exactly one group.
pub proof fn lemma_sum_distinct(keys: Seq<Seq<char>>)
    ensures
        sum_counts(distinct_keys(keys), keys) == keys.len(),
    decreases keys.len(),
{
    if keys.len() > 0 {
        let p = keys.drop_last();
        let x = keys.last();
        let d = distinct_keys(p);
        lemma_sum_distinct(p);
        lemma_distinct_keys(p);
        assert(keys =~= p.push(x));
        lemma_sum_counts_push(d, p, x);
        if !d.contains(x) {
            assert(d.push(x).drop_last() =~= d);
            lemma_count_absent(p, x);
        }
    }
}

/// The sizes of the groups of `d`, summed.
proof fn lemma_total_of_groups(d: Seq<Seq<char>>, keys: Seq<Seq<char>>, pay: Seq<Option<Seq<char>>>)
    ensures
        total_count(
            d.map_values(
                |k: Seq<char>| StatItemView {
                    name: k,
                    count: count_key(keys, k),
                    color: first_payload(keys, pay, k),
                },
            ),
        ) == sum_counts(d, keys),
    decreases d.len(),
{
    let f = |k: Seq<char>| StatItemView {
        name: k,
        count: count_key(keys, k),
        color: first_payload(keys, pay, k),
    };
    if d.len() > 0 {
        lemma_total_of_groups(d.drop_last(), keys, pay);
        assert(d.map_values(f).drop_last() =~= d.drop_last().map_values(f));
    }
}

/// A breakdown puts every key in exactly one group: the group sizes add up
/// to the number of keys, no two groups share a name, and each key's group
/// counts its occurrences.
pub proof fn lemma_groups_partition(keys: Seq<Seq<char>>, pay: Seq<Option<Seq<char>>>)
    ensures
        total_count(groups(keys, pay)) == keys.len(),
        forall|i: int, j: int|
            0 <= i < j < groups(keys, pay).len() ==> (#[trigger] groups(keys, pay)[i]).name
                != (#[trigger] groups(keys, pay)[j]).name,
        forall|k: Seq<char>|
            keys.contains(k) ==> exists|i: int|
                0 <= i < groups(keys, pay).len() && (#[trigger] groups(keys, pay)[i]).name == k
                    && groups(keys, pay)[i].count == count_key(keys, k),
{
    lemma_distinct_keys(keys);
    lemma_sum_distinct(keys);
    lemma_total_of_groups(distinct_keys(keys), keys, pay);
    let d = distinct_keys(keys);
    let g = groups(keys, pay);
    assert forall|k: Seq<char>| keys.contains(k) implies exists|i: int|
        0 <= i < g.len() && (#[trigger] g[i]).name == k && g[i].count == count_key(keys, k) by {
        assert(d.contains(k));
        let i = choose|i: int| 0 <= i < d.len() && d[i] == k;
        assert(g[i].name == k);
    }
}

/// The statistics count every card once among the lists: the per-list counts
/// add up to the total.
pub proof fn lemma_stats_lists_total(r: StatsResponse, cards: Seq<CardView>, now: Seq<char>, soon: Seq<char>)
    requires
        stats_ok(r, cards, now, soon),
    ensures
        total_count(item_views(r.by_list@)) == r.total_cards,
        r.overdue_count <= r.total_cards,
        r.due_soon_count <= r.total_cards,
        r.no_due_count <= r.total_cards,
{
    lemma_groups_partition(cards.map_values(|c: CardView| list_key(c)), no_payload(cards.len()));
    crate::seqs::lemma_keep_sound(cards, |c: CardView| is_overdue(c, now));
    crate::seqs::lemma_keep_sound(cards, |c: CardView| is_due_soon(c, now, soon));
    crate::seqs::lemma_keep_sound(cards, |c: CardView| !has_due(c));
}

/// The deadline counts of the statistics: a card is due soon exactly when its
/// deadline `d` has `now <= d <= soon` (as text) and it is not complete, so a
/// deadline after `soon` is never counted; it is overdue exactly when `d <
/// now` and it is not complete; and the cards without a deadline are counted
/// apart.
pub proof fn lemma_stats_deadline_counts(
    r: StatsResponse,
    cards: Seq<CardView>,
    now: Seq<char>,
    soon: Seq<char>,
)
    requires
        stats_ok(r, cards, now, soon),
    ensures
        r.due_soon_count == keep(
            cards,
            |c: CardView|
                c.due is Some && !lex_lt(c.due->0, now) && !lex_lt(soon, c.due->0) && c.due_complete
                    != Some(true),
        ).len(),
        r.overdue_count == keep(
            cards,
            |c: CardView| c.due is Some && lex_lt(c.due->0, now) && c.due_complete != Some(true),
        ).len(),
        r.no_due_count == keep(cards, |c: CardView| c.due is None).len(),
{
    let a = |c: CardView| is_due_soon(c, now, soon);
    let b = |c: CardView|
        c.due is Some && !lex_lt(c.due->0, now) && !lex_lt(soon, c.due->0) && c.due_complete != Some(
            true,
        );
    assert(a =~= b);
    let o1 = |c: CardView| is_overdue(c, now);
    let o2 = |c: CardView| c.due is Some && lex_lt(c.due->0, now) && c.due_complete != Some(true);
    assert(o1 =~= o2);
    let n1 = |c: CardView| !has_due(c);
    let n2 = |c: CardView| c.due is None;
    assert(n1 =~= n2);
}

} // verus!
