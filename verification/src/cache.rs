use vstd::prelude::*;

use crate::models::{card_views, CardView, TrelloCard};
use crate::seqs::keep;
use crate::stats::{count_key, distinct_keys, groups, item_views, list_key, no_payload, StatItemView};
use crate::text::{concat3, decimal, fmt_usize, push_str, views};

verus! {

// ---------------------------------------------------------------------
// Cache keys
// ---------------------------------------------------------------------

/// Key of a card's record.
pub fn card_key(board_id: &str, card_id: &str) -> (r: String)
    ensures
        r@ == "trello:"@ + board_id@ + ":card:"@ + card_id@,
{
    let mut r = concat3("trello:", board_id, ":card:");
    push_str(&mut r, card_id);
    r
}

/// Key of the index of card ids.
pub fn cards_index_key(board_id: &str) -> (r: String)
    ensures
        r@ == "trello:"@ + board_id@ + ":cards_index"@,
{
    concat3("trello:", board_id, ":cards_index")
}

/// Key of the board's lists.
pub fn lists_key(board_id: &str) -> (r: String)
    ensures
        r@ == "trello:"@ + board_id@ + ":lists"@,
{
    concat3("trello:", board_id, ":lists")
}

/// Key of the board's own record.
pub fn board_key(board_id: &str) -> (r: String)
    ensures
        r@ == "trello:"@ + board_id@ + ":board_info"@,
{
    concat3("trello:", board_id, ":board_info")
}

// ---------------------------------------------------------------------
// The index of card ids
// ---------------------------------------------------------------------

/// The index after a card is stored: unchanged when it already lists the id,
/// else the id appended.
pub open spec fn upserted(ids: Seq<Seq<char>>, id: Seq<char>) -> Seq<Seq<char>> {
    if ids.contains(id) {
        ids
    } else {
        ids.push(id)
    }
}

/// The index after a card is deleted: every other id, in order.
pub open spec fn removed(ids: Seq<Seq<char>>, id: Seq<char>) -> Seq<Seq<char>>
    decreases ids.len(),
{
    if ids.len() == 0 {
        Seq::empty()
    } else if ids.last() == id {
        removed(ids.drop_last(), id)
    } else {
        removed(ids.drop_last(), id).push(ids.last())
    }
}

/// Whether the index lists the id.
pub fn index_contains(ids: &Vec<String>, id: &str) -> (r: bool)
    ensures
        r == views(ids@).contains(id@),
{
    let mut i: usize = 0;
    while i < ids.len()
        invariant
            i <= ids.len(),
            forall|j: int| 0 <= j < i ==> ids@[j]@ != id@,
        decreases ids.len() - i,
    {
        if crate::text::str_eq(ids[i].as_str(), id) {
            assert(views(ids@)[i as int] == id@);
            return true;
        }
        i = i + 1;
    }
    assert forall|j: int| 0 <= j < views(ids@).len() implies views(ids@)[j] != id@ by {
        assert(views(ids@)[j] == ids@[j]@);
    }
    false
}

/// Adds a card id to the index.  Returns whether the index changed (and so
/// must be written back).
pub fn index_upsert(ids: &mut Vec<String>, id: &str) -> (changed: bool)
    ensures
        views(final(ids)@) == upserted(views(old(ids)@), id@),
        changed == !views(old(ids)@).contains(id@),
{
    if index_contains(ids, id) {
        false
    } else {
        let ghost before = views(ids@);
        ids.push(String::from_str(id));
        assert(views(ids@) =~= before.push(id@));
        true
    }
}

/// Removes every occurrence of a card id from the index.
pub fn index_remove(ids: &mut Vec<String>, id: &str) -> (r: ())
    ensures
        views(final(ids)@) == removed(views(old(ids)@), id@),
{
    let ghost orig = views(ids@);
    let mut kept: Vec<String> = Vec::new();
    let mut i: usize = 0;
    assert(orig.take(0) =~= Seq::<Seq<char>>::empty());
    while i < ids.len()
        invariant
            i <= ids.len(),
            orig == views(ids@),
            views(kept@) == removed(orig.take(i as int), id@),
        decreases ids.len() - i,
    {
        assert(orig.take(i + 1).drop_last() =~= orig.take(i as int));
        assert(orig.take(i + 1).last() == ids@[i as int]@);
        if !crate::text::str_eq(ids[i].as_str(), id) {
            let ghost before = views(kept@);
            kept.push(ids[i].clone());
            assert(views(kept@) =~= before.push(ids@[i as int]@));
        }
        i = i + 1;
    }
    assert(orig.take(ids.len() as int) =~= orig);
    *ids = kept;
}

// ---------------------------------------------------------------------
// Board summary
// ---------------------------------------------------------------------

/// The per-list part of the summary: `, N in 'list'` for each list.
pub open spec fn summary_lists(g: Seq<StatItemView>) -> Seq<char>
    decreases g.len(),
{
    if g.len() == 0 {
        Seq::empty()
    } else {
        summary_lists(g.drop_last()) + ", "@ + decimal(g.last().count) + " in '"@ + g.last().name
            + "'"@
    }
}

/// How many cards have a deadline.
pub open spec fn with_due_count(cards: Seq<CardView>) -> nat
    decreases cards.len(),
{
    if cards.len() == 0 {
        0
    } else {
        with_due_count(cards.drop_last()) + if cards.last().due is Some { 1nat } else { 0nat }
    }
}

/// A one-paragraph summary of the board: its name ("Unknown" when not known),
/// the number of cards, the number in each list (in order of first
/// appearance) and, when some cards have deadlines, how many.
pub open spec fn board_summary_text(name: Option<Seq<char>>, cards: Seq<CardView>) -> Seq<char> {
    let n = match name {
        Some(n) => n,
        None => "Unknown"@,
    };
    let g = groups(cards.map_values(|c: CardView| list_key(c)), no_payload(cards.len()));
    let d = with_due_count(cards);
    "Board '"@ + n + "': "@ + decimal(cards.len()) + " cards total"@ + summary_lists(g) + (if d > 0 {
        ". "@ + decimal(d) + " cards have deadlines"@
    } else {
        Seq::empty()
    })
}

/// Summarises the board in one paragraph; see `board_summary_text`.
pub fn board_summary(board_name: Option<String>, cards: &Vec<TrelloCard>) -> (r: String)
    ensures
        r@ == board_summary_text(crate::models::opt_str(board_name), card_views(cards@)),
{
    let ghost cs = card_views(cards@);
    let groups_v = crate::stats::cards_per_list(cards);
    let mut with_due: usize = 0;
    let mut i: usize = 0;
    assert(cs.take(0) =~= Seq::<CardView>::empty());
    while i < cards.len()
        invariant
            i <= cards.len(),
            cs == card_views(cards@),
            with_due <= i,
            with_due == with_due_count(cs.take(i as int)),
        decreases cards.len() - i,
    {
        assert(cs.take(i + 1).drop_last() =~= cs.take(i as int));
        if cards[i].due.is_some() {
            with_due = with_due + 1;
        }
        i = i + 1;
    }
    assert(cs.take(cards.len() as int) =~= cs);
    let mut s = String::from_str("Board '");
    match &board_name {
        Some(n) => push_str(&mut s, n.as_str()),
        None => push_str(&mut s, "Unknown"),
    }
    push_str(&mut s, "': ");
    push_str(&mut s, fmt_usize(cards.len()).as_str());
    push_str(&mut s, " cards total");
    let ghost head = s@;
    let ghost gv = item_views(groups_v@);
    let mut k: usize = 0;
    assert(gv.take(0) =~= Seq::<StatItemView>::empty());
    assert(s@ =~= head + summary_lists(gv.take(0)));
    while k < groups_v.len()
        invariant
            k <= groups_v.len(),
            gv == item_views(groups_v@),
            s@ == head + summary_lists(gv.take(k as int)),
        decreases groups_v.len() - k,
    {
        let item = &groups_v[k];
        push_str(&mut s, ", ");
        push_str(&mut s, fmt_usize(item.count).as_str());
        push_str(&mut s, " in '");
        push_str(&mut s, item.name.as_str());
        push_str(&mut s, "'");
        assert(gv.take(k + 1).drop_last() =~= gv.take(k as int));
        assert(gv.take(k + 1).last() == item@);
        assert(s@ =~= head + summary_lists(gv.take(k + 1)));
        k = k + 1;
    }
    assert(gv.take(groups_v.len() as int) =~= gv);
    let ghost body = s@;
    if with_due > 0 {
        push_str(&mut s, ". ");
        push_str(&mut s, fmt_usize(with_due).as_str());
        push_str(&mut s, " cards have deadlines");
        assert(s@ =~= body + (". "@ + decimal(with_due as nat) + " cards have deadlines"@));
    } else {
        assert(s@ =~= body + Seq::<char>::empty());
    }
    s
}

// ---------------------------------------------------------------------
// Laws of the index
// ---------------------------------------------------------------------

/// No id occurs twice.
pub open spec fn no_duplicates(ids: Seq<Seq<char>>) -> bool {
    forall|i: int, j: int| 0 <= i < j < ids.len() ==> ids[i] != ids[j]
}

/// After storing a card the index lists its id (where it was, or appended
/// last when it was absent), lists every id it listed before and nothing else,
/// never lists an id twice if it did not before (so the card's id once), and
/// storing the same card again changes nothing.
pub proof fn lemma_upsert(ids: Seq<Seq<char>>, id: Seq<char>)
    ensures
        upserted(ids, id).contains(id),
        ids.contains(id) ==> upserted(ids, id) == ids,
        !ids.contains(id) ==> upserted(ids, id) == ids.push(id),
        no_duplicates(ids) ==> forall|i: int, j: int|
            0 <= i < upserted(ids, id).len() && 0 <= j < upserted(ids, id).len() && upserted(ids, id)[i]
                == id && upserted(ids, id)[j] == id ==> i == j,
        forall|x: Seq<char>| upserted(ids, id).contains(x) <==> (ids.contains(x) || x == id),
        no_duplicates(ids) ==> no_duplicates(upserted(ids, id)),
        upserted(upserted(ids, id), id) == upserted(ids, id),
{
    if !ids.contains(id) {
        let u = ids.push(id);
        assert(u[ids.len() as int] == id);
        assert forall|x: Seq<char>| u.contains(x) <==> (ids.contains(x) || x == id) by {
            if u.contains(x) {
                let i = choose|i: int| 0 <= i < u.len() && u[i] == x;
                if i < ids.len() {
                    assert(ids[i] == x);
                }
            }
            if ids.contains(x) {
                let i = choose|i: int| 0 <= i < ids.len() && ids[i] == x;
                assert(u[i] == x);
            }
        }
        assert(no_duplicates(ids) ==> no_duplicates(u)) by {
            if no_duplicates(ids) {
                assert forall|i: int, j: int| 0 <= i < j < u.len() implies u[i] != u[j] by {
                    if j == ids.len() {
                        assert(u[i] == ids[i]);
                    }
                }
            }
        }
    }
}

/// Removal keeps exactly the other ids, in their order.
proof fn lemma_removed_contains(ids: Seq<Seq<char>>, id: Seq<char>)
    ensures
        forall|x: Seq<char>| removed(ids, id).contains(x) <==> (ids.contains(x) && x != id),
        removed(ids, id).len() <= ids.len(),
        no_duplicates(ids) ==> no_duplicates(removed(ids, id)),
    decreases ids.len(),
{
    if ids.len() > 0 {
        let p = ids.drop_last();
        let y = ids.last();
        lemma_removed_contains(p, id);
        let r = removed(p, id);
        assert forall|x: Seq<char>| ids.contains(x) <==> (p.contains(x) || x == y) by {
            if ids.contains(x) {
                let i = choose|i: int| 0 <= i < ids.len() && ids[i] == x;
                if i < p.len() {
                    assert(p[i] == x);
                }
            }
            if p.contains(x) {
                let i = choose|i: int| 0 <= i < p.len() && p[i] == x;
                assert(ids[i] == x);
            }
            if x == y {
                assert(ids[ids.len() - 1] == x);
            }
        }
        if y != id {
            let e = r.push(y);
            assert forall|x: Seq<char>| e.contains(x) <==> (r.contains(x) || x == y) by {
                if e.contains(x) {
                    let i = choose|i: int| 0 <= i < e.len() && e[i] == x;
                    if i < r.len() {
                        assert(r[i] == x);
                    }
                }
                if r.contains(x) {
                    let i = choose|i: int| 0 <= i < r.len() && r[i] == x;
                    assert(e[i] == x);
                }
                if x == y {
                    assert(e[r.len() as int] == x);
                }
            }
            assert(no_duplicates(ids) ==> no_duplicates(e)) by {
                if no_duplicates(ids) {
                    assert(!p.contains(y)) by {
                        if p.contains(y) {
                            let i = choose|i: int| 0 <= i < p.len() && p[i] == y;
                            assert(ids[i] == ids[ids.len() - 1]);
                        }
                    }
                    assert(no_duplicates(p)) by {
                        assert forall|i: int, j: int| 0 <= i < j < p.len() implies p[i] != p[j] by {
                            assert(p[i] == ids[i] && p[j] == ids[j]);
                        }
                    }
                    assert forall|i: int, j: int| 0 <= i < j < e.len() implies e[i] != e[j] by {
                        if j == r.len() {
                            assert(e[i] == r[i]);
                            assert(r.contains(r[i]));
                        }
                    }
                }
            }
            assert(removed(ids, id) == e);
            assert forall|x: Seq<char>| removed(ids, id).contains(x) <==> (ids.contains(x) && x != id) by {
                assert(e.contains(x) <==> (r.contains(x) || x == y));
                assert(ids.contains(x) <==> (p.contains(x) || x == y));
                assert(r.contains(x) <==> (p.contains(x) && x != id));
            }
        } else {
            assert(removed(ids, id) == r);
            assert forall|x: Seq<char>| removed(ids, id).contains(x) <==> (ids.contains(x) && x != id) by {
                assert(ids.contains(x) <==> (p.contains(x) || x == y));
                assert(r.contains(x) <==> (p.contains(x) && x != id));
            }
            assert(no_duplicates(ids) ==> no_duplicates(p)) by {
                if no_duplicates(ids) {
                    assert forall|i: int, j: int| 0 <= i < j < p.len() implies p[i] != p[j] by {
                        assert(p[i] == ids[i] && p[j] == ids[j]);
                    }
                }
            }
        }
    } else {
        assert forall|x: Seq<char>| removed(ids, id).contains(x) <==> (ids.contains(x) && x != id) by {
            assert(removed(ids, id) =~= Seq::<Seq<char>>::empty());
        }
    }
}

/// Removal keeps the other ids in their order, and removing an id the index
/// lacks leaves it as it was.
proof fn lemma_removed_keep(ids: Seq<Seq<char>>, id: Seq<char>)
    ensures
        removed(ids, id) == keep(ids, |x: Seq<char>| x != id),
        !ids.contains(id) ==> removed(ids, id) == ids,
    decreases ids.len(),
{
    if ids.len() > 0 {
        let p = ids.drop_last();
        lemma_removed_keep(p, id);
        if !ids.contains(id) {
            assert(!p.contains(id)) by {
                if p.contains(id) {
                    let i = choose|i: int| 0 <= i < p.len() && p[i] == id;
                    assert(ids[i] == id);
                }
            }
            assert(ids.last() != id) by {
                assert(ids[ids.len() - 1] == ids.last());
            }
            assert(p.push(ids.last()) =~= ids);
        }
    }
}

/// After deleting a card the index no longer lists its id and still lists
/// every other id it listed, in their order; deleting an id it does not list
/// changes nothing; deleting after storing is the same as deleting, so storing
/// a new card and then deleting it gives the index back as it was.
pub proof fn lemma_remove(ids: Seq<Seq<char>>, id: Seq<char>)
    ensures
        !removed(ids, id).contains(id),
        forall|x: Seq<char>| x != id ==> (removed(ids, id).contains(x) <==> ids.contains(x)),
        removed(ids, id) == keep(ids, |x: Seq<char>| x != id),
        !ids.contains(id) ==> removed(ids, id) == ids,
        no_duplicates(ids) ==> no_duplicates(removed(ids, id)),
        removed(upserted(ids, id), id) == removed(ids, id),
        !ids.contains(id) ==> removed(upserted(ids, id), id) == ids,
{
    lemma_removed_contains(ids, id);
    lemma_removed_keep(ids, id);
    if !ids.contains(id) {
        assert(ids.push(id).drop_last() =~= ids);
    }
}

/// Within a board, different cards are stored under different keys.
pub proof fn lemma_card_keys_distinct(board_id: Seq<char>, a: Seq<char>, b: Seq<char>)
    requires
        a != b,
    ensures
        "trello:"@ + board_id + ":card:"@ + a != "trello:"@ + board_id + ":card:"@ + b,
{
    let p = "trello:"@ + board_id + ":card:"@;
    if p + a == p + b {
        assert((p + a).skip(p.len() as int) =~= a);
        assert((p + b).skip(p.len() as int) =~= b);
    }
}

} // verus!
