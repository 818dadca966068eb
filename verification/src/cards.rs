use vstd::prelude::*;

use crate::models::{card_views, CardView, LabelView, MemberView, TrelloCard};
use crate::seqs::{keep, lemma_select_keep, lemma_select_take, lex_lt, lex_lt_exec, select};
use crate::text::{
    chars_of, concat3, contains, contains_seq, is_ws, is_whitespace, join, join_strings,
    lowercase, starts_with, starts_with_seq, to_lower, views,
};

verus! {

// ---------------------------------------------------------------------
// Card predicates
// ---------------------------------------------------------------------

/// A member whose username or full name contains `q` once lowercased.
pub open spec fn member_hit(m: MemberView, q: Seq<char>) -> bool {
    contains(lowercase(m.username), q) || contains(lowercase(m.full_name), q)
}

/// The card has a member matching `q` (a lowercased query).
pub open spec fn member_matches(c: CardView, q: Seq<char>) -> bool {
    exists|i: int| 0 <= i < c.members.len() && #[trigger] member_hit(c.members[i], q)
}

/// A label whose name or colour contains `q` once lowercased.
pub open spec fn label_hit(l: LabelView, q: Seq<char>) -> bool {
    contains(lowercase(l.name), q) || match l.color {
        Some(col) => contains(lowercase(col), q),
        None => false,
    }
}

/// The card has a label matching `q` (a lowercased query).
pub open spec fn label_matches(c: CardView, q: Seq<char>) -> bool {
    exists|i: int| 0 <= i < c.labels.len() && #[trigger] label_hit(c.labels[i], q)
}

/// The card's list name contains `q` (a lowercased query) once lowercased.
pub open spec fn list_matches(c: CardView, q: Seq<char>) -> bool {
    match c.list_name {
        Some(n) => contains(lowercase(n), q),
        None => false,
    }
}

/// The card's deadline lies before `now` and is not marked complete.
pub open spec fn is_overdue(c: CardView, now: Seq<char>) -> bool {
    match c.due {
        Some(d) => lex_lt(d, now) && c.due_complete != Some(true),
        None => false,
    }
}

/// The card has a deadline.
pub open spec fn has_due(c: CardView) -> bool {
    c.due is Some
}

/// The card's deadline begins with `date` (a `YYYY-MM-DD` day).
pub open spec fn due_on(c: CardView, date: Seq<char>) -> bool {
    match c.due {
        Some(d) => starts_with(d, date),
        None => false,
    }
}

// ---------------------------------------------------------------------
// Executable predicates
// ---------------------------------------------------------------------

/// Whether the lowercased string `s` contains `q`.
fn lower_contains(s: &str, q: &Vec<char>) -> (r: bool)
    ensures
        r == contains(lowercase(s@), q@),
{
    let l = to_lower(s);
    let cs = chars_of(l.as_str());
    contains_seq(&cs, q)
}

/// Whether the card has a member matching the lowercased query `q`.
pub fn card_has_member(card: &TrelloCard, q: &Vec<char>) -> (r: bool)
    ensures
        r == member_matches(card@, q@),
{
    let mut i: usize = 0;
    while i < card.members.len()
        invariant
            i <= card.members.len(),
            forall|j: int| 0 <= j < i ==> !member_hit(#[trigger] card@.members[j], q@),
        decreases card.members.len() - i,
    {
        let m = &card.members[i];
        if lower_contains(m.username.as_str(), q) || lower_contains(m.full_name.as_str(), q) {
            assert(member_hit(card@.members[i as int], q@));
            return true;
        }
        i = i + 1;
    }
    false
}

/// Whether the card has a label matching the lowercased query `q`.
pub fn card_has_label(card: &TrelloCard, q: &Vec<char>) -> (r: bool)
    ensures
        r == label_matches(card@, q@),
{
    let mut i: usize = 0;
    while i < card.labels.len()
        invariant
            i <= card.labels.len(),
            forall|j: int| 0 <= j < i ==> !label_hit(#[trigger] card@.labels[j], q@),
        decreases card.labels.len() - i,
    {
        let l = &card.labels[i];
        let by_color = match &l.color {
            Some(c) => lower_contains(c.as_str(), q),
            None => false,
        };
        if lower_contains(l.name.as_str(), q) || by_color {
            assert(label_hit(card@.labels[i as int], q@));
            return true;
        }
        i = i + 1;
    }
    false
}

/// Whether the card's list name matches the lowercased query `q`.
pub fn card_in_list(card: &TrelloCard, q: &Vec<char>) -> (r: bool)
    ensures
        r == list_matches(card@, q@),
{
    match &card.list_name {
        Some(n) => lower_contains(n.as_str(), q),
        None => false,
    }
}

/// Whether the card is overdue at the instant `now` (an RFC 3339 timestamp).
pub fn card_is_overdue(card: &TrelloCard, now: &Vec<char>) -> (r: bool)
    ensures
        r == is_overdue(card@, now@),
{
    match &card.due {
        Some(d) => {
            let dc = chars_of(d.as_str());
            let done = match card.due_complete {
                Some(b) => b,
                None => false,
            };
            lex_lt_exec(&dc, now) && !done
        },
        None => false,
    }
}

/// Whether the card's deadline falls on `date`.
pub fn card_due_on(card: &TrelloCard, date: &Vec<char>) -> (r: bool)
    ensures
        r == due_on(card@, date@),
{
    match &card.due {
        Some(d) => {
            let dc = chars_of(d.as_str());
            starts_with_seq(&dc, date)
        },
        None => false,
    }
}

// ---------------------------------------------------------------------
// Selection
// ---------------------------------------------------------------------

/// Appends to `out` the cards whose mark is set.
pub fn append_selected(out: &mut Vec<TrelloCard>, cards: &Vec<TrelloCard>, mask: &Vec<bool>)
    requires
        mask.len() == cards.len(),
    ensures
        card_views(final(out)@) == card_views(old(out)@) + select(card_views(cards@), mask@),
{
    let ghost start = card_views(out@);
    let ghost s = card_views(cards@);
    let mut i: usize = 0;
    assert(s.take(0) =~= Seq::<CardView>::empty());
    assert(card_views(out@) =~= start + select(s.take(0), mask@));
    while i < cards.len()
        invariant
            i <= cards.len(),
            mask.len() == cards.len(),
            s == card_views(cards@),
            card_views(out@) == start + select(s.take(i as int), mask@),
        decreases cards.len() - i,
    {
        proof {
            lemma_select_take(s, mask@, i as int);
        }
        if mask[i] {
            let ghost before = card_views(out@);
            out.push(cards[i].clone());
            assert(card_views(out@) =~= before.push(s[i as int]));
            assert(start + select(s.take(i as int), mask@).push(s[i as int]) =~= start + select(
                s.take(i as int),
                mask@,
            ).push(s[i as int]));
        }
        i = i + 1;
    }
    assert(s.take(cards.len() as int) =~= s);
}

/// The cards whose mark is set.
pub fn selected(cards: &Vec<TrelloCard>, mask: &Vec<bool>) -> (r: Vec<TrelloCard>)
    requires
        mask.len() == cards.len(),
    ensures
        card_views(r@) == select(card_views(cards@), mask@),
{
    let mut out: Vec<TrelloCard> = Vec::new();
    assert(card_views(out@) =~= Seq::<CardView>::empty());
    append_selected(&mut out, cards, mask);
    assert(card_views(out@) =~= select(card_views(cards@), mask@));
    out
}

// ---------------------------------------------------------------------
// Filters
// ---------------------------------------------------------------------

/// Cards with a member whose username or full name contains `member`
/// (case-insensitively), in their order.
pub fn cards_by_member(cards: &Vec<TrelloCard>, member: &str) -> (r: Vec<TrelloCard>)
    ensures
        card_views(r@) == keep(
            card_views(cards@),
            |c: CardView| member_matches(c, lowercase(member@)),
        ),
{
    let q = chars_of(to_lower(member).as_str());
    let mut mask: Vec<bool> = Vec::new();
    let mut i: usize = 0;
    while i < cards.len()
        invariant
            i <= cards.len(),
            mask.len() == i,
            q@ == lowercase(member@),
            forall|j: int| 0 <= j < i ==> mask@[j] == member_matches(#[trigger] cards@[j]@, q@),
        decreases cards.len() - i,
    {
        mask.push(card_has_member(&cards[i], &q));
        i = i + 1;
    }
    proof {
        lemma_select_keep(card_views(cards@), mask@, |c: CardView| member_matches(c, q@));
    }
    selected(cards, &mask)
}

/// Cards with a label whose name or colour contains `label`
/// (case-insensitively), in their order.
pub fn cards_by_label(cards: &Vec<TrelloCard>, label: &str) -> (r: Vec<TrelloCard>)
    ensures
        card_views(r@) == keep(
            card_views(cards@),
            |c: CardView| label_matches(c, lowercase(label@)),
        ),
{
    let q = chars_of(to_lower(label).as_str());
    let mut mask: Vec<bool> = Vec::new();
    let mut i: usize = 0;
    while i < cards.len()
        invariant
            i <= cards.len(),
            mask.len() == i,
            q@ == lowercase(label@),
            forall|j: int| 0 <= j < i ==> mask@[j] == label_matches(#[trigger] cards@[j]@, q@),
        decreases cards.len() - i,
    {
        mask.push(card_has_label(&cards[i], &q));
        i = i + 1;
    }
    proof {
        lemma_select_keep(card_views(cards@), mask@, |c: CardView| label_matches(c, q@));
    }
    selected(cards, &mask)
}

/// Cards whose list name contains `list_name` (case-insensitively), in their order.
pub fn cards_by_list(cards: &Vec<TrelloCard>, list_name: &str) -> (r: Vec<TrelloCard>)
    ensures
        card_views(r@) == keep(
            card_views(cards@),
            |c: CardView| list_matches(c, lowercase(list_name@)),
        ),
{
    let q = chars_of(to_lower(list_name).as_str());
    let mut mask: Vec<bool> = Vec::new();
    let mut i: usize = 0;
    while i < cards.len()
        invariant
            i <= cards.len(),
            mask.len() == i,
            q@ == lowercase(list_name@),
            forall|j: int| 0 <= j < i ==> mask@[j] == list_matches(#[trigger] cards@[j]@, q@),
        decreases cards.len() - i,
    {
        mask.push(card_in_list(&cards[i], &q));
        i = i + 1;
    }
    proof {
        lemma_select_keep(card_views(cards@), mask@, |c: CardView| list_matches(c, q@));
    }
    selected(cards, &mask)
}

/// Cards overdue at the instant `now` (an RFC 3339 timestamp), in their order.
pub fn overdue_cards_at(cards: &Vec<TrelloCard>, now: &str) -> (r: Vec<TrelloCard>)
    ensures
        card_views(r@) == keep(card_views(cards@), |c: CardView| is_overdue(c, now@)),
{
    let q = chars_of(now);
    let mut mask: Vec<bool> = Vec::new();
    let mut i: usize = 0;
    while i < cards.len()
        invariant
            i <= cards.len(),
            mask.len() == i,
            q@ == now@,
            forall|j: int| 0 <= j < i ==> mask@[j] == is_overdue(#[trigger] cards@[j]@, q@),
        decreases cards.len() - i,
    {
        mask.push(card_is_overdue(&cards[i], &q));
        i = i + 1;
    }
    proof {
        lemma_select_keep(card_views(cards@), mask@, |c: CardView| is_overdue(c, q@));
    }
    selected(cards, &mask)
}

/// Cards that have a deadline, in their order.
pub fn cards_having_due(cards: &Vec<TrelloCard>) -> (r: Vec<TrelloCard>)
    ensures
        card_views(r@) == keep(card_views(cards@), |c: CardView| has_due(c)),
{
    let mut mask: Vec<bool> = Vec::new();
    let mut i: usize = 0;
    while i < cards.len()
        invariant
            i <= cards.len(),
            mask.len() == i,
            forall|j: int| 0 <= j < i ==> mask@[j] == has_due(#[trigger] cards@[j]@),
        decreases cards.len() - i,
    {
        mask.push(cards[i].due.is_some());
        i = i + 1;
    }
    proof {
        lemma_select_keep(card_views(cards@), mask@, |c: CardView| has_due(c));
    }
    selected(cards, &mask)
}

/// Cards whose deadline falls on `date`, in their order.
pub fn cards_due_on(cards: &Vec<TrelloCard>, date: &str) -> (r: Vec<TrelloCard>)
    ensures
        card_views(r@) == keep(card_views(cards@), |c: CardView| due_on(c, date@)),
{
    let q = chars_of(date);
    let mut mask: Vec<bool> = Vec::new();
    let mut i: usize = 0;
    while i < cards.len()
        invariant
            i <= cards.len(),
            mask.len() == i,
            q@ == date@,
            forall|j: int| 0 <= j < i ==> mask@[j] == due_on(#[trigger] cards@[j]@, q@),
        decreases cards.len() - i,
    {
        mask.push(card_due_on(&cards[i], &q));
        i = i + 1;
    }
    proof {
        lemma_select_keep(card_views(cards@), mask@, |c: CardView| due_on(c, q@));
    }
    selected(cards, &mask)
}

} // verus!

verus! {

/// The cards overdue at the instant `now`, in their order.
pub open spec fn overdue_at(cards: Seq<CardView>, now: Seq<char>) -> Seq<CardView> {
    keep(cards, |c: CardView| is_overdue(c, now))
}

/// Cards overdue now.  The result is what `overdue_cards_at` gives for some instant.
pub fn overdue_cards(cards: &Vec<TrelloCard>) -> (r: Vec<TrelloCard>)
    ensures
        exists|now: Seq<char>|
            #[trigger] crate::clock::rfc3339_utc(now) && card_views(r@) == overdue_at(
                card_views(cards@),
                now,
            ),
{
    let now = crate::clock::utc_now_rfc3339();
    let r = overdue_cards_at(cards, now.as_str());
    assert(card_views(r@) == overdue_at(card_views(cards@), now@));
    assert(crate::clock::rfc3339_utc(now@));
    r
}

} // verus!
