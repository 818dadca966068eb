use vstd::prelude::*;

use crate::models::{card_views, list_views, CardView, ListView, TrelloCard, TrelloList};

verus! {

/// The name the board's lists give to the list with id `id`: that of the last
/// list with this id (a map built from the lists keeps the last entry).
pub open spec fn list_name_of(lists: Seq<ListView>, id: Seq<char>) -> Option<Seq<char>>
    decreases lists.len(),
{
    if lists.len() == 0 {
        None
    } else if lists.last().id == id {
        Some(lists.last().name)
    } else {
        list_name_of(lists.drop_last(), id)
    }
}

/// A card with its list name taken from the board's lists.
pub open spec fn with_list_name(c: CardView, lists: Seq<ListView>) -> CardView {
    CardView { list_name: list_name_of(lists, c.id_list), ..c }
}

/// The name of the list with id `id`.
pub fn list_name_for(lists: &Vec<TrelloList>, id: &String) -> (r: Option<String>)
    ensures
        crate::models::opt_str(r) == list_name_of(list_views(lists@), id@),
{
    let ghost ls = list_views(lists@);
    let mut i: usize = lists.len();
    assert(ls.take(i as int) =~= ls);
    while i > 0
        invariant
            i <= lists.len(),
            ls == list_views(lists@),
            list_name_of(ls, id@) == list_name_of(ls.take(i as int), id@),
        decreases i,
    {
        assert(ls.take(i as int).drop_last() =~= ls.take(i - 1));
        assert(ls.take(i as int).last() == lists@[i - 1]@);
        if lists[i - 1].id == *id {
            return Some(lists[i - 1].name.clone());
        }
        i = i - 1;
    }
    None
}

/// Names the list of every card from the board's lists (cards whose list is
/// unknown get no list name).
pub fn assign_list_names(cards: &mut Vec<TrelloCard>, lists: &Vec<TrelloList>)
    ensures
        card_views(final(cards)@) == card_views(old(cards)@).map_values(
            |c: CardView| with_list_name(c, list_views(lists@)),
        ),
{
    let ghost orig = card_views(cards@);
    let mut out: Vec<TrelloCard> = Vec::new();
    let mut i: usize = 0;
    while i < cards.len()
        invariant
            i <= cards.len(),
            orig == card_views(cards@),
            out.len() == i,
            forall|j: int|
                0 <= j < i ==> (#[trigger] out@[j])@ == with_list_name(orig[j], list_views(lists@)),
        decreases cards.len() - i,
    {
        let mut c = cards[i].clone();
        c.list_name = list_name_for(lists, &c.id_list);
        out.push(c);
        i = i + 1;
    }
    assert(card_views(out@) =~= orig.map_values(|c: CardView| with_list_name(c, list_views(lists@))));
    *cards = out;
}

/// A list name given to a card is the name of a list with the card's list id,
/// and naming the lists again changes nothing.
pub proof fn lemma_list_names(c: CardView, lists: Seq<ListView>)
    ensures
        with_list_name(c, lists).list_name matches Some(n) ==> exists|j: int|
            0 <= j < lists.len() && (#[trigger] lists[j]).id == c.id_list && lists[j].name == n,
        with_list_name(with_list_name(c, lists), lists) == with_list_name(c, lists),
        with_list_name(c, lists).id == c.id && with_list_name(c, lists).id_list == c.id_list,
    decreases lists.len(),
{
    if lists.len() > 0 && lists.last().id != c.id_list {
        lemma_list_names(c, lists.drop_last());
        if let Some(n) = list_name_of(lists.drop_last(), c.id_list) {
            let j = choose|j: int|
                0 <= j < lists.drop_last().len() && (#[trigger] lists.drop_last()[j]).id == c.id_list
                    && lists.drop_last()[j].name == n;
            assert(lists[j] == lists.drop_last()[j]);
        }
    } else if lists.len() > 0 {
        assert(lists[lists.len() - 1] == lists.last());
    }
}

} // verus!
