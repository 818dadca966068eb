use vstd::prelude::*;

use crate::cards::{append_selected, selected};
use crate::models::{card_views, CardView, LabelView, MemberView, TrelloCard};
use crate::seqs::{keep, lemma_concat_inv, lemma_keep_contains, lemma_keep_inv, lemma_keep_push, lemma_select_keep, select};
use crate::text::{
    chars_of, concat3, contains, contains_seq, lemma_contains_join, lemma_contains_within, is_whitespace, is_ws, join, join_strings, lowercase,
    to_lower, views,
};

verus! {

/// Whether a character is numeric, as `char::is_numeric` decides (Unicode
/// general categories Nd, Nl and No).
pub uninterp spec fn numeric(c: char) -> bool;

/// `char::is_numeric`; its result is named `numeric`.  ASCII digits are numeric.
#[verifier::external_body]
pub(crate) fn is_numeric(c: char) -> (r: bool)
    ensures
        r == numeric(c),
        '0' <= c <= '9' ==> r,
{
    c.is_numeric()
}

/// Words of `s` (separated by Unicode whitespace), given the word being read.
pub open spec fn words_acc(s: Seq<char>, cur: Seq<char>) -> Seq<Seq<char>>
    decreases s.len(),
{
    if s.len() == 0 {
        if cur.len() > 0 { seq![cur] } else { Seq::empty() }
    } else if is_ws(s[0]) {
        (if cur.len() > 0 { seq![cur] } else { Seq::empty() }) + words_acc(s.drop_first(), Seq::empty())
    } else {
        words_acc(s.drop_first(), cur.push(s[0]))
    }
}

/// The whitespace-separated words of `s` (`str::split_whitespace`).
pub open spec fn split_ws(s: Seq<char>) -> Seq<Seq<char>> {
    words_acc(s, Seq::empty())
}

/// The text of a card that searching looks through: lowercased name,
/// description, label names, list name and members, separated by spaces.
pub open spec fn searchable(c: CardView) -> Seq<char> {
    let sp = seq![' '];
    lowercase(c.name) + sp + lowercase(c.desc) + sp + join(
        c.labels.map_values(|l: LabelView| lowercase(l.name)),
        sp,
    ) + sp + lowercase(
        match c.list_name {
            Some(n) => n,
            None => Seq::empty(),
        },
    ) + sp + join(c.members.map_values(|m: MemberView| lowercase(m.username + sp + m.full_name)), sp)
}

/// Every word occurs in `t`.
pub open spec fn all_in(t: Seq<char>, words: Seq<Seq<char>>) -> bool {
    forall|i: int| 0 <= i < words.len() ==> contains(t, #[trigger] words[i])
}

/// How many of the words (counted with repetition) occur in `t`.
pub open spec fn count_in(t: Seq<char>, words: Seq<Seq<char>>) -> nat
    decreases words.len(),
{
    if words.len() == 0 {
        0
    } else {
        count_in(t, words.drop_last()) + if contains(t, words.last()) { 1nat } else { 0nat }
    }
}

/// The word holds a numeric character.
pub open spec fn has_numeric(w: Seq<char>) -> bool {
    exists|i: int| 0 <= i < w.len() && numeric(#[trigger] w[i])
}

/// The cards whose score is `k`.
pub open spec fn score_is(score: spec_fn(CardView) -> nat, k: nat) -> spec_fn(CardView) -> bool {
    |c: CardView| score(c) == k
}

/// Cards grouped by descending score from `k` down to 1; within a score, in their order.
pub open spec fn by_score_desc(
    cards: Seq<CardView>,
    score: spec_fn(CardView) -> nat,
    k: nat,
) -> Seq<CardView>
    decreases k,
{
    if k == 0 {
        Seq::empty()
    } else {
        keep(cards, score_is(score, k)) + by_score_desc(cards, score, (k - 1) as nat)
    }
}

/// The result of searching `cards` for `query`.
///
/// A query of at most one word keeps the cards whose searchable text contains
/// it, those whose name contains it first.  A longer query keeps the cards that
/// contain every word, those that contain the whole phrase first; when no card
/// does, it falls back to the words holding a digit and ranks the cards by how
/// many of them they contain.  Ties keep the cards' order.
pub open spec fn search_result(cards: Seq<CardView>, query: Seq<char>) -> Seq<CardView> {
    let q = lowercase(query);
    let words = split_ws(q);
    if words.len() <= 1 {
        keep(cards, |c: CardView| contains(searchable(c), q) && contains(lowercase(c.name), q))
            + keep(
            cards,
            |c: CardView| contains(searchable(c), q) && !contains(lowercase(c.name), q),
        )
    } else if keep(cards, |c: CardView| all_in(searchable(c), words)).len() > 0 {
        keep(cards, |c: CardView| all_in(searchable(c), words) && contains(searchable(c), q))
            + keep(
            cards,
            |c: CardView| all_in(searchable(c), words) && !contains(searchable(c), q),
        )
    } else {
        let specific = keep(words, |w: Seq<char>| has_numeric(w));
        by_score_desc(cards, |c: CardView| count_in(searchable(c), specific), specific.len())
    }
}

/// The character vectors of a vector of words.
pub open spec fn word_views(v: Seq<Vec<char>>) -> Seq<Seq<char>> {
    v.map_values(|w: Vec<char>| w@)
}

/// Splits into whitespace-separated words.
pub fn split_words(s: &Vec<char>) -> (r: Vec<Vec<char>>)
    ensures
        word_views(r@) == split_ws(s@),
{
    let mut out: Vec<Vec<char>> = Vec::new();
    let mut cur: Vec<char> = Vec::new();
    let mut i: usize = 0;
    assert(s@.skip(0) =~= s@);
    assert(word_views(out@) + words_acc(s@.skip(0), cur@) =~= split_ws(s@));
    while i < s.len()
        invariant
            i <= s.len(),
            split_ws(s@) == word_views(out@) + words_acc(s@.skip(i as int), cur@),
        decreases s.len() - i,
    {
        let c = s[i];
        assert(s@.skip(i as int)[0] == c);
        assert(s@.skip(i as int).drop_first() =~= s@.skip(i + 1));
        if is_whitespace(c) {
            if cur.len() > 0 {
                let ghost before = word_views(out@);
                let ghost cv = cur@;
                out.push(cur);
                assert(word_views(out@) =~= before.push(cv));
                assert(before + (seq![cv] + words_acc(s@.skip(i + 1), Seq::empty())) =~= before.push(
                    cv,
                ) + words_acc(s@.skip(i + 1), Seq::empty()));
                cur = Vec::new();
            } else {
                assert(Seq::<Seq<char>>::empty() + words_acc(s@.skip(i + 1), Seq::empty())
                    =~= words_acc(s@.skip(i + 1), Seq::empty()));
            }
            assert(cur@ =~= Seq::<char>::empty());
        } else {
            cur.push(c);
        }
        i = i + 1;
    }
    if cur.len() > 0 {
        let ghost before = word_views(out@);
        let ghost cv = cur@;
        out.push(cur);
        assert(word_views(out@) =~= before.push(cv));
        assert(before + seq![cv] =~= before.push(cv));
    } else {
        assert(word_views(out@) + Seq::<Seq<char>>::empty() =~= word_views(out@));
    }
    out
}

/// The searchable text of a card.
pub fn searchable_text(card: &TrelloCard) -> (r: Vec<char>)
    ensures
        r@ == searchable(card@),
{
    proof {
        reveal_strlit(" ");
        reveal_strlit("");
    }
    let mut labels: Vec<String> = Vec::new();
    let mut i: usize = 0;
    while i < card.labels.len()
        invariant
            i <= card.labels.len(),
            labels.len() == i,
            forall|j: int| 0 <= j < i ==> (#[trigger] labels@[j])@ == lowercase(card.labels@[j].name@),
        decreases card.labels.len() - i,
    {
        labels.push(to_lower(card.labels[i].name.as_str()));
        i = i + 1;
    }
    assert(views(labels@) =~= card@.labels.map_values(|l: LabelView| lowercase(l.name)));
    let mut members: Vec<String> = Vec::new();
    let mut i: usize = 0;
    while i < card.members.len()
        invariant
            i <= card.members.len(),
            members.len() == i,
            forall|j: int|
                0 <= j < i ==> (#[trigger] members@[j])@ == lowercase(
                    card.members@[j].username@ + seq![' '] + card.members@[j].full_name@,
                ),
        decreases card.members.len() - i,
    {
        proof {
            reveal_strlit(" ");
            assert(" "@ =~= seq![' ']);
        }
        let m = &card.members[i];
        let both = concat3(m.username.as_str(), " ", m.full_name.as_str());
        members.push(to_lower(both.as_str()));
        i = i + 1;
    }
    assert(views(members@) =~= card@.members.map_values(
        |m: MemberView| lowercase(m.username + seq![' '] + m.full_name),
    ));
    let list = match &card.list_name {
        Some(n) => to_lower(n.as_str()),
        None => to_lower(""),
    };
    let mut t: Vec<char> = chars_of(to_lower(card.name.as_str()).as_str());
    t.push(' ');
    t.append(&mut chars_of(to_lower(card.desc.as_str()).as_str()));
    t.push(' ');
    t.append(&mut chars_of(join_strings(&labels, " ").as_str()));
    t.push(' ');
    t.append(&mut chars_of(list.as_str()));
    t.push(' ');
    t.append(&mut chars_of(join_strings(&members, " ").as_str()));
    proof {
        reveal_strlit(" ");
        reveal_strlit("");
        assert(" "@ =~= seq![' ']);
        assert(""@ =~= Seq::<char>::empty());
    }
    assert(t@ =~= searchable(card@));
    t
}

/// Whether every word occurs in `t`.
fn all_words_in(t: &Vec<char>, words: &Vec<Vec<char>>) -> (r: bool)
    ensures
        r == all_in(t@, word_views(words@)),
{
    let mut i: usize = 0;
    while i < words.len()
        invariant
            i <= words.len(),
            forall|j: int| 0 <= j < i ==> contains(t@, #[trigger] word_views(words@)[j]),
        decreases words.len() - i,
    {
        if !contains_seq(t, &words[i]) {
            assert(!contains(t@, word_views(words@)[i as int]));
            return false;
        }
        i = i + 1;
    }
    true
}

/// How many of the words occur in `t`.
fn count_words_in(t: &Vec<char>, words: &Vec<Vec<char>>) -> (r: usize)
    ensures
        r == count_in(t@, word_views(words@)),
{
    let mut n: usize = 0;
    let mut i: usize = 0;
    assert(word_views(words@).take(0) =~= Seq::<Seq<char>>::empty());
    while i < words.len()
        invariant
            i <= words.len(),
            n <= i,
            n == count_in(t@, word_views(words@).take(i as int)),
        decreases words.len() - i,
    {
        assert(word_views(words@).take(i + 1).drop_last() =~= word_views(words@).take(i as int));
        if contains_seq(t, &words[i]) {
            n = n + 1;
        }
        i = i + 1;
    }
    assert(word_views(words@).take(words.len() as int) =~= word_views(words@));
    n
}

/// Whether a word holds a numeric character.
fn word_has_numeric(w: &Vec<char>) -> (r: bool)
    ensures
        r == has_numeric(w@),
{
    let mut i: usize = 0;
    while i < w.len()
        invariant
            i <= w.len(),
            forall|j: int| 0 <= j < i ==> !numeric(#[trigger] w@[j]),
        decreases w.len() - i,
    {
        if is_numeric(w[i]) {
            return true;
        }
        i = i + 1;
    }
    false
}

/// The words that hold a numeric character, in their order.
fn numeric_words(words: &Vec<Vec<char>>) -> (r: Vec<Vec<char>>)
    ensures
        word_views(r@) == keep(word_views(words@), |w: Seq<char>| has_numeric(w)),
{
    let mut out: Vec<Vec<char>> = Vec::new();
    let mut i: usize = 0;
    let ghost ws = word_views(words@);
    assert(word_views(out@) =~= keep(ws.take(0), |w: Seq<char>| has_numeric(w)));
    while i < words.len()
        invariant
            i <= words.len(),
            ws == word_views(words@),
            word_views(out@) == keep(ws.take(i as int), |w: Seq<char>| has_numeric(w)),
        decreases words.len() - i,
    {
        proof {
            assert(ws.take(i + 1) =~= ws.take(i as int).push(ws[i as int]));
            lemma_keep_push(ws.take(i as int), ws[i as int], |w: Seq<char>| has_numeric(w));
        }
        if word_has_numeric(&words[i]) {
            let ghost before = word_views(out@);
            out.push(words[i].clone());
            assert(word_views(out@) =~= before.push(ws[i as int]));
        }
        i = i + 1;
    }
    assert(ws.take(words.len() as int) =~= ws);
    out
}

/// Searches the cards for a free-text query (case-insensitively), ranking the
/// better matches first; see `search_result`.
pub fn search_cards(cards: &Vec<TrelloCard>, query: &str) -> (r: Vec<TrelloCard>)
    ensures
        card_views(r@) == search_result(card_views(cards@), query@),
{
    let ghost cs = card_views(cards@);
    let q = chars_of(to_lower(query).as_str());
    let words = split_words(&q);
    let mut texts: Vec<Vec<char>> = Vec::new();
    let mut i: usize = 0;
    while i < cards.len()
        invariant
            i <= cards.len(),
            texts.len() == i,
            forall|j: int| 0 <= j < i ==> (#[trigger] texts@[j])@ == searchable(cards@[j]@),
        decreases cards.len() - i,
    {
        texts.push(searchable_text(&cards[i]));
        i = i + 1;
    }
    let ghost qv = q@;
    if words.len() <= 1 {
        let mut first: Vec<bool> = Vec::new();
        let mut second: Vec<bool> = Vec::new();
        let mut i: usize = 0;
        while i < cards.len()
            invariant
                i <= cards.len(),
                texts.len() == cards.len(),
                first.len() == i,
                second.len() == i,
                q@ == qv,
                forall|j: int| 0 <= j < cards.len() ==> (#[trigger] texts@[j])@ == searchable(cards@[j]@),
                forall|j: int|
                    0 <= j < i ==> first@[j] == (contains(searchable(#[trigger] cards@[j]@), qv)
                        && contains(lowercase(cards@[j]@.name), qv)),
                forall|j: int|
                    0 <= j < i ==> second@[j] == (contains(searchable(#[trigger] cards@[j]@), qv)
                        && !contains(lowercase(cards@[j]@.name), qv)),
            decreases cards.len() - i,
        {
            let hit = contains_seq(&texts[i], &q);
            let name = chars_of(to_lower(cards[i].name.as_str()).as_str());
            let in_name = contains_seq(&name, &q);
            first.push(hit && in_name);
            second.push(hit && !in_name);
            i = i + 1;
        }
        proof {
            lemma_select_keep(
                cs,
                first@,
                |c: CardView| contains(searchable(c), qv) && contains(lowercase(c.name), qv),
            );
            lemma_select_keep(
                cs,
                second@,
                |c: CardView| contains(searchable(c), qv) && !contains(lowercase(c.name), qv),
            );
        }
        let mut out = selected(cards, &first);
        append_selected(&mut out, cards, &second);
        return out;
    }
    let ghost wv = word_views(words@);
    let mut strict: Vec<bool> = Vec::new();
    let mut i: usize = 0;
    while i < cards.len()
        invariant
            i <= cards.len(),
            texts.len() == cards.len(),
            strict.len() == i,
            wv == word_views(words@),
            forall|j: int| 0 <= j < cards.len() ==> (#[trigger] texts@[j])@ == searchable(cards@[j]@),
            forall|j: int| 0 <= j < i ==> strict@[j] == all_in(searchable(#[trigger] cards@[j]@), wv),
        decreases cards.len() - i,
    {
        strict.push(all_words_in(&texts[i], &words));
        i = i + 1;
    }
    proof {
        lemma_select_keep(cs, strict@, |c: CardView| all_in(searchable(c), wv));
    }
    let strict_cards = selected(cards, &strict);
    if strict_cards.len() > 0 {
        let mut first: Vec<bool> = Vec::new();
        let mut second: Vec<bool> = Vec::new();
        let mut i: usize = 0;
        while i < cards.len()
            invariant
                i <= cards.len(),
                texts.len() == cards.len(),
                strict.len() == cards.len(),
                first.len() == i,
                second.len() == i,
                q@ == qv,
                forall|j: int| 0 <= j < cards.len() ==> (#[trigger] texts@[j])@ == searchable(cards@[j]@),
                forall|j: int|
                    0 <= j < cards.len() ==> strict@[j] == all_in(searchable(#[trigger] cards@[j]@), wv),
                forall|j: int|
                    0 <= j < i ==> first@[j] == (all_in(searchable(#[trigger] cards@[j]@), wv)
                        && contains(searchable(cards@[j]@), qv)),
                forall|j: int|
                    0 <= j < i ==> second@[j] == (all_in(searchable(#[trigger] cards@[j]@), wv)
                        && !contains(searchable(cards@[j]@), qv)),
            decreases cards.len() - i,
        {
            let whole = contains_seq(&texts[i], &q);
            let s = strict[i];
            first.push(s && whole);
            second.push(s && !whole);
            i = i + 1;
        }
        proof {
            lemma_select_keep(
                cs,
                first@,
                |c: CardView| all_in(searchable(c), wv) && contains(searchable(c), qv),
            );
            lemma_select_keep(
                cs,
                second@,
                |c: CardView| all_in(searchable(c), wv) && !contains(searchable(c), qv),
            );
        }
        let mut out = selected(cards, &first);
        append_selected(&mut out, cards, &second);
        return out;
    }
    let specific = numeric_words(&words);
    let ghost sv = word_views(specific@);
    let mut scores: Vec<usize> = Vec::new();
    let mut i: usize = 0;
    while i < cards.len()
        invariant
            i <= cards.len(),
            texts.len() == cards.len(),
            scores.len() == i,
            sv == word_views(specific@),
            forall|j: int| 0 <= j < cards.len() ==> (#[trigger] texts@[j])@ == searchable(cards@[j]@),
            forall|j: int| 0 <= j < i ==> scores@[j] == count_in(searchable(#[trigger] cards@[j]@), sv),
        decreases cards.len() - i,
    {
        scores.push(count_words_in(&texts[i], &specific));
        i = i + 1;
    }
    let ghost score = |c: CardView| count_in(searchable(c), sv);
    let mut out: Vec<TrelloCard> = Vec::new();
    let mut k: usize = specific.len();
    assert(card_views(out@) + by_score_desc(cs, score, k as nat) =~= by_score_desc(
        cs,
        score,
        specific.len() as nat,
    ));
    while k > 0
        invariant
            k <= specific.len(),
            scores.len() == cards.len(),
            cs == card_views(cards@),
            forall|j: int| 0 <= j < cards.len() ==> scores@[j] == score(#[trigger] cards@[j]@),
            by_score_desc(cs, score, specific.len() as nat) == card_views(out@) + by_score_desc(
                cs,
                score,
                k as nat,
            ),
        decreases k,
    {
        let mut mask: Vec<bool> = Vec::new();
        let mut i: usize = 0;
        while i < cards.len()
            invariant
                i <= cards.len(),
                mask.len() == i,
                scores.len() == cards.len(),
                forall|j: int| 0 <= j < cards.len() ==> scores@[j] == score(#[trigger] cards@[j]@),
                forall|j: int| 0 <= j < i ==> mask@[j] == (score(#[trigger] cards@[j]@) == k),
            decreases cards.len() - i,
        {
            mask.push(scores[i] == k);
            i = i + 1;
        }
        let ghost kn = k as nat;
        proof {
            lemma_select_keep(cs, mask@, score_is(score, kn));
        }
        let ghost before = card_views(out@);
        append_selected(&mut out, cards, &mask);
        assert(before + (keep(cs, score_is(score, kn)) + by_score_desc(cs, score, (kn - 1) as nat))
            =~= card_views(out@) + by_score_desc(cs, score, (kn - 1) as nat));
        k = k - 1;
    }
    assert(card_views(out@) + by_score_desc(cs, score, 0) =~= card_views(out@));
    out
}

/// Ranking by score keeps only cards from the input.
proof fn lemma_by_score_inv(
    cards: Seq<CardView>,
    score: spec_fn(CardView) -> nat,
    k: nat,
    inv: spec_fn(CardView) -> bool,
)
    requires
        forall|i: int| 0 <= i < cards.len() ==> inv(#[trigger] cards[i]),
    ensures
        forall|i: int|
            0 <= i < by_score_desc(cards, score, k).len() ==> inv(
                #[trigger] by_score_desc(cards, score, k)[i],
            ),
    decreases k,
{
    if k > 0 {
        lemma_keep_inv(cards, score_is(score, k), inv);
        lemma_by_score_inv(cards, score, (k - 1) as nat, inv);
        lemma_concat_inv(
            keep(cards, score_is(score, k)),
            by_score_desc(cards, score, (k - 1) as nat),
            inv,
        );
    }
}

/// Searching finds only cards it was given: what holds of every card holds of
/// every card found.
pub proof fn lemma_search_result_inv(cards: Seq<CardView>, query: Seq<char>, inv: spec_fn(CardView) -> bool)
    requires
        forall|i: int| 0 <= i < cards.len() ==> inv(#[trigger] cards[i]),
    ensures
        forall|i: int|
            0 <= i < search_result(cards, query).len() ==> inv(
                #[trigger] search_result(cards, query)[i],
            ),
{
    let q = lowercase(query);
    let words = split_ws(q);
    if words.len() <= 1 {
        let p1 = |c: CardView| contains(searchable(c), q) && contains(lowercase(c.name), q);
        let p2 = |c: CardView| contains(searchable(c), q) && !contains(lowercase(c.name), q);
        lemma_keep_inv(cards, p1, inv);
        lemma_keep_inv(cards, p2, inv);
        lemma_concat_inv(keep(cards, p1), keep(cards, p2), inv);
    } else if keep(cards, |c: CardView| all_in(searchable(c), words)).len() > 0 {
        let p1 = |c: CardView| all_in(searchable(c), words) && contains(searchable(c), q);
        let p2 = |c: CardView| all_in(searchable(c), words) && !contains(searchable(c), q);
        lemma_keep_inv(cards, p1, inv);
        lemma_keep_inv(cards, p2, inv);
        lemma_concat_inv(keep(cards, p1), keep(cards, p2), inv);
    } else {
        let specific = keep(words, |w: Seq<char>| has_numeric(w));
        lemma_by_score_inv(
            cards,
            |c: CardView| count_in(searchable(c), specific),
            specific.len(),
            inv,
        );
    }
}

/// Every card found by a one-word query holds the word in its searchable text;
/// every card found by a longer query holds all its words, unless no card
/// does (the ranked fallback).
pub proof fn lemma_search_matches(cards: Seq<CardView>, query: Seq<char>)
    ensures
        split_ws(lowercase(query)).len() <= 1 ==> forall|i: int|
            0 <= i < search_result(cards, query).len() ==> contains(
                searchable(#[trigger] search_result(cards, query)[i]),
                lowercase(query),
            ),
        split_ws(lowercase(query)).len() > 1 && keep(
            cards,
            |c: CardView| all_in(searchable(c), split_ws(lowercase(query))),
        ).len() > 0 ==> forall|i: int|
            0 <= i < search_result(cards, query).len() ==> all_in(
                searchable(#[trigger] search_result(cards, query)[i]),
                split_ws(lowercase(query)),
            ),
{
    let q = lowercase(query);
    let words = split_ws(q);
    let any = |c: CardView| true;
    if words.len() <= 1 {
        let p1 = |c: CardView| contains(searchable(c), q) && contains(lowercase(c.name), q);
        let p2 = |c: CardView| contains(searchable(c), q) && !contains(lowercase(c.name), q);
        let hit = |c: CardView| contains(searchable(c), q);
        lemma_keep_inv(cards, p1, any);
        lemma_keep_inv(cards, p2, any);
        assert forall|i: int| 0 <= i < keep(cards, p1).len() implies hit(#[trigger] keep(cards, p1)[i]) by {
            assert(p1(keep(cards, p1)[i]));
        }
        assert forall|i: int| 0 <= i < keep(cards, p2).len() implies hit(#[trigger] keep(cards, p2)[i]) by {
            assert(p2(keep(cards, p2)[i]));
        }
        lemma_concat_inv(keep(cards, p1), keep(cards, p2), hit);
    } else if keep(cards, |c: CardView| all_in(searchable(c), words)).len() > 0 {
        let p1 = |c: CardView| all_in(searchable(c), words) && contains(searchable(c), q);
        let p2 = |c: CardView| all_in(searchable(c), words) && !contains(searchable(c), q);
        let hit = |c: CardView| all_in(searchable(c), words);
        lemma_keep_inv(cards, p1, any);
        lemma_keep_inv(cards, p2, any);
        assert forall|i: int| 0 <= i < keep(cards, p1).len() implies hit(#[trigger] keep(cards, p1)[i]) by {
            assert(p1(keep(cards, p1)[i]));
        }
        assert forall|i: int| 0 <= i < keep(cards, p2).len() implies hit(#[trigger] keep(cards, p2)[i]) by {
            assert(p2(keep(cards, p2)[i]));
        }
        lemma_concat_inv(keep(cards, p1), keep(cards, p2), hit);
    }
}

/// Cards ranked by score come with their score between 1 and `k`, in
/// non-increasing order of score.
proof fn lemma_by_score_ranked(cards: Seq<CardView>, score: spec_fn(CardView) -> nat, k: nat)
    ensures
        forall|i: int|
            0 <= i < by_score_desc(cards, score, k).len() ==> 1 <= score(
                #[trigger] by_score_desc(cards, score, k)[i],
            ) <= k,
        forall|i: int, j: int|
            0 <= i < j < by_score_desc(cards, score, k).len() ==> score(
                #[trigger] by_score_desc(cards, score, k)[i],
            ) >= score(#[trigger] by_score_desc(cards, score, k)[j]),
    decreases k,
{
    if k > 0 {
        let a = keep(cards, score_is(score, k));
        let b = by_score_desc(cards, score, (k - 1) as nat);
        let any = |c: CardView| true;
        lemma_keep_inv(cards, score_is(score, k), any);
        lemma_by_score_ranked(cards, score, (k - 1) as nat);
        let r = a + b;
        assert(r == by_score_desc(cards, score, k));
        assert forall|i: int| 0 <= i < r.len() implies 1 <= score(#[trigger] r[i]) <= k by {
            if i < a.len() {
                assert(r[i] == a[i]);
                assert(score_is(score, k)(a[i]));
            } else {
                assert(r[i] == b[i - a.len()]);
            }
        }
        assert forall|i: int, j: int| 0 <= i < j < r.len() implies score(#[trigger] r[i]) >= score(
            #[trigger] r[j],
        ) by {
            if j < a.len() {
                assert(r[i] == a[i] && r[j] == a[j]);
                assert(score_is(score, k)(a[i]) && score_is(score, k)(a[j]));
            } else if i < a.len() {
                assert(r[i] == a[i] && r[j] == b[j - a.len()]);
                assert(score_is(score, k)(a[i]));
            } else {
                assert(r[i] == b[i - a.len()] && r[j] == b[j - a.len()]);
            }
        }
    }
}

/// The ranking of the search: a one-word query lists the cards whose name holds
/// the word before the others; a longer query, when some card holds all its
/// words, lists the cards holding the whole phrase before the others; the
/// fallback lists the cards by decreasing number of words with a digit.
pub proof fn lemma_search_ranked(cards: Seq<CardView>, query: Seq<char>)
    ensures
        split_ws(lowercase(query)).len() <= 1 ==> forall|i: int, j: int|
            0 <= i < j < search_result(cards, query).len() && contains(
                lowercase((#[trigger] search_result(cards, query)[j]).name),
                lowercase(query),
            ) ==> contains(
                lowercase((#[trigger] search_result(cards, query)[i]).name),
                lowercase(query),
            ),
        split_ws(lowercase(query)).len() > 1 && keep(
            cards,
            |c: CardView| all_in(searchable(c), split_ws(lowercase(query))),
        ).len() > 0 ==> forall|i: int, j: int|
            0 <= i < j < search_result(cards, query).len() && contains(
                searchable(#[trigger] search_result(cards, query)[j]),
                lowercase(query),
            ) ==> contains(searchable(#[trigger] search_result(cards, query)[i]), lowercase(query)),
        split_ws(lowercase(query)).len() > 1 && keep(
            cards,
            |c: CardView| all_in(searchable(c), split_ws(lowercase(query))),
        ).len() == 0 ==> forall|i: int, j: int|
            0 <= i < j < search_result(cards, query).len() ==> count_in(
                searchable(#[trigger] search_result(cards, query)[i]),
                keep(split_ws(lowercase(query)), |w: Seq<char>| has_numeric(w)),
            ) >= count_in(
                searchable(#[trigger] search_result(cards, query)[j]),
                keep(split_ws(lowercase(query)), |w: Seq<char>| has_numeric(w)),
            ),
{
    let q = lowercase(query);
    let words = split_ws(q);
    let any = |c: CardView| true;
    let r = search_result(cards, query);
    if words.len() <= 1 {
        let p1 = |c: CardView| contains(searchable(c), q) && contains(lowercase(c.name), q);
        let p2 = |c: CardView| contains(searchable(c), q) && !contains(lowercase(c.name), q);
        let a = keep(cards, p1);
        let b = keep(cards, p2);
        lemma_keep_inv(cards, p1, any);
        lemma_keep_inv(cards, p2, any);
        assert forall|i: int, j: int|
            0 <= i < j < r.len() && contains(lowercase((#[trigger] r[j]).name), q) implies contains(
            lowercase((#[trigger] r[i]).name),
            q,
        ) by {
            if j < a.len() {
                assert(r[i] == a[i]);
                assert(p1(a[i]));
            } else {
                assert(r[j] == b[j - a.len()]);
                assert(p2(b[j - a.len()]));
            }
        }
    } else if keep(cards, |c: CardView| all_in(searchable(c), words)).len() > 0 {
        let p1 = |c: CardView| all_in(searchable(c), words) && contains(searchable(c), q);
        let p2 = |c: CardView| all_in(searchable(c), words) && !contains(searchable(c), q);
        let a = keep(cards, p1);
        let b = keep(cards, p2);
        lemma_keep_inv(cards, p1, any);
        lemma_keep_inv(cards, p2, any);
        assert forall|i: int, j: int|
            0 <= i < j < r.len() && contains(searchable(#[trigger] r[j]), q) implies contains(
            searchable(#[trigger] r[i]),
            q,
        ) by {
            if j < a.len() {
                assert(r[i] == a[i]);
                assert(p1(a[i]));
            } else {
                assert(r[j] == b[j - a.len()]);
                assert(p2(b[j - a.len()]));
            }
        }
    } else {
        let specific = keep(words, |w: Seq<char>| has_numeric(w));
        let score = |c: CardView| count_in(searchable(c), specific);
        lemma_by_score_ranked(cards, score, specific.len());
        assert forall|i: int, j: int| 0 <= i < j < r.len() implies count_in(
            searchable(#[trigger] r[i]),
            specific,
        ) >= count_in(searchable(#[trigger] r[j]), specific) by {
            assert(score(r[i]) >= score(r[j]));
        }
    }
}

/// A card's searchable text holds what any of its searched fields holds,
/// once lowercased: its name, description, label names, list name, and each
/// member's username and full name.
proof fn lemma_searchable_fields(c: CardView, q: Seq<char>)
    requires
        contains(lowercase(c.name), q) || contains(lowercase(c.desc), q) || (exists|j: int|
            0 <= j < c.labels.len() && contains(lowercase(#[trigger] c.labels[j].name), q)) || (
        c.list_name is Some && contains(lowercase(c.list_name->0), q)) || (exists|j: int|
            0 <= j < c.members.len() && contains(
                lowercase((#[trigger] c.members[j]).username + seq![' '] + c.members[j].full_name),
                q,
            )),
    ensures
        contains(searchable(c), q),
{
    let sp = seq![' '];
    let n = lowercase(c.name);
    let d = lowercase(c.desc);
    let jl = join(c.labels.map_values(|l: LabelView| lowercase(l.name)), sp);
    let l = lowercase(
        match c.list_name {
            Some(x) => x,
            None => Seq::empty(),
        },
    );
    let jm = join(c.members.map_values(|m: MemberView| lowercase(m.username + sp + m.full_name)), sp);
    let t = searchable(c);
    assert(t == n + sp + d + sp + jl + sp + l + sp + jm);
    if contains(n, q) {
        lemma_contains_within(Seq::empty(), n, sp + d + sp + jl + sp + l + sp + jm, q);
        assert(Seq::<char>::empty() + n + (sp + d + sp + jl + sp + l + sp + jm) =~= t);
    } else if contains(d, q) {
        lemma_contains_within(n + sp, d, sp + jl + sp + l + sp + jm, q);
        assert(n + sp + d + (sp + jl + sp + l + sp + jm) =~= t);
    } else if exists|j: int| 0 <= j < c.labels.len() && contains(lowercase(#[trigger] c.labels[j].name), q) {
        let j = choose|j: int| 0 <= j < c.labels.len() && contains(lowercase(#[trigger] c.labels[j].name), q);
        let ls = c.labels.map_values(|lb: LabelView| lowercase(lb.name));
        assert(ls[j] == lowercase(c.labels[j].name));
        lemma_contains_join(ls, sp, j, q);
        lemma_contains_within(n + sp + d + sp, jl, sp + l + sp + jm, q);
        assert(n + sp + d + sp + jl + (sp + l + sp + jm) =~= t);
    } else if c.list_name is Some && contains(lowercase(c.list_name->0), q) {
        lemma_contains_within(n + sp + d + sp + jl + sp, l, sp + jm, q);
        assert(n + sp + d + sp + jl + sp + l + (sp + jm) =~= t);
    } else {
        let j = choose|j: int|
            0 <= j < c.members.len() && contains(
                lowercase((#[trigger] c.members[j]).username + seq![' '] + c.members[j].full_name),
                q,
            );
        let ms = c.members.map_values(|m: MemberView| lowercase(m.username + sp + m.full_name));
        assert(ms[j] == lowercase(c.members[j].username + sp + c.members[j].full_name));
        lemma_contains_join(ms, sp, j, q);
        lemma_contains_within(n + sp + d + sp + jl + sp + l + sp, jm, Seq::empty(), q);
        assert(n + sp + d + sp + jl + sp + l + sp + jm + Seq::<char>::empty() =~= t);
    }
}

/// Searching for one word misses no card: a card of the board whose name,
/// description, a label name, its list name, or a member's username and full
/// name holds the word (all lowercased) is among the results.
pub proof fn lemma_search_single_word_complete(cards: Seq<CardView>, query: Seq<char>, c: CardView)
    requires
        split_ws(lowercase(query)).len() <= 1,
        cards.contains(c),
        contains(lowercase(c.name), lowercase(query)) || contains(lowercase(c.desc), lowercase(query))
            || (exists|j: int|
            0 <= j < c.labels.len() && contains(lowercase(#[trigger] c.labels[j].name), lowercase(query)))
            || (c.list_name is Some && contains(lowercase(c.list_name->0), lowercase(query))) || (exists|
            j: int|
            0 <= j < c.members.len() && contains(
                lowercase((#[trigger] c.members[j]).username + seq![' '] + c.members[j].full_name),
                lowercase(query),
            )),
    ensures
        search_result(cards, query).contains(c),
{
    let q = lowercase(query);
    lemma_searchable_fields(c, q);
    let p1 = |x: CardView| contains(searchable(x), q) && contains(lowercase(x.name), q);
    let p2 = |x: CardView| contains(searchable(x), q) && !contains(lowercase(x.name), q);
    let a = keep(cards, p1);
    let b = keep(cards, p2);
    assert(search_result(cards, query) == a + b);
    if contains(lowercase(c.name), q) {
        lemma_keep_contains(cards, p1, c);
        let i = choose|i: int| 0 <= i < a.len() && a[i] == c;
        assert((a + b)[i] == c);
    } else {
        lemma_keep_contains(cards, p2, c);
        let i = choose|i: int| 0 <= i < b.len() && b[i] == c;
        assert((a + b)[a.len() + i] == c);
    }
}

} // verus!
