use vstd::prelude::*;

use crate::cards::{
    cards_by_label, cards_by_list, cards_by_member, cards_due_on, cards_having_due, has_due,
    due_on, is_overdue, label_hit, label_matches, list_matches, member_hit, member_matches, overdue_cards_at,
};
use crate::clock::{rfc3339_utc, utc_now_rfc3339, year_digits};
use crate::dates::{extract_date_from_message, message_date};
use crate::intent::{
    convert_legacy_to_ai_intent, keyword_intent, legacy_query, parse_intent_keyword,
    AiParsedIntent, ParsedIntentView,
};
use crate::models::{card_views, clone_cards, opt_str, CardView, TrelloCard};
use crate::order::{is_sorted_by, lemma_sorted_by, sorted_by, stable_sort_by_keys, views_of};
use crate::prompts::{empty_result_filters, format_ai_result_header, header_lead, header_parts, opt_ref, result_header};
use crate::search::{lemma_search_result_inv, search_cards, search_result};
use crate::seqs::{keep, lemma_keep_inv, lemma_perm_inv, lex_lt};
use crate::text::{chars_of, contains, decimal, join, lowercase, starts_with, str_contains, str_eq, to_lower};

verus! {

// ---------------------------------------------------------------------
// Cards with a deadline, soonest first
// ---------------------------------------------------------------------

/// The deadline of a card (empty when it has none).
pub open spec fn due_key(c: CardView) -> Seq<char> {
    match c.due {
        Some(d) => d,
        None => Seq::empty(),
    }
}

/// Cards with a deadline, by ascending deadline; equal deadlines keep the
/// cards' order.
pub open spec fn due_cards(cards: Seq<CardView>) -> Seq<CardView> {
    sorted_by(keep(cards, |c: CardView| has_due(c)), |c: CardView| due_key(c))
}

/// Cards that have a deadline, soonest deadline first.
pub fn cards_with_due(cards: &Vec<TrelloCard>) -> (r: Vec<TrelloCard>)
    ensures
        card_views(r@) == due_cards(card_views(cards@)),
{
    let due = cards_having_due(cards);
    let mut keys: Vec<Vec<char>> = Vec::new();
    let mut i: usize = 0;
    while i < due.len()
        invariant
            i <= due.len(),
            keys.len() == i,
            forall|j: int| 0 <= j < i ==> (#[trigger] keys@[j])@ == due_key(due@[j]@),
        decreases due.len() - i,
    {
        let k = match &due[i].due {
            Some(d) => chars_of(d.as_str()),
            None => Vec::new(),
        };
        keys.push(k);
        i = i + 1;
    }
    let ghost dv = views_of(due@);
    assert(dv =~= card_views(due@));
    let r = stable_sort_by_keys(due, keys, Ghost(|c: CardView| due_key(c)));
    assert(card_views(r@) =~= views_of(r@));
    r
}

// ---------------------------------------------------------------------
// Running a parsed query
// ---------------------------------------------------------------------

/// A search keyword that really asks for deadlines.
pub open spec fn mentions_deadline(k: Seq<char>) -> bool {
    let l = lowercase(k);
    contains(l, "deadline"@) || contains(l, "due"@) || contains(l, "hạn"@) || contains(l, "ngày"@)
}

/// The intent actually run: `overdue` whenever only overdue cards are asked
/// for, `due` for a search whose keyword is about deadlines when deadlines are
/// asked for, else the parsed intent.
pub open spec fn effective_intent(p: ParsedIntentView) -> Seq<char> {
    if p.overdue_only == Some(true) && p.intent != "overdue"@ {
        "overdue"@
    } else if p.has_due == Some(true) && p.intent == "search"@ && (match p.keyword {
        Some(k) => mentions_deadline(k),
        None => false,
    }) {
        "due"@
    } else {
        p.intent
    }
}

/// The cards the intent selects before the other filters apply.
pub open spec fn base_cards(
    eff: Seq<char>,
    p: ParsedIntentView,
    cards: Seq<CardView>,
    now: Seq<char>,
) -> Seq<CardView> {
    if eff == "list_all"@ {
        cards
    } else if eff == "filter_member"@ {
        match p.member {
            Some(m) => keep(cards, |c: CardView| member_matches(c, lowercase(m))),
            None => cards,
        }
    } else if eff == "filter_label"@ {
        match p.label {
            Some(l) => keep(cards, |c: CardView| label_matches(c, lowercase(l))),
            None => cards,
        }
    } else if eff == "filter_list"@ {
        match p.list {
            Some(l) => keep(cards, |c: CardView| list_matches(c, lowercase(l))),
            None => cards,
        }
    } else if eff == "due"@ {
        due_cards(cards)
    } else if eff == "overdue"@ {
        keep(cards, |c: CardView| is_overdue(c, now))
    } else {
        match p.keyword {
            Some(k) => search_result(cards, k),
            None => cards,
        }
    }
}

/// The cards a parsed query finds at the instant `now`: the intent's cards,
/// narrowed by every other filter of the query.
pub open spec fn query_cards(p: ParsedIntentView, cards: Seq<CardView>, now: Seq<char>) -> Seq<
    CardView,
> {
    let eff = effective_intent(p);
    let c0 = base_cards(eff, p, cards, now);
    let c1 = match p.member {
        Some(m) => if eff != "filter_member"@ {
            keep(c0, |c: CardView| member_matches(c, lowercase(m)))
        } else {
            c0
        },
        None => c0,
    };
    let c2 = match p.label {
        Some(l) => if eff != "filter_label"@ {
            keep(c1, |c: CardView| label_matches(c, lowercase(l)))
        } else {
            c1
        },
        None => c1,
    };
    let c3 = match p.list {
        Some(l) => if eff != "filter_list"@ {
            keep(c2, |c: CardView| list_matches(c, lowercase(l)))
        } else {
            c2
        },
        None => c2,
    };
    let c4 = if p.overdue_only == Some(true) && eff != "overdue"@ {
        keep(c3, |c: CardView| is_overdue(c, now))
    } else {
        c3
    };
    let c5 = if p.has_due == Some(true) && eff != "due"@ {
        keep(c4, |c: CardView| has_due(c))
    } else {
        c4
    };
    match p.due_date {
        Some(d) => keep(c5, |c: CardView| due_on(c, d)),
        None => c5,
    }
}

/// The header for the cards a query found.
pub open spec fn query_header(p: ParsedIntentView, count: nat) -> Seq<char> {
    result_header(effective_intent(p), count, p.keyword, p.member, p.label, p.list, p.due_date)
}

/// The intent to run for a parsed query; see `effective_intent`.
pub fn effective_intent_of(parsed: &AiParsedIntent) -> (r: String)
    ensures
        r@ == effective_intent(parsed@),
{
    if parsed.overdue_only == Some(true) && !str_eq(parsed.intent.as_str(), "overdue") {
        return String::from_str("overdue");
    }
    if parsed.has_due == Some(true) && str_eq(parsed.intent.as_str(), "search") {
        if let Some(k) = &parsed.keyword {
            let l = to_lower(k.as_str());
            let ls = l.as_str();
            if str_contains(ls, "deadline") || str_contains(ls, "due") || str_contains(ls, "hạn")
                || str_contains(ls, "ngày") {
                return String::from_str("due");
            }
        }
    }
    parsed.intent.clone()
}

/// The optional string as a string slice.
fn opt_as_str(o: &Option<String>) -> (r: Option<&str>)
    ensures
        opt_ref(r) == opt_str(*o),
{
    match o {
        Some(s) => Some(s.as_str()),
        None => None,
    }
}

/// Runs a parsed query over all cards at the instant `now` (an RFC 3339
/// timestamp): the matching cards and the header that describes them.
pub fn execute_ai_intent_at(parsed: &AiParsedIntent, cards: &Vec<TrelloCard>, now: &str) -> (r: (
    Vec<TrelloCard>,
    String,
))
    ensures
        card_views(r.0@) == query_cards(parsed@, card_views(cards@), now@),
        r.1@ == query_header(parsed@, r.0@.len()),
{
    let p = parsed;
    let eff_s = effective_intent_of(p);
    let eff = eff_s.as_str();
    let ghost e = eff@;
    let ghost cs = card_views(cards@);
    let mut found: Vec<TrelloCard> = if str_eq(eff, "list_all") {
        clone_cards(cards)
    } else if str_eq(eff, "filter_member") {
        match &p.member {
            Some(m) => cards_by_member(cards, m.as_str()),
            None => clone_cards(cards),
        }
    } else if str_eq(eff, "filter_label") {
        match &p.label {
            Some(l) => cards_by_label(cards, l.as_str()),
            None => clone_cards(cards),
        }
    } else if str_eq(eff, "filter_list") {
        match &p.list {
            Some(l) => cards_by_list(cards, l.as_str()),
            None => clone_cards(cards),
        }
    } else if str_eq(eff, "due") {
        cards_with_due(cards)
    } else if str_eq(eff, "overdue") {
        overdue_cards_at(cards, now)
    } else {
        match &p.keyword {
            Some(k) => search_cards(cards, k.as_str()),
            None => clone_cards(cards),
        }
    };
    assert(card_views(found@) == base_cards(e, p@, cs, now@));
    if !str_eq(eff, "filter_member") {
        if let Some(m) = &p.member {
            found = cards_by_member(&found, m.as_str());
        }
    }
    if !str_eq(eff, "filter_label") {
        if let Some(l) = &p.label {
            found = cards_by_label(&found, l.as_str());
        }
    }
    if !str_eq(eff, "filter_list") {
        if let Some(l) = &p.list {
            found = cards_by_list(&found, l.as_str());
        }
    }
    if p.overdue_only == Some(true) && !str_eq(eff, "overdue") {
        found = overdue_cards_at(&found, now);
    }
    if p.has_due == Some(true) && !str_eq(eff, "due") {
        found = cards_having_due(&found);
    }
    if let Some(d) = &p.due_date {
        found = cards_due_on(&found, d.as_str());
    }
    let header = format_ai_result_header(
        eff,
        found.len(),
        opt_as_str(&p.keyword),
        opt_as_str(&p.member),
        opt_as_str(&p.label),
        opt_as_str(&p.list),
        opt_as_str(&p.due_date),
    );
    (found, header)
}

/// Runs a parsed query over all cards at the current time.  The result is
/// what `execute_ai_intent_at` gives for some instant.
pub fn execute_ai_intent(parsed: &AiParsedIntent, cards: &Vec<TrelloCard>) -> (r: (
    Vec<TrelloCard>,
    String,
))
    ensures
        exists|now: Seq<char>|
            #[trigger] rfc3339_utc(now) && card_views(r.0@) == query_cards(
                parsed@,
                card_views(cards@),
                now,
            ) && r.1@ == query_header(parsed@, r.0@.len()),
{
    let now = utc_now_rfc3339();
    let r = execute_ai_intent_at(parsed, cards, now.as_str());
    assert(rfc3339_utc(now@));
    r
}

// ---------------------------------------------------------------------
// Completing the parse of a message
// ---------------------------------------------------------------------

/// A query completed by a date found in the message: when the query names no
/// date, the date is set, deadlines are asked for, and an empty or search
/// intent becomes `due`.
pub open spec fn with_date_hint(p: ParsedIntentView, date: Option<Seq<char>>) -> ParsedIntentView {
    match (p.due_date, date) {
        (None, Some(d)) => ParsedIntentView {
            due_date: Some(d),
            has_due: Some(true),
            intent: if p.intent.len() == 0 || p.intent == "search"@ {
                "due"@
            } else {
                p.intent
            },
            ..p
        },
        _ => p,
    }
}

/// Completes a query with a date found in the message; see `with_date_hint`.
pub fn apply_date_hint(parsed: AiParsedIntent, date: Option<String>) -> (r: AiParsedIntent)
    ensures
        r@ == with_date_hint(parsed@, opt_str(date)),
{
    let mut p = parsed;
    if p.due_date.is_none() {
        if let Some(d) = date {
            if p.intent.as_str().is_empty() || str_eq(p.intent.as_str(), "search") {
                p.intent = String::from_str("due");
            }
            p.due_date = Some(d);
            p.has_due = Some(true);
        }
    }
    p
}

/// The query of a message: the one the AI extracted, or else the keyword
/// fallback's; then completed by a date named in the message.
pub open spec fn message_query(
    ai: Option<ParsedIntentView>,
    message: Seq<char>,
    year_text: Seq<char>,
) -> ParsedIntentView {
    let base = match ai {
        Some(p) => p,
        None => legacy_query(keyword_intent(message)),
    };
    with_date_hint(base, message_date(lowercase(message), year_text))
}

/// The value of an optional query.
pub open spec fn opt_query(ai: Option<AiParsedIntent>) -> Option<ParsedIntentView> {
    match ai {
        Some(p) => Some(p@),
        None => None,
    }
}

/// Finishes parsing a message from what the AI extracted (`None` when no
/// provider answered with a query); dates are read in the current year.
pub fn finish_parsed_intent(ai: Option<AiParsedIntent>, message: &str) -> (r: AiParsedIntent)
    ensures
        exists|y: Seq<char>|
            #[trigger] year_digits(y) && r@ == message_query(opt_query(ai), message@, y),
{
    let parsed = match ai {
        Some(p) => p,
        None => convert_legacy_to_ai_intent(parse_intent_keyword(message), message),
    };
    let ghost base = parsed@;
    assert(base == match opt_query(ai) {
        Some(p) => p,
        None => legacy_query(keyword_intent(message@)),
    });
    if parsed.due_date.is_none() {
        let date = extract_date_from_message(message);
        let r = apply_date_hint(parsed, date);
        proof {
            let y = choose|y: Seq<char>|
                #[trigger] year_digits(y) && opt_str(date) == message_date(lowercase(message@), y);
            assert(year_digits(y));
            assert(r@ == message_query(opt_query(ai), message@, y));
        }
        r
    } else {
        let ghost y = seq!['1', '9', '7', '0'];
        assert(year_digits(y));
        assert(parsed@ == message_query(opt_query(ai), message@, y));
        parsed
    }
}

/// Whether the chat answer gets an AI analysis pass: for the analysis intents
/// `analyze`, `summary` and `compare` (the message does not change the choice).
pub fn needs_analysis_pass(intent: &str, message: &str) -> (r: bool)
    ensures
        r == (intent@ == "analyze"@ || intent@ == "summary"@ || intent@ == "compare"@),
{
    str_eq(intent, "analyze") || str_eq(intent, "summary") || str_eq(intent, "compare")
}

// ---------------------------------------------------------------------
// Laws of queries
// ---------------------------------------------------------------------

/// The deadline list is ordered soonest first and holds exactly the cards that
/// have a deadline, each as often as among the cards.
pub proof fn lemma_due_cards(cards: Seq<CardView>)
    ensures
        is_sorted_by(due_cards(cards), |c: CardView| due_key(c)),
        due_cards(cards).to_multiset() == keep(cards, |c: CardView| has_due(c)).to_multiset(),
        forall|i: int|
            0 <= i < due_cards(cards).len() ==> has_due(#[trigger] due_cards(cards)[i])
                && cards.contains(due_cards(cards)[i]),
{
    let k = keep(cards, |c: CardView| has_due(c));
    lemma_sorted_by(k, |c: CardView| due_key(c));
    let inv = |c: CardView| has_due(c) && cards.contains(c);
    assert forall|i: int| 0 <= i < cards.len() implies cards.contains(#[trigger] cards[i]) by {}
    lemma_keep_inv(cards, |c: CardView| has_due(c), |c: CardView| cards.contains(c));
    lemma_perm_inv(due_cards(cards), k, inv);
}

/// The names of the intents a query runs are all different.
proof fn lemma_intent_names()
    ensures
        "list_all"@ != "filter_member"@,
        "list_all"@ != "filter_label"@,
        "list_all"@ != "filter_list"@,
        "list_all"@ != "due"@,
        "list_all"@ != "overdue"@,
        "filter_member"@ != "filter_label"@,
        "filter_member"@ != "filter_list"@,
        "filter_member"@ != "due"@,
        "filter_member"@ != "overdue"@,
        "filter_label"@ != "filter_list"@,
        "filter_label"@ != "due"@,
        "filter_label"@ != "overdue"@,
        "filter_list"@ != "due"@,
        "filter_list"@ != "overdue"@,
        "due"@ != "overdue"@,
{
    reveal_strlit("list_all");
    reveal_strlit("filter_member");
    reveal_strlit("filter_label");
    reveal_strlit("filter_list");
    reveal_strlit("due");
    reveal_strlit("overdue");
    assert("list_all"@[0] == 'l');
    assert("filter_member"@[0] == 'f' && "filter_member"@[7] == 'm');
    assert("filter_label"@[0] == 'f' && "filter_label"@[7] == 'l' && "filter_label"@[8] == 'a');
    assert("filter_list"@[0] == 'f' && "filter_list"@[7] == 'l' && "filter_list"@[8] == 'i');
    assert("due"@[0] == 'd');
    assert("overdue"@[0] == 'o');
}

/// What holds of every card holds of every card a filter keeps.
proof fn lemma_filter_inv(s: Seq<CardView>, p: spec_fn(CardView) -> bool, inv: spec_fn(CardView) -> bool)
    requires
        forall|i: int| 0 <= i < s.len() ==> inv(#[trigger] s[i]),
    ensures
        forall|i: int| 0 <= i < keep(s, p).len() ==> inv(#[trigger] keep(s, p)[i]),
        forall|i: int| 0 <= i < keep(s, p).len() ==> p(#[trigger] keep(s, p)[i]),
{
    lemma_keep_inv(s, p, inv);
}

/// The cards the intent selects come from the board, and satisfy the intent's
/// own filter.
proof fn lemma_base_cards(eff: Seq<char>, p: ParsedIntentView, cards: Seq<CardView>, now: Seq<char>)
    ensures
        forall|i: int|
            0 <= i < base_cards(eff, p, cards, now).len() ==> cards.contains(
                #[trigger] base_cards(eff, p, cards, now)[i],
            ),
        forall|i: int|
            0 <= i < base_cards(eff, p, cards, now).len() ==> (eff == "filter_member"@
                && p.member is Some ==> member_matches(
                #[trigger] base_cards(eff, p, cards, now)[i],
                lowercase(p.member->0),
            )),
        forall|i: int|
            0 <= i < base_cards(eff, p, cards, now).len() ==> (eff == "filter_label"@
                && p.label is Some ==> label_matches(
                #[trigger] base_cards(eff, p, cards, now)[i],
                lowercase(p.label->0),
            )),
        forall|i: int|
            0 <= i < base_cards(eff, p, cards, now).len() ==> (eff == "filter_list"@ && p.list is Some
                ==> list_matches(#[trigger] base_cards(eff, p, cards, now)[i], lowercase(p.list->0))),
        forall|i: int|
            0 <= i < base_cards(eff, p, cards, now).len() ==> (eff == "due"@ ==> has_due(
                #[trigger] base_cards(eff, p, cards, now)[i],
            )),
        forall|i: int|
            0 <= i < base_cards(eff, p, cards, now).len() ==> (eff == "overdue"@ ==> is_overdue(
                #[trigger] base_cards(eff, p, cards, now)[i],
                now,
            )),
{
    lemma_intent_names();
    let inv = |c: CardView| cards.contains(c);
    assert forall|i: int| 0 <= i < cards.len() implies inv(#[trigger] cards[i]) by {}
    if eff == "list_all"@ {
    } else if eff == "filter_member"@ {
        if let Some(m) = p.member {
            lemma_filter_inv(cards, |c: CardView| member_matches(c, lowercase(m)), inv);
        }
    } else if eff == "filter_label"@ {
        if let Some(l) = p.label {
            lemma_filter_inv(cards, |c: CardView| label_matches(c, lowercase(l)), inv);
        }
    } else if eff == "filter_list"@ {
        if let Some(l) = p.list {
            lemma_filter_inv(cards, |c: CardView| list_matches(c, lowercase(l)), inv);
        }
    } else if eff == "due"@ {
        lemma_due_cards(cards);
    } else if eff == "overdue"@ {
        lemma_filter_inv(cards, |c: CardView| is_overdue(c, now), inv);
    } else {
        if let Some(k) = p.keyword {
            lemma_search_result_inv(cards, k, inv);
        }
    }
}

/// Every card a query finds is a card of the board, and meets every filter the
/// query names: its member, label and list, its deadline date, and, when asked
/// for, being overdue at `now` or having a deadline.
pub proof fn lemma_query_cards_sound(p: ParsedIntentView, cards: Seq<CardView>, now: Seq<char>)
    ensures
        forall|i: int|
            0 <= i < query_cards(p, cards, now).len() ==> {
                let c = #[trigger] query_cards(p, cards, now)[i];
                &&& cards.contains(c)
                &&& (p.member matches Some(m) ==> member_matches(c, lowercase(m)))
                &&& (p.label matches Some(l) ==> label_matches(c, lowercase(l)))
                &&& (p.list matches Some(l) ==> list_matches(c, lowercase(l)))
                &&& (p.due_date matches Some(d) ==> due_on(c, d))
                &&& (p.overdue_only == Some(true) ==> is_overdue(c, now))
                &&& (p.has_due == Some(true) ==> has_due(c))
            },
{
    let eff = effective_intent(p);
    let c0 = base_cards(eff, p, cards, now);
    lemma_base_cards(eff, p, cards, now);
    // the properties gathered so far, for the filters applied so far
    let i0 = |c: CardView|
        {
            &&& cards.contains(c)
            &&& (eff == "filter_member"@ && p.member is Some ==> member_matches(
                c,
                lowercase(p.member->0),
            ))
            &&& (eff == "filter_label"@ && p.label is Some ==> label_matches(c, lowercase(p.label->0)))
            &&& (eff == "filter_list"@ && p.list is Some ==> list_matches(c, lowercase(p.list->0)))
            &&& (p.overdue_only == Some(true) && eff == "overdue"@ ==> is_overdue(c, now))
            &&& (p.has_due == Some(true) && eff == "due"@ ==> has_due(c))
        };
    assert forall|i: int| 0 <= i < c0.len() implies i0(#[trigger] c0[i]) by {
        assert(cards.contains(c0[i]));
    }
    let c1 = match p.member {
        Some(m) => if eff != "filter_member"@ {
            keep(c0, |c: CardView| member_matches(c, lowercase(m)))
        } else {
            c0
        },
        None => c0,
    };
    let i1 = |c: CardView| i0(c) && (p.member matches Some(m) ==> member_matches(c, lowercase(m)));
    if let Some(m) = p.member {
        if eff != "filter_member"@ {
            lemma_filter_inv(c0, |c: CardView| member_matches(c, lowercase(m)), i0);
        }
    }
    assert forall|i: int| 0 <= i < c1.len() implies i1(#[trigger] c1[i]) by {}
    let c2 = match p.label {
        Some(l) => if eff != "filter_label"@ {
            keep(c1, |c: CardView| label_matches(c, lowercase(l)))
        } else {
            c1
        },
        None => c1,
    };
    let i2 = |c: CardView| i1(c) && (p.label matches Some(l) ==> label_matches(c, lowercase(l)));
    if let Some(l) = p.label {
        if eff != "filter_label"@ {
            lemma_filter_inv(c1, |c: CardView| label_matches(c, lowercase(l)), i1);
        }
    }
    assert forall|i: int| 0 <= i < c2.len() implies i2(#[trigger] c2[i]) by {}
    let c3 = match p.list {
        Some(l) => if eff != "filter_list"@ {
            keep(c2, |c: CardView| list_matches(c, lowercase(l)))
        } else {
            c2
        },
        None => c2,
    };
    let i3 = |c: CardView| i2(c) && (p.list matches Some(l) ==> list_matches(c, lowercase(l)));
    if let Some(l) = p.list {
        if eff != "filter_list"@ {
            lemma_filter_inv(c2, |c: CardView| list_matches(c, lowercase(l)), i2);
        }
    }
    assert forall|i: int| 0 <= i < c3.len() implies i3(#[trigger] c3[i]) by {}
    let c4 = if p.overdue_only == Some(true) && eff != "overdue"@ {
        keep(c3, |c: CardView| is_overdue(c, now))
    } else {
        c3
    };
    let i4 = |c: CardView| i3(c) && (p.overdue_only == Some(true) ==> is_overdue(c, now));
    if p.overdue_only == Some(true) && eff != "overdue"@ {
        lemma_filter_inv(c3, |c: CardView| is_overdue(c, now), i3);
    }
    assert forall|i: int| 0 <= i < c4.len() implies i4(#[trigger] c4[i]) by {}
    let c5 = if p.has_due == Some(true) && eff != "due"@ {
        keep(c4, |c: CardView| has_due(c))
    } else {
        c4
    };
    let i5 = |c: CardView| i4(c) && (p.has_due == Some(true) ==> has_due(c));
    if p.has_due == Some(true) && eff != "due"@ {
        lemma_filter_inv(c4, |c: CardView| has_due(c), i4);
    }
    assert forall|i: int| 0 <= i < c5.len() implies i5(#[trigger] c5[i]) by {}
    let c6 = match p.due_date {
        Some(d) => keep(c5, |c: CardView| due_on(c, d)),
        None => c5,
    };
    if let Some(d) = p.due_date {
        lemma_filter_inv(c5, |c: CardView| due_on(c, d), i5);
    }
    assert(c6 == query_cards(p, cards, now));
    assert forall|i: int| 0 <= i < c6.len() implies i5(#[trigger] c6[i]) && (p.due_date matches Some(
        d,
    ) ==> due_on(c6[i], d)) by {}
}

/// A date found in the message never replaces the date a query names, a
/// query that names none takes the date found and asks for deadlines, and
/// completing a query twice is the same as once.
pub proof fn lemma_date_hint(p: ParsedIntentView, date: Option<Seq<char>>)
    ensures
        p.due_date is Some ==> with_date_hint(p, date) == p,
        date is None ==> with_date_hint(p, date) == p,
        p.due_date is None && date is Some ==> with_date_hint(p, date).due_date == date
            && with_date_hint(p, date).has_due == Some(true),
        with_date_hint(with_date_hint(p, date), date) == with_date_hint(p, date),
        with_date_hint(p, date).keyword == p.keyword && with_date_hint(p, date).member == p.member
            && with_date_hint(p, date).label == p.label && with_date_hint(p, date).list == p.list,
{
}

/// The analysis intents differ from the intents that select cards.
proof fn lemma_analysis_names()
    ensures
        "analyze"@ != "list_all"@ && "analyze"@ != "filter_member"@ && "analyze"@ != "filter_label"@
            && "analyze"@ != "filter_list"@ && "analyze"@ != "due"@ && "analyze"@ != "overdue"@,
        "summary"@ != "list_all"@ && "summary"@ != "filter_member"@ && "summary"@ != "filter_label"@
            && "summary"@ != "filter_list"@ && "summary"@ != "due"@ && "summary"@ != "overdue"@
            && "summary"@ != "analyze"@,
        "compare"@ != "list_all"@ && "compare"@ != "filter_member"@ && "compare"@ != "filter_label"@
            && "compare"@ != "filter_list"@ && "compare"@ != "due"@ && "compare"@ != "overdue"@
            && "compare"@ != "analyze"@ && "compare"@ != "summary"@,
{
    reveal_strlit("analyze");
    reveal_strlit("summary");
    reveal_strlit("compare");
    reveal_strlit("list_all");
    reveal_strlit("filter_member");
    reveal_strlit("filter_label");
    reveal_strlit("filter_list");
    reveal_strlit("due");
    reveal_strlit("overdue");
    assert("analyze"@[0] == 'a' && "summary"@[0] == 's' && "compare"@[0] == 'c');
    assert("list_all"@[0] == 'l' && "filter_member"@[0] == 'f' && "filter_label"@[0] == 'f');
    assert("filter_list"@[0] == 'f' && "due"@[0] == 'd' && "overdue"@[0] == 'o');
}

/// A query that names no filter (no keyword, member, label, list or date, and
/// neither overdue nor deadline cards) and whose intent selects no cards of its
/// own (as the analysis intents) finds every card of the board, in order; the
/// analysis intents then head the answer with the number of cards.
pub proof fn lemma_query_unfiltered(p: ParsedIntentView, cards: Seq<CardView>, now: Seq<char>)
    requires
        p.keyword is None,
        p.member is None,
        p.label is None,
        p.list is None,
        p.due_date is None,
        p.overdue_only != Some(true),
        p.has_due != Some(true),
        p.intent != "due"@,
        p.intent != "overdue"@,
    ensures
        query_cards(p, cards, now) == cards,
        cards.len() > 0 && p.intent == "analyze"@ ==> query_header(p, cards.len())
            == "📊 Phân tích "@ + decimal(cards.len()) + " card"@,
        cards.len() > 0 && p.intent == "summary"@ ==> query_header(p, cards.len())
            == "📋 Tổng quan "@ + decimal(cards.len()) + " card"@,
        cards.len() > 0 && p.intent == "compare"@ ==> query_header(p, cards.len())
            == "⚖️ So sánh "@ + decimal(cards.len()) + " card"@,
        cards.len() == 0 ==> query_header(p, cards.len()) == "Không tìm thấy card nào."@,
{
    lemma_analysis_names();
    assert(effective_intent(p) == p.intent);
    assert(base_cards(p.intent, p, cards, now) == cards);
    let n = cards.len();
    if n > 0 {
        let lead = header_lead(p.intent, n, p.keyword, p.member, p.label, p.list, p.due_date);
        assert(header_parts(p.intent, n, p.keyword, p.member, p.label, p.list, p.due_date) =~= seq![
            lead,
        ]);
        assert(join(seq![lead], " · "@) == lead);
    } else {
        assert(empty_result_filters(p.keyword, p.member, p.label, p.list, p.due_date)
            =~= Seq::<Seq<char>>::empty());
    }
}

/// The query names nothing but its intent and at most the one field that
/// intent filters on.
pub open spec fn only_filter(p: ParsedIntentView) -> bool {
    &&& p.keyword is None
    &&& p.due_date is None
    &&& p.overdue_only != Some(true)
    &&& p.has_due != Some(true)
    &&& (p.intent != "filter_member"@ ==> p.member is None)
    &&& (p.intent != "filter_label"@ ==> p.label is None)
    &&& (p.intent != "filter_list"@ ==> p.list is None)
}

/// What the single-filter queries find, field by field: the cards with a
/// member whose username or full name holds the member asked for; with a
/// label whose name or colour holds the label asked for; whose list name holds
/// the list asked for; whose pending deadline is before `now`; or (for a date
/// over all cards) whose deadline begins with that date.  Everything is
/// compared lowercased; the cards keep their order.
pub proof fn lemma_query_filters(p: ParsedIntentView, cards: Seq<CardView>, now: Seq<char>)
    ensures
        only_filter(p) && p.intent == "filter_member"@ && p.member is Some ==> query_cards(p, cards, now)
            == keep(
            cards,
            |c: CardView|
                exists|j: int|
                    0 <= j < c.members.len() && (contains(
                        lowercase((#[trigger] c.members[j]).username),
                        lowercase(p.member->0),
                    ) || contains(lowercase(c.members[j].full_name), lowercase(p.member->0))),
        ),
        only_filter(p) && p.intent == "filter_label"@ && p.label is Some ==> query_cards(p, cards, now)
            == keep(
            cards,
            |c: CardView|
                exists|j: int|
                    0 <= j < c.labels.len() && (contains(
                        lowercase((#[trigger] c.labels[j]).name),
                        lowercase(p.label->0),
                    ) || (c.labels[j].color is Some && contains(
                        lowercase(c.labels[j].color->0),
                        lowercase(p.label->0),
                    ))),
        ),
        only_filter(p) && p.intent == "filter_list"@ && p.list is Some ==> query_cards(p, cards, now)
            == keep(
            cards,
            |c: CardView| c.list_name is Some && contains(lowercase(c.list_name->0), lowercase(p.list->0)),
        ),
        only_filter(p) && p.intent == "overdue"@ ==> query_cards(p, cards, now) == keep(
            cards,
            |c: CardView| c.due is Some && lex_lt(c.due->0, now) && c.due_complete != Some(true),
        ),
        only_filter(p) && p.intent == "list_all"@ ==> query_cards(p, cards, now) == cards,
        p.keyword is None && p.member is None && p.label is None && p.list is None
            && p.overdue_only != Some(true) && p.has_due != Some(true) && p.intent == "list_all"@
            && p.due_date is Some ==> query_cards(p, cards, now) == keep(
            cards,
            |c: CardView| c.due is Some && starts_with(c.due->0, p.due_date->0),
        ),
{
    lemma_intent_names();
    if only_filter(p) && p.intent == "filter_member"@ && p.member is Some {
        let q = lowercase(p.member->0);
        let f = |c: CardView| member_matches(c, q);
        let g = |c: CardView|
            exists|j: int|
                0 <= j < c.members.len() && (contains(lowercase((#[trigger] c.members[j]).username), q)
                    || contains(lowercase(c.members[j].full_name), q));
        assert forall|c: CardView| #[trigger] member_matches(c, q) == g(c) by {
            if f(c) {
                let j = choose|j: int| 0 <= j < c.members.len() && #[trigger] member_hit(c.members[j], q);
                assert(0 <= j < c.members.len() && (contains(lowercase(c.members[j].username), q)
                    || contains(lowercase(c.members[j].full_name), q)));
            }
            if g(c) {
                let j = choose|j: int|
                    0 <= j < c.members.len() && (contains(lowercase((#[trigger] c.members[j]).username), q)
                        || contains(lowercase(c.members[j].full_name), q));
                assert(member_hit(c.members[j], q));
            }
        }
        assert(f =~= g);
    }
    if only_filter(p) && p.intent == "filter_label"@ && p.label is Some {
        let q = lowercase(p.label->0);
        let f = |c: CardView| label_matches(c, q);
        let g = |c: CardView|
            exists|j: int|
                0 <= j < c.labels.len() && (contains(lowercase((#[trigger] c.labels[j]).name), q) || (
                c.labels[j].color is Some && contains(lowercase(c.labels[j].color->0), q)));
        assert forall|c: CardView| #[trigger] label_matches(c, q) == g(c) by {
            if f(c) {
                let j = choose|j: int| 0 <= j < c.labels.len() && #[trigger] label_hit(c.labels[j], q);
                assert(0 <= j < c.labels.len() && (contains(lowercase(c.labels[j].name), q) || (
                c.labels[j].color is Some && contains(lowercase(c.labels[j].color->0), q))));
            }
            if g(c) {
                let j = choose|j: int|
                    0 <= j < c.labels.len() && (contains(lowercase((#[trigger] c.labels[j]).name), q) || (
                    c.labels[j].color is Some && contains(lowercase(c.labels[j].color->0), q)));
                assert(label_hit(c.labels[j], q));
            }
        }
        assert(f =~= g);
    }
    if only_filter(p) && p.intent == "filter_list"@ && p.list is Some {
        let q = lowercase(p.list->0);
        let f = |c: CardView| list_matches(c, q);
        let g = |c: CardView| c.list_name is Some && contains(lowercase(c.list_name->0), q);
        assert(f =~= g);
    }
    if only_filter(p) && p.intent == "overdue"@ {
        let f = |c: CardView| is_overdue(c, now);
        let g = |c: CardView| c.due is Some && lex_lt(c.due->0, now) && c.due_complete != Some(true);
        assert(f =~= g);
    }
    if p.due_date is Some {
        let d = p.due_date->0;
        let f = |c: CardView| due_on(c, d);
        let g = |c: CardView| c.due is Some && starts_with(c.due->0, d);
        assert(f =~= g);
    }
}

} // verus!
