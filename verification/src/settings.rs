use vstd::prelude::*;

use crate::models::{card_views, list_views, opt_str, CardView, LabelView, ListView, MemberView, TrelloCard, TrelloList};
use crate::order::{is_sorted_by, lemma_sorted_by, sorted_by, stable_sort_by_keys, views_of};
use crate::prompt::cards_in_list;
use crate::stats::{label_entries, member_entries, named_labels};
use crate::seqs::lemma_keep_push;
use crate::text::{chars_of, lowercase, seq_eq, to_lower};

verus! {

/// A board member, as the members endpoint lists it.
pub struct MemberResponse {
    pub id: String,
    pub full_name: String,
    pub username: String,
}

impl View for MemberResponse {
    type V = MemberView;

    open spec fn view(&self) -> MemberView {
        MemberView { id: self.id@, full_name: self.full_name@, username: self.username@ }
    }
}

/// A label, as the labels endpoint lists it.
pub struct LabelResponse {
    pub id: String,
    pub name: String,
    pub color: Option<String>,
}

impl View for LabelResponse {
    type V = LabelView;

    open spec fn view(&self) -> LabelView {
        LabelView { id: self.id@, name: self.name@, color: opt_str(self.color) }
    }
}

/// A list with the number of cards in it.
pub struct ListResponse {
    pub id: String,
    pub name: String,
    pub card_count: usize,
}

/// Some element of `s` has id `k`.
pub open spec fn has_id<V>(s: Seq<V>, id: spec_fn(V) -> Seq<char>, k: Seq<char>) -> bool {
    exists|i: int| 0 <= i < s.len() && #[trigger] id(s[i]) == k
}

/// The elements whose id has not appeared before, in order.
pub open spec fn dedup_by<V>(s: Seq<V>, id: spec_fn(V) -> Seq<char>) -> Seq<V>
    decreases s.len(),
{
    if s.len() == 0 {
        Seq::empty()
    } else {
        let d = dedup_by(s.drop_last(), id);
        if has_id(d, id, id(s.last())) {
            d
        } else {
            d.push(s.last())
        }
    }
}

/// The members of the cards, each once (its first appearance), sorted by
/// lowercased full name; equal names keep their order.
pub open spec fn member_list(cards: Seq<CardView>) -> Seq<MemberView> {
    sorted_by(
        dedup_by(member_entries(cards), |m: MemberView| m.id),
        |m: MemberView| lowercase(m.full_name),
    )
}

/// The named labels of the cards, each once (its first appearance), sorted by
/// lowercased name; equal names keep their order.
pub open spec fn label_list(cards: Seq<CardView>) -> Seq<LabelView> {
    sorted_by(dedup_by(label_entries(cards), |l: LabelView| l.id), |l: LabelView| lowercase(l.name))
}

/// Whether some member already listed has the id.
fn member_listed(out: &Vec<MemberResponse>, id: &String) -> (r: bool)
    ensures
        r == has_id(views_of(out@), |m: MemberView| m.id, id@),
{
    let mut i: usize = 0;
    while i < out.len()
        invariant
            i <= out.len(),
            forall|j: int| 0 <= j < i ==> (#[trigger] out@[j])@.id != id@,
        decreases out.len() - i,
    {
        if out[i].id == *id {
            assert((|m: MemberView| m.id)(views_of(out@)[i as int]) == id@);
            return true;
        }
        i = i + 1;
    }
    assert forall|j: int| 0 <= j < views_of(out@).len() implies (|m: MemberView| m.id)(
        #[trigger] views_of(out@)[j],
    ) != id@ by {
        assert(views_of(out@)[j] == out@[j]@);
    }
    false
}

/// Lists the board members found on the cards, each once, sorted by full name
/// (case-insensitively); see `member_list`.
pub fn unique_members(cards: &Vec<TrelloCard>) -> (r: Vec<MemberResponse>)
    ensures
        views_of(r@) == member_list(card_views(cards@)),
{
    let ghost cs = card_views(cards@);
    let ghost idf = |m: MemberView| m.id;
    let mut out: Vec<MemberResponse> = Vec::new();
    let mut i: usize = 0;
    assert(cs.take(0) =~= Seq::<CardView>::empty());
    assert(views_of(out@) =~= dedup_by(member_entries(cs.take(0)), idf));
    while i < cards.len()
        invariant
            i <= cards.len(),
            cs == card_views(cards@),
            idf == (|m: MemberView| m.id),
            views_of(out@) == dedup_by(member_entries(cs.take(i as int)), idf),
        decreases cards.len() - i,
    {
        let card = &cards[i];
        let ghost e0 = member_entries(cs.take(i as int));
        let ghost ms = card@.members;
        let mut j: usize = 0;
        assert(e0 + ms.take(0) =~= e0);
        while j < card.members.len()
            invariant
                j <= card.members.len(),
                ms == card@.members,
                idf == (|m: MemberView| m.id),
                views_of(out@) == dedup_by(e0 + ms.take(j as int), idf),
            decreases card.members.len() - j,
        {
            let m = &card.members[j];
            let ghost s = e0 + ms.take(j as int);
            let ghost s1 = e0 + ms.take(j + 1);
            assert(s1.drop_last() =~= s);
            assert(s1.last() == m@);
            if !member_listed(&out, &m.id) {
                let ghost before = views_of(out@);
                out.push(MemberResponse {
                    id: m.id.clone(),
                    full_name: m.full_name.clone(),
                    username: m.username.clone(),
                });
                assert(views_of(out@) =~= before.push(m@));
            }
            j = j + 1;
        }
        assert(ms.take(card.members.len() as int) =~= ms);
        assert(cs.take(i + 1).drop_last() =~= cs.take(i as int));
        assert(cs.take(i + 1).last() == card@);
        i = i + 1;
    }
    assert(cs.take(cards.len() as int) =~= cs);
    let mut keys: Vec<Vec<char>> = Vec::new();
    let mut k: usize = 0;
    while k < out.len()
        invariant
            k <= out.len(),
            keys.len() == k,
            forall|j: int| 0 <= j < k ==> (#[trigger] keys@[j])@ == lowercase(out@[j]@.full_name),
        decreases out.len() - k,
    {
        keys.push(chars_of(to_lower(out[k].full_name.as_str()).as_str()));
        k = k + 1;
    }
    stable_sort_by_keys(out, keys, Ghost(|m: MemberView| lowercase(m.full_name)))
}

/// Whether some label already listed has the id.
fn label_listed(out: &Vec<LabelResponse>, id: &String) -> (r: bool)
    ensures
        r == has_id(views_of(out@), |l: LabelView| l.id, id@),
{
    let mut i: usize = 0;
    while i < out.len()
        invariant
            i <= out.len(),
            forall|j: int| 0 <= j < i ==> (#[trigger] out@[j])@.id != id@,
        decreases out.len() - i,
    {
        if out[i].id == *id {
            assert((|l: LabelView| l.id)(views_of(out@)[i as int]) == id@);
            return true;
        }
        i = i + 1;
    }
    assert forall|j: int| 0 <= j < views_of(out@).len() implies (|l: LabelView| l.id)(
        #[trigger] views_of(out@)[j],
    ) != id@ by {
        assert(views_of(out@)[j] == out@[j]@);
    }
    false
}

/// Lists the named labels found on the cards, each once, sorted by name
/// (case-insensitively); see `label_list`.
pub fn unique_labels(cards: &Vec<TrelloCard>) -> (r: Vec<LabelResponse>)
    ensures
        views_of(r@) == label_list(card_views(cards@)),
{
    let ghost cs = card_views(cards@);
    let ghost idf = |l: LabelView| l.id;
    let mut out: Vec<LabelResponse> = Vec::new();
    let mut i: usize = 0;
    assert(cs.take(0) =~= Seq::<CardView>::empty());
    assert(views_of(out@) =~= dedup_by(label_entries(cs.take(0)), idf));
    while i < cards.len()
        invariant
            i <= cards.len(),
            cs == card_views(cards@),
            idf == (|l: LabelView| l.id),
            views_of(out@) == dedup_by(label_entries(cs.take(i as int)), idf),
        decreases cards.len() - i,
    {
        let card = &cards[i];
        let ghost e0 = label_entries(cs.take(i as int));
        let ghost ls = card@.labels;
        let mut j: usize = 0;
        assert(ls.take(0) =~= Seq::<LabelView>::empty());
        assert(e0 + named_labels(ls.take(0)) =~= e0);
        while j < card.labels.len()
            invariant
                j <= card.labels.len(),
                ls == card@.labels,
                idf == (|l: LabelView| l.id),
                views_of(out@) == dedup_by(e0 + named_labels(ls.take(j as int)), idf),
            decreases card.labels.len() - j,
        {
            let l = &card.labels[j];
            let ghost s = e0 + named_labels(ls.take(j as int));
            proof {
                assert(ls.take(j + 1) =~= ls.take(j as int).push(ls[j as int]));
                lemma_keep_push(ls.take(j as int), ls[j as int], |l: LabelView| l.name.len() > 0);
                assert(ls[j as int] == l@);
            }
            if !l.name.as_str().is_empty() {
                let ghost s1 = e0 + named_labels(ls.take(j + 1));
                assert(s1 =~= s.push(l@));
                assert(s1.drop_last() =~= s);
                if !label_listed(&out, &l.id) {
                    let ghost before = views_of(out@);
                    out.push(LabelResponse {
                        id: l.id.clone(),
                        name: l.name.clone(),
                        color: match &l.color { Some(c) => Some(c.clone()), None => None },
                    });
                    assert(views_of(out@) =~= before.push(l@));
                }
            } else {
                assert(e0 + named_labels(ls.take(j + 1)) =~= s);
            }
            j = j + 1;
        }
        assert(ls.take(card.labels.len() as int) =~= ls);
        assert(cs.take(i + 1).drop_last() =~= cs.take(i as int));
        assert(cs.take(i + 1).last() == card@);
        i = i + 1;
    }
    assert(cs.take(cards.len() as int) =~= cs);
    let mut keys: Vec<Vec<char>> = Vec::new();
    let mut k: usize = 0;
    while k < out.len()
        invariant
            k <= out.len(),
            keys.len() == k,
            forall|j: int| 0 <= j < k ==> (#[trigger] keys@[j])@ == lowercase(out@[j]@.name),
        decreases out.len() - k,
    {
        keys.push(chars_of(to_lower(out[k].name.as_str()).as_str()));
        k = k + 1;
    }
    stable_sort_by_keys(out, keys, Ghost(|l: LabelView| lowercase(l.name)))
}

/// Lists the board's lists, each with the number of cards in it.
pub fn list_summaries(lists: &Vec<TrelloList>, cards: &Vec<TrelloCard>) -> (r: Vec<ListResponse>)
    ensures
        r.len() == lists.len(),
        forall|i: int|
            0 <= i < r.len() ==> (#[trigger] r@[i]).id@ == lists@[i].id@ && r@[i].name@
                == lists@[i].name@ && r@[i].card_count == cards_in_list(
                card_views(cards@),
                lists@[i].id@,
            ),
{
    let mut out: Vec<ListResponse> = Vec::new();
    let mut i: usize = 0;
    while i < lists.len()
        invariant
            i <= lists.len(),
            out.len() == i,
            forall|j: int|
                0 <= j < i ==> (#[trigger] out@[j]).id@ == lists@[j].id@ && out@[j].name@
                    == lists@[j].name@ && out@[j].card_count == cards_in_list(
                    card_views(cards@),
                    lists@[j].id@,
                ),
        decreases lists.len() - i,
    {
        let l = &lists[i];
        out.push(ListResponse {
            id: l.id.clone(),
            name: l.name.clone(),
            card_count: crate::prompt::count_cards_in_list(cards, &l.id),
        });
        i = i + 1;
    }
    out
}

} // verus!

verus! {

/// A webhook as the settings page shows it.
pub struct WebhookStatus {
    pub id: String,
    pub description: Option<String>,
    pub callback_url: String,
    pub active: bool,
}

/// Availability of an AI provider on the settings page.
pub struct AiProviderStatus {
    pub name: String,
    pub available: bool,
}

/// Availability of the services.
pub struct ServicesStatus {
    pub trello: bool,
    pub redis: bool,
    pub ai_providers: Vec<AiProviderStatus>,
}

/// The settings page.
pub struct SettingsResponse {
    pub card_count: usize,
    pub last_sync: Option<String>,
    pub webhooks: Vec<WebhookStatus>,
    pub services: ServicesStatus,
}

/// A request to register the webhook under a base URL.
pub struct WebhookRequest {
    pub url: String,
}

/// A request to change a webhook.
pub struct UpdateWebhookRequest {
    pub description: Option<String>,
    pub callback_url: Option<String>,
    pub active: Option<bool>,
}

/// The webhook registered by this service.
pub struct StoredWebhookInfo {
    pub id: String,
    pub url: String,
    pub active: bool,
}

/// How the settings page shows a webhook registered for the token.
pub fn webhook_status_of(w: &crate::webhook::TrelloWebhook) -> (r: WebhookStatus)
    ensures
        r.id@ == w.id@,
        opt_str(r.description) == opt_str(w.description),
        r.callback_url@ == w.callback_url@,
        r.active == w.active,
{
    WebhookStatus {
        id: w.id.clone(),
        description: w.description.clone(),
        callback_url: w.callback_url.clone(),
        active: w.active,
    }
}

/// How the settings page shows the webhook just registered (it has no description).
pub fn registered_status(info: &crate::webhook::WebhookInfo) -> (r: WebhookStatus)
    ensures
        r.id@ == info.id@,
        r.description is None,
        r.callback_url@ == info.callback_url@,
        r.active == info.active,
{
    WebhookStatus {
        id: info.id.clone(),
        description: None,
        callback_url: info.callback_url.clone(),
        active: info.active,
    }
}

/// The change a webhook update request asks for.
pub fn update_of_request(req: UpdateWebhookRequest) -> (r: crate::webhook::TrelloWebhookUpdate)
    ensures
        opt_str(r.description) == opt_str(req.description),
        opt_str(r.callback_url) == opt_str(req.callback_url),
        r.active == req.active,
{
    crate::webhook::TrelloWebhookUpdate {
        description: req.description,
        callback_url: req.callback_url,
        active: req.active,
    }
}

// ---------------------------------------------------------------------
// Laws of the member and label lists
// ---------------------------------------------------------------------

/// No two elements share an id.
pub open spec fn unique_ids<V>(s: Seq<V>, id: spec_fn(V) -> Seq<char>) -> bool {
    forall|i: int, j: int| 0 <= i < j < s.len() ==> id(#[trigger] s[i]) != id(#[trigger] s[j])
}

/// Removing repeated ids leaves each id once, and every id that occurred.
proof fn lemma_dedup_by<V>(s: Seq<V>, id: spec_fn(V) -> Seq<char>)
    ensures
        unique_ids(dedup_by(s, id), id),
        forall|k: Seq<char>| has_id(dedup_by(s, id), id, k) <==> has_id(s, id, k),
        forall|i: int| 0 <= i < dedup_by(s, id).len() ==> s.contains(#[trigger] dedup_by(s, id)[i]),
    decreases s.len(),
{
    if s.len() > 0 {
        let p = s.drop_last();
        let x = s.last();
        let d = dedup_by(p, id);
        lemma_dedup_by(p, id);
        assert forall|k: Seq<char>| has_id(s, id, k) <==> (has_id(p, id, k) || id(x) == k) by {
            if has_id(s, id, k) {
                let i = choose|i: int| 0 <= i < s.len() && #[trigger] id(s[i]) == k;
                if i < p.len() {
                    assert(id(p[i]) == k);
                }
            }
            if has_id(p, id, k) {
                let i = choose|i: int| 0 <= i < p.len() && #[trigger] id(p[i]) == k;
                assert(id(s[i]) == k);
            }
            if id(x) == k {
                assert(id(s[s.len() - 1]) == k);
            }
        }
        assert forall|i: int| 0 <= i < d.len() implies s.contains(#[trigger] d[i]) by {
            assert(p.contains(d[i]));
            let j = choose|j: int| 0 <= j < p.len() && p[j] == d[i];
            assert(s[j] == d[i]);
        }
        if !has_id(d, id, id(x)) {
            let e = d.push(x);
            assert forall|k: Seq<char>| has_id(e, id, k) <==> (has_id(d, id, k) || id(x) == k) by {
                if has_id(e, id, k) {
                    let i = choose|i: int| 0 <= i < e.len() && #[trigger] id(e[i]) == k;
                    if i < d.len() {
                        assert(id(d[i]) == k);
                    }
                }
                if has_id(d, id, k) {
                    let i = choose|i: int| 0 <= i < d.len() && #[trigger] id(d[i]) == k;
                    assert(id(e[i]) == k);
                }
                if id(x) == k {
                    assert(id(e[d.len() as int]) == k);
                }
            }
            assert forall|i: int, j: int| 0 <= i < j < e.len() implies id(#[trigger] e[i]) != id(
                #[trigger] e[j],
            ) by {
                if j == d.len() {
                    assert(e[i] == d[i]);
                    if id(d[i]) == id(x) {
                        assert(has_id(d, id, id(x)));
                    }
                } else {
                    assert(e[i] == d[i] && e[j] == d[j]);
                }
            }
            assert forall|i: int| 0 <= i < e.len() implies s.contains(#[trigger] e[i]) by {
                if i < d.len() {
                    assert(e[i] == d[i]);
                } else {
                    assert(s[s.len() - 1] == e[i]);
                }
            }
        }
    }
}

/// Sorting a list whose ids are unique keeps them unique and keeps every id.
proof fn lemma_sorted_ids<V>(s: Seq<V>, key: spec_fn(V) -> Seq<char>, id: spec_fn(V) -> Seq<char>)
    requires
        unique_ids(s, id),
    ensures
        unique_ids(sorted_by(s, key), id),
        forall|k: Seq<char>| has_id(sorted_by(s, key), id, k) <==> has_id(s, id, k),
        forall|i: int| 0 <= i < sorted_by(s, key).len() ==> s.contains(#[trigger] sorted_by(s, key)[i]),
{
    broadcast use vstd::seq_lib::group_to_multiset_ensures;

    let t = sorted_by(s, key);
    lemma_sorted_by(s, key);
    assert forall|i: int| 0 <= i < t.len() implies s.contains(#[trigger] t[i]) by {
        assert(t.contains(t[i]));
        assert(t.to_multiset().count(t[i]) > 0);
    }
    assert forall|k: Seq<char>| has_id(t, id, k) <==> has_id(s, id, k) by {
        if has_id(t, id, k) {
            let i = choose|i: int| 0 <= i < t.len() && #[trigger] id(t[i]) == k;
            assert(s.contains(t[i]));
            let j = choose|j: int| 0 <= j < s.len() && s[j] == t[i];
            assert(id(s[j]) == k);
        }
        if has_id(s, id, k) {
            let j = choose|j: int| 0 <= j < s.len() && #[trigger] id(s[j]) == k;
            assert(s.contains(s[j]));
            assert(s.to_multiset().count(s[j]) > 0);
            assert(t.contains(s[j]));
            let i = choose|i: int| 0 <= i < t.len() && t[i] == s[j];
            assert(id(t[i]) == k);
        }
    }
    assert(s.no_duplicates()) by {
        assert forall|i: int, j: int| 0 <= i < s.len() && 0 <= j < s.len() && i != j implies s[i]
            != s[j] by {
            if i < j {
                assert(id(s[i]) != id(s[j]));
            } else {
                assert(id(s[j]) != id(s[i]));
            }
        }
    }
    s.lemma_multiset_has_no_duplicates();
    t.lemma_multiset_has_no_duplicates_conv();
    assert forall|i: int, j: int| 0 <= i < j < t.len() implies id(#[trigger] t[i]) != id(
        #[trigger] t[j],
    ) by {
        assert(t[i] != t[j]);
        assert(s.contains(t[i]) && s.contains(t[j]));
        let a = choose|a: int| 0 <= a < s.len() && s[a] == t[i];
        let b = choose|b: int| 0 <= b < s.len() && s[b] == t[j];
        assert(a != b);
        if a < b {
            assert(id(s[a]) != id(s[b]));
        } else {
            assert(id(s[b]) != id(s[a]));
        }
    }
}

/// Some member has the id.
pub open spec fn has_member_id(s: Seq<MemberView>, k: Seq<char>) -> bool {
    has_id(s, |m: MemberView| m.id, k)
}

/// Some label has the id.
pub open spec fn has_label_id(s: Seq<LabelView>, k: Seq<char>) -> bool {
    has_id(s, |l: LabelView| l.id, k)
}

/// The member list names each member once, every member of some card, and
/// only members of the cards, sorted by lowercased full name.
pub proof fn lemma_member_list(cards: Seq<CardView>)
    ensures
        unique_ids(member_list(cards), |m: MemberView| m.id),
        forall|k: Seq<char>|
            #[trigger] has_member_id(member_list(cards), k) <==> has_member_id(member_entries(cards), k),
        forall|i: int|
            0 <= i < member_list(cards).len() ==> member_entries(cards).contains(
                #[trigger] member_list(cards)[i],
            ),
        is_sorted_by(member_list(cards), |m: MemberView| lowercase(m.full_name)),
{
    let id = |m: MemberView| m.id;
    let key = |m: MemberView| lowercase(m.full_name);
    let s = member_entries(cards);
    let d = dedup_by(s, id);
    lemma_dedup_by(s, id);
    lemma_sorted_ids(d, key, id);
    lemma_sorted_by(d, key);
    assert forall|i: int| 0 <= i < member_list(cards).len() implies s.contains(
        #[trigger] member_list(cards)[i],
    ) by {
        assert(d.contains(member_list(cards)[i]));
        let j = choose|j: int| 0 <= j < d.len() && d[j] == member_list(cards)[i];
        assert(s.contains(d[j]));
    }
}

/// The label list names each label once, every named label of some card, and
/// only labels of the cards, sorted by lowercased name.
pub proof fn lemma_label_list(cards: Seq<CardView>)
    ensures
        unique_ids(label_list(cards), |l: LabelView| l.id),
        forall|k: Seq<char>|
            #[trigger] has_label_id(label_list(cards), k) <==> has_label_id(label_entries(cards), k),
        forall|i: int|
            0 <= i < label_list(cards).len() ==> label_entries(cards).contains(
                #[trigger] label_list(cards)[i],
            ),
        is_sorted_by(label_list(cards), |l: LabelView| lowercase(l.name)),
{
    let id = |l: LabelView| l.id;
    let key = |l: LabelView| lowercase(l.name);
    let s = label_entries(cards);
    let d = dedup_by(s, id);
    lemma_dedup_by(s, id);
    lemma_sorted_ids(d, key, id);
    lemma_sorted_by(d, key);
    assert forall|i: int| 0 <= i < label_list(cards).len() implies s.contains(
        #[trigger] label_list(cards)[i],
    ) by {
        assert(d.contains(label_list(cards)[i]));
        let j = choose|j: int| 0 <= j < d.len() && d[j] == label_list(cards)[i];
        assert(s.contains(d[j]));
    }
}

} // verus!
