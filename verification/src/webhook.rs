use vstd::prelude::*;

use crate::models::{opt_str, CardView, TrelloCard, TrelloLabel, TrelloMember};
use crate::text::{chars_of, str_eq, string_of, strip_char_suffixes_vec, strip_suffixes, push_str, views};

verus! {

// ---------------------------------------------------------------------
// Events that Trello posts to the webhook
// ---------------------------------------------------------------------

/// A list as a webhook event names it.
pub struct TrelloWebhookList {
    pub id: String,
    pub name: Option<String>,
}

/// A card as a webhook event describes it (only some fields).
pub struct TrelloWebhookCard {
    pub id: String,
    pub name: Option<String>,
    pub desc: Option<String>,
    pub short_url: Option<String>,
    pub due: Option<String>,
    pub due_complete: Option<bool>,
    pub id_list: Option<String>,
}

/// What an event is about.
pub struct TrelloActionData {
    pub card: Option<TrelloWebhookCard>,
    pub list: Option<TrelloWebhookList>,
    pub list_after: Option<TrelloWebhookList>,
    pub list_before: Option<TrelloWebhookList>,
}

/// The action of an event.
pub struct TrelloAction {
    pub action_type: String,
    pub data: TrelloActionData,
}

/// The body of a webhook call.
pub struct TrelloWebhookPayload {
    pub action: TrelloAction,
}

/// What to do with an event.
pub enum WebhookAction {
    /// Fetch the card and store it, naming its list from the event when the
    /// card does not; store the event's own description of it when the fetch fails.
    SyncCard(String),
    /// Fetch the card (moved onto the board) and store it.
    SyncMovedCard(String),
    /// Remove the card from the cache.
    DeleteCard(String),
    /// Nothing to do.
    Ignore,
}

pub enum WebhookActionView {
    SyncCard(Seq<char>),
    SyncMovedCard(Seq<char>),
    DeleteCard(Seq<char>),
    Ignore,
}

impl View for WebhookAction {
    type V = WebhookActionView;

    open spec fn view(&self) -> WebhookActionView {
        match self {
            WebhookAction::SyncCard(id) => WebhookActionView::SyncCard(id@),
            WebhookAction::SyncMovedCard(id) => WebhookActionView::SyncMovedCard(id@),
            WebhookAction::DeleteCard(id) => WebhookActionView::DeleteCard(id@),
            WebhookAction::Ignore => WebhookActionView::Ignore,
        }
    }
}

/// The action an event of type `t` about the card with id `card` calls for.
pub open spec fn event_action(t: Seq<char>, card: Option<Seq<char>>) -> WebhookActionView {
    match card {
        None => WebhookActionView::Ignore,
        Some(id) => if t == "createCard"@ || t == "updateCard"@ || t == "copyCard"@ {
            WebhookActionView::SyncCard(id)
        } else if t == "deleteCard"@ || t == "moveCardFromBoard"@ {
            WebhookActionView::DeleteCard(id)
        } else if t == "moveCardToBoard"@ {
            WebhookActionView::SyncMovedCard(id)
        } else {
            WebhookActionView::Ignore
        },
    }
}

/// The id of the card an event is about.
pub open spec fn event_card_id(p: TrelloWebhookPayload) -> Option<Seq<char>> {
    match p.action.data.card {
        Some(c) => Some(c.id@),
        None => None,
    }
}

/// Decides what a webhook event calls for; see `event_action`.
pub fn plan_webhook_event(payload: &TrelloWebhookPayload) -> (r: WebhookAction)
    ensures
        r@ == event_action(payload.action.action_type@, event_card_id(*payload)),
{
    let t = payload.action.action_type.as_str();
    match &payload.action.data.card {
        None => WebhookAction::Ignore,
        Some(c) => {
            if str_eq(t, "createCard") || str_eq(t, "updateCard") || str_eq(t, "copyCard") {
                WebhookAction::SyncCard(c.id.clone())
            } else if str_eq(t, "deleteCard") || str_eq(t, "moveCardFromBoard") {
                WebhookAction::DeleteCard(c.id.clone())
            } else if str_eq(t, "moveCardToBoard") {
                WebhookAction::SyncMovedCard(c.id.clone())
            } else {
                WebhookAction::Ignore
            }
        },
    }
}

/// The list name an event gives: that of the list the card moved to, or else
/// that of the list it names.
pub open spec fn event_list_name(d: TrelloActionData) -> Option<Option<Seq<char>>> {
    match d.list_after {
        Some(l) => Some(opt_str(l.name)),
        None => match d.list {
            Some(l) => Some(opt_str(l.name)),
            None => None,
        },
    }
}

/// A fetched card, with its list named from the event when it has no list name.
pub open spec fn with_event_list(c: CardView, d: TrelloActionData) -> CardView {
    match c.list_name {
        Some(_) => c,
        None => match event_list_name(d) {
            Some(n) => CardView { list_name: n, ..c },
            None => c,
        },
    }
}

/// Names the list of a fetched card from the event when the card has no list name.
pub fn fill_list_name(card: TrelloCard, data: &TrelloActionData) -> (r: TrelloCard)
    ensures
        r@ == with_event_list(card@, *data),
{
    let mut card = card;
    if card.list_name.is_none() {
        if let Some(list) = &data.list_after {
            card.list_name = list.name.clone();
        } else if let Some(list) = &data.list {
            card.list_name = list.name.clone();
        }
    }
    card
}

/// A value, or the empty string.
pub open spec fn or_empty(o: Option<String>) -> Seq<char> {
    match o {
        Some(s) => s@,
        None => Seq::empty(),
    }
}

/// The card an event describes, used when the card cannot be fetched: missing
/// text fields are empty, it has no labels and no members, and its list name
/// is that of the list the event names.
pub open spec fn card_of_event(w: TrelloWebhookCard, d: TrelloActionData) -> CardView {
    CardView {
        id: w.id@,
        name: or_empty(w.name),
        desc: or_empty(w.desc),
        id_list: or_empty(w.id_list),
        due: opt_str(w.due),
        due_complete: w.due_complete,
        labels: Seq::empty(),
        short_url: or_empty(w.short_url),
        list_name: match d.list {
            Some(l) => opt_str(l.name),
            None => None,
        },
        members: Seq::empty(),
    }
}

/// A clone of an optional string, or the empty string.
fn text_or_empty(o: &Option<String>) -> (r: String)
    ensures
        r@ == or_empty(*o),
{
    match o {
        Some(s) => s.clone(),
        None => String::new(),
    }
}

/// Builds the card an event describes; see `card_of_event`.
pub fn card_from_webhook(w: &TrelloWebhookCard, data: &TrelloActionData) -> (r: TrelloCard)
    ensures
        r@ == card_of_event(*w, *data),
{
    let labels: Vec<TrelloLabel> = Vec::new();
    let members: Vec<TrelloMember> = Vec::new();
    let r = TrelloCard {
        id: w.id.clone(),
        name: text_or_empty(&w.name),
        desc: text_or_empty(&w.desc),
        id_list: text_or_empty(&w.id_list),
        due: w.due.clone(),
        due_complete: w.due_complete,
        labels,
        short_url: text_or_empty(&w.short_url),
        list_name: match &data.list {
            Some(l) => l.name.clone(),
            None => None,
        },
        members,
    };
    assert(r@.labels =~= Seq::<crate::models::LabelView>::empty());
    assert(r@.members =~= Seq::<crate::models::MemberView>::empty());
    r
}

// ---------------------------------------------------------------------
// Registering the webhook
// ---------------------------------------------------------------------

/// A webhook as the registration API reports it.
pub struct WebhookInfo {
    pub id: String,
    pub callback_url: String,
    pub active: bool,
}

pub struct WebhookInfoView {
    pub id: Seq<char>,
    pub callback_url: Seq<char>,
    pub active: bool,
}

impl View for WebhookInfo {
    type V = WebhookInfoView;

    open spec fn view(&self) -> WebhookInfoView {
        WebhookInfoView { id: self.id@, callback_url: self.callback_url@, active: self.active }
    }
}

/// What registering a callback comes down to.
pub enum RegistrationPlan {
    /// An active webhook already calls back there.
    Reuse(WebhookInfo),
    /// Delete these inactive webhooks for the same callback, then create one.
    Create(Vec<String>),
}

/// Position of the first active webhook for the callback, if any.
pub open spec fn first_active(hooks: Seq<WebhookInfoView>, url: Seq<char>, i: nat) -> Option<nat>
    decreases hooks.len() - i,
{
    if i >= hooks.len() {
        None
    } else if hooks[i as int].callback_url == url && hooks[i as int].active {
        Some(i)
    } else {
        first_active(hooks, url, i + 1)
    }
}

/// Ids of the inactive webhooks for the callback, in order.
pub open spec fn stale_ids(hooks: Seq<WebhookInfoView>, url: Seq<char>) -> Seq<Seq<char>>
    decreases hooks.len(),
{
    if hooks.len() == 0 {
        Seq::empty()
    } else {
        let rest = stale_ids(hooks.drop_last(), url);
        if hooks.last().callback_url == url && !hooks.last().active {
            rest.push(hooks.last().id)
        } else {
            rest
        }
    }
}

/// The plan is right for the webhooks listed (`None` when listing failed):
/// reuse the first active webhook for the callback, else delete the inactive
/// ones for it and create a new one.
pub open spec fn plan_ok(r: RegistrationPlan, listed: Option<Seq<WebhookInfoView>>, url: Seq<char>) -> bool {
    match listed {
        None => r matches RegistrationPlan::Create(ids) && ids@.len() == 0,
        Some(hooks) => match first_active(hooks, url, 0) {
            Some(i) => r matches RegistrationPlan::Reuse(w) && w@ == hooks[i as int],
            None => r matches RegistrationPlan::Create(ids) && views(ids@) == stale_ids(hooks, url),
        },
    }
}

/// The values of a list of webhooks.
pub open spec fn info_views(s: Seq<WebhookInfo>) -> Seq<WebhookInfoView> {
    s.map_values(|w: WebhookInfo| w@)
}

/// Decides how to register the callback given the webhooks listed; see `plan_ok`.
pub fn plan_registration(listed: Option<&Vec<WebhookInfo>>, callback_url: &str) -> (r: RegistrationPlan)
    ensures
        plan_ok(r, match listed { Some(v) => Some(info_views(v@)), None => None }, callback_url@),
{
    match listed {
        None => {
            let ids: Vec<String> = Vec::new();
            RegistrationPlan::Create(ids)
        },
        Some(hooks) => plan_for(hooks, callback_url),
    }
}

/// Decides how to register the callback given the webhooks that exist.
fn plan_for(hooks: &Vec<WebhookInfo>, callback_url: &str) -> (r: RegistrationPlan)
    ensures
        plan_ok(r, Some(info_views(hooks@)), callback_url@),
{
    let ghost hv = info_views(hooks@);
    let mut i: usize = 0;
    while i < hooks.len()
        invariant
            i <= hooks.len(),
            hv == info_views(hooks@),
            first_active(hv, callback_url@, 0) == first_active(hv, callback_url@, i as nat),
        decreases hooks.len() - i,
    {
        let h = &hooks[i];
        assert(hv[i as int] == h@);
        if h.active && str_eq(h.callback_url.as_str(), callback_url) {
            assert(first_active(hv, callback_url@, i as nat) == Some(i as nat));
            let w = WebhookInfo {
                id: h.id.clone(),
                callback_url: h.callback_url.clone(),
                active: h.active,
            };
            assert(w@ == hv[i as int]);
            let r = RegistrationPlan::Reuse(w);
            assert(plan_ok(r, Some(hv), callback_url@));
            return r;
        }
        i = i + 1;
    }
    let mut ids: Vec<String> = Vec::new();
    let mut j: usize = 0;
    assert(hv.take(0) =~= Seq::<WebhookInfoView>::empty());
    while j < hooks.len()
        invariant
            j <= hooks.len(),
            hv == info_views(hooks@),
            views(ids@) == stale_ids(hv.take(j as int), callback_url@),
        decreases hooks.len() - j,
    {
        let h = &hooks[j];
        assert(hv.take(j + 1).drop_last() =~= hv.take(j as int));
        assert(hv.take(j + 1).last() == h@);
        if !h.active && str_eq(h.callback_url.as_str(), callback_url) {
            let ghost before = views(ids@);
            ids.push(h.id.clone());
            assert(views(ids@) =~= before.push(h@.id));
        }
        j = j + 1;
    }
    assert(hv.take(hooks.len() as int) =~= hv);
    RegistrationPlan::Create(ids)
}

/// The callback URL registered for a base URL given in the settings: the base
/// without trailing slashes, then `/api/webhook`.
pub fn webhook_callback(base_url: &str) -> (r: String)
    ensures
        r@ == strip_suffixes(base_url@, seq!['/']) + "/api/webhook"@,
{
    let base = strip_char_suffixes_vec(&chars_of(base_url), '/');
    let mut r = string_of(base.as_slice());
    push_str(&mut r, "/api/webhook");
    r
}

// ---------------------------------------------------------------------
// Webhooks managed through the Trello API
// ---------------------------------------------------------------------

/// A webhook registered for the token.
pub struct TrelloWebhook {
    pub id: String,
    pub description: Option<String>,
    pub callback_url: String,
    pub id_model: String,
    pub active: bool,
}

/// A change to a webhook; absent fields stay as they are.
pub struct TrelloWebhookUpdate {
    pub description: Option<String>,
    pub callback_url: Option<String>,
    pub active: Option<bool>,
}

/// The text of a boolean.
pub open spec fn bool_text(b: bool) -> Seq<char> {
    if b { "true"@ } else { "false"@ }
}

/// Pushes a query parameter when the value is present.
pub open spec fn push_param(
    ps: Seq<(Seq<char>, Seq<char>)>,
    name: Seq<char>,
    v: Option<Seq<char>>,
) -> Seq<(Seq<char>, Seq<char>)> {
    match v {
        Some(x) => ps.push((name, x)),
        None => ps,
    }
}

/// The query parameters of a webhook update: the credentials, then each field
/// that the update sets.
pub open spec fn update_params(
    key: Seq<char>,
    token: Seq<char>,
    u: TrelloWebhookUpdate,
) -> Seq<(Seq<char>, Seq<char>)> {
    let base = seq![("key"@, key), ("token"@, token)];
    let p1 = push_param(base, "description"@, opt_str(u.description));
    let p2 = push_param(p1, "callbackURL"@, opt_str(u.callback_url));
    push_param(p2, "active"@, match u.active { Some(b) => Some(bool_text(b)), None => None })
}

/// The values of a list of query parameters.
pub open spec fn param_views(s: Seq<(String, String)>) -> Seq<(Seq<char>, Seq<char>)> {
    s.map_values(|p: (String, String)| (p.0@, p.1@))
}

/// Builds the query parameters of a webhook update; see `update_params`.
pub fn webhook_update_params(api_key: &str, token: &str, update: &TrelloWebhookUpdate) -> (r: Vec<(String, String)>)
    ensures
        param_views(r@) == update_params(api_key@, token@, *update),
{
    let mut ps: Vec<(String, String)> = Vec::new();
    ps.push((String::from_str("key"), String::from_str(api_key)));
    ps.push((String::from_str("token"), String::from_str(token)));
    let ghost p0 = param_views(ps@);
    assert(p0 =~= seq![("key"@, api_key@), ("token"@, token@)]);
    if let Some(d) = &update.description {
        let ghost b = param_views(ps@);
        ps.push((String::from_str("description"), d.clone()));
        assert(param_views(ps@) =~= b.push(("description"@, d@)));
    }
    if let Some(c) = &update.callback_url {
        let ghost b = param_views(ps@);
        ps.push((String::from_str("callbackURL"), c.clone()));
        assert(param_views(ps@) =~= b.push(("callbackURL"@, c@)));
    }
    if let Some(a) = update.active {
        let ghost b = param_views(ps@);
        let t = if a { String::from_str("true") } else { String::from_str("false") };
        ps.push((String::from_str("active"), t));
        assert(param_views(ps@) =~= b.push(("active"@, bool_text(a))));
    }
    ps
}

// ---------------------------------------------------------------------
// Laws of registration
// ---------------------------------------------------------------------

/// The webhook is active and calls back to `url`.
pub open spec fn active_for(h: WebhookInfoView, url: Seq<char>) -> bool {
    h.callback_url == url && h.active
}

/// The webhook is inactive and calls back to `url`.
pub open spec fn stale_for(h: WebhookInfoView, url: Seq<char>) -> bool {
    h.callback_url == url && !h.active
}

/// `first_active` finds the first active webhook for the callback at or after `i`.
proof fn lemma_first_active(hooks: Seq<WebhookInfoView>, url: Seq<char>, i: nat)
    ensures
        match first_active(hooks, url, i) {
            Some(j) => i <= j < hooks.len() && active_for(hooks[j as int], url),
            None => forall|k: int| i <= k < hooks.len() ==> !active_for(#[trigger] hooks[k], url),
        },
    decreases hooks.len() - i,
{
    if i < hooks.len() && !active_for(hooks[i as int], url) {
        lemma_first_active(hooks, url, i + 1);
    }
}

/// The stale ids are exactly the ids of the inactive webhooks for the callback.
proof fn lemma_stale_ids(hooks: Seq<WebhookInfoView>, url: Seq<char>)
    ensures
        forall|i: int|
            0 <= i < stale_ids(hooks, url).len() ==> exists|j: int|
                0 <= j < hooks.len() && stale_for(#[trigger] hooks[j], url) && hooks[j].id
                    == #[trigger] stale_ids(hooks, url)[i],
    decreases hooks.len(),
{
    if hooks.len() > 0 {
        let p = hooks.drop_last();
        lemma_stale_ids(p, url);
        let r = stale_ids(p, url);
        assert forall|i: int| 0 <= i < stale_ids(hooks, url).len() implies exists|j: int|
            0 <= j < hooks.len() && stale_for(#[trigger] hooks[j], url) && hooks[j].id
                == #[trigger] stale_ids(hooks, url)[i] by {
            if i < r.len() {
                let j = choose|j: int|
                    0 <= j < p.len() && stale_for(#[trigger] p[j], url) && p[j].id == r[i];
                assert(hooks[j] == p[j]);
            } else {
                assert(stale_for(hooks[hooks.len() - 1], url));
            }
        }
    }
}

/// Registration reuses a webhook exactly when an active one already calls back
/// to the URL, and then reuses such a one; otherwise it deletes only inactive
/// webhooks for that URL before creating a new one.
pub proof fn lemma_registration(r: RegistrationPlan, hooks: Seq<WebhookInfoView>, url: Seq<char>)
    requires
        plan_ok(r, Some(hooks), url),
    ensures
        (r is Reuse) <==> exists|j: int| 0 <= j < hooks.len() && active_for(#[trigger] hooks[j], url),
        r matches RegistrationPlan::Reuse(w) ==> active_for(w@, url) && hooks.contains(w@),
        r matches RegistrationPlan::Create(ids) ==> forall|i: int|
            0 <= i < ids.len() ==> exists|j: int|
                0 <= j < hooks.len() && stale_for(#[trigger] hooks[j], url) && hooks[j].id
                    == (#[trigger] ids@[i])@,
{
    lemma_first_active(hooks, url, 0);
    lemma_stale_ids(hooks, url);
    match first_active(hooks, url, 0) {
        Some(j) => {
            assert(active_for(hooks[j as int], url));
        },
        None => {
            if let RegistrationPlan::Create(ids) = r {
                assert forall|i: int| 0 <= i < ids.len() implies exists|j: int|
                    0 <= j < hooks.len() && stale_for(#[trigger] hooks[j], url) && hooks[j].id
                        == (#[trigger] ids@[i])@ by {
                    assert(views(ids@)[i] == ids@[i]@);
                }
            }
        },
    }
}

// ---------------------------------------------------------------------
// Laws of webhook events
// ---------------------------------------------------------------------

/// The event types that call for work are all different.
proof fn lemma_event_names()
    ensures
        "deleteCard"@ != "createCard"@ && "deleteCard"@ != "updateCard"@ && "deleteCard"@ != "copyCard"@,
        "moveCardFromBoard"@ != "createCard"@ && "moveCardFromBoard"@ != "updateCard"@
            && "moveCardFromBoard"@ != "copyCard"@,
        "moveCardToBoard"@ != "createCard"@ && "moveCardToBoard"@ != "updateCard"@
            && "moveCardToBoard"@ != "copyCard"@ && "moveCardToBoard"@ != "deleteCard"@
            && "moveCardToBoard"@ != "moveCardFromBoard"@,
{
    reveal_strlit("createCard");
    reveal_strlit("updateCard");
    reveal_strlit("copyCard");
    reveal_strlit("deleteCard");
    reveal_strlit("moveCardFromBoard");
    reveal_strlit("moveCardToBoard");
    assert("createCard"@[0] == 'c' && "updateCard"@[0] == 'u' && "copyCard"@[0] == 'c');
    assert("deleteCard"@[0] == 'd' && "moveCardFromBoard"@[0] == 'm' && "moveCardToBoard"@[0] == 'm');
    assert("moveCardFromBoard"@[8] == 'F' && "moveCardToBoard"@[8] == 'T');
}

/// What an event about a card calls for: a created, updated or copied card is
/// fetched and stored; a deleted card, or one moved off the board, is removed;
/// a card moved onto the board is fetched and stored; any other event, and an
/// event about no card, is ignored.
pub proof fn lemma_event_actions(t: Seq<char>, card: Option<Seq<char>>)
    ensures
        card is Some && (t == "createCard"@ || t == "updateCard"@ || t == "copyCard"@)
            ==> event_action(t, card) == WebhookActionView::SyncCard(card->0),
        card is Some && (t == "deleteCard"@ || t == "moveCardFromBoard"@) ==> event_action(t, card)
            == WebhookActionView::DeleteCard(card->0),
        card is Some && t == "moveCardToBoard"@ ==> event_action(t, card)
            == WebhookActionView::SyncMovedCard(card->0),
        card is None ==> event_action(t, card) == WebhookActionView::Ignore,
        t != "createCard"@ && t != "updateCard"@ && t != "copyCard"@ && t != "deleteCard"@ && t
            != "moveCardFromBoard"@ && t != "moveCardToBoard"@ ==> event_action(t, card)
            == WebhookActionView::Ignore,
{
    lemma_event_names();
}

} // verus!
