use vstd::prelude::*;

verus! {

/// Mathematical value of an optional string.
pub open spec fn opt_str(o: Option<String>) -> Option<Seq<char>> {
    match o {
        Some(s) => Some(s@),
        None => None,
    }
}

/// A label attached to a card.
pub struct TrelloLabel {
    pub id: String,
    pub name: String,
    pub color: Option<String>,
}

pub struct LabelView {
    pub id: Seq<char>,
    pub name: Seq<char>,
    pub color: Option<Seq<char>>,
}

impl View for TrelloLabel {
    type V = LabelView;

    open spec fn view(&self) -> LabelView {
        LabelView { id: self.id@, name: self.name@, color: opt_str(self.color) }
    }
}

impl Clone for TrelloLabel {
    fn clone(&self) -> (r: Self)
        ensures
            r@ == self@,
    {
        TrelloLabel { id: self.id.clone(), name: self.name.clone(), color: self.color.clone() }
    }
}

/// A board member assigned to a card.
pub struct TrelloMember {
    pub id: String,
    pub full_name: String,
    pub username: String,
}

pub struct MemberView {
    pub id: Seq<char>,
    pub full_name: Seq<char>,
    pub username: Seq<char>,
}

impl View for TrelloMember {
    type V = MemberView;

    open spec fn view(&self) -> MemberView {
        MemberView { id: self.id@, full_name: self.full_name@, username: self.username@ }
    }
}

impl Clone for TrelloMember {
    fn clone(&self) -> (r: Self)
        ensures
            r@ == self@,
    {
        TrelloMember {
            id: self.id.clone(),
            full_name: self.full_name.clone(),
            username: self.username.clone(),
        }
    }
}

/// Clones a vector of labels.
pub fn clone_labels(v: &Vec<TrelloLabel>) -> (r: Vec<TrelloLabel>)
    ensures
        r@.map_values(|l: TrelloLabel| l@) == v@.map_values(|l: TrelloLabel| l@),
{
    let mut r: Vec<TrelloLabel> = Vec::new();
    let mut i: usize = 0;
    while i < v.len()
        invariant
            i <= v.len(),
            r.len() == i,
            forall|j: int| 0 <= j < i ==> (#[trigger] r@[j])@ == v@[j]@,
        decreases v.len() - i,
    {
        r.push(v[i].clone());
        i = i + 1;
    }
    assert(r@.map_values(|l: TrelloLabel| l@) =~= v@.map_values(|l: TrelloLabel| l@));
    r
}

/// Clones a vector of members.
pub fn clone_members(v: &Vec<TrelloMember>) -> (r: Vec<TrelloMember>)
    ensures
        r@.map_values(|m: TrelloMember| m@) == v@.map_values(|m: TrelloMember| m@),
{
    let mut r: Vec<TrelloMember> = Vec::new();
    let mut i: usize = 0;
    while i < v.len()
        invariant
            i <= v.len(),
            r.len() == i,
            forall|j: int| 0 <= j < i ==> (#[trigger] r@[j])@ == v@[j]@,
        decreases v.len() - i,
    {
        r.push(v[i].clone());
        i = i + 1;
    }
    assert(r@.map_values(|m: TrelloMember| m@) =~= v@.map_values(|m: TrelloMember| m@));
    r
}

/// A Trello card as the board reports it; `list_name` is filled in locally
/// from the board's lists.
pub struct TrelloCard {
    pub id: String,
    pub name: String,
    pub desc: String,
    pub id_list: String,
    pub due: Option<String>,
    pub due_complete: Option<bool>,
    pub labels: Vec<TrelloLabel>,
    pub short_url: String,
    pub list_name: Option<String>,
    pub members: Vec<TrelloMember>,
}

pub struct CardView {
    pub id: Seq<char>,
    pub name: Seq<char>,
    pub desc: Seq<char>,
    pub id_list: Seq<char>,
    pub due: Option<Seq<char>>,
    pub due_complete: Option<bool>,
    pub labels: Seq<LabelView>,
    pub short_url: Seq<char>,
    pub list_name: Option<Seq<char>>,
    pub members: Seq<MemberView>,
}

impl View for TrelloCard {
    type V = CardView;

    open spec fn view(&self) -> CardView {
        CardView {
            id: self.id@,
            name: self.name@,
            desc: self.desc@,
            id_list: self.id_list@,
            due: opt_str(self.due),
            due_complete: self.due_complete,
            labels: self.labels@.map_values(|l: TrelloLabel| l@),
            short_url: self.short_url@,
            list_name: opt_str(self.list_name),
            members: self.members@.map_values(|m: TrelloMember| m@),
        }
    }
}

impl Clone for TrelloCard {
    fn clone(&self) -> (r: Self)
        ensures
            r@ == self@,
    {
        TrelloCard {
            id: self.id.clone(),
            name: self.name.clone(),
            desc: self.desc.clone(),
            id_list: self.id_list.clone(),
            due: self.due.clone(),
            due_complete: self.due_complete,
            labels: clone_labels(&self.labels),
            short_url: self.short_url.clone(),
            list_name: self.list_name.clone(),
            members: clone_members(&self.members),
        }
    }
}

/// The values of a sequence of cards.
pub open spec fn card_views(s: Seq<TrelloCard>) -> Seq<CardView> {
    s.map_values(|c: TrelloCard| c@)
}

/// Clones a vector of cards.
pub fn clone_cards(v: &Vec<TrelloCard>) -> (r: Vec<TrelloCard>)
    ensures
        card_views(r@) == card_views(v@),
{
    let mut r: Vec<TrelloCard> = Vec::new();
    let mut i: usize = 0;
    while i < v.len()
        invariant
            i <= v.len(),
            r.len() == i,
            forall|j: int| 0 <= j < i ==> (#[trigger] r@[j])@ == v@[j]@,
        decreases v.len() - i,
    {
        r.push(v[i].clone());
        i = i + 1;
    }
    assert(card_views(r@) =~= card_views(v@));
    r
}

/// A list (column) of the board.
pub struct TrelloList {
    pub id: String,
    pub name: String,
}

pub struct ListView {
    pub id: Seq<char>,
    pub name: Seq<char>,
}

impl View for TrelloList {
    type V = ListView;

    open spec fn view(&self) -> ListView {
        ListView { id: self.id@, name: self.name@ }
    }
}

impl Clone for TrelloList {
    fn clone(&self) -> (r: Self)
        ensures
            r@ == self@,
    {
        TrelloList { id: self.id.clone(), name: self.name.clone() }
    }
}

/// The values of a sequence of lists.
pub open spec fn list_views(s: Seq<TrelloList>) -> Seq<ListView> {
    s.map_values(|l: TrelloList| l@)
}

/// The board itself.
pub struct TrelloBoard {
    pub id: String,
    pub name: String,
    pub desc: String,
}

/// Everything fetched from a board in one sync.
pub struct BoardData {
    pub board: TrelloBoard,
    pub lists: Vec<TrelloList>,
    pub cards: Vec<TrelloCard>,
}

/// A chat message sent by the user.
pub struct ChatRequest {
    pub message: String,
}

/// Availability of one AI provider.
pub struct ProviderStatus {
    pub name: String,
    pub available: bool,
}

/// Answer of the health endpoint.
pub struct HealthResponse {
    pub status: String,
    pub ai_providers: Vec<ProviderStatus>,
    pub redis: bool,
    pub trello: bool,
}

} // verus!
