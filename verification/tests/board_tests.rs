use trello_assistant::cache::{
    board_key, board_summary, card_key, cards_index_key, index_contains, index_remove, index_upsert,
    lists_key,
};
use trello_assistant::models::{TrelloCard, TrelloLabel, TrelloList, TrelloMember};
use trello_assistant::settings::{list_summaries, unique_labels, unique_members};
use trello_assistant::stats::{board_stats_at, cards_per_list};
use trello_assistant::trello::{assign_list_names, list_name_for};

fn bcard(id: &str, id_list: &str, list: Option<&str>, due: Option<&str>) -> TrelloCard {
    TrelloCard {
        id: id.to_string(),
        name: format!("Card {}", id),
        desc: String::new(),
        id_list: id_list.to_string(),
        due: due.map(|d| d.to_string()),
        due_complete: None,
        labels: Vec::new(),
        short_url: String::new(),
        list_name: list.map(|l| l.to_string()),
        members: Vec::new(),
    }
}

fn blabel(id: &str, name: &str, color: Option<&str>) -> TrelloLabel {
    TrelloLabel { id: id.to_string(), name: name.to_string(), color: color.map(|c| c.to_string()) }
}

fn bmember(id: &str, full: &str, user: &str) -> TrelloMember {
    TrelloMember { id: id.to_string(), full_name: full.to_string(), username: user.to_string() }
}

fn sample() -> Vec<TrelloCard> {
    let mut a = bcard("a", "L1", Some("Todo"), Some("2025-01-10T00:00:00Z"));
    a.labels.push(blabel("l1", "Bug", Some("red")));
    a.labels.push(blabel("l0", "", Some("blue")));
    a.members.push(bmember("m2", "zoe", "z"));
    a.members.push(bmember("m1", "An", "an"));
    let mut b = bcard("b", "L2", Some("Done"), Some("2025-01-22T00:00:00Z"));
    b.labels.push(blabel("l2", "api", None));
    b.labels.push(blabel("l1", "Bug", Some("red")));
    b.members.push(bmember("m1", "An", "an"));
    let mut c = bcard("c", "L1", Some("Todo"), Some("2025-01-21T00:00:00Z"));
    c.due_complete = Some(true);
    let d = bcard("d", "L3", None, None);
    vec![a, b, c, d]
}

#[test]
fn cache_keys() {
    assert_eq!(card_key("B1", "c9"), "trello:B1:card:c9");
    assert_eq!(cards_index_key("B1"), "trello:B1:cards_index");
    assert_eq!(lists_key("B1"), "trello:B1:lists");
    assert_eq!(board_key("B1"), "trello:B1:board_info");
}

#[test]
fn index_upsert_adds_once() {
    let mut ids: Vec<String> = vec!["a".to_string()];
    assert!(index_upsert(&mut ids, "b"));
    assert!(!index_upsert(&mut ids, "b"));
    assert_eq!(ids, vec!["a".to_string(), "b".to_string()]);
    assert!(index_contains(&ids, "b"));
}

#[test]
fn index_remove_drops_every_copy() {
    let mut ids: Vec<String> = vec!["a".to_string(), "b".to_string(), "a".to_string()];
    index_remove(&mut ids, "a");
    assert_eq!(ids, vec!["b".to_string()]);
    assert!(!index_contains(&ids, "a"));
    index_remove(&mut ids, "zzz");
    assert_eq!(ids, vec!["b".to_string()]);
}

#[test]
fn remove_after_upsert_leaves_no_id() {
    let mut ids: Vec<String> = vec!["x".to_string()];
    index_upsert(&mut ids, "y");
    index_remove(&mut ids, "y");
    assert_eq!(ids, vec!["x".to_string()]);
}

#[test]
fn summary_text() {
    let cs = sample();
    assert_eq!(
        board_summary(Some("Sprint".to_string()), &cs),
        "Board 'Sprint': 4 cards total, 2 in 'Todo', 1 in 'Done', 1 in 'Unknown'. 3 cards have deadlines"
    );
    assert_eq!(board_summary(None, &Vec::new()), "Board 'Unknown': 0 cards total");
}

#[test]
fn stats_at_instant() {
    let cs = sample();
    let s = board_stats_at(&cs, "2025-01-20T00:00:00+00:00", "2025-01-27T00:00:00+00:00");
    assert_eq!(s.total_cards, 4);
    assert_eq!(s.overdue_count, 1);
    assert_eq!(s.due_soon_count, 1);
    assert_eq!(s.no_due_count, 1);
    let lists: Vec<(String, usize)> = s.by_list.iter().map(|i| (i.name.clone(), i.count)).collect();
    assert_eq!(lists, vec![("Todo".to_string(), 2), ("Done".to_string(), 1), ("Unknown".to_string(), 1)]);
    let labels: Vec<(String, usize, Option<String>)> =
        s.by_label.iter().map(|i| (i.name.clone(), i.count, i.color.clone())).collect();
    assert_eq!(
        labels,
        vec![("Bug".to_string(), 2, Some("red".to_string())), ("api".to_string(), 1, None)]
    );
    let members: Vec<(String, usize)> = s.by_member.iter().map(|i| (i.name.clone(), i.count)).collect();
    assert_eq!(members, vec![("zoe".to_string(), 1), ("An".to_string(), 2)]);
}

#[test]
fn per_list_counts_add_up() {
    let cs = sample();
    let g = cards_per_list(&cs);
    let total: usize = g.iter().map(|i| i.count).sum();
    assert_eq!(total, cs.len());
}

#[test]
fn members_once_sorted_by_name() {
    let cs = sample();
    let m = unique_members(&cs);
    let got: Vec<(String, String)> = m.iter().map(|x| (x.id.clone(), x.full_name.clone())).collect();
    assert_eq!(got, vec![("m1".to_string(), "An".to_string()), ("m2".to_string(), "zoe".to_string())]);
}

#[test]
fn labels_once_named_sorted() {
    let cs = sample();
    let l = unique_labels(&cs);
    let got: Vec<(String, String)> = l.iter().map(|x| (x.id.clone(), x.name.clone())).collect();
    assert_eq!(got, vec![("l2".to_string(), "api".to_string()), ("l1".to_string(), "Bug".to_string())]);
}

#[test]
fn lists_with_counts() {
    let cs = sample();
    let lists = vec![
        TrelloList { id: "L1".to_string(), name: "Todo".to_string() },
        TrelloList { id: "L4".to_string(), name: "Empty".to_string() },
    ];
    let r = list_summaries(&lists, &cs);
    let got: Vec<(String, String, usize)> = r.iter().map(|x| (x.id.clone(), x.name.clone(), x.card_count)).collect();
    assert_eq!(got, vec![("L1".to_string(), "Todo".to_string(), 2), ("L4".to_string(), "Empty".to_string(), 0)]);
}

#[test]
fn list_names_from_lists() {
    let lists = vec![
        TrelloList { id: "L1".to_string(), name: "Todo".to_string() },
        TrelloList { id: "L2".to_string(), name: "Done".to_string() },
        TrelloList { id: "L1".to_string(), name: "To Do".to_string() },
    ];
    assert_eq!(list_name_for(&lists, &"L1".to_string()), Some("To Do".to_string()));
    assert_eq!(list_name_for(&lists, &"L9".to_string()), None);
    let mut cs = sample();
    assign_list_names(&mut cs, &lists);
    let names: Vec<Option<String>> = cs.iter().map(|c| c.list_name.clone()).collect();
    assert_eq!(
        names,
        vec![Some("To Do".to_string()), Some("Done".to_string()), Some("To Do".to_string()), None]
    );
}
