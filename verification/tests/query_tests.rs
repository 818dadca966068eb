use trello_assistant::cards::{
    cards_by_label, cards_by_list, cards_by_member, cards_due_on, cards_having_due, overdue_cards_at,
};
use trello_assistant::intent::AiParsedIntent;
use trello_assistant::models::{TrelloCard, TrelloLabel, TrelloMember};
use trello_assistant::query::{cards_with_due, execute_ai_intent_at};
use trello_assistant::search::search_cards;

fn qcard(id: &str, name: &str, list: Option<&str>, due: Option<&str>) -> TrelloCard {
    TrelloCard {
        id: id.to_string(),
        name: name.to_string(),
        desc: String::new(),
        id_list: "l".to_string(),
        due: due.map(|d| d.to_string()),
        due_complete: None,
        labels: Vec::new(),
        short_url: format!("https://trello.com/c/{}", id),
        list_name: list.map(|l| l.to_string()),
        members: Vec::new(),
    }
}

fn qlabel(name: &str, color: Option<&str>) -> TrelloLabel {
    TrelloLabel { id: name.to_string(), name: name.to_string(), color: color.map(|c| c.to_string()) }
}

fn qmember(id: &str, full: &str, user: &str) -> TrelloMember {
    TrelloMember { id: id.to_string(), full_name: full.to_string(), username: user.to_string() }
}

fn ids(cards: &[TrelloCard]) -> Vec<String> {
    cards.iter().map(|c| c.id.clone()).collect()
}

fn board() -> Vec<TrelloCard> {
    let mut a = qcard("a", "Fix login bug", Some("Doing"), Some("2025-01-10T09:00:00.000Z"));
    a.labels.push(qlabel("Bug", Some("red")));
    a.members.push(qmember("m1", "Nguyễn An", "an"));
    let mut b = qcard("b", "Write docs", Some("Todo"), Some("2025-01-05T09:00:00.000Z"));
    b.desc = "login flow notes".to_string();
    b.members.push(qmember("m2", "Trần Bình", "binh"));
    let mut c = qcard("c", "Release 2.0", Some("Done"), Some("2025-02-01T00:00:00.000Z"));
    c.due_complete = Some(true);
    c.labels.push(qlabel("", Some("green")));
    let d = qcard("d", "Plan sprint 12", None, None);
    vec![a, b, c, d]
}

fn query(intent: &str) -> AiParsedIntent {
    AiParsedIntent {
        intent: intent.to_string(),
        keyword: None,
        member: None,
        label: None,
        list: None,
        has_due: None,
        overdue_only: None,
        due_date: None,
    }
}

#[test]
fn member_filter_matches_username_or_full_name() {
    let cs = board();
    assert_eq!(ids(&cards_by_member(&cs, "AN")), vec!["a"]);
    assert_eq!(ids(&cards_by_member(&cs, "bình")), vec!["b"]);
    assert!(cards_by_member(&cs, "zed").is_empty());
}

#[test]
fn label_filter_matches_name_or_colour() {
    let cs = board();
    assert_eq!(ids(&cards_by_label(&cs, "bug")), vec!["a"]);
    assert_eq!(ids(&cards_by_label(&cs, "GREEN")), vec!["c"]);
}

#[test]
fn list_filter_needs_a_list_name() {
    let cs = board();
    assert_eq!(ids(&cards_by_list(&cs, "do")), vec!["a", "b", "c"]);
    assert_eq!(ids(&cards_by_list(&cs, "todo")), vec!["b"]);
}

#[test]
fn overdue_skips_complete_and_future() {
    let cs = board();
    let now = "2025-01-20T00:00:00+00:00";
    assert_eq!(ids(&overdue_cards_at(&cs, now)), vec!["a", "b"]);
    assert!(overdue_cards_at(&cs, "2024-12-31T00:00:00+00:00").is_empty());
}

#[test]
fn due_filters() {
    let cs = board();
    assert_eq!(ids(&cards_having_due(&cs)), vec!["a", "b", "c"]);
    assert_eq!(ids(&cards_due_on(&cs, "2025-01-05")), vec!["b"]);
}

#[test]
fn cards_with_due_soonest_first() {
    let cs = board();
    assert_eq!(ids(&cards_with_due(&cs)), vec!["b", "a", "c"]);
}

#[test]
fn cards_with_due_equal_deadlines_keep_order() {
    let cs = vec![
        qcard("x", "x", None, Some("2025-03-01")),
        qcard("y", "y", None, Some("2025-02-01")),
        qcard("z", "z", None, Some("2025-03-01")),
    ];
    assert_eq!(ids(&cards_with_due(&cs)), vec!["y", "x", "z"]);
}

#[test]
fn search_single_word_name_matches_first() {
    let cs = board();
    assert_eq!(ids(&search_cards(&cs, "Login")), vec!["a", "b"]);
}

#[test]
fn search_matches_member_and_list_text() {
    let cs = board();
    assert_eq!(ids(&search_cards(&cs, "binh")), vec!["b"]);
    assert_eq!(ids(&search_cards(&cs, "done")), vec!["c"]);
}

#[test]
fn search_all_words_phrase_first() {
    let mut cs = board();
    cs[3].desc = "fix the login page".to_string();
    // both hold the two words; only "a" holds the phrase itself
    assert_eq!(ids(&search_cards(&cs, "fix login")), vec!["a", "d"]);
}

#[test]
fn search_falls_back_to_numeric_words() {
    let cs = board();
    // no card holds both words; "12" is the only word with a digit
    assert_eq!(ids(&search_cards(&cs, "sprint 12 zzz")), vec!["d"]);
    assert!(search_cards(&cs, "nothing here").is_empty());
}

#[test]
fn search_fallback_ranks_by_count() {
    let cs = vec![
        qcard("p", "v1 only", None, None),
        qcard("q", "v1 and v2", None, None),
        qcard("r", "none", None, None),
    ];
    assert_eq!(ids(&search_cards(&cs, "v1 v2 absent")), vec!["q", "p"]);
}

#[test]
fn execute_list_all_with_member_filter() {
    let cs = board();
    let mut p = query("list_all");
    p.member = Some("an".to_string());
    let (found, header) = execute_ai_intent_at(&p, &cs, "2025-01-20T00:00:00+00:00");
    assert_eq!(ids(&found), vec!["a"]);
    assert_eq!(header, "1 card · @an");
}

#[test]
fn execute_overdue_only_overrides_search() {
    let cs = board();
    let mut p = query("search");
    p.keyword = Some("overdue".to_string());
    p.overdue_only = Some(true);
    let (found, header) = execute_ai_intent_at(&p, &cs, "2025-01-20T00:00:00+00:00");
    assert_eq!(ids(&found), vec!["a", "b"]);
    assert_eq!(header, "2 card quá hạn");
}

#[test]
fn execute_due_with_date() {
    let cs = board();
    let mut p = query("due");
    p.has_due = Some(true);
    p.due_date = Some("2025-01-10".to_string());
    let (found, header) = execute_ai_intent_at(&p, &cs, "2025-01-20T00:00:00+00:00");
    assert_eq!(ids(&found), vec!["a"]);
    assert_eq!(header, "1 card deadline ngày 2025-01-10");
}

#[test]
fn execute_nothing_found_header() {
    let cs = board();
    let mut p = query("filter_label");
    p.label = Some("urgent".to_string());
    let (found, header) = execute_ai_intent_at(&p, &cs, "2025-01-20T00:00:00+00:00");
    assert!(found.is_empty());
    assert_eq!(header, "Không tìm thấy card nào cho label:urgent");
}

#[test]
fn execute_unknown_intent_searches_keyword() {
    let cs = board();
    let mut p = query("whatever");
    p.keyword = Some("docs".to_string());
    let (found, header) = execute_ai_intent_at(&p, &cs, "2025-01-20T00:00:00+00:00");
    assert_eq!(ids(&found), vec!["b"]);
    assert_eq!(header, "1 card cho \"docs\"");
}
