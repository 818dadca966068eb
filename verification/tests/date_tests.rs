use trello_assistant::analysis::{est_hours_text, estimate_counts, estimate_text, first_group_text, overdue_marker};
use trello_assistant::dates::{date_from_captures, date_in_message, iso_date_from_captures};
use trello_assistant::models::TrelloCard;

fn groups(g: &[Option<&str>]) -> Option<Option<Vec<Option<String>>>> {
    Some(Some(g.iter().map(|x| x.map(|s| s.to_string())).collect()))
}

#[test]
fn slash_date() {
    assert_eq!(date_in_message("Deadline 15/3/2026 nhé", "2025"), Some("2026-03-15".to_string()));
    assert_eq!(date_in_message("hạn 1-12-2024", "2025"), Some("2024-12-01".to_string()));
}

#[test]
fn slash_date_out_of_range_falls_through() {
    assert_eq!(date_in_message("ngày 32/1/2025", "2025"), None);
    assert_eq!(date_in_message("32/1/2025 or 2025-02-03", "2025"), Some("2025-02-03".to_string()));
}

#[test]
fn vietnamese_full_date() {
    assert_eq!(date_in_message("NGÀY 5 THÁNG 3 NĂM 2024", "2025"), Some("2024-03-05".to_string()));
}

#[test]
fn vietnamese_short_date_uses_year_text() {
    assert_eq!(date_in_message("card ngày 7 tháng 11", "2025"), Some("2025-11-07".to_string()));
    assert_eq!(date_in_message("card ngay 7 thang 11", "not a year"), Some("2026-11-07".to_string()));
}

#[test]
fn iso_date_kept_as_written() {
    assert_eq!(date_in_message("due 2025-06-25", "2025"), Some("2025-06-25".to_string()));
    assert_eq!(date_in_message("no date here", "2025"), None);
}

#[test]
fn captures_decide_day_month_year() {
    assert_eq!(date_from_captures(groups(&[Some("1/2/2030"), Some("1"), Some("2"), Some("2030")]), None),
        Some(Some("2030-02-01".to_string())));
    assert_eq!(date_from_captures(groups(&[Some("x"), Some("9"), Some("4")]), Some(7)),
        Some(Some("0007-04-09".to_string())));
    // month out of range: go on to the next pattern
    assert_eq!(date_from_captures(groups(&[Some("x"), Some("9"), Some("13"), Some("2030")]), None), None);
    // no match: go on
    assert_eq!(date_from_captures(Some(None), None), None);
    // pattern does not compile or a group does not parse: stop without a date
    assert_eq!(date_from_captures(None, None), Some(None));
    assert_eq!(date_from_captures(groups(&[Some("x"), Some("٣"), Some("4"), Some("2030")]), None), Some(None));
}

#[test]
fn captures_give_iso_date() {
    assert_eq!(iso_date_from_captures(groups(&[Some("2025-01-02"), Some("2025"), Some("01"), Some("02")])),
        Some("2025-01-02".to_string()));
    assert_eq!(iso_date_from_captures(Some(None)), None);
    assert_eq!(iso_date_from_captures(groups(&[Some("x"), Some("2025"), None, Some("02")])), None);
}

#[test]
fn estimate_in_title() {
    assert_eq!(est_hours_text("Fix bug - Est: 4h"), Some("4".to_string()));
    assert_eq!(est_hours_text("API est:0.5h"), Some("0.5".to_string()));
    assert_eq!(est_hours_text("EST 2.5 h review"), Some("2.5".to_string()));
    assert_eq!(est_hours_text("no estimate"), None);
}

#[test]
fn first_group_of_captures() {
    assert_eq!(first_group_text(groups(&[Some("Est: 3h"), Some("3")])), Some("3".to_string()));
    assert_eq!(first_group_text(groups(&[Some("Est: 3h")])), None);
    assert_eq!(first_group_text(None), None);
}

fn mcard(due: Option<&str>, done: Option<bool>) -> TrelloCard {
    TrelloCard {
        id: "c".to_string(),
        name: "c".to_string(),
        desc: String::new(),
        id_list: String::new(),
        due: due.map(|d| d.to_string()),
        due_complete: done,
        labels: Vec::new(),
        short_url: String::new(),
        list_name: None,
        members: Vec::new(),
    }
}

#[test]
fn deadline_markers() {
    let now = "2025-01-20T00:00:00+00:00";
    assert_eq!(overdue_marker(&mcard(Some("2025-01-01"), None), now), "⚠OVERDUE");
    assert_eq!(overdue_marker(&mcard(Some("2025-02-01"), Some(false)), now), "");
    assert_eq!(overdue_marker(&mcard(Some("2025-01-01"), Some(true)), now), "✓DONE");
    assert_eq!(overdue_marker(&mcard(None, Some(true)), now), "✓DONE");
    assert_eq!(overdue_marker(&mcard(None, None), now), "");
}

#[test]
fn estimate_numbers_and_counts() {
    assert_eq!(estimate_text("Fix - Est: 4h"), Some("4".to_string()));
    assert_eq!(estimate_text("est: 2.h"), Some("2.".to_string()));
    assert_eq!(estimate_text("Est: ٣h"), None);
    assert_eq!(estimate_text("nothing"), None);
    let cards = vec![
        mcard_named("Fix - Est: 4h"),
        mcard_named("Docs"),
        mcard_named("API est:0.5h"),
        mcard_named("Est: ٣h"),
    ];
    assert_eq!(estimate_counts(&cards), (2, 2));
}

fn mcard_named(name: &str) -> TrelloCard {
    let mut c = mcard(None, None);
    c.name = name.to_string();
    c
}
