use trello_assistant::models::{BoardData, TrelloBoard, TrelloCard, TrelloLabel, TrelloList};
use trello_assistant::prompt::{build_system_prompt, count_cards_in_list, extract_matched_cards};
use trello_assistant::prompts::format_ai_result_header;

fn pcard(name: &str, id_list: &str, list: Option<&str>) -> TrelloCard {
    TrelloCard {
        id: name.to_string(),
        name: name.to_string(),
        desc: String::new(),
        id_list: id_list.to_string(),
        due: None,
        due_complete: None,
        labels: Vec::new(),
        short_url: format!("u/{}", name),
        list_name: list.map(|l| l.to_string()),
        members: Vec::new(),
    }
}

fn intro() -> String {
    let mut s = String::new();
    s.push_str("Bạn là trợ lý thông minh chuyên về quản lý dự án Trello. ");
    s.push_str("Hãy trả lời câu hỏi của người dùng bằng tiếng Việt, dựa trên dữ liệu board Trello dưới đây.\n");
    s.push_str("Khi trả lời, hãy đưa ra thông tin chính xác, ngắn gọn và hữu ích.\n");
    s.push_str("Nếu câu hỏi liên quan đến deadline, hãy so sánh với ngày hiện tại.\n");
    s.push_str("Nếu không tìm thấy thông tin phù hợp, hãy nói rõ.\n\n");
    s
}

fn demo_board(desc: &str) -> BoardData {
    let mut fix = pcard("Fix", "L1", Some("Todo"));
    fix.due = Some("2025-01-01T00:00:00.000Z".to_string());
    fix.due_complete = Some(false);
    fix.labels.push(TrelloLabel { id: "x".to_string(), name: String::new(), color: Some("red".to_string()) });
    fix.labels.push(TrelloLabel { id: "y".to_string(), name: "Backend".to_string(), color: None });
    let mut ship = pcard("Ship", "L2", None);
    ship.due = Some("2025-02-01".to_string());
    ship.due_complete = Some(true);
    let plain = pcard("Plain", "L1", Some("Todo"));
    BoardData {
        board: TrelloBoard { id: "b".to_string(), name: "Demo".to_string(), desc: desc.to_string() },
        lists: vec![
            TrelloList { id: "L1".to_string(), name: "Todo".to_string() },
            TrelloList { id: "L2".to_string(), name: "Done".to_string() },
        ],
        cards: vec![fix, ship, plain],
    }
}

#[test]
fn system_prompt_full_text() {
    let b = demo_board("");
    let mut expected = intro();
    expected.push_str("## Board: Demo\n\n");
    expected.push_str("## Danh sách (Lists):\n- Todo (2 cards)\n- Done (1 cards)\n\n");
    expected.push_str("## Cards:\n| # | Tên | List | Deadline | Labels | Link |\n|---|-----|------|----------|--------|------|\n");
    expected.push_str("| 1 | Fix | Todo | 2025-01-01T00:00:00.000Z ⏰ | red, Backend | u/Fix |\n");
    expected.push_str("| 2 | Ship | Unknown | 2025-02-01 ✅ | — | u/Ship |\n");
    expected.push_str("| 3 | Plain | Todo | Không có | — | u/Plain |\n");
    assert_eq!(build_system_prompt(&b), expected);
}

#[test]
fn system_prompt_with_description() {
    let b = demo_board("Sprint board");
    let p = build_system_prompt(&b);
    assert!(p.starts_with(&intro()));
    assert!(p.contains("## Board: Demo\nMô tả: Sprint board\n\n## Danh sách (Lists):\n"));
}

#[test]
fn counts_cards_per_list_id() {
    let b = demo_board("");
    assert_eq!(count_cards_in_list(&b.cards, &"L1".to_string()), 2);
    assert_eq!(count_cards_in_list(&b.cards, &"L9".to_string()), 0);
}

#[test]
fn matched_cards_by_name_desc_or_label() {
    let mut b = demo_board("");
    b.cards[2].desc = "needs a BACKEND review".to_string();
    assert_eq!(extract_matched_cards(&b, "backend"), vec![0, 2]);
    assert_eq!(extract_matched_cards(&b, "SHIP"), vec![1]);
    assert!(extract_matched_cards(&b, "red").is_empty());
}

#[test]
fn header_list_all() {
    assert_eq!(format_ai_result_header("list_all", 3, None, None, None, None, None), "3 card");
}

#[test]
fn header_member_with_label() {
    assert_eq!(
        format_ai_result_header("filter_member", 2, None, Some("an"), Some("bug"), None, None),
        "2 card của @an · [bug]"
    );
    assert_eq!(
        format_ai_result_header("filter_member", 2, None, None, None, Some("Todo"), None),
        "2 card của @? · trong Todo"
    );
}

#[test]
fn header_label_and_list() {
    assert_eq!(format_ai_result_header("filter_label", 5, None, None, Some("ui"), None, None), "5 card [ui]");
    assert_eq!(format_ai_result_header("filter_list", 1, None, None, None, Some("Done"), None), "1 card trong Done");
}

#[test]
fn header_due_forms() {
    assert_eq!(
        format_ai_result_header("due", 4, None, None, None, None, Some("2025-06-25")),
        "4 card deadline ngày 2025-06-25"
    );
    assert_eq!(format_ai_result_header("due", 4, None, None, None, None, None), "4 card có deadline");
}

#[test]
fn header_analysis_intents() {
    assert_eq!(format_ai_result_header("overdue", 2, None, None, None, None, None), "2 card quá hạn");
    assert_eq!(format_ai_result_header("analyze", 7, None, None, None, None, None), "📊 Phân tích 7 card");
    assert_eq!(format_ai_result_header("summary", 7, None, None, None, None, None), "📋 Tổng quan 7 card");
    assert_eq!(format_ai_result_header("compare", 7, None, None, None, None, None), "⚖️ So sánh 7 card");
}

#[test]
fn header_search_forms() {
    assert_eq!(format_ai_result_header("search", 1, Some("login"), None, None, None, None), "1 card cho \"login\"");
    assert_eq!(format_ai_result_header("search", 12, None, None, None, None, None), "12 card");
}

#[test]
fn header_nothing_found() {
    assert_eq!(format_ai_result_header("search", 0, None, None, None, None, None), "Không tìm thấy card nào.");
    assert_eq!(
        format_ai_result_header("search", 0, Some("x"), Some("y"), Some("z"), Some("w"), Some("2025-01-02")),
        "Không tìm thấy card nào cho \"x\", @y, label:z, list:w, deadline:2025-01-02"
    );
}
