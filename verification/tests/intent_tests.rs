use trello_assistant::intent::{
    convert_legacy_to_ai_intent, extract_member_query, extract_search_keyword, parse_intent_keyword,
    UserIntent,
};
use trello_assistant::query::{apply_date_hint, effective_intent_of, finish_parsed_intent, needs_analysis_pass};
use trello_assistant::intent::AiParsedIntent;

fn empty_intent(intent: &str) -> AiParsedIntent {
    AiParsedIntent {
        intent: intent.to_string(),
        keyword: None,
        member: None,
        label: None,
        list: None,
        has_due: None,
        overdue_only: None,
        due_date: None,
    }
}

#[test]
fn keyword_summary_with_uppercase_vietnamese() {
    assert!(matches!(parse_intent_keyword("TÓM TẮT board giúp mình"), UserIntent::BoardSummary));
}

#[test]
fn keyword_member_after_at_sign() {
    match parse_intent_keyword("Cards của @Minh? gấp") {
        UserIntent::FilterByMember(m) => assert_eq!(m, "minh"),
        _ => panic!("expected a member filter"),
    }
}

#[test]
fn keyword_member_after_of_pattern() {
    match parse_intent_keyword("task assigned to lan không") {
        UserIntent::FilterByMember(m) => assert_eq!(m, "lan"),
        _ => panic!("expected a member filter"),
    }
}

#[test]
fn keyword_list_all() {
    assert!(matches!(parse_intent_keyword("Show ALL cards"), UserIntent::ListAll));
}

#[test]
fn keyword_overdue() {
    assert!(matches!(parse_intent_keyword("thẻ nào quá hạn"), UserIntent::OverdueCards));
}

#[test]
fn keyword_due() {
    assert!(matches!(parse_intent_keyword("deadline tuần này"), UserIntent::DueCards));
}

#[test]
fn keyword_priority_label() {
    match parse_intent_keyword("urgent stuff") {
        UserIntent::FilterByLabel(l) => assert_eq!(l, "priority"),
        _ => panic!("expected a label filter"),
    }
}

#[test]
fn keyword_bug_label() {
    match parse_intent_keyword("có lỗi không") {
        UserIntent::FilterByLabel(l) => assert_eq!(l, "bug"),
        _ => panic!("expected a label filter"),
    }
}

#[test]
fn keyword_list_name() {
    match parse_intent_keyword("cards in review") {
        UserIntent::FilterByList(l) => assert_eq!(l, "review"),
        _ => panic!("expected a list filter"),
    }
}

#[test]
fn keyword_search_pattern() {
    match parse_intent_keyword("tìm login page?") {
        UserIntent::SearchByKeyword(k) => assert_eq!(k, "login page"),
        _ => panic!("expected a search"),
    }
}

#[test]
fn keyword_search_whole_message() {
    match parse_intent_keyword("Xyz") {
        UserIntent::SearchByKeyword(k) => assert_eq!(k, "Xyz"),
        _ => panic!("expected a search"),
    }
}

#[test]
fn member_query_stops_at_comma() {
    assert_eq!(extract_member_query("xem @hoa, nhanh"), Some("hoa".to_string()));
    assert_eq!(extract_member_query("không có ai"), None);
}

#[test]
fn search_keyword_trims_question_tail() {
    assert_eq!(extract_search_keyword("card về thanh toán nào?"), Some("thanh toán".to_string()));
    assert_eq!(extract_search_keyword("hello"), None);
}

#[test]
fn legacy_due_becomes_due_query() {
    let p = convert_legacy_to_ai_intent(UserIntent::DueCards, "deadline");
    assert_eq!(p.intent, "due");
    assert_eq!(p.has_due, Some(true));
    assert_eq!(p.keyword, None);
    assert_eq!(p.overdue_only, None);
}

#[test]
fn legacy_search_keeps_keyword() {
    let p = convert_legacy_to_ai_intent(UserIntent::SearchByKeyword("abc".to_string()), "abc");
    assert_eq!(p.intent, "search");
    assert_eq!(p.keyword, Some("abc".to_string()));
}

#[test]
fn legacy_overdue_and_summary() {
    let p = convert_legacy_to_ai_intent(UserIntent::OverdueCards, "x");
    assert_eq!(p.intent, "overdue");
    assert_eq!(p.overdue_only, Some(true));
    let s = convert_legacy_to_ai_intent(UserIntent::BoardSummary, "x");
    assert_eq!(s.intent, "summary");
}

#[test]
fn effective_intent_prefers_overdue() {
    let mut p = empty_intent("search");
    p.overdue_only = Some(true);
    assert_eq!(effective_intent_of(&p), "overdue");
}

#[test]
fn effective_intent_deadline_search_becomes_due() {
    let mut p = empty_intent("search");
    p.has_due = Some(true);
    p.keyword = Some("Deadline".to_string());
    assert_eq!(effective_intent_of(&p), "due");
    p.keyword = Some("login".to_string());
    assert_eq!(effective_intent_of(&p), "search");
}

#[test]
fn date_hint_fills_missing_date() {
    let p = apply_date_hint(empty_intent("search"), Some("2025-06-25".to_string()));
    assert_eq!(p.intent, "due");
    assert_eq!(p.due_date, Some("2025-06-25".to_string()));
    assert_eq!(p.has_due, Some(true));
}

#[test]
fn date_hint_never_replaces_named_date() {
    let mut p = empty_intent("filter_member");
    p.due_date = Some("2024-01-01".to_string());
    let q = apply_date_hint(p, Some("2025-06-25".to_string()));
    assert_eq!(q.due_date, Some("2024-01-01".to_string()));
    assert_eq!(q.intent, "filter_member");
    assert_eq!(q.has_due, None);
}

#[test]
fn date_hint_keeps_other_intent() {
    let q = apply_date_hint(empty_intent("overdue"), Some("2025-06-25".to_string()));
    assert_eq!(q.intent, "overdue");
    assert_eq!(q.due_date, Some("2025-06-25".to_string()));
}

#[test]
fn finish_falls_back_to_keywords_with_full_date() {
    let p = finish_parsed_intent(None, "việc ngày 5 tháng 3 năm 2024");
    assert_eq!(p.intent, "due");
    assert_eq!(p.due_date, Some("2024-03-05".to_string()));
    assert_eq!(p.has_due, Some(true));
}

#[test]
fn finish_keeps_ai_query_without_date() {
    let mut ai = empty_intent("filter_label");
    ai.label = Some("bug".to_string());
    let p = finish_parsed_intent(Some(ai), "bug cards");
    assert_eq!(p.intent, "filter_label");
    assert_eq!(p.label, Some("bug".to_string()));
    assert_eq!(p.due_date, None);
}

#[test]
fn analysis_pass_intents() {
    assert!(needs_analysis_pass("analyze", "x"));
    assert!(needs_analysis_pass("summary", "x"));
    assert!(needs_analysis_pass("compare", "x"));
    assert!(!needs_analysis_pass("search", "phân tích"));
}
