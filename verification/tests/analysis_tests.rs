use trello_assistant::analysis::{build_analysis_context_at, fallback_analysis_at, GroupHours, TimeStatsText};
use trello_assistant::models::{TrelloCard, TrelloLabel, TrelloMember};
use trello_assistant::timestats::{sort_groups_by_size, time_groups_by_list, time_groups_by_member, TimeGroup};

fn acard(name: &str, list: Option<&str>, due: Option<&str>) -> TrelloCard {
    TrelloCard {
        id: name.to_string(),
        name: name.to_string(),
        desc: String::new(),
        id_list: String::new(),
        due: due.map(|d| d.to_string()),
        due_complete: None,
        labels: Vec::new(),
        short_url: String::new(),
        list_name: list.map(|l| l.to_string()),
        members: Vec::new(),
    }
}

fn amember(name: &str) -> TrelloMember {
    TrelloMember { id: name.to_string(), full_name: name.to_string(), username: name.to_lowercase() }
}

fn alabel(name: &str) -> TrelloLabel {
    TrelloLabel { id: name.to_string(), name: name.to_string(), color: None }
}

fn sample_cards() -> Vec<TrelloCard> {
    let mut a = acard("Fix bug - Est: 4h", Some("Doing"), Some("2025-01-01"));
    a.members.push(amember("An"));
    a.labels.push(alabel("Bug"));
    let b = acard("Docs", Some("Todo"), None);
    let mut c = acard("API est:0.5h", Some("Doing"), None);
    c.members.push(amember("An"));
    c.members.push(amember("Bình"));
    c.labels.push(alabel(""));
    c.labels.push(alabel("x"));
    vec![a, b, c]
}

fn stats_text() -> TimeStatsText {
    TimeStatsText {
        total_est: "4.5".to_string(),
        avg: "2.3".to_string(),
        cards_with_est: 2,
        cards_without_est: 1,
        by_member: vec![
            GroupHours { name: "An".to_string(), cards: 2, hours: "4.5".to_string() },
            GroupHours { name: "Unassigned".to_string(), cards: 1, hours: "0".to_string() },
        ],
        by_list: vec![GroupHours { name: "Doing".to_string(), cards: 2, hours: "4.5".to_string() }],
    }
}

fn shape(g: &[TimeGroup]) -> Vec<(String, Vec<usize>)> {
    g.iter().map(|x| (x.name.clone(), x.cards.clone())).collect()
}

#[test]
fn member_groups_with_unassigned() {
    let g = time_groups_by_member(&sample_cards());
    assert_eq!(
        shape(&g),
        vec![
            ("An".to_string(), vec![0, 2]),
            ("Unassigned".to_string(), vec![1]),
            ("Bình".to_string(), vec![2]),
        ]
    );
}

#[test]
fn list_groups_largest_first() {
    let g = time_groups_by_list(&sample_cards());
    assert_eq!(shape(&g), vec![("Doing".to_string(), vec![0, 2]), ("Todo".to_string(), vec![1])]);
    let cs = vec![acard("p", Some("X"), None), acard("q", None, None), acard("r", Some("Y"), None), acard("s", None, None)];
    let h = time_groups_by_list(&cs);
    assert_eq!(
        shape(&h),
        vec![("Unknown".to_string(), vec![1, 3]), ("X".to_string(), vec![0]), ("Y".to_string(), vec![2])]
    );
}

#[test]
fn sort_by_size_is_stable() {
    let gs = vec![
        TimeGroup { name: "a".to_string(), cards: vec![1] },
        TimeGroup { name: "b".to_string(), cards: vec![2, 3] },
        TimeGroup { name: "c".to_string(), cards: vec![4] },
        TimeGroup { name: "d".to_string(), cards: vec![5, 6, 7] },
    ];
    let names: Vec<String> = sort_groups_by_size(gs).iter().map(|g| g.name.clone()).collect();
    assert_eq!(names, vec!["d", "b", "a", "c"]);
}

#[test]
fn analysis_context_text() {
    let cs = sample_cards();
    let est = vec!["4h".to_string(), "-".to_string(), "0.5h".to_string()];
    let ctx = build_analysis_context_at(&cs, "phân tích", &stats_text(), &est, "2025-01-20T00:00:00+00:00");
    let mut expected = String::new();
    expected.push_str("USER QUESTION: phân tích\n\n");
    expected.push_str("TIME STATS: total_est=4.5h, avg=2.3h/card, with_est=2, without_est=1\n");
    expected.push_str("MEMBER HOURS: An(2cards,4.5h), Unassigned(1cards,0h)\n");
    expected.push_str("LIST STATS: Doing(2cards,4.5h)\n");
    expected.push_str("\nTOTAL CARDS: 3\nCARDS DATA:\n");
    expected.push_str("1. [Doing] Fix bug - Est: 4h | members:An | labels:Bug | due:2025-01-01 ⚠OVERDUE | est:4h\n");
    expected.push_str("2. [Todo] Docs | members:- | labels:- | due:-  | est:-\n");
    expected.push_str("3. [Doing] API est:0.5h | members:An,Bình | labels:,x | due:-  | est:0.5h\n");
    assert_eq!(ctx, expected);
}

#[test]
fn analysis_context_caps_cards() {
    let cs: Vec<TrelloCard> = (0..101).map(|i| acard(&format!("c{}", i), None, None)).collect();
    let est: Vec<String> = (0..101).map(|_| "-".to_string()).collect();
    let mut st = stats_text();
    st.by_member.clear();
    st.by_list.clear();
    let ctx = build_analysis_context_at(&cs, "q", &st, &est, "2025-01-20");
    assert!(ctx.contains("TIME STATS: total_est=4.5h, avg=2.3h/card, with_est=2, without_est=1\n\nTOTAL CARDS: 101\n"));
    assert_eq!(ctx.matches(" | est:").count(), 100);
    assert!(ctx.contains("100. [?] c99 |"));
    assert!(ctx.ends_with("... and 1 more cards\n"));
}

#[test]
fn fallback_texts() {
    let cs = sample_cards();
    let (summary, insights) = fallback_analysis_at(&cs, &stats_text(), "2025-01-20T00:00:00+00:00");
    assert_eq!(
        summary,
        "## 📊 Tổng quan Board\n\n- **Tổng cards:** 3\n- **Tổng Est:** 4.5h (2 cards có estimate)\n- **Trung bình:** 2.3h/card\n- **Quá hạn:** 1 cards ⚠️\n"
    );
    assert_eq!(
        insights,
        vec![
            "Tổng cộng 3 cards trên board".to_string(),
            "1 cards đang quá hạn cần xử lý".to_string(),
            "1 cards chưa có estimate — cần PM bổ sung".to_string(),
        ]
    );
}

#[test]
fn fallback_without_estimates_or_overdue() {
    let cs = vec![acard("a", None, None)];
    let mut st = stats_text();
    st.cards_with_est = 0;
    st.cards_without_est = 0;
    let (summary, insights) = fallback_analysis_at(&cs, &st, "2025-01-20");
    assert_eq!(summary, "## 📊 Tổng quan Board\n\n- **Tổng cards:** 1\n");
    assert_eq!(insights, vec!["Tổng cộng 1 cards trên board".to_string()]);
}

#[test]
fn time_groups_cover_every_entry_once() {
    let cs = sample_cards();
    let lists = time_groups_by_list(&cs);
    let total: usize = lists.iter().map(|g| g.cards.len()).sum();
    assert_eq!(total, cs.len());
    let members = time_groups_by_member(&cs);
    let entries: usize = cs.iter().map(|c| c.members.len().max(1)).sum();
    assert_eq!(members.iter().map(|g| g.cards.len()).sum::<usize>(), entries);
    let mut names: Vec<String> = members.iter().map(|g| g.name.clone()).collect();
    names.sort();
    names.dedup();
    assert_eq!(names.len(), members.len());
}
