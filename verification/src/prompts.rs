use vstd::prelude::*;

use crate::text::{concat2, concat3, decimal, fmt_usize, join, join_strings, str_eq, views};

verus! {

/// System prompt for extracting structured query from natural language.
/// Focused on Trello card search + analysis requests.
pub const INTENT_EXTRACTION_PROMPT: &'static str = r#"You are a Trello card search parser. Extract search filters as JSON.

RESPOND WITH ONLY VALID JSON. No explanation, no markdown.

JSON format:
{"intent":"<type>","keyword":null,"member":null,"label":null,"list":null,"has_due":null,"overdue_only":null,"due_date":null}

Intent types:
- "list_all": show all cards
- "search": search by keyword
- "filter_member": cards assigned to a person
- "filter_label": filter by label/tag
- "filter_list": filter by list/column
- "due": cards with deadlines
- "overdue": overdue cards
- "analyze": user wants analysis, statistics, charts, or breakdown of data
- "summary": user wants a summary/overview of the board or cards
- "compare": user wants to compare lists, members, or categories

Rules:
- For @username, set member without @
- For "của <name>", set member to that name
- For #<id> or #<list_name> (e.g. '#643123', '#Done'), set list without #
- When user mentions a SPECIFIC DATE (e.g. "ngày 25/6/2025", "June 25 2025", "25 tháng 6"), set due_date to "YYYY-MM-DD" format
- due_date must always be in YYYY-MM-DD format (e.g. "2025-06-25")
- Use "analyze" when user asks for: phân tích, thống kê, breakdown, workload, chart, biểu đồ, report, báo cáo, estimate, est hours
- Use "summary" when user asks for: tóm tắt, tổng quan, summary, overview, tình hình
- Use "compare" when user asks for: so sánh, compare, đối chiếu, versus, vs

Examples:
User: "card của @khanhttq"
{"intent":"filter_member","keyword":null,"member":"khanhttq","label":null,"list":null,"has_due":null,"overdue_only":null,"due_date":null}

User: "card bug đang overdue"
{"intent":"search","keyword":null,"member":null,"label":"bug","list":null,"has_due":null,"overdue_only":true,"due_date":null}

User: "tất cả card"
{"intent":"list_all","keyword":null,"member":null,"label":null,"list":null,"has_due":null,"overdue_only":null,"due_date":null}

User: "card sắp deadline"
{"intent":"due","keyword":null,"member":null,"label":null,"list":null,"has_due":true,"overdue_only":null,"due_date":null}

User: "card có deadline ngày 25 tháng 6 năm 2025"
{"intent":"due","keyword":null,"member":null,"label":null,"list":null,"has_due":true,"overdue_only":null,"due_date":"2025-06-25"}

User: "deadline 15/3/2026"
{"intent":"due","keyword":null,"member":null,"label":null,"list":null,"has_due":true,"overdue_only":null,"due_date":"2026-03-15"}

User: "card trong list Done"
{"intent":"filter_list","keyword":null,"member":null,"label":null,"list":"Done","has_due":null,"overdue_only":null,"due_date":null}

User: "tìm thanh toán"
{"intent":"search","keyword":"thanh toán","member":null,"label":null,"list":null,"has_due":null,"overdue_only":null,"due_date":null}

User: "card urgent của @tuyen"
{"intent":"filter_member","keyword":null,"member":"tuyen","label":"urgent","list":null,"has_due":null,"overdue_only":null,"due_date":null}

User: "phân tích workload của team"
{"intent":"analyze","keyword":null,"member":null,"label":null,"list":null,"has_due":null,"overdue_only":null,"due_date":null}

User: "phân tích #643123456"
{"intent":"analyze","keyword":null,"member":null,"label":null,"list":"643123456","has_due":null,"overdue_only":null,"due_date":null}

User: "tóm tắt tình hình board"
{"intent":"summary","keyword":null,"member":null,"label":null,"list":null,"has_due":null,"overdue_only":null,"due_date":null}

User: "so sánh Doing vs Done"
{"intent":"compare","keyword":null,"member":null,"label":null,"list":"Doing","has_due":null,"overdue_only":null,"due_date":null}

User: "thống kê estimate giờ theo member"
{"intent":"analyze","keyword":null,"member":null,"label":null,"list":null,"has_due":null,"overdue_only":null,"due_date":null}

User: "báo cáo deadline tháng này"
{"intent":"analyze","keyword":null,"member":null,"label":null,"list":null,"has_due":true,"overdue_only":null,"due_date":null}
"#;

/// System prompt for AI analysis (Pass 2).
/// AI receives cards data + user question and returns structured analysis JSON.
pub const ANALYSIS_SYSTEM_PROMPT: &'static str = r#"You are a Trello project analysis assistant. Analyze the provided cards data and answer the user's question.

RESPOND WITH ONLY VALID JSON. No explanation, no markdown wrapping.

You will receive:
1. A list of cards with: name, list, members, labels, due date, est_hours (estimated hours from card title)
2. Pre-computed time statistics
3. The user's original question

Return JSON in this exact format:
{
  "analysis_type": "<summary|chart|comparison>",
  "summary": "Markdown text with your analysis (use Vietnamese). Include tables, bullet points. Be concise but insightful.",
  "chart_data": {
    "chart_type": "<bar|pie|line|doughnut>",
    "labels": ["Label1", "Label2"],
    "datasets": [
      {"label": "Dataset Name", "data": [10, 20]}
    ]
  },
  "insights": ["Key insight 1 in Vietnamese", "Key insight 2"]
}

Rules:
- analysis_type: "summary" for text overviews, "chart" for visual data, "comparison" for comparing categories
- summary: Always provide a markdown summary in Vietnamese. Use ## headings, tables, bullet points
- chart_data: Provide when data can be visualized. Choose the best chart_type for the data:
  - "bar": comparing quantities across categories (workload, cards per list)
  - "pie"/"doughnut": showing proportions (% of cards per status)
  - "line": showing trends over time
- chart_data can be null if only text summary is appropriate
- insights: 2-4 key takeaways in Vietnamese, actionable when possible
- est_hours: Cards may have estimated hours in their title (e.g. "Fix bug - Est: 4h"). Use these for workload analysis
- Always respond in Vietnamese for summary and insights
- Keep numbers accurate — count from the actual data provided
"#;

/// `Some(s)` of a string slice, as characters.
pub open spec fn opt_ref(o: Option<&str>) -> Option<Seq<char>> {
    match o {
        Some(s) => Some(s@),
        None => None,
    }
}

/// Appends `prefix + x + suffix` when the option holds `x`.
pub open spec fn push_some(
    parts: Seq<Seq<char>>,
    o: Option<Seq<char>>,
    prefix: Seq<char>,
    suffix: Seq<char>,
) -> Seq<Seq<char>> {
    match o {
        Some(x) => parts.push(prefix + x + suffix),
        None => parts,
    }
}

/// Filters named in the header when nothing was found.
pub open spec fn empty_result_filters(
    keyword: Option<Seq<char>>,
    member: Option<Seq<char>>,
    label: Option<Seq<char>>,
    list: Option<Seq<char>>,
    due_date: Option<Seq<char>>,
) -> Seq<Seq<char>> {
    let p0 = push_some(Seq::empty(), keyword, "\""@, "\""@);
    let p1 = push_some(p0, member, "@"@, Seq::empty());
    let p2 = push_some(p1, label, "label:"@, Seq::empty());
    let p3 = push_some(p2, list, "list:"@, Seq::empty());
    push_some(p3, due_date, "deadline:"@, Seq::empty())
}

/// The value inside an option, or `"?"`.
pub open spec fn or_question(o: Option<Seq<char>>) -> Seq<char> {
    match o {
        Some(x) => x,
        None => "?"@,
    }
}

/// The leading phrase of the header for a non-empty result.
pub open spec fn header_lead(
    intent: Seq<char>,
    count: nat,
    keyword: Option<Seq<char>>,
    member: Option<Seq<char>>,
    label: Option<Seq<char>>,
    list: Option<Seq<char>>,
    due_date: Option<Seq<char>>,
) -> Seq<char> {
    let n = decimal(count);
    if intent == "list_all"@ {
        n + " card"@
    } else if intent == "filter_member"@ {
        n + " card của @"@ + or_question(member)
    } else if intent == "filter_label"@ {
        n + " card ["@ + or_question(label) + "]"@
    } else if intent == "filter_list"@ {
        n + " card trong "@ + or_question(list)
    } else if intent == "due"@ {
        match due_date {
            Some(d) => n + " card deadline ngày "@ + d,
            None => n + " card có deadline"@,
        }
    } else if intent == "overdue"@ {
        n + " card quá hạn"@
    } else if intent == "analyze"@ {
        "📊 Phân tích "@ + n + " card"@
    } else if intent == "summary"@ {
        "📋 Tổng quan "@ + n + " card"@
    } else if intent == "compare"@ {
        "⚖️ So sánh "@ + n + " card"@
    } else {
        match keyword {
            Some(k) => n + " card cho \""@ + k + "\""@,
            None => n + " card"@,
        }
    }
}

/// The pieces of the header for a non-empty result: the lead, then the filters
/// that the intent itself does not already name.
pub open spec fn header_parts(
    intent: Seq<char>,
    count: nat,
    keyword: Option<Seq<char>>,
    member: Option<Seq<char>>,
    label: Option<Seq<char>>,
    list: Option<Seq<char>>,
    due_date: Option<Seq<char>>,
) -> Seq<Seq<char>> {
    let p0 = seq![header_lead(intent, count, keyword, member, label, list, due_date)];
    let p1 = if intent != "filter_member"@ { push_some(p0, member, "@"@, Seq::empty()) } else { p0 };
    let p2 = if intent != "filter_label"@ { push_some(p1, label, "["@, "]"@) } else { p1 };
    if intent != "filter_list"@ { push_some(p2, list, "trong "@, Seq::empty()) } else { p2 }
}

/// The result header shown above matched cards.
pub open spec fn result_header(
    intent: Seq<char>,
    count: nat,
    keyword: Option<Seq<char>>,
    member: Option<Seq<char>>,
    label: Option<Seq<char>>,
    list: Option<Seq<char>>,
    due_date: Option<Seq<char>>,
) -> Seq<char> {
    if count == 0 {
        let filters = empty_result_filters(keyword, member, label, list, due_date);
        if filters.len() == 0 {
            "Không tìm thấy card nào."@
        } else {
            "Không tìm thấy card nào cho "@ + join(filters, ", "@)
        }
    } else {
        join(header_parts(intent, count, keyword, member, label, list, due_date), " · "@)
    }
}

/// Appends `prefix + x + suffix` to `parts` when `o` holds `x`.
fn push_some_exec(parts: &mut Vec<String>, o: Option<&str>, prefix: &str, suffix: &str)
    ensures
        views(final(parts)@) == push_some(views(old(parts)@), opt_ref(o), prefix@, suffix@),
{
    if let Some(x) = o {
        let ghost before = parts@;
        parts.push(concat3(prefix, x, suffix));
        assert(views(parts@) =~= views(before).push(prefix@ + x@ + suffix@));
    }
}

/// Formats the one-line header shown above the matched cards: the number of
/// cards and the filters that produced them, or a not-found message naming the
/// filters.
pub fn format_ai_result_header(
    intent: &str,
    count: usize,
    keyword: Option<&str>,
    member: Option<&str>,
    label: Option<&str>,
    list: Option<&str>,
    due_date: Option<&str>,
) -> (r: String)
    ensures
        r@ == result_header(
            intent@,
            count as nat,
            opt_ref(keyword),
            opt_ref(member),
            opt_ref(label),
            opt_ref(list),
            opt_ref(due_date),
        ),
{
    if count == 0 {
        let mut filters: Vec<String> = Vec::new();
        assert(views(filters@) =~= Seq::<Seq<char>>::empty());
        push_some_exec(&mut filters, keyword, "\"", "\"");
        push_some_exec(&mut filters, member, "@", "");
        push_some_exec(&mut filters, label, "label:", "");
        push_some_exec(&mut filters, list, "list:", "");
        push_some_exec(&mut filters, due_date, "deadline:", "");
        proof {
            reveal_strlit("");
        }
        if filters.len() == 0 {
            return String::from_str("Không tìm thấy card nào.");
        }
        let joined = join_strings(&filters, ", ");
        return concat2("Không tìm thấy card nào cho ", joined.as_str());
    }
    let n = fmt_usize(count);
    let n = n.as_str();
    let lead = if str_eq(intent, "list_all") {
        concat2(n, " card")
    } else if str_eq(intent, "filter_member") {
        concat3(n, " card của @", match member { Some(m) => m, None => "?" })
    } else if str_eq(intent, "filter_label") {
        concat3(concat2(n, " card [").as_str(), match label { Some(l) => l, None => "?" }, "]")
    } else if str_eq(intent, "filter_list") {
        concat3(n, " card trong ", match list { Some(l) => l, None => "?" })
    } else if str_eq(intent, "due") {
        match due_date {
            Some(d) => concat3(n, " card deadline ngày ", d),
            None => concat2(n, " card có deadline"),
        }
    } else if str_eq(intent, "overdue") {
        concat2(n, " card quá hạn")
    } else if str_eq(intent, "analyze") {
        concat3("📊 Phân tích ", n, " card")
    } else if str_eq(intent, "summary") {
        concat3("📋 Tổng quan ", n, " card")
    } else if str_eq(intent, "compare") {
        concat3("⚖️ So sánh ", n, " card")
    } else {
        match keyword {
            Some(k) => concat3(concat2(n, " card cho \"").as_str(), k, "\""),
            None => concat2(n, " card"),
        }
    };
    let mut parts: Vec<String> = Vec::new();
    parts.push(lead);
    proof {
        reveal_strlit("");
    }
    if !str_eq(intent, "filter_member") {
        push_some_exec(&mut parts, member, "@", "");
    }
    if !str_eq(intent, "filter_label") {
        push_some_exec(&mut parts, label, "[", "]");
    }
    if !str_eq(intent, "filter_list") {
        push_some_exec(&mut parts, list, "trong ", "");
    }
    assert(lead@ == header_lead(intent@, count as nat, opt_ref(keyword), opt_ref(member), opt_ref(label), opt_ref(list), opt_ref(due_date)));
    assert(views(parts@) == header_parts(intent@, count as nat, opt_ref(keyword), opt_ref(member), opt_ref(label), opt_ref(list), opt_ref(due_date)));
    join_strings(&parts, " · ")
}

} // verus!
