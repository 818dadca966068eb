use vstd::prelude::*;

use crate::models::opt_str;
use crate::text::{
    chars_of, contains, find, find_seq, is_whitespace, is_ws, lowercase, str_contains, string_of,
    strip_suffixes, strip_suffixes_vec, strip_char_suffixes_vec, sub_vec, take_until, to_lower,
    trim, trim_vec,
};

verus! {

/// A structured query extracted from a chat message.
pub struct AiParsedIntent {
    pub intent: String,
    pub keyword: Option<String>,
    pub member: Option<String>,
    pub label: Option<String>,
    pub list: Option<String>,
    pub has_due: Option<bool>,
    pub overdue_only: Option<bool>,
    /// Specific date filter in `YYYY-MM-DD` form.
    pub due_date: Option<String>,
}

pub struct ParsedIntentView {
    pub intent: Seq<char>,
    pub keyword: Option<Seq<char>>,
    pub member: Option<Seq<char>>,
    pub label: Option<Seq<char>>,
    pub list: Option<Seq<char>>,
    pub has_due: Option<bool>,
    pub overdue_only: Option<bool>,
    pub due_date: Option<Seq<char>>,
}

impl View for AiParsedIntent {
    type V = ParsedIntentView;

    open spec fn view(&self) -> ParsedIntentView {
        ParsedIntentView {
            intent: self.intent@,
            keyword: opt_str(self.keyword),
            member: opt_str(self.member),
            label: opt_str(self.label),
            list: opt_str(self.list),
            has_due: self.has_due,
            overdue_only: self.overdue_only,
            due_date: opt_str(self.due_date),
        }
    }
}

/// The empty query: no intent and no filter.
pub open spec fn empty_query() -> ParsedIntentView {
    ParsedIntentView {
        intent: Seq::empty(),
        keyword: None,
        member: None,
        label: None,
        list: None,
        has_due: None,
        overdue_only: None,
        due_date: None,
    }
}

impl Default for AiParsedIntent {
    fn default() -> (r: Self)
        ensures
            r@ == empty_query(),
    {
        AiParsedIntent {
            intent: String::new(),
            keyword: None,
            member: None,
            label: None,
            list: None,
            has_due: None,
            overdue_only: None,
            due_date: None,
        }
    }
}

/// What the keyword fallback understood of a message.
pub enum UserIntent {
    ListAll,
    SearchByKeyword(String),
    FilterByLabel(String),
    FilterByList(String),
    FilterByMember(String),
    DueCards,
    OverdueCards,
    BoardSummary,
}

pub enum IntentView {
    ListAll,
    SearchByKeyword(Seq<char>),
    FilterByLabel(Seq<char>),
    FilterByList(Seq<char>),
    FilterByMember(Seq<char>),
    DueCards,
    OverdueCards,
    BoardSummary,
}

impl View for UserIntent {
    type V = IntentView;

    open spec fn view(&self) -> IntentView {
        match self {
            UserIntent::ListAll => IntentView::ListAll,
            UserIntent::SearchByKeyword(k) => IntentView::SearchByKeyword(k@),
            UserIntent::FilterByLabel(l) => IntentView::FilterByLabel(l@),
            UserIntent::FilterByList(l) => IntentView::FilterByList(l@),
            UserIntent::FilterByMember(m) => IntentView::FilterByMember(m@),
            UserIntent::DueCards => IntentView::DueCards,
            UserIntent::OverdueCards => IntentView::OverdueCards,
            UserIntent::BoardSummary => IntentView::BoardSummary,
        }
    }
}

// ---------------------------------------------------------------------
// Helper extractions
// ---------------------------------------------------------------------

/// Characters that end a `@member` mention.
pub open spec fn mention_end(c: char) -> bool {
    is_ws(c) || c == '?' || c == '!' || c == ','
}

/// The name after `@`, if `@` occurs and a non-empty name follows it.
pub open spec fn at_mention(msg: Seq<char>) -> Option<Seq<char>> {
    match find(msg, seq!['@']) {
        Some(p) => {
            let m = trim(take_until(msg.skip((p + 1) as int), |c: char| mention_end(c)));
            if m.len() > 0 { Some(m) } else { None }
        },
        None => None,
    }
}

/// Removes a trailing question and the filler words " không", " nào", " vậy".
pub open spec fn strip_member_tail(s: Seq<char>) -> Seq<char> {
    trim(
        strip_suffixes(
            strip_suffixes(strip_suffixes(strip_suffixes(s, seq!['?']), " không"@), " nào"@),
            " vậy"@,
        ),
    )
}

/// The name that follows the first occurrence of `pat`, if it is non-empty.
pub open spec fn named_after(msg: Seq<char>, pat: Seq<char>) -> Option<Seq<char>> {
    match find(msg, pat) {
        Some(p) => {
            let n = strip_member_tail(msg.skip((p + pat.len()) as int));
            if n.len() > 0 { Some(n) } else { None }
        },
        None => None,
    }
}

/// The first of two optional answers that is present.
pub open spec fn or_else(a: Option<Seq<char>>, b: Option<Seq<char>>) -> Option<Seq<char>> {
    match a {
        Some(x) => Some(x),
        None => b,
    }
}

/// The member a (lowercased) message asks about: an `@name` mention, or the
/// name after "của ", "assign ", "assigned to " or "belong to ".
pub open spec fn member_query(msg: Seq<char>) -> Option<Seq<char>> {
    or_else(
        at_mention(msg),
        or_else(
            named_after(msg, "của "@),
            or_else(
                named_after(msg, "assign "@),
                or_else(named_after(msg, "assigned to "@), named_after(msg, "belong to "@)),
            ),
        ),
    )
}

/// Removes a trailing question and the filler words " không", " nào", " gì", " vậy".
pub open spec fn strip_keyword_tail(s: Seq<char>) -> Seq<char> {
    trim(
        strip_suffixes(
            strip_suffixes(
                strip_suffixes(strip_suffixes(strip_suffixes(s, seq!['?']), " không"@), " nào"@),
                " gì"@,
            ),
            " vậy"@,
        ),
    )
}

/// The keyword that follows the first occurrence of `pat`, if it is non-empty.
pub open spec fn keyword_after(msg: Seq<char>, pat: Seq<char>) -> Option<Seq<char>> {
    match find(msg, pat) {
        Some(p) => {
            let k = strip_keyword_tail(trim(msg.skip((p + pat.len()) as int)));
            if k.len() > 0 { Some(k) } else { None }
        },
        None => None,
    }
}

/// The keyword a (lowercased) message searches for: what follows the first of
/// the search phrases that is followed by something.
pub open spec fn search_keyword(msg: Seq<char>) -> Option<Seq<char>> {
    or_else(keyword_after(msg, "có chữ "@),
    or_else(keyword_after(msg, "chứa "@),
    or_else(keyword_after(msg, "liên quan "@),
    or_else(keyword_after(msg, "về "@),
    or_else(keyword_after(msg, "tên "@),
    or_else(keyword_after(msg, "tìm "@),
    or_else(keyword_after(msg, "search "@),
    or_else(keyword_after(msg, "find "@),
    or_else(keyword_after(msg, "keyword "@), keyword_after(msg, "card "@))))))))))
}

/// The first list keyword contained in a (lowercased) message.
pub open spec fn list_keyword(msg: Seq<char>) -> Option<Seq<char>> {
    if contains(msg, "done"@) { Some("done"@) }
    else if contains(msg, "doing"@) { Some("doing"@) }
    else if contains(msg, "todo"@) { Some("todo"@) }
    else if contains(msg, "to do"@) { Some("to do"@) }
    else if contains(msg, "in progress"@) { Some("in progress"@) }
    else if contains(msg, "review"@) { Some("review"@) }
    else if contains(msg, "backlog"@) { Some("backlog"@) }
    else if contains(msg, "release"@) { Some("release"@) }
    else if contains(msg, "task"@) { Some("task"@) }
    else if contains(msg, "complete"@) { Some("complete"@) }
    else if contains(msg, "pending"@) { Some("pending"@) }
    else if contains(msg, "testing"@) { Some("testing"@) }
    else { None }
}

/// Asks for a board summary.
pub open spec fn asks_summary(msg: Seq<char>) -> bool {
    contains(msg, "tóm tắt"@) || contains(msg, "summary"@) || contains(msg, "trạng thái board"@)
        || contains(msg, "thống kê"@) || contains(msg, "tổng quan"@)
}

/// Asks for every card.
pub open spec fn asks_all(msg: Seq<char>) -> bool {
    contains(msg, "tất cả"@) || contains(msg, "all"@) || contains(msg, "liệt kê"@) || contains(
        msg,
        "danh sách"@,
    ) || contains(msg, "toàn bộ"@) || contains(msg, "xem hết"@)
}

/// Asks for overdue cards.
pub open spec fn asks_overdue(msg: Seq<char>) -> bool {
    contains(msg, "quá hạn"@) || contains(msg, "overdue"@) || contains(msg, "trễ hạn"@) || contains(
        msg,
        "hết hạn"@,
    )
}

/// Asks about deadlines.
pub open spec fn asks_due(msg: Seq<char>) -> bool {
    contains(msg, "deadline"@) || contains(msg, "hạn"@) || contains(msg, "due"@) || contains(
        msg,
        "sắp tới"@,
    ) || contains(msg, "ngày"@) || contains(msg, "thời hạn"@)
}

/// Asks about priority.
pub open spec fn asks_priority(msg: Seq<char>) -> bool {
    contains(msg, "ưu tiên"@) || contains(msg, "priority"@) || contains(msg, "urgent"@) || contains(
        msg,
        "quan trọng"@,
    ) || contains(msg, "critical"@)
}

/// Asks about bugs.
pub open spec fn asks_bug(msg: Seq<char>) -> bool {
    contains(msg, "bug"@) || contains(msg, "lỗi"@) || contains(msg, "error"@)
}

/// What the keyword fallback understands of a message, checking in turn for a
/// summary, a member, all cards, overdue cards, deadlines, priority, bugs, a
/// list and a search phrase; by default it searches for the whole message.
pub open spec fn keyword_intent(message: Seq<char>) -> IntentView {
    intent_of_lowered(lowercase(message), message)
}

/// The fallback intent of a message, given the message lowercased (`msg`)
/// and as written (`message`, searched for when nothing else applies).
pub open spec fn intent_of_lowered(msg: Seq<char>, message: Seq<char>) -> IntentView {
    if asks_summary(msg) {
        IntentView::BoardSummary
    } else if member_query(msg) is Some {
        IntentView::FilterByMember(member_query(msg)->0)
    } else if asks_all(msg) {
        IntentView::ListAll
    } else if asks_overdue(msg) {
        IntentView::OverdueCards
    } else if asks_due(msg) {
        IntentView::DueCards
    } else if asks_priority(msg) {
        IntentView::FilterByLabel("priority"@)
    } else if asks_bug(msg) {
        IntentView::FilterByLabel("bug"@)
    } else if list_keyword(msg) is Some {
        IntentView::FilterByList(list_keyword(msg)->0)
    } else if search_keyword(msg) is Some {
        IntentView::SearchByKeyword(search_keyword(msg)->0)
    } else {
        IntentView::SearchByKeyword(message)
    }
}

/// How the keyword fallback reads a lowercased message: the first of these
/// that applies decides.  A summary phrase asks for the board summary; a
/// member mention filters by that member; an all-cards phrase lists every card;
/// an overdue phrase asks for overdue cards; a deadline phrase for cards with
/// deadlines; a priority word for the "priority" label; a bug word for the
/// "bug" label; a list word for that list; with none of these, a search.
pub proof fn lemma_keyword_reading(msg: Seq<char>, message: Seq<char>)
    ensures
        (contains(msg, "tóm tắt"@) || contains(msg, "summary"@) || contains(msg, "trạng thái board"@) || contains(msg, "thống kê"@) || contains(msg, "tổng quan"@)) ==> intent_of_lowered(msg, message) == IntentView::BoardSummary,
        !(contains(msg, "tóm tắt"@) || contains(msg, "summary"@) || contains(msg, "trạng thái board"@) || contains(msg, "thống kê"@) || contains(msg, "tổng quan"@)) && member_query(msg) is Some ==> intent_of_lowered(msg, message)
            == IntentView::FilterByMember(member_query(msg)->0),
        !(contains(msg, "tóm tắt"@) || contains(msg, "summary"@) || contains(msg, "trạng thái board"@) || contains(msg, "thống kê"@) || contains(msg, "tổng quan"@)) && member_query(msg) is None && (contains(msg, "tất cả"@) || contains(msg, "all"@) || contains(msg, "liệt kê"@) || contains(msg, "danh sách"@) || contains(msg, "toàn bộ"@) || contains(msg, "xem hết"@)) ==> intent_of_lowered(msg, message)
            == IntentView::ListAll,
        !(contains(msg, "tóm tắt"@) || contains(msg, "summary"@) || contains(msg, "trạng thái board"@) || contains(msg, "thống kê"@) || contains(msg, "tổng quan"@)) && member_query(msg) is None && !(contains(msg, "tất cả"@) || contains(msg, "all"@) || contains(msg, "liệt kê"@) || contains(msg, "danh sách"@) || contains(msg, "toàn bộ"@) || contains(msg, "xem hết"@)) && (contains(msg, "quá hạn"@) || contains(msg, "overdue"@) || contains(msg, "trễ hạn"@) || contains(msg, "hết hạn"@))
            ==> intent_of_lowered(msg, message) == IntentView::OverdueCards,
        !(contains(msg, "tóm tắt"@) || contains(msg, "summary"@) || contains(msg, "trạng thái board"@) || contains(msg, "thống kê"@) || contains(msg, "tổng quan"@)) && member_query(msg) is None && !(contains(msg, "tất cả"@) || contains(msg, "all"@) || contains(msg, "liệt kê"@) || contains(msg, "danh sách"@) || contains(msg, "toàn bộ"@) || contains(msg, "xem hết"@)) && !(contains(msg, "quá hạn"@) || contains(msg, "overdue"@) || contains(msg, "trễ hạn"@) || contains(msg, "hết hạn"@)) && (contains(msg, "deadline"@) || contains(msg, "hạn"@) || contains(msg, "due"@) || contains(msg, "sắp tới"@) || contains(msg, "ngày"@) || contains(msg, "thời hạn"@))
            ==> intent_of_lowered(msg, message) == IntentView::DueCards,
        !(contains(msg, "tóm tắt"@) || contains(msg, "summary"@) || contains(msg, "trạng thái board"@) || contains(msg, "thống kê"@) || contains(msg, "tổng quan"@)) && member_query(msg) is None && !(contains(msg, "tất cả"@) || contains(msg, "all"@) || contains(msg, "liệt kê"@) || contains(msg, "danh sách"@) || contains(msg, "toàn bộ"@) || contains(msg, "xem hết"@)) && !(contains(msg, "quá hạn"@) || contains(msg, "overdue"@) || contains(msg, "trễ hạn"@) || contains(msg, "hết hạn"@)) && !(contains(msg, "deadline"@) || contains(msg, "hạn"@) || contains(msg, "due"@) || contains(msg, "sắp tới"@) || contains(msg, "ngày"@) || contains(msg, "thời hạn"@))
            && (contains(msg, "ưu tiên"@) || contains(msg, "priority"@) || contains(msg, "urgent"@) || contains(msg, "quan trọng"@) || contains(msg, "critical"@)) ==> intent_of_lowered(msg, message) == IntentView::FilterByLabel("priority"@),
        !(contains(msg, "tóm tắt"@) || contains(msg, "summary"@) || contains(msg, "trạng thái board"@) || contains(msg, "thống kê"@) || contains(msg, "tổng quan"@)) && member_query(msg) is None && !(contains(msg, "tất cả"@) || contains(msg, "all"@) || contains(msg, "liệt kê"@) || contains(msg, "danh sách"@) || contains(msg, "toàn bộ"@) || contains(msg, "xem hết"@)) && !(contains(msg, "quá hạn"@) || contains(msg, "overdue"@) || contains(msg, "trễ hạn"@) || contains(msg, "hết hạn"@)) && !(contains(msg, "deadline"@) || contains(msg, "hạn"@) || contains(msg, "due"@) || contains(msg, "sắp tới"@) || contains(msg, "ngày"@) || contains(msg, "thời hạn"@))
            && !(contains(msg, "ưu tiên"@) || contains(msg, "priority"@) || contains(msg, "urgent"@) || contains(msg, "quan trọng"@) || contains(msg, "critical"@)) && (contains(msg, "bug"@) || contains(msg, "lỗi"@) || contains(msg, "error"@)) ==> intent_of_lowered(msg, message)
            == IntentView::FilterByLabel("bug"@),
        !(contains(msg, "tóm tắt"@) || contains(msg, "summary"@) || contains(msg, "trạng thái board"@) || contains(msg, "thống kê"@) || contains(msg, "tổng quan"@)) && member_query(msg) is None && !(contains(msg, "tất cả"@) || contains(msg, "all"@) || contains(msg, "liệt kê"@) || contains(msg, "danh sách"@) || contains(msg, "toàn bộ"@) || contains(msg, "xem hết"@)) && !(contains(msg, "quá hạn"@) || contains(msg, "overdue"@) || contains(msg, "trễ hạn"@) || contains(msg, "hết hạn"@)) && !(contains(msg, "deadline"@) || contains(msg, "hạn"@) || contains(msg, "due"@) || contains(msg, "sắp tới"@) || contains(msg, "ngày"@) || contains(msg, "thời hạn"@))
            && !(contains(msg, "ưu tiên"@) || contains(msg, "priority"@) || contains(msg, "urgent"@) || contains(msg, "quan trọng"@) || contains(msg, "critical"@)) && !(contains(msg, "bug"@) || contains(msg, "lỗi"@) || contains(msg, "error"@)) && (contains(msg, "done"@) || contains(msg, "doing"@) || contains(msg, "todo"@) || contains(msg, "to do"@) || contains(msg, "in progress"@) || contains(msg, "review"@) || contains(msg, "backlog"@) || contains(msg, "release"@) || contains(msg, "task"@) || contains(msg, "complete"@) || contains(msg, "pending"@) || contains(msg, "testing"@)) ==> (intent_of_lowered(msg, message) matches IntentView::FilterByList(k) && contains(msg, k)
            && (k == "done"@ || k == "doing"@ || k == "todo"@ || k == "to do"@ || k == "in progress"@ || k == "review"@ || k == "backlog"@ || k == "release"@ || k == "task"@ || k == "complete"@ || k == "pending"@ || k == "testing"@)),
        !(contains(msg, "tóm tắt"@) || contains(msg, "summary"@) || contains(msg, "trạng thái board"@) || contains(msg, "thống kê"@) || contains(msg, "tổng quan"@)) && member_query(msg) is None && !(contains(msg, "tất cả"@) || contains(msg, "all"@) || contains(msg, "liệt kê"@) || contains(msg, "danh sách"@) || contains(msg, "toàn bộ"@) || contains(msg, "xem hết"@)) && !(contains(msg, "quá hạn"@) || contains(msg, "overdue"@) || contains(msg, "trễ hạn"@) || contains(msg, "hết hạn"@)) && !(contains(msg, "deadline"@) || contains(msg, "hạn"@) || contains(msg, "due"@) || contains(msg, "sắp tới"@) || contains(msg, "ngày"@) || contains(msg, "thời hạn"@))
            && !(contains(msg, "ưu tiên"@) || contains(msg, "priority"@) || contains(msg, "urgent"@) || contains(msg, "quan trọng"@) || contains(msg, "critical"@)) && !(contains(msg, "bug"@) || contains(msg, "lỗi"@) || contains(msg, "error"@)) && !(contains(msg, "done"@) || contains(msg, "doing"@) || contains(msg, "todo"@) || contains(msg, "to do"@) || contains(msg, "in progress"@) || contains(msg, "review"@) || contains(msg, "backlog"@) || contains(msg, "release"@) || contains(msg, "task"@) || contains(msg, "complete"@) || contains(msg, "pending"@) || contains(msg, "testing"@)) ==> intent_of_lowered(msg, message)
            is SearchByKeyword,
{
    if list_keyword(msg) is Some {
        let k = list_keyword(msg)->0;
        assert(contains(msg, k));
    }
}

/// The structured query that a fallback intent stands for.
pub open spec fn legacy_query(i: IntentView) -> ParsedIntentView {
    let e = empty_query();
    match i {
        IntentView::ListAll => ParsedIntentView { intent: "list_all"@, ..e },
        IntentView::SearchByKeyword(k) => ParsedIntentView { intent: "search"@, keyword: Some(k), ..e },
        IntentView::FilterByLabel(l) => ParsedIntentView { intent: "filter_label"@, label: Some(l), ..e },
        IntentView::FilterByList(l) => ParsedIntentView { intent: "filter_list"@, list: Some(l), ..e },
        IntentView::FilterByMember(m) => ParsedIntentView { intent: "filter_member"@, member: Some(m), ..e },
        IntentView::DueCards => ParsedIntentView { intent: "due"@, has_due: Some(true), ..e },
        IntentView::OverdueCards => ParsedIntentView { intent: "overdue"@, overdue_only: Some(true), ..e },
        IntentView::BoardSummary => ParsedIntentView { intent: "summary"@, ..e },
    }
}

// ---------------------------------------------------------------------
// Executable extraction
// ---------------------------------------------------------------------

/// The name after `@`, if any.
fn at_mention_exec(msg: &Vec<char>) -> (r: Option<String>)
    ensures
        opt_str(r) == at_mention(msg@),
{
    let mut at: Vec<char> = Vec::new();
    at.push('@');
    assert(at@ =~= seq!['@']);
    match find_seq(msg, &at) {
        Some(p) => {
            let mut e: usize = p + 1;
            while e < msg.len() && !(is_whitespace(msg[e]) || msg[e] == '?' || msg[e] == '!' || msg[e] == ',')
                invariant
                    p + 1 <= e <= msg.len(),
                    forall|j: int| p + 1 <= j < e ==> !mention_end(#[trigger] msg@[j]),
                decreases msg.len() - e,
            {
                e = e + 1;
            }
            proof {
                lemma_take_until(msg@.skip(p + 1), |c: char| mention_end(c), (e - p - 1) as nat);
                assert(msg@.skip(p + 1).take(e - p - 1) =~= msg@.subrange(p + 1, e as int));
            }
            let name = trim_vec(&sub_vec(msg, p + 1, e));
            if name.len() > 0 {
                Some(string_of(name.as_slice()))
            } else {
                None
            }
        },
        None => None,
    }
}

/// `take_until` stops at the first stopping character.
proof fn lemma_take_until(s: Seq<char>, stop: spec_fn(char) -> bool, k: nat)
    requires
        k <= s.len(),
        forall|j: int| 0 <= j < k ==> !stop(#[trigger] s[j]),
        k == s.len() || stop(s[k as int]),
    ensures
        take_until(s, stop) == s.take(k as int),
{
    lemma_stop_index(s, stop, 0, k);
}

proof fn lemma_stop_index(s: Seq<char>, stop: spec_fn(char) -> bool, i: nat, k: nat)
    requires
        i <= k <= s.len(),
        forall|j: int| i <= j < k ==> !stop(#[trigger] s[j]),
        k == s.len() || stop(s[k as int]),
    ensures
        crate::text::stop_index(s, stop, i) == k,
    decreases k - i,
{
    if i < k {
        lemma_stop_index(s, stop, i + 1, k);
    }
}

/// Strips the filler tail after a member name.
fn strip_member_tail_exec(s: &Vec<char>) -> (r: Vec<char>)
    ensures
        r@ == strip_member_tail(s@),
{
    let a = strip_char_suffixes_vec(s, '?');
    let b = strip_suffixes_vec(&a, &chars_of(" không"));
    let c = strip_suffixes_vec(&b, &chars_of(" nào"));
    let d = strip_suffixes_vec(&c, &chars_of(" vậy"));
    trim_vec(&d)
}

/// The name after `pat`, if non-empty.
fn named_after_exec(msg: &Vec<char>, pat: &str) -> (r: Option<String>)
    ensures
        opt_str(r) == named_after(msg@, pat@),
{
    let p = chars_of(pat);
    match find_seq(msg, &p) {
        Some(i) => {
            let rest = sub_vec(msg, i + p.len(), msg.len());
            assert(rest@ =~= msg@.skip(i + pat@.len()));
            let n = strip_member_tail_exec(&rest);
            if n.len() > 0 {
                Some(string_of(n.as_slice()))
            } else {
                None
            }
        },
        None => None,
    }
}

/// Extracts the member a lowercased message asks about.
pub fn extract_member_query(msg: &str) -> (r: Option<String>)
    ensures
        opt_str(r) == member_query(msg@),
{
    let m = chars_of(msg);
    let r = at_mention_exec(&m);
    if r.is_some() {
        return r;
    }
    let r = named_after_exec(&m, "của ");
    if r.is_some() {
        return r;
    }
    let r = named_after_exec(&m, "assign ");
    if r.is_some() {
        return r;
    }
    let r = named_after_exec(&m, "assigned to ");
    if r.is_some() {
        return r;
    }
    named_after_exec(&m, "belong to ")
}

/// Strips the filler tail after a keyword.
fn strip_keyword_tail_exec(s: &Vec<char>) -> (r: Vec<char>)
    ensures
        r@ == strip_keyword_tail(s@),
{
    let a = strip_char_suffixes_vec(s, '?');
    let b = strip_suffixes_vec(&a, &chars_of(" không"));
    let c = strip_suffixes_vec(&b, &chars_of(" nào"));
    let d = strip_suffixes_vec(&c, &chars_of(" gì"));
    let e = strip_suffixes_vec(&d, &chars_of(" vậy"));
    trim_vec(&e)
}

/// The keyword after `pat`, if non-empty.
fn keyword_after_exec(msg: &Vec<char>, pat: &str) -> (r: Option<String>)
    ensures
        opt_str(r) == keyword_after(msg@, pat@),
{
    let p = chars_of(pat);
    match find_seq(msg, &p) {
        Some(i) => {
            let rest = sub_vec(msg, i + p.len(), msg.len());
            assert(rest@ =~= msg@.skip(i + pat@.len()));
            let k = strip_keyword_tail_exec(&trim_vec(&rest));
            if k.len() > 0 {
                Some(string_of(k.as_slice()))
            } else {
                None
            }
        },
        None => None,
    }
}

/// Extracts the keyword a lowercased message searches for.
pub fn extract_search_keyword(msg: &str) -> (r: Option<String>)
    ensures
        opt_str(r) == search_keyword(msg@),
{
    let m = chars_of(msg);
    let r = keyword_after_exec(&m, "có chữ ");
    if r.is_some() { return r; }
    let r = keyword_after_exec(&m, "chứa ");
    if r.is_some() { return r; }
    let r = keyword_after_exec(&m, "liên quan ");
    if r.is_some() { return r; }
    let r = keyword_after_exec(&m, "về ");
    if r.is_some() { return r; }
    let r = keyword_after_exec(&m, "tên ");
    if r.is_some() { return r; }
    let r = keyword_after_exec(&m, "tìm ");
    if r.is_some() { return r; }
    let r = keyword_after_exec(&m, "search ");
    if r.is_some() { return r; }
    let r = keyword_after_exec(&m, "find ");
    if r.is_some() { return r; }
    let r = keyword_after_exec(&m, "keyword ");
    if r.is_some() { return r; }
    keyword_after_exec(&m, "card ")
}

/// The first list keyword the lowercased message contains.
fn list_keyword_exec(msg: &str) -> (r: Option<String>)
    ensures
        opt_str(r) == list_keyword(msg@),
{
    if str_contains(msg, "done") { Some(String::from_str("done")) }
    else if str_contains(msg, "doing") { Some(String::from_str("doing")) }
    else if str_contains(msg, "todo") { Some(String::from_str("todo")) }
    else if str_contains(msg, "to do") { Some(String::from_str("to do")) }
    else if str_contains(msg, "in progress") { Some(String::from_str("in progress")) }
    else if str_contains(msg, "review") { Some(String::from_str("review")) }
    else if str_contains(msg, "backlog") { Some(String::from_str("backlog")) }
    else if str_contains(msg, "release") { Some(String::from_str("release")) }
    else if str_contains(msg, "task") { Some(String::from_str("task")) }
    else if str_contains(msg, "complete") { Some(String::from_str("complete")) }
    else if str_contains(msg, "pending") { Some(String::from_str("pending")) }
    else if str_contains(msg, "testing") { Some(String::from_str("testing")) }
    else { None }
}

/// Parses a chat message by keyword detection (the fallback when no AI
/// provider answers); see `keyword_intent`.
pub fn parse_intent_keyword(message: &str) -> (r: UserIntent)
    ensures
        r@ == keyword_intent(message@),
{
    let lower = to_lower(message);
    intent_from_lowered(lower.as_str(), message)
}

/// The fallback intent of a message from its lowercased text; see
/// `intent_of_lowered`.
pub fn intent_from_lowered(msg: &str, message: &str) -> (r: UserIntent)
    ensures
        r@ == intent_of_lowered(msg@, message@),
{
    if str_contains(msg, "tóm tắt") || str_contains(msg, "summary") || str_contains(
        msg,
        "trạng thái board",
    ) || str_contains(msg, "thống kê") || str_contains(msg, "tổng quan") {
        return UserIntent::BoardSummary;
    }
    if let Some(member) = extract_member_query(msg) {
        return UserIntent::FilterByMember(member);
    }
    if str_contains(msg, "tất cả") || str_contains(msg, "all") || str_contains(msg, "liệt kê")
        || str_contains(msg, "danh sách") || str_contains(msg, "toàn bộ") || str_contains(
        msg,
        "xem hết",
    ) {
        return UserIntent::ListAll;
    }
    if str_contains(msg, "quá hạn") || str_contains(msg, "overdue") || str_contains(msg, "trễ hạn")
        || str_contains(msg, "hết hạn") {
        return UserIntent::OverdueCards;
    }
    if str_contains(msg, "deadline") || str_contains(msg, "hạn") || str_contains(msg, "due")
        || str_contains(msg, "sắp tới") || str_contains(msg, "ngày") || str_contains(
        msg,
        "thời hạn",
    ) {
        return UserIntent::DueCards;
    }
    if str_contains(msg, "ưu tiên") || str_contains(msg, "priority") || str_contains(msg, "urgent")
        || str_contains(msg, "quan trọng") || str_contains(msg, "critical") {
        return UserIntent::FilterByLabel(String::from_str("priority"));
    }
    if str_contains(msg, "bug") || str_contains(msg, "lỗi") || str_contains(msg, "error") {
        return UserIntent::FilterByLabel(String::from_str("bug"));
    }
    if let Some(kw) = list_keyword_exec(msg) {
        return UserIntent::FilterByList(kw);
    }
    if let Some(keyword) = extract_search_keyword(msg) {
        return UserIntent::SearchByKeyword(keyword);
    }
    UserIntent::SearchByKeyword(String::from_str(message))
}

/// Turns a fallback intent into the structured query the executor runs.
pub fn convert_legacy_to_ai_intent(intent: UserIntent, message: &str) -> (r: AiParsedIntent)
    ensures
        r@ == legacy_query(intent@),
{
    let e = AiParsedIntent::default();
    match intent {
        UserIntent::ListAll => AiParsedIntent { intent: String::from_str("list_all"), ..e },
        UserIntent::SearchByKeyword(kw) => AiParsedIntent {
            intent: String::from_str("search"),
            keyword: Some(kw),
            ..e
        },
        UserIntent::FilterByLabel(l) => AiParsedIntent {
            intent: String::from_str("filter_label"),
            label: Some(l),
            ..e
        },
        UserIntent::FilterByList(l) => AiParsedIntent {
            intent: String::from_str("filter_list"),
            list: Some(l),
            ..e
        },
        UserIntent::FilterByMember(m) => AiParsedIntent {
            intent: String::from_str("filter_member"),
            member: Some(m),
            ..e
        },
        UserIntent::DueCards => AiParsedIntent {
            intent: String::from_str("due"),
            has_due: Some(true),
            ..e
        },
        UserIntent::OverdueCards => AiParsedIntent {
            intent: String::from_str("overdue"),
            overdue_only: Some(true),
            ..e
        },
        UserIntent::BoardSummary => AiParsedIntent { intent: String::from_str("summary"), ..e },
    }
}

} // verus!
