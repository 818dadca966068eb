use vstd::prelude::*;

use crate::cards::{is_overdue, overdue_cards_at};
use crate::clock::{rfc3339_utc, utc_now_rfc3339};
use crate::dates::{captures_view, group, groups_view, regex_captures, regex_captures_of};
use crate::models::{card_views, opt_str, CardView, LabelView, MemberView, TrelloCard};
use crate::seqs::keep;
use crate::text::{chars_of, concat2, concat3, decimal, fmt_usize, join, join_strings, push_str, views};

verus! {

/// An hour estimate in a card title, such as "Est: 4h" or "est:0.5h"
/// (case-insensitive); the first group is the number.
pub const EST_PATTERN: &'static str = r"(?i)est(?:[a-zA-Z\s_-]*?)[:\s]+(\d+\.?\d*)\s*h";

/// The text of the first group of a match, when the pattern compiled and matched.
pub open spec fn first_group(c: Option<Option<Seq<Option<Seq<char>>>>>) -> Option<Seq<char>> {
    match c {
        Some(Some(g)) => group(g, 1),
        _ => None,
    }
}

/// The text of the hour estimate in a card title, if the title holds one.
pub open spec fn est_text(name: Seq<char>) -> Option<Seq<char>> {
    first_group(regex_captures_of(EST_PATTERN@, name))
}

/// The text of the first group of what capturing a pattern gave; see `first_group`.
pub fn first_group_text(c: Option<Option<Vec<Option<String>>>>) -> (r: Option<String>)
    ensures
        opt_str(r) == first_group(captures_view(c)),
{
    match c {
        Some(Some(g)) => {
            if 1 < g.len() {
                match &g[1] {
                    Some(t) => Some(t.clone()),
                    None => None,
                }
            } else {
                None
            }
        },
        _ => None,
    }
}

/// Finds the text of the hour estimate in a card title; see `est_text`.
pub fn est_hours_text(card_name: &str) -> (r: Option<String>)
    ensures
        opt_str(r) == est_text(card_name@),
{
    first_group_text(regex_captures(EST_PATTERN, card_name))
}

/// How many times `c` occurs in `t`.
pub open spec fn count_char(t: Seq<char>, c: char) -> nat
    decreases t.len(),
{
    if t.len() == 0 {
        0
    } else {
        count_char(t.drop_last(), c) + if t.last() == c { 1nat } else { 0nat }
    }
}

/// A decimal number as `f64::from_str` reads it without sign or exponent:
/// ASCII digits with at most one `.`, and at least one digit.
pub open spec fn decimal_text(t: Seq<char>) -> bool {
    &&& forall|i: int| 0 <= i < t.len() ==> ('0' <= #[trigger] t[i] && t[i] <= '9') || t[i] == '.'
    &&& count_char(t, '.') <= 1
    &&& exists|i: int| 0 <= i < t.len() && '0' <= #[trigger] t[i] && t[i] <= '9'
}

/// The hour estimate of a card title when it is a number: its text.
pub open spec fn est_number(name: Seq<char>) -> Option<Seq<char>> {
    match est_text(name) {
        Some(t) => if decimal_text(t) { Some(t) } else { None },
        None => None,
    }
}

/// Whether a text is a decimal number; see `decimal_text`.
fn is_decimal_text(t: &str) -> (r: bool)
    ensures
        r == decimal_text(t@),
{
    let cs = chars_of(t);
    let mut dots: usize = 0;
    let mut digits: usize = 0;
    let mut i: usize = 0;
    while i < cs.len()
        invariant
            i <= cs.len(),
            cs@ == t@,
            forall|j: int| 0 <= j < i ==> ('0' <= #[trigger] cs@[j] && cs@[j] <= '9') || cs@[j] == '.',
            dots == count_char(cs@.take(i as int), '.'),
            dots <= 1,
            (digits > 0) == (exists|j: int| 0 <= j < i && '0' <= #[trigger] cs@[j] && cs@[j] <= '9'),
            digits <= i,
        decreases cs.len() - i,
    {
        let c = cs[i];
        assert(cs@.take(i + 1).drop_last() =~= cs@.take(i as int));
        if '0' <= c && c <= '9' {
            digits = digits + 1;
        } else if c == '.' {
            if dots == 1 {
                proof {
                    lemma_count_char_prefix(cs@, '.', (i + 1) as nat);
                }
                return false;
            }
            dots = dots + 1;
        } else {
            return false;
        }
        i = i + 1;
    }
    assert(cs@.take(cs.len() as int) =~= cs@);
    digits > 0
}

/// A prefix has no more occurrences than the whole text.
proof fn lemma_count_char_prefix(t: Seq<char>, c: char, k: nat)
    requires
        k <= t.len(),
    ensures
        count_char(t.take(k as int), c) <= count_char(t, c),
    decreases t.len(),
{
    if k < t.len() {
        lemma_count_char_prefix(t.drop_last(), c, k);
        assert(t.drop_last().take(k as int) =~= t.take(k as int));
    } else {
        assert(t.take(k as int) =~= t);
    }
}

/// Finds the hour estimate of a card title when it is a number; see
/// `est_number`.
pub fn estimate_text(card_name: &str) -> (r: Option<String>)
    ensures
        opt_str(r) == est_number(card_name@),
{
    match est_hours_text(card_name) {
        Some(t) => if is_decimal_text(t.as_str()) { Some(t) } else { None },
        None => None,
    }
}

/// How many cards carry an hour estimate.
pub open spec fn est_count(cards: Seq<CardView>) -> nat
    decreases cards.len(),
{
    if cards.len() == 0 {
        0
    } else {
        est_count(cards.drop_last()) + if est_number(cards.last().name) is Some { 1nat } else { 0nat }
    }
}

/// Counts the cards with and without an hour estimate.
pub fn estimate_counts(cards: &Vec<TrelloCard>) -> (r: (usize, usize))
    ensures
        r.0 == est_count(card_views(cards@)),
        r.0 + r.1 == cards.len(),
{
    let ghost cs = card_views(cards@);
    let mut with: usize = 0;
    let mut i: usize = 0;
    assert(cs.take(0) =~= Seq::<CardView>::empty());
    while i < cards.len()
        invariant
            i <= cards.len(),
            cs == card_views(cards@),
            with <= i,
            with == est_count(cs.take(i as int)),
        decreases cards.len() - i,
    {
        assert(cs.take(i + 1).drop_last() =~= cs.take(i as int));
        assert(cs[i as int] == cards@[i as int]@);
        if estimate_text(cards[i].name.as_str()).is_some() {
            with = with + 1;
        }
        i = i + 1;
    }
    assert(cs.take(cards.len() as int) =~= cs);
    (with, cards.len() - with)
}

/// The marker shown after a card's deadline in the analysis context: overdue
/// when its pending deadline lies before `now`, done when it is complete.
pub open spec fn deadline_marker(c: CardView, now: Seq<char>) -> Seq<char> {
    if c.due is Some && c.due_complete != Some(true) {
        if is_overdue(c, now) {
            "⚠OVERDUE"@
        } else {
            ""@
        }
    } else if c.due_complete == Some(true) {
        "✓DONE"@
    } else {
        ""@
    }
}

/// The marker shown after a card's deadline at the instant `now`; see `deadline_marker`.
pub fn overdue_marker(card: &TrelloCard, now: &str) -> (r: &'static str)
    ensures
        r@ == deadline_marker(card@, now@),
{
    let done = match card.due_complete {
        Some(b) => b,
        None => false,
    };
    if card.due.is_some() && !done {
        let nw = chars_of(now);
        if crate::cards::card_is_overdue(card, &nw) {
            "⚠OVERDUE"
        } else {
            ""
        }
    } else if card.due_complete == Some(true) {
        "✓DONE"
    } else {
        ""
    }
}

// ---------------------------------------------------------------------
// The context handed to the analysing model
// ---------------------------------------------------------------------

/// A group of the time statistics with its hours already written out.
pub struct GroupHours {
    pub name: String,
    pub cards: usize,
    pub hours: String,
}

pub struct GroupHoursView {
    pub name: Seq<char>,
    pub cards: nat,
    pub hours: Seq<char>,
}

impl View for GroupHours {
    type V = GroupHoursView;

    open spec fn view(&self) -> GroupHoursView {
        GroupHoursView { name: self.name@, cards: self.cards as nat, hours: self.hours@ }
    }
}

/// The time statistics, with the hour figures already written out.
pub struct TimeStatsText {
    pub total_est: String,
    pub avg: String,
    pub cards_with_est: usize,
    pub cards_without_est: usize,
    pub by_member: Vec<GroupHours>,
    pub by_list: Vec<GroupHours>,
}

/// The values of a sequence of groups.
pub open spec fn hours_views(s: Seq<GroupHours>) -> Seq<GroupHoursView> {
    s.map_values(|g: GroupHours| g@)
}

/// One group as the context shows it: `name(Ncards,Hh)`.
pub open spec fn group_part(g: GroupHoursView) -> Seq<char> {
    g.name + "("@ + decimal(g.cards) + "cards,"@ + g.hours + "h)"@
}

/// A line listing the groups after `label`, or nothing when there are none.
pub open spec fn groups_line(label: Seq<char>, gs: Seq<GroupHoursView>) -> Seq<char> {
    if gs.len() == 0 {
        Seq::empty()
    } else {
        label + join(gs.map_values(|g: GroupHoursView| group_part(g)), ", "@) + "\n"@
    }
}

/// The opening of the context: the question, the time statistics and the
/// number of cards.
pub open spec fn context_head(q: Seq<char>, st: TimeStatsText, n: nat) -> Seq<char> {
    "USER QUESTION: "@ + q + "\n\n"@ + "TIME STATS: total_est="@ + st.total_est@ + "h, avg="@
        + st.avg@ + "h/card, with_est="@ + decimal(st.cards_with_est as nat) + ", without_est="@
        + decimal(st.cards_without_est as nat) + "\n"@ + groups_line(
        "MEMBER HOURS: "@,
        hours_views(st.by_member@),
    ) + groups_line("LIST STATS: "@, hours_views(st.by_list@)) + "\nTOTAL CARDS: "@ + decimal(n)
        + "\n"@ + "CARDS DATA:\n"@
}

/// The members cell of a card line.
pub open spec fn members_cell(c: CardView) -> Seq<char> {
    if c.members.len() == 0 {
        "-"@
    } else {
        join(c.members.map_values(|m: MemberView| m.full_name), ","@)
    }
}

/// The labels cell of a card line.
pub open spec fn label_names_cell(c: CardView) -> Seq<char> {
    if c.labels.len() == 0 {
        "-"@
    } else {
        join(c.labels.map_values(|l: LabelView| l.name), ","@)
    }
}

/// The line of the card at position `i`, its estimate shown as `est`.
pub open spec fn context_line(i: nat, c: CardView, est: Seq<char>, now: Seq<char>) -> Seq<char> {
    decimal(i + 1) + ". ["@ + (match c.list_name {
        Some(n) => n,
        None => "?"@,
    }) + "] "@ + c.name + " | members:"@ + members_cell(c) + " | labels:"@ + label_names_cell(c)
        + " | due:"@ + (match c.due {
        Some(d) => d,
        None => "-"@,
    }) + " "@ + deadline_marker(c, now) + " | est:"@ + est + "\n"@
}

/// The lines of the first `n` cards.
pub open spec fn context_lines(cards: Seq<CardView>, est: Seq<Seq<char>>, now: Seq<char>, n: nat) -> Seq<
    char,
>
    decreases n,
{
    if n == 0 || n > cards.len() || n > est.len() {
        Seq::empty()
    } else {
        context_lines(cards, est, now, (n - 1) as nat) + context_line(
            (n - 1) as nat,
            cards[n - 1],
            est[n - 1],
            now,
        )
    }
}

/// At most this many cards are listed in the context.
pub const MAX_CONTEXT_CARDS: usize = 100;

/// The context for analysing `cards` to answer `q` at the instant `now`: the
/// head, a line for each of the first hundred cards (`est[i]` showing the
/// estimate of card `i`), and how many cards were left out.
pub open spec fn analysis_context(
    cards: Seq<CardView>,
    q: Seq<char>,
    st: TimeStatsText,
    est: Seq<Seq<char>>,
    now: Seq<char>,
) -> Seq<char> {
    let shown = if cards.len() < MAX_CONTEXT_CARDS { cards.len() } else { MAX_CONTEXT_CARDS as nat };
    context_head(q, st, cards.len()) + context_lines(cards, est, now, shown) + (if cards.len()
        > MAX_CONTEXT_CARDS {
        "... and "@ + decimal((cards.len() - MAX_CONTEXT_CARDS) as nat) + " more cards\n"@
    } else {
        Seq::empty()
    })
}

/// Writes a list of groups as the context shows it.
fn groups_line_exec(label: &str, gs: &Vec<GroupHours>) -> (r: String)
    ensures
        r@ == groups_line(label@, hours_views(gs@)),
{
    if gs.len() == 0 {
        return String::new();
    }
    let mut parts: Vec<String> = Vec::new();
    let mut i: usize = 0;
    while i < gs.len()
        invariant
            i <= gs.len(),
            parts.len() == i,
            forall|j: int| 0 <= j < i ==> (#[trigger] parts@[j])@ == group_part(gs@[j]@),
        decreases gs.len() - i,
    {
        let g = &gs[i];
        let mut t = String::new();
        push_str(&mut t, g.name.as_str());
        push_str(&mut t, "(");
        push_str(&mut t, fmt_usize(g.cards).as_str());
        push_str(&mut t, "cards,");
        push_str(&mut t, g.hours.as_str());
        push_str(&mut t, "h)");
        assert(t@ =~= group_part(g@));
        parts.push(t);
        i = i + 1;
    }
    assert(views(parts@) =~= hours_views(gs@).map_values(|g: GroupHoursView| group_part(g)));
    let mut r = String::new();
    push_str(&mut r, label);
    push_str(&mut r, join_strings(&parts, ", ").as_str());
    push_str(&mut r, "\n");
    assert(r@ =~= groups_line(label@, hours_views(gs@)));
    r
}

/// The members cell of a card line.
fn members_cell_exec(card: &TrelloCard) -> (r: String)
    ensures
        r@ == members_cell(card@),
{
    if card.members.len() == 0 {
        return String::from_str("-");
    }
    let mut parts: Vec<String> = Vec::new();
    let mut i: usize = 0;
    while i < card.members.len()
        invariant
            i <= card.members.len(),
            parts.len() == i,
            forall|j: int| 0 <= j < i ==> (#[trigger] parts@[j])@ == card.members@[j]@.full_name,
        decreases card.members.len() - i,
    {
        parts.push(card.members[i].full_name.clone());
        i = i + 1;
    }
    assert(views(parts@) =~= card@.members.map_values(|m: MemberView| m.full_name));
    join_strings(&parts, ",")
}

/// The labels cell of a card line.
fn label_names_cell_exec(card: &TrelloCard) -> (r: String)
    ensures
        r@ == label_names_cell(card@),
{
    if card.labels.len() == 0 {
        return String::from_str("-");
    }
    let mut parts: Vec<String> = Vec::new();
    let mut i: usize = 0;
    while i < card.labels.len()
        invariant
            i <= card.labels.len(),
            parts.len() == i,
            forall|j: int| 0 <= j < i ==> (#[trigger] parts@[j])@ == card.labels@[j]@.name,
        decreases card.labels.len() - i,
    {
        parts.push(card.labels[i].name.clone());
        i = i + 1;
    }
    assert(views(parts@) =~= card@.labels.map_values(|l: LabelView| l.name));
    join_strings(&parts, ",")
}

/// The line of the card at position `i`.
fn context_line_exec(i: usize, card: &TrelloCard, est: &str, now: &str) -> (r: String)
    requires
        i < usize::MAX,
    ensures
        r@ == context_line(i as nat, card@, est@, now@),
{
    let mut s = String::new();
    push_str(&mut s, fmt_usize(i + 1).as_str());
    push_str(&mut s, ". [");
    match &card.list_name {
        Some(n) => push_str(&mut s, n.as_str()),
        None => push_str(&mut s, "?"),
    }
    push_str(&mut s, "] ");
    push_str(&mut s, card.name.as_str());
    push_str(&mut s, " | members:");
    push_str(&mut s, members_cell_exec(card).as_str());
    push_str(&mut s, " | labels:");
    push_str(&mut s, label_names_cell_exec(card).as_str());
    push_str(&mut s, " | due:");
    match &card.due {
        Some(d) => push_str(&mut s, d.as_str()),
        None => push_str(&mut s, "-"),
    }
    push_str(&mut s, " ");
    push_str(&mut s, overdue_marker(card, now));
    push_str(&mut s, " | est:");
    push_str(&mut s, est);
    push_str(&mut s, "\n");
    assert(s@ =~= context_line(i as nat, card@, est@, now@));
    s
}

/// Builds the context for analysing `cards` to answer `question` at the
/// instant `now`; `est[i]` shows the estimate of card `i`.  See
/// `analysis_context`.
pub fn build_analysis_context_at(
    cards: &Vec<TrelloCard>,
    question: &str,
    stats: &TimeStatsText,
    est: &Vec<String>,
    now: &str,
) -> (r: String)
    requires
        est.len() == cards.len(),
    ensures
        r@ == analysis_context(card_views(cards@), question@, *stats, views(est@), now@),
{
    let ghost cs = card_views(cards@);
    let ghost es = views(est@);
    let mut ctx = String::new();
    push_str(&mut ctx, "USER QUESTION: ");
    push_str(&mut ctx, question);
    push_str(&mut ctx, "\n\n");
    push_str(&mut ctx, "TIME STATS: total_est=");
    push_str(&mut ctx, stats.total_est.as_str());
    push_str(&mut ctx, "h, avg=");
    push_str(&mut ctx, stats.avg.as_str());
    push_str(&mut ctx, "h/card, with_est=");
    push_str(&mut ctx, fmt_usize(stats.cards_with_est).as_str());
    push_str(&mut ctx, ", without_est=");
    push_str(&mut ctx, fmt_usize(stats.cards_without_est).as_str());
    push_str(&mut ctx, "\n");
    push_str(&mut ctx, groups_line_exec("MEMBER HOURS: ", &stats.by_member).as_str());
    push_str(&mut ctx, groups_line_exec("LIST STATS: ", &stats.by_list).as_str());
    push_str(&mut ctx, "\nTOTAL CARDS: ");
    push_str(&mut ctx, fmt_usize(cards.len()).as_str());
    push_str(&mut ctx, "\n");
    push_str(&mut ctx, "CARDS DATA:\n");
    assert(ctx@ =~= context_head(question@, *stats, cards.len() as nat));
    let ghost head = ctx@;
    let shown: usize = if cards.len() < MAX_CONTEXT_CARDS { cards.len() } else { MAX_CONTEXT_CARDS };
    let mut i: usize = 0;
    assert(ctx@ =~= head + context_lines(cs, es, now@, 0));
    while i < shown
        invariant
            i <= shown,
            shown <= cards.len(),
            est.len() == cards.len(),
            cs == card_views(cards@),
            es == views(est@),
            ctx@ == head + context_lines(cs, es, now@, i as nat),
        decreases shown - i,
    {
        let line = context_line_exec(i, &cards[i], est[i].as_str(), now);
        push_str(&mut ctx, line.as_str());
        assert(cs[i as int] == cards@[i as int]@);
        assert(es[i as int] == est@[i as int]@);
        assert(context_lines(cs, es, now@, (i + 1) as nat) == context_lines(cs, es, now@, i as nat)
            + context_line(i as nat, cs[i as int], es[i as int], now@));
        assert(ctx@ =~= head + context_lines(cs, es, now@, (i + 1) as nat));
        i = i + 1;
    }
    let ghost body = ctx@;
    if cards.len() > MAX_CONTEXT_CARDS {
        push_str(&mut ctx, "... and ");
        push_str(&mut ctx, fmt_usize(cards.len() - MAX_CONTEXT_CARDS).as_str());
        push_str(&mut ctx, " more cards\n");
        assert(ctx@ =~= body + ("... and "@ + decimal((cards.len() - MAX_CONTEXT_CARDS) as nat)
            + " more cards\n"@));
    } else {
        assert(ctx@ =~= body + Seq::<char>::empty());
    }
    ctx
}

/// Builds the analysis context at the current time.  The result is what
/// `build_analysis_context_at` gives for some instant.
pub fn build_analysis_context(
    cards: &Vec<TrelloCard>,
    question: &str,
    stats: &TimeStatsText,
    est: &Vec<String>,
) -> (r: String)
    requires
        est.len() == cards.len(),
    ensures
        exists|now: Seq<char>|
            #[trigger] rfc3339_utc(now) && r@ == analysis_context(
                card_views(cards@),
                question@,
                *stats,
                views(est@),
                now,
            ),
{
    let now = utc_now_rfc3339();
    let r = build_analysis_context_at(cards, question, stats, est, now.as_str());
    assert(rfc3339_utc(now@));
    r
}

// ---------------------------------------------------------------------
// The analysis given when no model answers
// ---------------------------------------------------------------------

/// The summary of the fallback analysis: the number of cards, the estimate
/// totals when some cards have one, and the overdue cards when there are any.
pub open spec fn fallback_summary(n: nat, st: TimeStatsText, overdue: nat) -> Seq<char> {
    "## 📊 Tổng quan Board\n\n"@ + "- **Tổng cards:** "@ + decimal(n) + "\n"@ + (if st.cards_with_est
        > 0 {
        "- **Tổng Est:** "@ + st.total_est@ + "h ("@ + decimal(st.cards_with_est as nat)
            + " cards có estimate)\n"@ + "- **Trung bình:** "@ + st.avg@ + "h/card\n"@
    } else {
        Seq::empty()
    }) + (if overdue > 0 {
        "- **Quá hạn:** "@ + decimal(overdue) + " cards ⚠️\n"@
    } else {
        Seq::empty()
    })
}

/// The insights of the fallback analysis.
pub open spec fn fallback_insights(n: nat, overdue: nat, without_est: nat) -> Seq<Seq<char>> {
    seq!["Tổng cộng "@ + decimal(n) + " cards trên board"@] + (if overdue > 0 {
        seq![decimal(overdue) + " cards đang quá hạn cần xử lý"@]
    } else {
        Seq::empty()
    }) + (if without_est > 0 {
        seq![decimal(without_est) + " cards chưa có estimate — cần PM bổ sung"@]
    } else {
        Seq::empty()
    })
}

/// The number of cards overdue at `now`.
pub open spec fn overdue_count(cards: Seq<CardView>, now: Seq<char>) -> nat {
    keep(cards, |c: CardView| is_overdue(c, now)).len()
}

/// The summary and insights of the analysis given when no model answers, at
/// the instant `now`.
pub fn fallback_analysis_at(cards: &Vec<TrelloCard>, stats: &TimeStatsText, now: &str) -> (r: (
    String,
    Vec<String>,
))
    ensures
        r.0@ == fallback_summary(
            cards@.len(),
            *stats,
            overdue_count(card_views(cards@), now@),
        ),
        views(r.1@) == fallback_insights(
            cards@.len(),
            overdue_count(card_views(cards@), now@),
            stats.cards_without_est as nat,
        ),
{
    let late = overdue_cards_at(cards, now);
    let overdue = late.len();
    assert(card_views(late@).len() == late@.len());
    let mut s = String::new();
    push_str(&mut s, "## 📊 Tổng quan Board\n\n");
    push_str(&mut s, "- **Tổng cards:** ");
    push_str(&mut s, fmt_usize(cards.len()).as_str());
    push_str(&mut s, "\n");
    let ghost head = s@;
    if stats.cards_with_est > 0 {
        push_str(&mut s, "- **Tổng Est:** ");
        push_str(&mut s, stats.total_est.as_str());
        push_str(&mut s, "h (");
        push_str(&mut s, fmt_usize(stats.cards_with_est).as_str());
        push_str(&mut s, " cards có estimate)\n");
        push_str(&mut s, "- **Trung bình:** ");
        push_str(&mut s, stats.avg.as_str());
        push_str(&mut s, "h/card\n");
        assert(s@ =~= head + ("- **Tổng Est:** "@ + stats.total_est@ + "h ("@ + decimal(
            stats.cards_with_est as nat,
        ) + " cards có estimate)\n"@ + "- **Trung bình:** "@ + stats.avg@ + "h/card\n"@));
    } else {
        assert(s@ =~= head + Seq::<char>::empty());
    }
    let ghost mid = s@;
    if overdue > 0 {
        push_str(&mut s, "- **Quá hạn:** ");
        push_str(&mut s, fmt_usize(overdue).as_str());
        push_str(&mut s, " cards ⚠️\n");
        assert(s@ =~= mid + ("- **Quá hạn:** "@ + decimal(overdue as nat) + " cards ⚠️\n"@));
    } else {
        assert(s@ =~= mid + Seq::<char>::empty());
    }
    let mut insights: Vec<String> = Vec::new();
    insights.push(concat3("Tổng cộng ", fmt_usize(cards.len()).as_str(), " cards trên board"));
    let ghost i0 = views(insights@);
    if overdue > 0 {
        insights.push(concat2(fmt_usize(overdue).as_str(), " cards đang quá hạn cần xử lý"));
        assert(views(insights@) =~= i0 + seq![decimal(overdue as nat) + " cards đang quá hạn cần xử lý"@]);
    } else {
        assert(views(insights@) =~= i0 + Seq::<Seq<char>>::empty());
    }
    let ghost i1 = views(insights@);
    if stats.cards_without_est > 0 {
        insights.push(concat2(
            fmt_usize(stats.cards_without_est).as_str(),
            " cards chưa có estimate — cần PM bổ sung",
        ));
        assert(views(insights@) =~= i1 + seq![decimal(stats.cards_without_est as nat)
            + " cards chưa có estimate — cần PM bổ sung"@]);
    } else {
        assert(views(insights@) =~= i1 + Seq::<Seq<char>>::empty());
    }
    (s, insights)
}

/// The fallback analysis at the current time.  The result is what
/// `fallback_analysis_at` gives for some instant.
pub fn fallback_analysis(cards: &Vec<TrelloCard>, stats: &TimeStatsText) -> (r: (String, Vec<String>))
    ensures
        exists|now: Seq<char>|
            #[trigger] rfc3339_utc(now) && r.0@ == fallback_summary(
                cards@.len(),
                *stats,
                overdue_count(card_views(cards@), now),
            ) && views(r.1@) == fallback_insights(
                cards@.len(),
                overdue_count(card_views(cards@), now),
                stats.cards_without_est as nat,
            ),
{
    let now = utc_now_rfc3339();
    let r = fallback_analysis_at(cards, stats, now.as_str());
    assert(rfc3339_utc(now@));
    r
}

} // verus!
