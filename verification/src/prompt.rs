use vstd::prelude::*;

use crate::models::{card_views, list_views, BoardData, CardView, LabelView, ListView, TrelloCard};
use crate::text::{
    chars_of, contains, contains_seq, decimal, fmt_usize, join, join_strings, lowercase, push_str,
    to_lower, views,
};

verus! {

/// How many cards sit in the list with id `id`.
pub open spec fn cards_in_list(cards: Seq<CardView>, id: Seq<char>) -> nat
    decreases cards.len(),
{
    if cards.len() == 0 {
        0
    } else {
        cards_in_list(cards.drop_last(), id) + if cards.last().id_list == id { 1nat } else { 0nat }
    }
}

/// The line describing one list.
pub open spec fn list_line(l: ListView, cards: Seq<CardView>) -> Seq<char> {
    "- "@ + l.name + " ("@ + decimal(cards_in_list(cards, l.id)) + " cards)\n"@
}

/// The lines describing the lists, in order.
pub open spec fn list_lines(lists: Seq<ListView>, cards: Seq<CardView>) -> Seq<char>
    decreases lists.len(),
{
    if lists.len() == 0 {
        Seq::empty()
    } else {
        list_lines(lists.drop_last(), cards) + list_line(lists.last(), cards)
    }
}

/// How a label is shown: its name, or its colour when it has no name.
pub open spec fn label_text(l: LabelView) -> Seq<char> {
    if l.name.len() == 0 {
        match l.color {
            Some(c) => c,
            None => Seq::empty(),
        }
    } else {
        l.name
    }
}

/// The labels cell of a card row.
pub open spec fn labels_cell(c: CardView) -> Seq<char> {
    if c.labels.len() == 0 {
        "—"@
    } else {
        join(c.labels.map_values(|l: LabelView| label_text(l)), ", "@)
    }
}

/// The deadline marker: done, pending, or none.
pub open spec fn due_status(c: CardView) -> Seq<char> {
    if c.due_complete == Some(true) {
        " ✅"@
    } else if c.due is Some {
        " ⏰"@
    } else {
        ""@
    }
}

/// The table row of the card at position `i`.
pub open spec fn card_row(i: nat, c: CardView) -> Seq<char> {
    "| "@ + decimal(i + 1) + " | "@ + c.name + " | "@ + (match c.list_name {
        Some(n) => n,
        None => "Unknown"@,
    }) + " | "@ + (match c.due {
        Some(d) => d,
        None => "Không có"@,
    }) + due_status(c) + " | "@ + labels_cell(c) + " | "@ + c.short_url + " |\n"@
}

/// The rows of the first `n` cards.
pub open spec fn card_rows(cards: Seq<CardView>, n: nat) -> Seq<char>
    decreases n,
{
    if n == 0 || n > cards.len() {
        Seq::empty()
    } else {
        card_rows(cards, (n - 1) as nat) + card_row((n - 1) as nat, cards[n - 1])
    }
}

/// The fixed instructions that open the system prompt.
pub open spec fn prompt_intro() -> Seq<char> {
    "Bạn là trợ lý thông minh chuyên về quản lý dự án Trello. "@
        + "Hãy trả lời câu hỏi của người dùng bằng tiếng Việt, dựa trên dữ liệu board Trello dưới đây.\n"@
        + "Khi trả lời, hãy đưa ra thông tin chính xác, ngắn gọn và hữu ích.\n"@
        + "Nếu câu hỏi liên quan đến deadline, hãy so sánh với ngày hiện tại.\n"@
        + "Nếu không tìm thấy thông tin phù hợp, hãy nói rõ.\n\n"@
}

/// The system prompt describing a board: instructions, the board, its lists
/// with their card counts, and a table of its cards.
pub open spec fn system_prompt(
    name: Seq<char>,
    desc: Seq<char>,
    lists: Seq<ListView>,
    cards: Seq<CardView>,
) -> Seq<char> {
    prompt_intro() + "## Board: "@ + name + "\n"@ + (if desc.len() > 0 {
        "Mô tả: "@ + desc + "\n"@
    } else {
        Seq::empty()
    }) + "\n"@ + "## Danh sách (Lists):\n"@ + list_lines(lists, cards) + "\n"@ + "## Cards:\n"@
        + "| # | Tên | List | Deadline | Labels | Link |\n"@
        + "|---|-----|------|----------|--------|------|\n"@ + card_rows(cards, cards.len())
}

/// Counts the cards in the list with id `id`.
pub fn count_cards_in_list(cards: &Vec<TrelloCard>, id: &String) -> (r: usize)
    ensures
        r == cards_in_list(card_views(cards@), id@),
{
    let ghost cs = card_views(cards@);
    let mut n: usize = 0;
    let mut i: usize = 0;
    assert(cs.take(0) =~= Seq::<CardView>::empty());
    while i < cards.len()
        invariant
            i <= cards.len(),
            cs == card_views(cards@),
            n <= i,
            n == cards_in_list(cs.take(i as int), id@),
        decreases cards.len() - i,
    {
        assert(cs.take(i + 1).drop_last() =~= cs.take(i as int));
        if cards[i].id_list == *id {
            n = n + 1;
        }
        i = i + 1;
    }
    assert(cs.take(cards.len() as int) =~= cs);
    n
}

/// The labels cell of a card row.
fn labels_cell_exec(card: &TrelloCard) -> (r: String)
    ensures
        r@ == labels_cell(card@),
{
    if card.labels.len() == 0 {
        return String::from_str("—");
    }
    let mut parts: Vec<String> = Vec::new();
    let mut i: usize = 0;
    while i < card.labels.len()
        invariant
            i <= card.labels.len(),
            parts.len() == i,
            forall|j: int| 0 <= j < i ==> (#[trigger] parts@[j])@ == label_text(card.labels@[j]@),
        decreases card.labels.len() - i,
    {
        let l = &card.labels[i];
        let t = if l.name.as_str().is_empty() {
            match &l.color {
                Some(c) => c.clone(),
                None => String::new(),
            }
        } else {
            l.name.clone()
        };
        parts.push(t);
        i = i + 1;
    }
    assert(views(parts@) =~= card@.labels.map_values(|l: LabelView| label_text(l)));
    join_strings(&parts, ", ")
}

/// The table row of the card at position `i`.
fn card_row_exec(i: usize, card: &TrelloCard) -> (r: String)
    requires
        i < usize::MAX,
    ensures
        r@ == card_row(i as nat, card@),
{
    let mut row = String::new();
    push_str(&mut row, "| ");
    push_str(&mut row, fmt_usize(i + 1).as_str());
    push_str(&mut row, " | ");
    push_str(&mut row, card.name.as_str());
    push_str(&mut row, " | ");
    match &card.list_name {
        Some(n) => push_str(&mut row, n.as_str()),
        None => push_str(&mut row, "Unknown"),
    }
    push_str(&mut row, " | ");
    match &card.due {
        Some(d) => push_str(&mut row, d.as_str()),
        None => push_str(&mut row, "Không có"),
    }
    let done = match card.due_complete {
        Some(b) => b,
        None => false,
    };
    if done {
        push_str(&mut row, " ✅");
    } else if card.due.is_some() {
        push_str(&mut row, " ⏰");
    } else {
        push_str(&mut row, "");
    }
    push_str(&mut row, " | ");
    push_str(&mut row, labels_cell_exec(card).as_str());
    push_str(&mut row, " | ");
    push_str(&mut row, card.short_url.as_str());
    push_str(&mut row, " |\n");
    assert(row@ =~= card_row(i as nat, card@));
    row
}

/// Builds the system prompt that describes a board to the assistant; see
/// `system_prompt`.
pub fn build_system_prompt(board_data: &BoardData) -> (r: String)
    ensures
        r@ == system_prompt(
            board_data.board.name@,
            board_data.board.desc@,
            list_views(board_data.lists@),
            card_views(board_data.cards@),
        ),
{
    let ghost ls = list_views(board_data.lists@);
    let ghost cs = card_views(board_data.cards@);
    let mut prompt = String::new();
    push_str(&mut prompt, "Bạn là trợ lý thông minh chuyên về quản lý dự án Trello. ");
    push_str(
        &mut prompt,
        "Hãy trả lời câu hỏi của người dùng bằng tiếng Việt, dựa trên dữ liệu board Trello dưới đây.\n",
    );
    push_str(&mut prompt, "Khi trả lời, hãy đưa ra thông tin chính xác, ngắn gọn và hữu ích.\n");
    push_str(&mut prompt, "Nếu câu hỏi liên quan đến deadline, hãy so sánh với ngày hiện tại.\n");
    push_str(&mut prompt, "Nếu không tìm thấy thông tin phù hợp, hãy nói rõ.\n\n");
    assert(prompt@ =~= prompt_intro());
    push_str(&mut prompt, "## Board: ");
    push_str(&mut prompt, board_data.board.name.as_str());
    push_str(&mut prompt, "\n");
    let ghost head = prompt@;
    if !board_data.board.desc.as_str().is_empty() {
        push_str(&mut prompt, "Mô tả: ");
        push_str(&mut prompt, board_data.board.desc.as_str());
        push_str(&mut prompt, "\n");
        assert(prompt@ =~= head + ("Mô tả: "@ + board_data.board.desc@ + "\n"@));
    } else {
        assert(prompt@ =~= head + Seq::<char>::empty());
    }
    push_str(&mut prompt, "\n");
    push_str(&mut prompt, "## Danh sách (Lists):\n");
    let ghost before_lists = prompt@;
    let mut i: usize = 0;
    assert(ls.take(0) =~= Seq::<ListView>::empty());
    assert(prompt@ =~= before_lists + list_lines(ls.take(0), cs));
    while i < board_data.lists.len()
        invariant
            i <= board_data.lists.len(),
            ls == list_views(board_data.lists@),
            cs == card_views(board_data.cards@),
            prompt@ == before_lists + list_lines(ls.take(i as int), cs),
        decreases board_data.lists.len() - i,
    {
        let l = &board_data.lists[i];
        let n = count_cards_in_list(&board_data.cards, &l.id);
        push_str(&mut prompt, "- ");
        push_str(&mut prompt, l.name.as_str());
        push_str(&mut prompt, " (");
        push_str(&mut prompt, fmt_usize(n).as_str());
        push_str(&mut prompt, " cards)\n");
        assert(ls.take(i + 1).drop_last() =~= ls.take(i as int));
        assert(ls.take(i + 1).last() == l@);
        assert(prompt@ =~= before_lists + list_lines(ls.take(i + 1), cs));
        i = i + 1;
    }
    assert(ls.take(board_data.lists.len() as int) =~= ls);
    push_str(&mut prompt, "\n");
    push_str(&mut prompt, "## Cards:\n");
    push_str(&mut prompt, "| # | Tên | List | Deadline | Labels | Link |\n");
    push_str(&mut prompt, "|---|-----|------|----------|--------|------|\n");
    let ghost before_rows = prompt@;
    let mut i: usize = 0;
    assert(prompt@ =~= before_rows + card_rows(cs, 0));
    while i < board_data.cards.len()
        invariant
            i <= board_data.cards.len(),
            cs == card_views(board_data.cards@),
            prompt@ == before_rows + card_rows(cs, i as nat),
        decreases board_data.cards.len() - i,
    {
        let card = &board_data.cards[i];
        let ghost row_start = prompt@;
        let row = card_row_exec(i, card);
        push_str(&mut prompt, row.as_str());
        assert(cs[i as int] == card@);
        assert(card_rows(cs, (i + 1) as nat) == card_rows(cs, i as nat) + card_row(i as nat, cs[i as int]));
        i = i + 1;
    }
    prompt
}

/// A card whose name, description or a label name contains `q` (lowercased).
pub open spec fn card_mentions(c: CardView, q: Seq<char>) -> bool {
    contains(lowercase(c.name), q) || contains(lowercase(c.desc), q) || exists|j: int|
        0 <= j < c.labels.len() && contains(lowercase(#[trigger] c.labels[j].name), q)
}

/// Positions, among the first `n` cards, of those that mention `q`.
pub open spec fn matched_positions(cards: Seq<CardView>, q: Seq<char>, n: nat) -> Seq<int>
    decreases n,
{
    if n == 0 || n > cards.len() {
        Seq::empty()
    } else {
        let prev = matched_positions(cards, q, (n - 1) as nat);
        if card_mentions(cards[n - 1], q) {
            prev.push(n - 1)
        } else {
            prev
        }
    }
}

/// Whether the card mentions the lowercased query.
fn card_mentions_exec(card: &TrelloCard, q: &Vec<char>) -> (r: bool)
    ensures
        r == card_mentions(card@, q@),
{
    let name = chars_of(to_lower(card.name.as_str()).as_str());
    if contains_seq(&name, q) {
        return true;
    }
    let desc = chars_of(to_lower(card.desc.as_str()).as_str());
    if contains_seq(&desc, q) {
        return true;
    }
    let mut j: usize = 0;
    while j < card.labels.len()
        invariant
            j <= card.labels.len(),
            forall|k: int| 0 <= k < j ==> !contains(lowercase(#[trigger] card@.labels[k].name), q@),
        decreases card.labels.len() - j,
    {
        let l = chars_of(to_lower(card.labels[j].name.as_str()).as_str());
        if contains_seq(&l, q) {
            assert(contains(lowercase(card@.labels[j as int].name), q@));
            return true;
        }
        j = j + 1;
    }
    false
}

/// Positions of the board's cards whose name, description or a label name
/// contains the query (case-insensitively), in order.
pub fn extract_matched_cards(board_data: &BoardData, query: &str) -> (r: Vec<usize>)
    ensures
        r@.map_values(|i: usize| i as int) == matched_positions(
            card_views(board_data.cards@),
            lowercase(query@),
            board_data.cards@.len(),
        ),
{
    let ghost cs = card_views(board_data.cards@);
    let q = chars_of(to_lower(query).as_str());
    let mut out: Vec<usize> = Vec::new();
    let mut i: usize = 0;
    assert(out@.map_values(|i: usize| i as int) =~= matched_positions(cs, q@, 0));
    while i < board_data.cards.len()
        invariant
            i <= board_data.cards.len(),
            cs == card_views(board_data.cards@),
            q@ == lowercase(query@),
            out@.map_values(|i: usize| i as int) == matched_positions(cs, q@, i as nat),
        decreases board_data.cards.len() - i,
    {
        let ghost before = out@;
        assert(cs[i as int] == board_data.cards@[i as int]@);
        if card_mentions_exec(&board_data.cards[i], &q) {
            out.push(i);
            assert(out@.map_values(|i: usize| i as int) =~= before.map_values(|i: usize| i as int).push(
                i as int,
            ));
        }
        i = i + 1;
    }
    out
}

/// The positions found are in increasing order, each of a card that mentions
/// the query, and every card among the first `n` that mentions it is found.
pub proof fn lemma_matched_positions(cards: Seq<CardView>, q: Seq<char>, n: nat)
    requires
        n <= cards.len(),
    ensures
        forall|i: int, j: int|
            0 <= i < j < matched_positions(cards, q, n).len() ==> #[trigger] matched_positions(
                cards,
                q,
                n,
            )[i] < #[trigger] matched_positions(cards, q, n)[j],
        forall|i: int|
            0 <= i < matched_positions(cards, q, n).len() ==> {
                let k = #[trigger] matched_positions(cards, q, n)[i];
                0 <= k < n && card_mentions(cards[k], q)
            },
        forall|k: int|
            0 <= k < n && card_mentions(#[trigger] cards[k], q) ==> matched_positions(
                cards,
                q,
                n,
            ).contains(k),
    decreases n,
{
    if n > 0 {
        let m = (n - 1) as nat;
        lemma_matched_positions(cards, q, m);
        let prev = matched_positions(cards, q, m);
        let cur = matched_positions(cards, q, n);
        assert forall|k: int| 0 <= k < n && card_mentions(#[trigger] cards[k], q) implies cur.contains(
            k,
        ) by {
            if k < m {
                assert(prev.contains(k));
                let i = choose|i: int| 0 <= i < prev.len() && prev[i] == k;
                assert(cur[i] == k);
            } else {
                assert(cur[cur.len() - 1] == k);
            }
        }
        assert forall|i: int, j: int| 0 <= i < j < cur.len() implies #[trigger] cur[i] < #[trigger] cur[j] by {
            if j == prev.len() {
                assert(cur[i] == prev[i]);
            } else {
                assert(cur[i] == prev[i] && cur[j] == prev[j]);
            }
        }
        assert forall|i: int| 0 <= i < cur.len() implies {
            let k = #[trigger] cur[i];
            0 <= k < n && card_mentions(cards[k], q)
        } by {
            if i < prev.len() {
                assert(cur[i] == prev[i]);
            }
        }
    }
}

} // verus!
