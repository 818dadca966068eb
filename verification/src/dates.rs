use vstd::prelude::*;

use crate::clock::{utc_year_text, year_digits};
use crate::numbers::{fmt_padded, padded, parse_bounded, parse_unsigned};
use crate::text::{concat3, lowercase, push_str, to_lower};

verus! {

/// Groups of a regex match, each as its text when it took part in the match.
pub open spec fn groups_view(g: Seq<Option<String>>) -> Seq<Option<Seq<char>>> {
    g.map_values(|o: Option<String>| crate::models::opt_str(o))
}

/// The result of compiling a pattern and capturing its first match.
pub open spec fn captures_view(r: Option<Option<Vec<Option<String>>>>) -> Option<
    Option<Seq<Option<Seq<char>>>>,
> {
    match r {
        None => None,
        Some(None) => Some(None),
        Some(Some(g)) => Some(Some(groups_view(g@))),
    }
}

/// What `regex::Regex::new(pattern)` followed by `Regex::captures(text)`
/// yields: `None` when the pattern does not compile, `Some(None)` when there
/// is no match, else the text of each group of the leftmost-first match.
pub uninterp spec fn regex_captures_of(pattern: Seq<char>, text: Seq<char>) -> Option<
    Option<Seq<Option<Seq<char>>>>,
>;

/// Compiles `pattern` with `regex::Regex::new` and captures its first match in
/// `text` with `Regex::captures`; the result is named `regex_captures_of`.
#[verifier::external_body]
pub(crate) fn regex_captures(pattern: &str, text: &str) -> (r: Option<Option<Vec<Option<String>>>>)
    ensures
        captures_view(r) == regex_captures_of(pattern@, text@),
{
    match regex::Regex::new(pattern) {
        Ok(re) => Some(
            re.captures(text).map(
                |c| (0..c.len()).map(|i| c.get(i).map(|m| m.as_str().to_string())).collect(),
            ),
        ),
        Err(_) => None,
    }
}

/// Day / month / year with `/` or `-` between them.
pub const DMY_PATTERN: &'static str = r"(\d{1,2})[/\-](\d{1,2})[/\-](\d{4})";

/// Vietnamese "ngày D tháng M năm Y".
pub const VN_FULL_PATTERN: &'static str =
    r"ng[àa]y\s+(\d{1,2})\s+th[áa]ng\s+(\d{1,2})\s+n[aă]m\s+(\d{4})";

/// Vietnamese "ngày D tháng M" (no year).
pub const VN_SHORT_PATTERN: &'static str = r"ng[àa]y\s+(\d{1,2})\s+th[áa]ng\s+(\d{1,2})";

/// ISO `YYYY-MM-DD`.
pub const ISO_PATTERN: &'static str = r"(\d{4})-(\d{2})-(\d{2})";

/// The text of group `i`, if it exists and took part in the match.
pub open spec fn group(g: Seq<Option<Seq<char>>>, i: int) -> Option<Seq<char>> {
    if 0 <= i < g.len() { g[i] } else { None }
}

/// The value of group `i` parsed as a `u32`.
pub open spec fn group_u32(g: Seq<Option<Seq<char>>>, i: int) -> Option<nat> {
    match group(g, i) {
        Some(t) => parse_unsigned(t, u32::MAX as nat),
        None => None,
    }
}

/// A day of month and a month in range.
pub open spec fn valid_day_month(day: nat, month: nat) -> bool {
    1 <= month <= 12 && 1 <= day <= 31
}

/// `YYYY-MM-DD`, zero-padded.
pub open spec fn ymd(year: nat, month: nat, day: nat) -> Seq<char> {
    padded(year, 4) + seq!['-'] + padded(month, 2) + seq!['-'] + padded(day, 2)
}

/// What one day-month-year pattern decides: `Some(answer)` ends the search with
/// `answer`, `None` goes on to the next pattern.  A pattern that fails to
/// compile, a group that is missing or does not parse as a `u32` end the
/// search without a date.
pub open spec fn dmy_step(
    c: Option<Option<Seq<Option<Seq<char>>>>>,
    year: Option<nat>,
) -> Option<Option<Seq<char>>> {
    match c {
        None => Some(None),
        Some(None) => None,
        Some(Some(g)) => match (group_u32(g, 1), group_u32(g, 2)) {
            (Some(day), Some(month)) => {
                let y = match year {
                    Some(y) => Some(y),
                    None => group_u32(g, 3),
                };
                match y {
                    Some(y) => if valid_day_month(day, month) {
                        Some(Some(ymd(y, month, day)))
                    } else {
                        None
                    },
                    None => Some(None),
                }
            },
            _ => Some(None),
        },
    }
}

/// What the ISO pattern decides: its three groups joined by `-`.
pub open spec fn iso_step(c: Option<Option<Seq<Option<Seq<char>>>>>) -> Option<Seq<char>> {
    match c {
        Some(Some(g)) => match (group(g, 1), group(g, 2), group(g, 3)) {
            (Some(y), Some(m), Some(d)) => Some(y + seq!['-'] + m + seq!['-'] + d),
            _ => None,
        },
        _ => None,
    }
}

/// The year used for "ngày D tháng M": the current year's text parsed as a
/// `u32`, or 2026 when it does not parse.
pub open spec fn current_year(year_text: Seq<char>) -> nat {
    match parse_unsigned(year_text, u32::MAX as nat) {
        Some(y) => y,
        None => 2026,
    }
}

/// The date a lowercased message names, as `YYYY-MM-DD`: the first of the
/// day-month-year forms, the Vietnamese forms (the short one in the current
/// year) and the ISO form that it holds.
pub open spec fn message_date(msg: Seq<char>, year_text: Seq<char>) -> Option<Seq<char>> {
    match dmy_step(regex_captures_of(DMY_PATTERN@, msg), None) {
        Some(a) => a,
        None => match dmy_step(regex_captures_of(VN_FULL_PATTERN@, msg), None) {
            Some(a) => a,
            None => match dmy_step(
                regex_captures_of(VN_SHORT_PATTERN@, msg),
                Some(current_year(year_text)),
            ) {
                Some(a) => a,
                None => match regex_captures_of(ISO_PATTERN@, msg) {
                    None => None,
                    Some(c) => iso_step(Some(c)),
                },
            },
        },
    }
}

/// The text of group `i`.
fn group_exec(g: &Vec<Option<String>>, i: usize) -> (r: Option<&str>)
    ensures
        match r {
            Some(s) => group(groups_view(g@), i as int) == Some(s@),
            None => group(groups_view(g@), i as int) is None,
        },
{
    if i < g.len() {
        match &g[i] {
            Some(s) => Some(s.as_str()),
            None => None,
        }
    } else {
        None
    }
}

/// Group `i` parsed as a `u32`.
fn group_u32_exec(g: &Vec<Option<String>>, i: usize) -> (r: Option<u64>)
    ensures
        match r {
            Some(v) => group_u32(groups_view(g@), i as int) == Some(v as nat) && v <= u32::MAX,
            None => group_u32(groups_view(g@), i as int) is None,
        },
{
    match group_exec(g, i) {
        Some(t) => parse_bounded(t, 0xffff_ffff),
        None => None,
    }
}

/// `YYYY-MM-DD` of three numbers.
fn ymd_exec(year: u64, month: u64, day: u64) -> (r: String)
    requires
        year <= u32::MAX,
        month <= u32::MAX,
        day <= u32::MAX,
    ensures
        r@ == ymd(year as nat, month as nat, day as nat),
{
    let mut r = fmt_padded(year as usize, 4);
    push_str(&mut r, "-");
    push_str(&mut r, fmt_padded(month as usize, 2).as_str());
    push_str(&mut r, "-");
    push_str(&mut r, fmt_padded(day as usize, 2).as_str());
    proof {
        reveal_strlit("-");
        assert("-"@ =~= seq!['-']);
    }
    r
}

/// Decides on one day-month-year pattern from what capturing it gave (see
/// `dmy_step`); `year`, when given, replaces the third group.
pub fn date_from_captures(c: Option<Option<Vec<Option<String>>>>, year: Option<u64>) -> (r: Option<
    Option<String>,
>)
    requires
        year matches Some(y) ==> y <= u32::MAX,
    ensures
        match r {
            Some(a) => dmy_step(
                captures_view(c),
                match year { Some(y) => Some(y as nat), None => None },
            ) == Some(crate::models::opt_str(a)),
            None => dmy_step(
                captures_view(c),
                match year { Some(y) => Some(y as nat), None => None },
            ) is None,
        },
{
    match c {
        None => Some(None),
        Some(None) => None,
        Some(Some(g)) => {
            let day = group_u32_exec(&g, 1);
            let month = group_u32_exec(&g, 2);
            match (day, month) {
                (Some(day), Some(month)) => {
                    let y = match year {
                        Some(y) => Some(y),
                        None => group_u32_exec(&g, 3),
                    };
                    match y {
                        Some(y) => {
                            if 1 <= month && month <= 12 && 1 <= day && day <= 31 {
                                Some(Some(ymd_exec(y, month, day)))
                            } else {
                                None
                            }
                        },
                        None => Some(None),
                    }
                },
                _ => Some(None),
            }
        },
    }
}

/// The ISO date the ISO pattern's captures give; see `iso_step`.
pub fn iso_date_from_captures(c: Option<Option<Vec<Option<String>>>>) -> (r: Option<String>)
    ensures
        crate::models::opt_str(r) == iso_step(captures_view(c)),
{
    match c {
        Some(Some(g)) => {
            match (group_exec(&g, 1), group_exec(&g, 2), group_exec(&g, 3)) {
                (Some(y), Some(m), Some(d)) => {
                    let mut r = concat3(y, "-", m);
                    push_str(&mut r, "-");
                    push_str(&mut r, d);
                    proof {
                        reveal_strlit("-");
                        assert("-"@ =~= seq!['-']);
                    }
                    Some(r)
                },
                _ => None,
            }
        },
        _ => None,
    }
}

/// Applies one day-month-year pattern to a message.
fn dmy_step_exec(pattern: &str, msg: &str, year: Option<u64>) -> (r: Option<Option<String>>)
    requires
        year matches Some(y) ==> y <= u32::MAX,
    ensures
        match r {
            Some(a) => dmy_step(
                regex_captures_of(pattern@, msg@),
                match year { Some(y) => Some(y as nat), None => None },
            ) == Some(crate::models::opt_str(a)),
            None => dmy_step(
                regex_captures_of(pattern@, msg@),
                match year { Some(y) => Some(y as nat), None => None },
            ) is None,
        },
{
    date_from_captures(regex_captures(pattern, msg), year)
}

/// Finds a date in a message, reading "ngày D tháng M" in the year `year_text`
/// names; see `message_date`.
pub fn date_in_message(message: &str, year_text: &str) -> (r: Option<String>)
    ensures
        crate::models::opt_str(r) == message_date(lowercase(message@), year_text@),
{
    let lower = to_lower(message);
    let msg = lower.as_str();
    if let Some(a) = dmy_step_exec(DMY_PATTERN, msg, None) {
        return a;
    }
    if let Some(a) = dmy_step_exec(VN_FULL_PATTERN, msg, None) {
        return a;
    }
    let year: u64 = match parse_bounded(year_text, 0xffff_ffff) {
        Some(y) => y,
        None => 2026,
    };
    if let Some(a) = dmy_step_exec(VN_SHORT_PATTERN, msg, Some(year)) {
        return a;
    }
    iso_date_from_captures(regex_captures(ISO_PATTERN, msg))
}

/// Finds a date in a message, reading "ngày D tháng M" in the current UTC year.
/// The result is what `date_in_message` gives for the text of some year.
pub fn extract_date_from_message(message: &str) -> (r: Option<String>)
    ensures
        exists|y: Seq<char>|
            #[trigger] year_digits(y) && crate::models::opt_str(r) == message_date(
                lowercase(message@),
                y,
            ),
{
    let year = utc_year_text();
    let r = date_in_message(message, year.as_str());
    assert(year_digits(year@));
    r
}

} // verus!
