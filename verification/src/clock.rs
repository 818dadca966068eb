use vstd::prelude::*;

use crate::text::ends_with;

verus! {

/// A character of an RFC 3339 timestamp as chrono writes it: a digit or one
/// of `- T : . +`.
pub open spec fn rfc3339_char(c: char) -> bool {
    ('0' <= c && c <= '9') || c == '-' || c == 'T' || c == ':' || c == '.' || c == '+'
}

/// The text of a UTC instant written by chrono's `to_rfc3339`: only such
/// characters, ending with the zero offset `+00:00`.
pub open spec fn rfc3339_utc(s: Seq<char>) -> bool {
    &&& ends_with(s, "+00:00"@)
    &&& forall|i: int| 0 <= i < s.len() ==> rfc3339_char(#[trigger] s[i])
}

/// The text of a year from 1970 on written by chrono's `%Y`: four ASCII
/// digits, or `+` and at least five ASCII digits after the year 9999.
pub open spec fn year_digits(s: Seq<char>) -> bool {
    ||| s.len() == 4 && forall|i: int| 0 <= i < s.len() ==> '0' <= #[trigger] s[i] && s[i] <= '9'
    ||| s.len() >= 6 && s[0] == '+' && forall|i: int| 1 <= i < s.len() ==> '0' <= #[trigger] s[i] && s[i]
        <= '9'
}

/// `chrono::Utc::now()` printed by `DateTime::to_rfc3339`.  The instant
/// depends on the time of the call and is not stated; what is stated is the
/// form chrono writes for a UTC instant (digits and `- T : . +`, ending
/// `+00:00`).
#[verifier::external_body]
pub(crate) fn utc_now_rfc3339() -> (r: String)
    ensures
        rfc3339_utc(r@),
{
    chrono::Utc::now().to_rfc3339()
}

/// `chrono::Utc::now()` plus `chrono::Duration::days(days)`, printed by
/// `DateTime::to_rfc3339`.  The instant depends on the time of the call and
/// is not stated; the form chrono writes for a UTC instant is.  `days` is
/// bounded so that neither the duration nor the sum overflows.
#[verifier::external_body]
pub(crate) fn utc_rfc3339_in_days(days: i64) -> (r: String)
    requires
        -36500 <= days <= 36500,
    ensures
        rfc3339_utc(r@),
{
    (chrono::Utc::now() + chrono::Duration::days(days)).to_rfc3339()
}

/// The year of `chrono::Utc::now()`, printed with the `%Y` format.  The year
/// depends on the time of the call and is not stated; the form chrono writes
/// for a year from 1970 on (`Utc::now` is never earlier) is.
#[verifier::external_body]
pub(crate) fn utc_year_text() -> (r: String)
    ensures
        year_digits(r@),
{
    chrono::Utc::now().format("%Y").to_string()
}

} // verus!
