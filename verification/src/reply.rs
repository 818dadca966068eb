use vstd::prelude::*;

use crate::text::{chars_of, find, find_seq, string_of, sub_vec, trim, trim_vec};

verus! {

/// Position of the last occurrence of `c` in `s`.
pub open spec fn rfind_char(s: Seq<char>, c: char) -> Option<nat>
    decreases s.len(),
{
    if s.len() == 0 {
        None
    } else if s.last() == c {
        Some((s.len() - 1) as nat)
    } else {
        rfind_char(s.drop_last(), c)
    }
}

/// The braces of a trimmed reply do not close before they open (else cutting
/// out the object between them is impossible).
pub open spec fn braces_ordered(t: Seq<char>) -> bool {
    match (find(t, seq!['{']), rfind_char(t, '}')) {
        (Some(s), Some(e)) => s <= e + 1,
        _ => true,
    }
}

/// The texts a JSON object is read from in an AI reply: the trimmed reply,
/// and, when it holds a `{` and a `}`, the part from the first `{` to the
/// last `}`.
pub open spec fn reply_texts(response: Seq<char>) -> (Seq<char>, Option<Seq<char>>) {
    let t = trim(response);
    match (find(t, seq!['{']), rfind_char(t, '}')) {
        (Some(s), Some(e)) => (t, Some(t.subrange(s as int, (e + 1) as int))),
        _ => (t, None),
    }
}

/// Cuts an AI reply into the texts a JSON object is read from; see
/// `reply_texts`.
pub fn json_reply_texts(response: &str) -> (r: (String, Option<String>))
    requires
        braces_ordered(trim(response@)),
    ensures
        r.0@ == reply_texts(response@).0,
        crate::models::opt_str(r.1) == reply_texts(response@).1,
{
    let t = trim_vec(&chars_of(response));
    let trimmed = string_of(t.as_slice());
    let mut open: Vec<char> = Vec::new();
    open.push('{');
    assert(open@ =~= seq!['{']);
    let start = find_seq(&t, &open);
    let mut e: usize = t.len();
    assert(t@.take(e as int) =~= t@);
    while e > 0 && t[e - 1] != '}'
        invariant
            e <= t.len(),
            rfind_char(t@, '}') == rfind_char(t@.take(e as int), '}'),
        decreases e,
    {
        assert(t@.take(e as int).drop_last() =~= t@.take(e - 1));
        e = e - 1;
    }
    if e > 0 {
        assert(rfind_char(t@.take(e as int), '}') == Some((e - 1) as nat));
    }
    match start {
        Some(s) => {
            if e > 0 {
                let piece = sub_vec(&t, s, e);
                (trimmed, Some(string_of(piece.as_slice())))
            } else {
                (trimmed, None)
            }
        },
        None => (trimmed, None),
    }
}

} // verus!
