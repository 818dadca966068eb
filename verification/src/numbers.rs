use vstd::prelude::*;

use crate::text::{chars_of, decimal, fmt_usize, string_of};

verus! {

/// Every character is an ASCII digit.
pub open spec fn all_digits(s: Seq<char>) -> bool {
    forall|i: int| 0 <= i < s.len() ==> '0' <= #[trigger] s[i] <= '9'
}

/// The value of a string of ASCII digits.
pub open spec fn digits_value(s: Seq<char>) -> nat
    decreases s.len(),
{
    if s.len() == 0 {
        0
    } else {
        digits_value(s.drop_last()) * 10 + ((s.last() as u32) - 48) as nat
    }
}

/// What `str::parse` yields for an unsigned integer type, before its range is
/// checked: an optional `+` followed by at least one ASCII digit.
pub open spec fn parse_decimal(s: Seq<char>) -> Option<nat> {
    let d = if s.len() > 0 && s[0] == '+' { s.drop_first() } else { s };
    if d.len() == 0 || !all_digits(d) {
        None
    } else {
        Some(digits_value(d))
    }
}

/// `str::parse` into an unsigned integer type whose largest value is `max`.
pub open spec fn parse_unsigned(s: Seq<char>, max: nat) -> Option<nat> {
    match parse_decimal(s) {
        Some(v) => if v <= max { Some(v) } else { None },
        None => None,
    }
}

/// Parses an unsigned decimal number no greater than `max`.
pub fn parse_bounded(s: &str, max: u64) -> (r: Option<u64>)
    ensures
        r matches Some(v) ==> parse_unsigned(s@, max as nat) == Some(v as nat),
        r is None ==> parse_unsigned(s@, max as nat) is None,
{
    let cs = chars_of(s);
    let start: usize = if cs.len() > 0 && cs[0] == '+' { 1 } else { 0 };
    let ghost d = if s@.len() > 0 && s@[0] == '+' { s@.drop_first() } else { s@ };
    assert(d =~= cs@.skip(start as int));
    if start >= cs.len() {
        return None;
    }
    let mut acc: u64 = 0;
    let mut i: usize = start;
    assert(cs@.subrange(start as int, start as int) =~= Seq::<char>::empty());
    while i < cs.len()
        invariant
            start <= i <= cs.len(),
            cs@ == s@,
            d == (if s@.len() > 0 && s@[0] == '+' { s@.drop_first() } else { s@ }),
            d == cs@.skip(start as int),
            all_digits(cs@.subrange(start as int, i as int)),
            acc == digits_value(cs@.subrange(start as int, i as int)),
            acc <= max,
        decreases cs.len() - i,
    {
        let c = cs[i];
        if !('0' <= c && c <= '9') {
            assert(d[i - start] == c);
            assert(!('0' <= d[i - start] <= '9'));
            assert(!all_digits(d));
            return None;
        }
        let v: u64 = (c as u32 - 48) as u64;
        let ghost pre = cs@.subrange(start as int, i as int);
        let ghost post = cs@.subrange(start as int, i + 1);
        assert(post.drop_last() =~= pre);
        assert(post.last() == c);
        let next: u128 = acc as u128 * 10 + v as u128;
        if next > max as u128 {
            // the value only grows with more digits
            proof {
                assert(d.take((i + 1 - start) as int) =~= post);
                assert(all_digits(post));
                assert(digits_value(post) == digits_value(pre) * 10 + ((c as u32) - 48) as nat);
                assert(digits_value(post) > max);
            }
            if i + 1 == cs.len() {
                assert(post =~= d);
                return None;
            }
            proof {
                lemma_all_digits_or_none(d, (i + 1 - start) as nat, max as nat);
            }
            return None;
        }
        acc = next as u64;
        i = i + 1;
    }
    assert(cs@.subrange(start as int, cs.len() as int) =~= d);
    Some(acc)
}

/// Parsing continues past a prefix that already exceeds `max`: the result is then out of range.
proof fn lemma_all_digits_or_none(d: Seq<char>, k: nat, max: nat)
    requires
        0 < k <= d.len(),
        all_digits(d.take(k as int)),
        digits_value(d.take(k as int)) > max,
    ensures
        !all_digits(d) || digits_value(d) > max,
{
    if all_digits(d) {
        lemma_digits_value_prefix(d, k);
    }
}

/// A longer digit string is worth at least as much as its prefix.
proof fn lemma_digits_value_prefix(d: Seq<char>, k: nat)
    requires
        k <= d.len(),
        all_digits(d),
    ensures
        digits_value(d.take(k as int)) <= digits_value(d),
    decreases d.len(),
{
    if k < d.len() {
        assert(d.drop_last().take(k as int) =~= d.take(k as int));
        assert(all_digits(d.drop_last()));
        lemma_digits_value_prefix(d.drop_last(), k);
        assert(digits_value(d) >= digits_value(d.drop_last())) by (nonlinear_arith)
            requires
                digits_value(d) == digits_value(d.drop_last()) * 10 + ((d.last() as u32) - 48) as nat,
        ;
    } else {
        assert(d.take(k as int) =~= d);
    }
}


/// `n` in decimal, left-padded with zeros to at least `width` characters.
pub open spec fn padded(n: nat, width: nat) -> Seq<char> {
    let d = decimal(n);
    if d.len() < width {
        Seq::new((width - d.len()) as nat, |i: int| '0') + d
    } else {
        d
    }
}

/// Formats `n` in decimal, left-padded with zeros to at least `width` characters.
pub fn fmt_padded(n: usize, width: usize) -> (r: String)
    ensures
        r@ == padded(n as nat, width as nat),
{
    let d = chars_of(fmt_usize(n).as_str());
    if d.len() >= width {
        return string_of(d.as_slice());
    }
    let mut out: Vec<char> = Vec::new();
    let mut i: usize = 0;
    while i < width - d.len()
        invariant
            d.len() < width,
            i <= width - d.len(),
            out@ == Seq::new(i as nat, |j: int| '0'),
        decreases width - d.len() - i,
    {
        out.push('0');
        assert(out@ =~= Seq::new((i + 1) as nat, |j: int| '0'));
        i = i + 1;
    }
    let mut dd = d;
    out.append(&mut dd);
    string_of(out.as_slice())
}

} // verus!
