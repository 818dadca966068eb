use vstd::prelude::*;

verus! {

// ---------------------------------------------------------------------
// Mathematical model of the text operations the library relies on.
// Strings are modelled by their characters (`Seq<char>`).
// ---------------------------------------------------------------------

/// `n` occurs in `h` starting at position `i`.
pub open spec fn occurs_at(h: Seq<char>, n: Seq<char>, i: int) -> bool {
    0 <= i && i + n.len() <= h.len() && h.subrange(i, i + n.len()) == n
}

/// First position at or after `i` where `n` occurs in `h`.
pub open spec fn find_from(h: Seq<char>, n: Seq<char>, i: nat) -> Option<nat>
    decreases h.len() + 1 - i,
{
    if i + n.len() > h.len() {
        None
    } else if occurs_at(h, n, i as int) {
        Some(i)
    } else {
        find_from(h, n, i + 1)
    }
}

/// First position where `n` occurs in `h` (what `str::find` reports, counted in characters).
pub open spec fn find(h: Seq<char>, n: Seq<char>) -> Option<nat> {
    find_from(h, n, 0)
}

/// `h` contains `n` as a contiguous piece.
pub open spec fn contains(h: Seq<char>, n: Seq<char>) -> bool {
    find(h, n) is Some
}

/// `h` begins with `p`.
pub open spec fn starts_with(h: Seq<char>, p: Seq<char>) -> bool {
    p.len() <= h.len() && h.subrange(0, p.len() as int) == p
}

/// `h` ends with `p`.
pub open spec fn ends_with(h: Seq<char>, p: Seq<char>) -> bool {
    p.len() <= h.len() && h.subrange(h.len() - p.len(), h.len() as int) == p
}

/// Unicode `White_Space` characters (what `char::is_whitespace` accepts).
pub open spec fn is_ws(c: char) -> bool {
    let u = c as u32;
    (0x9 <= u && u <= 0xd) || u == 0x20 || u == 0x85 || u == 0xa0 || u == 0x1680 || (0x2000 <= u
        && u <= 0x200a) || u == 0x2028 || u == 0x2029 || u == 0x202f || u == 0x205f || u == 0x3000
}

/// Removes trailing whitespace.
pub open spec fn trim_end(s: Seq<char>) -> Seq<char>
    decreases s.len(),
{
    if s.len() > 0 && is_ws(s.last()) {
        trim_end(s.drop_last())
    } else {
        s
    }
}

/// Removes leading whitespace.
pub open spec fn trim_start(s: Seq<char>) -> Seq<char>
    decreases s.len(),
{
    if s.len() > 0 && is_ws(s[0]) {
        trim_start(s.drop_first())
    } else {
        s
    }
}

/// Removes leading and trailing whitespace (`str::trim`).
pub open spec fn trim(s: Seq<char>) -> Seq<char> {
    trim_start(trim_end(s))
}

/// Removes every trailing repetition of a non-empty suffix (`str::trim_end_matches`).
pub open spec fn strip_suffixes(s: Seq<char>, p: Seq<char>) -> Seq<char>
    decreases s.len(),
{
    if p.len() > 0 && ends_with(s, p) {
        strip_suffixes(s.subrange(0, s.len() - p.len()), p)
    } else {
        s
    }
}

/// Position of the first character at or after `i` that satisfies `stop` (or the length).
pub open spec fn stop_index(s: Seq<char>, stop: spec_fn(char) -> bool, i: nat) -> nat
    decreases s.len() - i,
{
    if i >= s.len() || stop(s[i as int]) {
        i
    } else {
        stop_index(s, stop, i + 1)
    }
}

/// The part of `s` before the first character that satisfies `stop`.
pub open spec fn take_until(s: Seq<char>, stop: spec_fn(char) -> bool) -> Seq<char> {
    s.take(stop_index(s, stop, 0) as int)
}

/// The ASCII digit for `d`.
pub open spec fn digit_char(d: nat) -> char {
    seq!['0', '1', '2', '3', '4', '5', '6', '7', '8', '9'][d as int]
}

/// Decimal notation of a natural number (what `{}` prints for an unsigned integer).
pub open spec fn decimal(n: nat) -> Seq<char>
    decreases n,
{
    if n < 10 {
        seq![digit_char(n)]
    } else {
        decimal(n / 10).push(digit_char(n % 10))
    }
}

/// Joins pieces with a separator (`[..].join(sep)`).
pub open spec fn join(parts: Seq<Seq<char>>, sep: Seq<char>) -> Seq<char>
    decreases parts.len(),
{
    if parts.len() == 0 {
        Seq::empty()
    } else if parts.len() == 1 {
        parts[0]
    } else {
        join(parts.drop_last(), sep) + sep + parts.last()
    }
}

/// Lowercase mapping of a string, as `str::to_lowercase` computes it.
pub uninterp spec fn lowercase(s: Seq<char>) -> Seq<char>;

// ---------------------------------------------------------------------
// Trusted std operations
// ---------------------------------------------------------------------

/// `String::push`: appends one character at the end.
#[verifier::external_body]
pub(crate) fn push_char(s: &mut String, c: char)
    ensures
        final(s)@ == old(s)@.push(c),
{
    s.push(c);
}

/// `str::to_lowercase`: its result is named `lowercase` of the argument.
#[verifier::external_body]
pub(crate) fn to_lower(s: &str) -> (r: String)
    ensures
        r@ == lowercase(s@),
{
    s.to_lowercase()
}

// ---------------------------------------------------------------------
// Verified operations
// ---------------------------------------------------------------------

/// The characters of a string slice, in order.
pub fn chars_of(s: &str) -> (r: Vec<char>)
    ensures
        r@ == s@,
{
    let mut v: Vec<char> = Vec::new();
    for c in it: s.chars()
        invariant
            v@ == it.seq().take(it.index() as int),
            it.seq() == s@,
    {
        v.push(c);
    }
    v
}

/// Builds a string from characters.
pub fn string_of(cs: &[char]) -> (r: String)
    ensures
        r@ == cs@,
{
    let mut s = String::new();
    let mut i: usize = 0;
    while i < cs.len()
        invariant
            i <= cs.len(),
            s@ == cs@.take(i as int),
        decreases cs.len() - i,
    {
        push_char(&mut s, cs[i]);
        assert(cs@.take(i as int).push(cs@[i as int]) =~= cs@.take(i + 1));
        i = i + 1;
    }
    assert(cs@.take(cs.len() as int) =~= cs@);
    s
}

/// Builds a string from the characters `cs[from..to]`.
pub fn string_of_range(cs: &Vec<char>, from: usize, to: usize) -> (r: String)
    requires
        from <= to <= cs.len(),
    ensures
        r@ == cs@.subrange(from as int, to as int),
{
    let mut s = String::new();
    let mut i: usize = from;
    while i < to
        invariant
            from <= i <= to <= cs.len(),
            s@ == cs@.subrange(from as int, i as int),
        decreases to - i,
    {
        push_char(&mut s, cs[i]);
        assert(cs@.subrange(from as int, i as int).push(cs@[i as int]) =~= cs@.subrange(
            from as int,
            i + 1,
        ));
        i = i + 1;
    }
    s
}

/// Appends characters to a string.
pub fn push_chars(s: &mut String, cs: &Vec<char>)
    ensures
        final(s)@ == old(s)@ + cs@,
{
    let mut i: usize = 0;
    while i < cs.len()
        invariant
            i <= cs.len(),
            s@ == old(s)@ + cs@.take(i as int),
        decreases cs.len() - i,
    {
        push_char(s, cs[i]);
        assert(old(s)@ + cs@.take(i as int) + seq![cs@[i as int]] =~= old(s)@ + cs@.take(i + 1));
        i = i + 1;
    }
    assert(cs@.take(cs.len() as int) =~= cs@);
}

/// Appends a string slice to a string.
pub fn push_str(s: &mut String, t: &str)
    ensures
        final(s)@ == old(s)@ + t@,
{
    let cs = chars_of(t);
    push_chars(s, &cs);
}

/// Character-wise equality of two strings.
pub fn str_eq(a: &str, b: &str) -> (r: bool)
    ensures
        r == (a@ == b@),
{
    let x = chars_of(a);
    let y = chars_of(b);
    seq_eq(&x, &y)
}

/// Equality of two character vectors.
pub fn seq_eq(x: &Vec<char>, y: &Vec<char>) -> (r: bool)
    ensures
        r == (x@ == y@),
{
    if x.len() != y.len() {
        return false;
    }
    let mut i: usize = 0;
    while i < x.len()
        invariant
            x.len() == y.len(),
            i <= x.len(),
            forall|j: int| 0 <= j < i ==> x@[j] == y@[j],
        decreases x.len() - i,
    {
        if x[i] != y[i] {
            return false;
        }
        i = i + 1;
    }
    assert(x@ =~= y@);
    true
}

/// Whether `n` occurs in `h` at position `i`.
pub fn occurs_at_exec(h: &Vec<char>, n: &Vec<char>, i: usize) -> (r: bool)
    ensures
        r == occurs_at(h@, n@, i as int),
{
    if i > h.len() || n.len() > h.len() - i {
        return false;
    }
    let mut k: usize = 0;
    while k < n.len()
        invariant
            i + n.len() <= h.len(),
            k <= n.len(),
            forall|j: int| 0 <= j < k ==> h@[i + j] == n@[j],
        decreases n.len() - k,
    {
        if h[i + k] != n[k] {
            assert(h@.subrange(i as int, i + n.len())[k as int] != n@[k as int]);
            return false;
        }
        k = k + 1;
    }
    assert(h@.subrange(i as int, i + n.len()) =~= n@);
    true
}

/// First position where `n` occurs in `h`.
pub fn find_seq(h: &Vec<char>, n: &Vec<char>) -> (r: Option<usize>)
    ensures
        r matches Some(i) ==> find(h@, n@) == Some(i as nat) && i + n.len() <= h.len()
            && occurs_at(h@, n@, i as int),
        r is None ==> find(h@, n@) is None,
{
    if n.len() > h.len() {
        return None;
    }
    let last = h.len() - n.len();
    let mut i: usize = 0;
    loop
        invariant
            last + n.len() == h.len(),
            i <= last,
            find(h@, n@) == find_from(h@, n@, i as nat),
        decreases last - i,
    {
        if occurs_at_exec(h, n, i) {
            return Some(i);
        }
        if i == last {
            assert(find_from(h@, n@, (i + 1) as nat) is None);
            return None;
        }
        i = i + 1;
    }
}

/// Whether `n` occurs in `h`.
pub fn contains_seq(h: &Vec<char>, n: &Vec<char>) -> (r: bool)
    ensures
        r == contains(h@, n@),
{
    find_seq(h, n).is_some()
}

/// Whether the string `h` contains the string `n`.
pub fn str_contains(h: &str, n: &str) -> (r: bool)
    ensures
        r == contains(h@, n@),
{
    let x = chars_of(h);
    let y = chars_of(n);
    contains_seq(&x, &y)
}

/// Whether `h` begins with `p`.
pub fn starts_with_seq(h: &Vec<char>, p: &Vec<char>) -> (r: bool)
    ensures
        r == starts_with(h@, p@),
{
    let r = occurs_at_exec(h, p, 0);
    assert(occurs_at(h@, p@, 0) == starts_with(h@, p@));
    r
}

/// Whether the string `h` begins with the string `p`.
pub fn str_starts_with(h: &str, p: &str) -> (r: bool)
    ensures
        r == starts_with(h@, p@),
{
    let x = chars_of(h);
    let y = chars_of(p);
    starts_with_seq(&x, &y)
}

/// Whether a character is Unicode whitespace.
pub fn is_whitespace(c: char) -> (r: bool)
    ensures
        r == is_ws(c),
{
    let u = c as u32;
    (0x9 <= u && u <= 0xd) || u == 0x20 || u == 0x85 || u == 0xa0 || u == 0x1680 || (0x2000 <= u
        && u <= 0x200a) || u == 0x2028 || u == 0x2029 || u == 0x202f || u == 0x205f || u == 0x3000
}

/// Copies `v[from..to]`.
pub fn sub_vec(v: &Vec<char>, from: usize, to: usize) -> (r: Vec<char>)
    requires
        from <= to <= v.len(),
    ensures
        r@ == v@.subrange(from as int, to as int),
{
    let mut r: Vec<char> = Vec::new();
    let mut i: usize = from;
    while i < to
        invariant
            from <= i <= to <= v.len(),
            r@ == v@.subrange(from as int, i as int),
        decreases to - i,
    {
        r.push(v[i]);
        assert(v@.subrange(from as int, i as int).push(v@[i as int]) =~= v@.subrange(
            from as int,
            i + 1,
        ));
        i = i + 1;
    }
    r
}

/// Removes leading and trailing whitespace.
pub fn trim_vec(v: &Vec<char>) -> (r: Vec<char>)
    ensures
        r@ == trim(v@),
{
    let mut e: usize = v.len();
    assert(v@.take(e as int) =~= v@);
    while e > 0 && is_whitespace(v[e - 1])
        invariant
            e <= v.len(),
            trim_end(v@) == trim_end(v@.take(e as int)),
        decreases e,
    {
        assert(v@.take(e as int).drop_last() =~= v@.take(e - 1));
        e = e - 1;
    }
    let ghost t = v@.take(e as int);
    assert(trim_end(t) == t);
    let mut b: usize = 0;
    assert(t.skip(0) =~= t);
    while b < e && is_whitespace(v[b])
        invariant
            b <= e <= v.len(),
            t == v@.take(e as int),
            trim_start(t) == trim_start(t.skip(b as int)),
        decreases e - b,
    {
        assert(t.skip(b as int).drop_first() =~= t.skip(b + 1));
        b = b + 1;
    }
    assert(trim_start(t.skip(b as int)) == t.skip(b as int));
    assert(t.skip(b as int) =~= v@.subrange(b as int, e as int));
    sub_vec(v, b, e)
}

/// Removes every trailing repetition of a non-empty suffix.
pub fn strip_suffixes_vec(v: &Vec<char>, p: &Vec<char>) -> (r: Vec<char>)
    ensures
        r@ == strip_suffixes(v@, p@),
{
    let mut e: usize = v.len();
    assert(v@.take(e as int) =~= v@);
    if p.len() == 0 {
        return sub_vec(v, 0, e);
    }
    loop
        invariant
            p.len() > 0,
            e <= v.len(),
            strip_suffixes(v@, p@) == strip_suffixes(v@.take(e as int), p@),
        ensures
            e <= v.len(),
            strip_suffixes(v@, p@) == v@.take(e as int),
        decreases e,
    {
        if p.len() > e {
            assert(!ends_with(v@.take(e as int), p@));
            assert(strip_suffixes(v@.take(e as int), p@) == v@.take(e as int));
            break;
        }
        let ends = occurs_at_exec(v, p, e - p.len());
        assert(v@.take(e as int).subrange(e - p.len(), e as int) =~= v@.subrange(
            e - p.len(),
            e as int,
        ));
        if !ends {
            assert(!ends_with(v@.take(e as int), p@));
            assert(strip_suffixes(v@.take(e as int), p@) == v@.take(e as int));
            break;
        }
        assert(v@.take(e as int).subrange(0, e - p.len()) =~= v@.take(e - p.len()));
        e = e - p.len();
    }
    assert(v@.take(e as int) =~= v@.subrange(0, e as int));
    sub_vec(v, 0, e)
}

/// Removes every trailing repetition of the character `c`.
pub fn strip_char_suffixes_vec(v: &Vec<char>, c: char) -> (r: Vec<char>)
    ensures
        r@ == strip_suffixes(v@, seq![c]),
{
    let mut p: Vec<char> = Vec::new();
    p.push(c);
    assert(p@ =~= seq![c]);
    strip_suffixes_vec(v, &p)
}

/// The characters of each string.
pub open spec fn views(v: Seq<String>) -> Seq<Seq<char>> {
    v.map_values(|s: String| s@)
}

/// Joins strings with a separator.
pub fn join_strings(parts: &Vec<String>, sep: &str) -> (r: String)
    ensures
        r@ == join(views(parts@), sep@),
{
    let mut r = String::new();
    let mut i: usize = 0;
    while i < parts.len()
        invariant
            i <= parts.len(),
            r@ == join(views(parts@.take(i as int)), sep@),
        decreases parts.len() - i,
    {
        let ghost before = r@;
        if i > 0 {
            push_str(&mut r, sep);
        }
        push_str(&mut r, parts[i].as_str());
        proof {
            let t = views(parts@.take(i + 1));
            assert(t.drop_last() =~= views(parts@.take(i as int)));
            assert(t.last() == parts@[i as int]@);
            if i == 0 {
                assert(t =~= seq![parts@[0]@]);
            }
        }
        i = i + 1;
    }
    assert(parts@.take(parts.len() as int) =~= parts@);
    r
}

/// A string holding the concatenation of two slices.
pub fn concat2(a: &str, b: &str) -> (r: String)
    ensures
        r@ == a@ + b@,
{
    let mut r = String::new();
    push_str(&mut r, a);
    push_str(&mut r, b);
    assert(Seq::<char>::empty() + a@ + b@ =~= a@ + b@);
    r
}

/// A string holding the concatenation of three slices.
pub fn concat3(a: &str, b: &str, c: &str) -> (r: String)
    ensures
        r@ == a@ + b@ + c@,
{
    let mut r = concat2(a, b);
    push_str(&mut r, c);
    r
}

/// Decimal notation of an unsigned integer.
pub fn fmt_usize(n: usize) -> (r: String)
    ensures
        r@ == decimal(n as nat),
{
    fmt_u64(n as u64)
}

/// Decimal notation of a 64-bit unsigned integer.
pub fn fmt_u64(n: u64) -> (r: String)
    ensures
        r@ == decimal(n as nat),
{
    let mut digits: Vec<char> = Vec::new();
    let mut m: u64 = n;
    // digits are collected from the least significant one
    loop
        invariant_except_break
            decimal(n as nat) == decimal_with(m as nat, digits@),
        ensures
            decimal(n as nat) == digits@,
        decreases m,
    {
        let c = digit(m % 10);
        proof {
            lemma_decimal_with_step(m as nat, digits@);
        }
        digits.insert(0, c);
        if m < 10 {
            break;
        }
        m = m / 10;
    }
    string_of(&digits)
}

/// `decimal(m)` followed by the already printed lower digits.
pub open spec fn decimal_with(m: nat, lower: Seq<char>) -> Seq<char> {
    decimal(m) + lower
}

proof fn lemma_decimal_with_step(m: nat, lower: Seq<char>)
    ensures
        m >= 10 ==> decimal_with(m, lower) == decimal_with(m / 10, seq![digit_char(m % 10)] + lower),
        m < 10 ==> decimal_with(m, lower) == seq![digit_char(m % 10)] + lower,
{
    if m >= 10 {
        assert(decimal(m) == decimal(m / 10).push(digit_char(m % 10)));
        assert(decimal(m / 10).push(digit_char(m % 10)) + lower =~= decimal(m / 10) + (seq![
            digit_char(m % 10),
        ] + lower));
    } else {
        assert(m % 10 == m);
    }
}

/// The ASCII digit for a value below ten.
fn digit(d: u64) -> (c: char)
    requires
        d < 10,
    ensures
        c == digit_char(d as nat),
{
    if d == 0 { '0' }
    else if d == 1 { '1' }
    else if d == 2 { '2' }
    else if d == 3 { '3' }
    else if d == 4 { '4' }
    else if d == 5 { '5' }
    else if d == 6 { '6' }
    else if d == 7 { '7' }
    else if d == 8 { '8' }
    else { '9' }
}

// ---------------------------------------------------------------------
// Laws of `contains`
// ---------------------------------------------------------------------

/// A search from `i` finds an occurrence at or after `i`.
proof fn lemma_find_from_some(h: Seq<char>, n: Seq<char>, i: nat, j: int)
    requires
        occurs_at(h, n, j),
        i <= j,
    ensures
        find_from(h, n, i) is Some,
    decreases h.len() + 1 - i,
{
    if i + n.len() <= h.len() && !occurs_at(h, n, i as int) {
        lemma_find_from_some(h, n, i + 1, j);
    }
}

/// What a search from `i` finds is an occurrence.
proof fn lemma_find_from_occurs(h: Seq<char>, n: Seq<char>, i: nat)
    ensures
        find_from(h, n, i) matches Some(k) ==> occurs_at(h, n, k as int),
    decreases h.len() + 1 - i,
{
    if i + n.len() <= h.len() && !occurs_at(h, n, i as int) {
        lemma_find_from_occurs(h, n, i + 1);
    }
}

/// Text that contains `n` still contains it with more text around it.
pub proof fn lemma_contains_within(a: Seq<char>, x: Seq<char>, b: Seq<char>, n: Seq<char>)
    requires
        contains(x, n),
    ensures
        contains(a + x + b, n),
{
    lemma_find_from_occurs(x, n, 0);
    let k = find(x, n)->0 as int;
    let h = a + x + b;
    assert(h.subrange(a.len() + k, a.len() + k + n.len()) =~= x.subrange(k, k + n.len()));
    lemma_find_from_some(h, n, 0, a.len() + k);
}

/// A joined text contains what any of its pieces contains.
pub proof fn lemma_contains_join(parts: Seq<Seq<char>>, sep: Seq<char>, j: int, n: Seq<char>)
    requires
        0 <= j < parts.len(),
        contains(parts[j], n),
    ensures
        contains(join(parts, sep), n),
    decreases parts.len(),
{
    if parts.len() == 1 {
    } else if j == parts.len() - 1 {
        let pre = join(parts.drop_last(), sep) + sep;
        lemma_contains_within(pre, parts.last(), Seq::empty(), n);
        assert(pre + parts.last() + Seq::<char>::empty() =~= join(parts, sep));
    } else {
        assert(parts.drop_last()[j] == parts[j]);
        lemma_contains_join(parts.drop_last(), sep, j, n);
        lemma_contains_within(Seq::empty(), join(parts.drop_last(), sep), sep + parts.last(), n);
        assert(Seq::<char>::empty() + join(parts.drop_last(), sep) + (sep + parts.last()) =~= join(
            parts,
            sep,
        ));
    }
}

} // verus!
