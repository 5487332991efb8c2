//! Character-level text helpers with their specifications.
use vstd::prelude::*;

verus! {

/// The characters of a string slice, in order.
#[verifier::external_body]
pub fn to_chars(s: &str) -> (v: Vec<char>)
    ensures
        v@ == s@,
{
    s.chars().collect()
}

/// A string made of the given characters, in order.
#[verifier::external_body]
pub fn from_chars(v: &[char]) -> (s: String)
    ensures
        s@ == v@,
{
    v.iter().collect()
}

/// Are two character sequences equal?
pub fn chars_eq(a: &[char], b: &[char]) -> (r: bool)
    ensures
        r == (a@ == b@),
{
    if a.len() != b.len() {
        return false;
    }
    let mut i: usize = 0;
    while i < a.len()
        invariant
            a.len() == b.len(),
            i <= a.len(),
            forall|j: int| 0 <= j < i ==> a@[j] == b@[j],
        decreases a.len() - i,
    {
        if a[i] != b[i] {
            return false;
        }
        i = i + 1;
    }
    assert(a@ =~= b@);
    true
}

/// Is `s` equal to `t`?
pub fn str_eq(s: &str, t: &str) -> (r: bool)
    ensures
        r == (s@ == t@),
{
    let a = to_chars(s);
    let b = to_chars(t);
    chars_eq(a.as_slice(), b.as_slice())
}

} // verus!

verus! {

/// ASCII lower-casing of one character; other characters are unchanged.
pub open spec fn lower_char(c: char) -> char {
    if 'A' <= c && c <= 'Z' {
        ((c as u32) + 32) as char
    } else {
        c
    }
}

/// ASCII lower-casing of a character sequence.
pub open spec fn lower_seq(s: Seq<char>) -> Seq<char> {
    Seq::new(s.len(), |i: int| lower_char(s[i]))
}

/// `p` is a prefix of `s`.
pub open spec fn is_prefix(p: Seq<char>, s: Seq<char>) -> bool {
    p.len() <= s.len() && s.subrange(0, p.len() as int) == p
}

/// `p` is a suffix of `s`.
pub open spec fn is_suffix(p: Seq<char>, s: Seq<char>) -> bool {
    p.len() <= s.len() && s.subrange(s.len() - p.len(), s.len() as int) == p
}

/// `p` occurs in `s` starting at index `i`.
pub open spec fn occurs_at(s: Seq<char>, p: Seq<char>, i: int) -> bool {
    0 <= i && i + p.len() <= s.len() && s.subrange(i, i + p.len()) == p
}

/// `p` occurs somewhere in `s`.
pub open spec fn contains_seq(s: Seq<char>, p: Seq<char>) -> bool {
    exists|i: int| occurs_at(s, p, i)
}

/// Replace every occurrence of one character by another.
pub open spec fn replace_char(s: Seq<char>, from: char, to: char) -> Seq<char> {
    Seq::new(s.len(), |i: int| if s[i] == from { to } else { s[i] })
}

/// Is `c` an ASCII decimal digit?
pub open spec fn is_digit(c: char) -> bool {
    '0' <= c && c <= '9'
}

/// Are all characters ASCII decimal digits?
pub open spec fn all_digits(s: Seq<char>) -> bool {
    forall|i: int| 0 <= i < s.len() ==> is_digit(#[trigger] s[i])
}

/// The numeric value of a digit string.
pub open spec fn digits_value(s: Seq<char>) -> nat
    decreases s.len(),
{
    if s.len() == 0 {
        0
    } else {
        digits_value(s.drop_last()) * 10 + ((s.last() as u32) - ('0' as u32)) as nat
    }
}

/// The unsigned decimal text that std's `str::parse` accepts for an unsigned
/// integer: an optional `+`, then at least one digit. Gives the value.
pub open spec fn unsigned_text_value(s: Seq<char>) -> Option<nat> {
    let body = if s.len() > 0 && s[0] == '+' { s.drop_first() } else { s };
    if body.len() > 0 && all_digits(body) {
        Some(digits_value(body))
    } else {
        None
    }
}

/// The signed decimal text that std's `str::parse` accepts for a signed
/// integer: an optional `+` or `-`, then at least one digit. Gives the value.
pub open spec fn signed_text_value(s: Seq<char>) -> Option<int> {
    if s.len() > 0 && s[0] == '-' {
        let body = s.drop_first();
        if body.len() > 0 && all_digits(body) {
            Some(-(digits_value(body) as int))
        } else {
            None
        }
    } else {
        match unsigned_text_value(s) {
            Some(v) => Some(v as int),
            None => None,
        }
    }
}

/// Does `s` contain `c`?
pub fn contains_char(s: &[char], c: char) -> (r: bool)
    ensures
        r == s@.contains(c),
{
    let mut i: usize = 0;
    while i < s.len()
        invariant
            i <= s.len(),
            forall|j: int| 0 <= j < i ==> s@[j] != c,
        decreases s.len() - i,
    {
        if s[i] == c {
            assert(s@[i as int] == c);
            return true;
        }
        i = i + 1;
    }
    false
}

/// Does `p` occur in `s` at index `i`?
pub fn occurs_at_exec(s: &[char], p: &[char], i: usize) -> (r: bool)
    ensures
        r == occurs_at(s@, p@, i as int),
{
    if i > s.len() || p.len() > s.len() - i {
        return false;
    }
    let mut k: usize = 0;
    while k < p.len()
        invariant
            i + p.len() <= s.len(),
            k <= p.len(),
            forall|j: int| 0 <= j < k ==> s@[i + j] == p@[j],
        decreases p.len() - k,
    {
        if s[i + k] != p[k] {
            assert(s@.subrange(i as int, i + p.len())[k as int] != p@[k as int]);
            return false;
        }
        k = k + 1;
    }
    assert(s@.subrange(i as int, i + p.len()) =~= p@);
    true
}

/// Is `p` a prefix of `s`?
pub fn starts_with(s: &[char], p: &[char]) -> (r: bool)
    ensures
        r == is_prefix(p@, s@),
{
    occurs_at_exec(s, p, 0)
}

/// Is `p` a suffix of `s`?
pub fn ends_with(s: &[char], p: &[char]) -> (r: bool)
    ensures
        r == is_suffix(p@, s@),
{
    if p.len() > s.len() {
        return false;
    }
    occurs_at_exec(s, p, s.len() - p.len())
}

/// Does `p` occur anywhere in `s`?
pub fn contains_chars(s: &[char], p: &[char]) -> (r: bool)
    ensures
        r == contains_seq(s@, p@),
{
    if p.len() > s.len() {
        assert forall|i: int| !occurs_at(s@, p@, i) by {}
        return false;
    }
    let last: usize = s.len() - p.len();
    let mut i: usize = 0;
    loop
        invariant
            p.len() <= s.len(),
            last == s.len() - p.len(),
            i <= last,
            forall|j: int| 0 <= j < i ==> !occurs_at(s@, p@, j),
        ensures
            i == last,
            forall|j: int| 0 <= j <= i ==> !occurs_at(s@, p@, j),
        decreases last - i,
    {
        if occurs_at_exec(s, p, i) {
            return true;
        }
        assert(!occurs_at(s@, p@, i as int));
        if i == last {
            break;
        }
        i = i + 1;
    }
    assert forall|j: int| !occurs_at(s@, p@, j) by {
        if 0 <= j && j + p@.len() <= s@.len() {
            assert(j <= i);
        }
    }
    false
}

/// Does the text `s` contain the text `p`?
pub fn str_contains(s: &str, p: &str) -> (r: bool)
    ensures
        r == contains_seq(s@, p@),
{
    let a = to_chars(s);
    let b = to_chars(p);
    contains_chars(a.as_slice(), b.as_slice())
}

/// ASCII lower-casing.
pub fn to_lower(s: &[char]) -> (r: Vec<char>)
    ensures
        r@ == lower_seq(s@),
{
    let mut r: Vec<char> = Vec::new();
    let mut i: usize = 0;
    while i < s.len()
        invariant
            i <= s.len(),
            r@.len() == i,
            forall|j: int| 0 <= j < i ==> r@[j] == lower_char(s@[j]),
        decreases s.len() - i,
    {
        let c = s[i];
        if 'A' <= c && c <= 'Z' {
            let l = ((c as u8) + 32) as char;
            assert(l == lower_char(c)) by {
                assert((c as u32) < 128);
            }
            r.push(l);
        } else {
            r.push(c);
        }
        i = i + 1;
    }
    assert(r@ =~= lower_seq(s@));
    r
}

/// Case-insensitive (ASCII) equality of two strings.
pub fn eq_ignore_ascii_case(a: &[char], b: &[char]) -> (r: bool)
    ensures
        r == (lower_seq(a@) == lower_seq(b@)),
{
    let la = to_lower(a);
    let lb = to_lower(b);
    chars_eq(la.as_slice(), lb.as_slice())
}

/// Replace every occurrence of `from` by `to`.
pub fn replace_chars(s: &[char], from: char, to: char) -> (r: Vec<char>)
    ensures
        r@ == replace_char(s@, from, to),
{
    let mut r: Vec<char> = Vec::new();
    let mut i: usize = 0;
    while i < s.len()
        invariant
            i <= s.len(),
            r@.len() == i,
            forall|j: int| 0 <= j < i ==> r@[j] == (if s@[j] == from { to } else { s@[j] }),
        decreases s.len() - i,
    {
        if s[i] == from {
            r.push(to);
        } else {
            r.push(s[i]);
        }
        i = i + 1;
    }
    assert(r@ =~= replace_char(s@, from, to));
    r
}

/// The characters `s[from..to]`.
pub fn sub_chars(s: &[char], from: usize, to: usize) -> (r: Vec<char>)
    requires
        from <= to <= s.len(),
    ensures
        r@ == s@.subrange(from as int, to as int),
{
    let mut r: Vec<char> = Vec::new();
    let mut i: usize = from;
    while i < to
        invariant
            from <= i <= to <= s.len(),
            r@ == s@.subrange(from as int, i as int),
        decreases to - i,
    {
        r.push(s[i]);
        i = i + 1;
        assert(r@ =~= s@.subrange(from as int, i as int));
    }
    r
}

proof fn lemma_digits_value_push(s: Seq<char>, c: char)
    ensures
        digits_value(s.push(c)) == digits_value(s) * 10 + ((c as u32) - ('0' as u32)) as nat,
{
    assert(s.push(c).drop_last() =~= s);
}

/// Value of an all-digit character sequence, if it is at most `max`.
fn digits_up_to(s: &[char], from: usize, max: u64) -> (r: Option<u64>)
    requires
        from <= s.len(),
    ensures
        match r {
            Some(v) => all_digits(s@.subrange(from as int, s@.len() as int))
                && v == digits_value(s@.subrange(from as int, s@.len() as int))
                && v <= max,
            None => !all_digits(s@.subrange(from as int, s@.len() as int))
                || digits_value(s@.subrange(from as int, s@.len() as int)) > max,
        },
{
    let mut v: u64 = 0;
    let mut i: usize = from;
    assert(s@.subrange(from as int, from as int) =~= Seq::<char>::empty());
    while i < s.len()
        invariant
            from <= i <= s.len(),
            all_digits(s@.subrange(from as int, i as int)),
            v == digits_value(s@.subrange(from as int, i as int)),
            v <= max,
        decreases s.len() - i,
    {
        let c = s[i];
        let ghost pre = s@.subrange(from as int, i as int);
        assert(s@.subrange(from as int, i + 1) =~= pre.push(c));
        proof {
            lemma_digits_value_push(pre, c);
        }
        if !('0' <= c && c <= '9') {
            assert(!all_digits(s@.subrange(from as int, s@.len() as int))) by {
                assert(s@.subrange(from as int, s@.len() as int)[i - from] == c);
            }
            return None;
        }
        let d = ((c as u32) - ('0' as u32)) as u64;
        if (v as u128) * 10 + (d as u128) > max as u128 {
            proof {
                let rest = s@.subrange(from as int, s@.len() as int);
                assert(rest.subrange(0, (i + 1 - from) as int) =~= pre.push(c));
                if all_digits(rest) {
                    lemma_digits_value_prefix_bound(rest, (i + 1 - from) as int);
                }
            }
            return None;
        }
        v = v * 10 + d;
        i = i + 1;
    }
    Some(v)
}

proof fn lemma_digits_value_prefix_bound(s: Seq<char>, k: int)
    requires
        0 <= k <= s.len(),
        all_digits(s),
    ensures
        digits_value(s.subrange(0, k)) <= digits_value(s),
    decreases s.len(),
{
    if k < s.len() {
        lemma_digits_value_prefix_bound(s.drop_last(), k);
        assert(s.drop_last().subrange(0, k) =~= s.subrange(0, k));
    } else {
        assert(s.subrange(0, k) =~= s);
    }
}

/// std's `str::parse` for an unsigned integer no larger than `max`.
pub fn parse_unsigned(s: &[char], max: u64) -> (r: Option<u64>)
    ensures
        match r {
            Some(v) => unsigned_text_value(s@) == Some(v as nat) && v <= max,
            None => match unsigned_text_value(s@) {
                Some(v) => v > max,
                None => true,
            },
        },
{
    let from: usize = if s.len() > 0 && s[0] == '+' { 1 } else { 0 };
    let ghost body = if s@.len() > 0 && s@[0] == '+' { s@.drop_first() } else { s@ };
    assert(body =~= s@.subrange(from as int, s@.len() as int));
    if from == s.len() {
        return None;
    }
    digits_up_to(s, from, max)
}

/// std's `str::parse` for a signed integer in `[-max, max]`.
pub fn parse_signed(s: &[char], max: u64) -> (r: Option<i64>)
    requires
        max <= i64::MAX,
    ensures
        match r {
            Some(v) => signed_text_value(s@) == Some(v as int) && -(max as int) <= v <= max,
            None => match signed_text_value(s@) {
                Some(v) => v > max || v < -(max as int),
                None => true,
            },
        },
{
    if s.len() > 0 && s[0] == '-' {
        assert(s@.drop_first() =~= s@.subrange(1, s@.len() as int));
        if s.len() == 1 {
            return None;
        }
        match digits_up_to(s, 1, max) {
            Some(v) => Some(-(v as i64)),
            None => None,
        }
    } else {
        match parse_unsigned(s, max) {
            Some(v) => Some(v as i64),
            None => None,
        }
    }
}

} // verus!

verus! {

/// Index of the first `c` in `s`, or `s.len()`.
pub open spec fn first_index(s: Seq<char>, c: char) -> int
    decreases s.len(),
{
    if s.len() == 0 {
        0
    } else if s[0] == c {
        0
    } else {
        1 + first_index(s.drop_first(), c)
    }
}

proof fn lemma_first_index(s: Seq<char>, c: char)
    ensures
        0 <= first_index(s, c) <= s.len(),
        forall|j: int| 0 <= j < first_index(s, c) ==> s[j] != c,
        first_index(s, c) < s.len() ==> s[first_index(s, c)] == c,
    decreases s.len(),
{
    if s.len() > 0 && s[0] != c {
        lemma_first_index(s.drop_first(), c);
        assert forall|j: int| 0 <= j < first_index(s, c) implies s[j] != c by {
            if j > 0 {
                assert(s[j] == s.drop_first()[j - 1]);
            }
        }
    }
}

/// Find the first `c` in `s`; `s.len()` where there is none.
pub fn find_char(s: &[char], c: char) -> (r: usize)
    ensures
        r == first_index(s@, c),
{
    proof { lemma_first_index(s@, c); }
    let mut i: usize = 0;
    while i < s.len()
        invariant
            i <= s.len(),
            forall|j: int| 0 <= j < i ==> s@[j] != c,
            0 <= first_index(s@, c) <= s@.len(),
            forall|j: int| 0 <= j < first_index(s@, c) ==> s@[j] != c,
            first_index(s@, c) < s@.len() ==> s@[first_index(s@, c)] == c,
        decreases s.len() - i,
    {
        if s[i] == c {
            return i;
        }
        i = i + 1;
    }
    i
}

/// A decimal number as text (`-12.75`, `3`, `4.`), truncated toward zero:
/// the integer part, read as std reads a signed integer, with an all-digit
/// fraction after an optional `.`.
pub open spec fn decimal_trunc(s: Seq<char>) -> Option<int> {
    let k = first_index(s, '.');
    let frac = if k < s.len() { s.subrange(k + 1, s.len() as int) } else { Seq::<char>::empty() };
    if all_digits(frac) {
        signed_text_value(s.subrange(0, k))
    } else {
        None
    }
}

/// Read a decimal number, truncated toward zero, where it lies in
/// `[-max, max]`.
pub fn parse_decimal_trunc(s: &[char], max: u64) -> (r: Option<i64>)
    requires
        max <= i64::MAX,
    ensures
        match r {
            Some(v) => decimal_trunc(s@) == Some(v as int) && -(max as int) <= v <= max,
            None => match decimal_trunc(s@) {
                Some(v) => v > max || v < -(max as int),
                None => true,
            },
        },
{
    proof { lemma_first_index(s@, '.'); }
    let k = find_char(s, '.');
    let int_part = sub_chars(s, 0, k);
    let frac = if k < s.len() { sub_chars(s, k + 1, s.len()) } else { Vec::new() };
    assert(frac@ =~= (if (k as int) < s@.len() { s@.subrange(k + 1, s@.len() as int) } else { Seq::<char>::empty() }));
    let mut i: usize = 0;
    while i < frac.len()
        invariant
            i <= frac.len(),
            forall|j: int| 0 <= j < i ==> is_digit(#[trigger] frac@[j]),
            k as int == first_index(s@, '.'),
            0 <= first_index(s@, '.') <= s@.len(),
            frac@ == (if (k as int) < s@.len() { s@.subrange(k + 1, s@.len() as int) } else { Seq::<char>::empty() }),
            int_part@ == s@.subrange(0, k as int),
        decreases frac.len() - i,
    {
        if !('0' <= frac[i] && frac[i] <= '9') {
            assert(!all_digits(frac@)) by {
                assert(!is_digit(frac@[i as int]));
            }
            assert(decimal_trunc(s@) is None);
            return None;
        }
        i = i + 1;
    }
    assert(all_digits(frac@));
    parse_signed(int_part.as_slice(), max)
}

/// The value std's `str::parse` gives an unsigned integer text, or 0 where
/// it fails (quick_xml attribute numbers with `unwrap_or_default`).
pub open spec fn unsigned_or_zero(s: Seq<char>, max: nat) -> nat {
    match unsigned_text_value(s) {
        Some(v) => if v <= max { v } else { 0 },
        None => 0,
    }
}


/// Parse an unsigned integer no larger than `max`, 0 where that fails.
pub fn unsigned_or_zero_exec(s: &[char], max: u64) -> (r: u64)
    ensures
        r == unsigned_or_zero(s@, max as nat),
{
    match parse_unsigned(s, max) {
        Some(v) => v,
        None => 0,
    }
}

/// Decimal digits of a natural number.
pub open spec fn nat_chars(n: nat) -> Seq<char>
    decreases n,
{
    if n < 10 {
        seq![(('0' as u32) + n) as char]
    } else {
        nat_chars(n / 10).push((('0' as u32) + (n % 10)) as char)
    }
}

/// Write a natural number in decimal.
pub fn u64_chars(n: u64) -> (r: Vec<char>)
    ensures
        r@ == nat_chars(n as nat),
    decreases n,
{
    if n < 10 {
        let c = (('0' as u32) + (n as u32)) as u8 as char;
        assert(c == (('0' as u32) + n) as char);
        let mut v: Vec<char> = Vec::new();
        v.push(c);
        assert(v@ =~= seq![(('0' as u32) + n) as char]);
        v
    } else {
        let mut v = u64_chars(n / 10);
        let c = (('0' as u32) + ((n % 10) as u32)) as u8 as char;
        assert(c == (('0' as u32) + (n % 10)) as char);
        v.push(c);
        v
    }
}

} // verus!

verus! {

/// `first_index` lies within the sequence.
pub proof fn lemma_first_index_bound(s: Seq<char>, c: char)
    ensures
        0 <= first_index(s, c) <= s.len(),
{
    lemma_first_index(s, c);
}

} // verus!

verus! {

/// Every `\r\n` replaced by `\n`, left to right.
pub open spec fn crlf_to_lf(s: Seq<char>) -> Seq<char>
    decreases s.len(),
{
    if s.len() < 2 {
        s
    } else if s[0] == '\r' && s[1] == '\n' {
        seq!['\n'] + crlf_to_lf(s.subrange(2, s.len() as int))
    } else {
        seq![s[0]] + crlf_to_lf(s.drop_first())
    }
}

/// Replace every `\r\n` by `\n`.
pub fn replace_crlf(s: &str) -> (r: String)
    ensures
        r@ == crlf_to_lf(s@),
{
    let c = to_chars(s);
    let mut out: Vec<char> = Vec::new();
    let mut i: usize = 0;
    assert(c@.subrange(0, c@.len() as int) =~= c@);
    assert(out@ + crlf_to_lf(c@) =~= crlf_to_lf(c@));
    while i < c.len()
        invariant
            i <= c@.len(),
            out@ + crlf_to_lf(c@.subrange(i as int, c@.len() as int)) == crlf_to_lf(c@),
        decreases c.len() - i,
    {
        let ghost rest = c@.subrange(i as int, c@.len() as int);
        if i + 1 < c.len() && c[i] == '\r' && c[i + 1] == '\n' {
            assert(rest.subrange(2, rest.len() as int) =~= c@.subrange(i + 2, c@.len() as int));
            out.push('\n');
            i = i + 2;
            assert(out@ + crlf_to_lf(c@.subrange(i as int, c@.len() as int)) =~= crlf_to_lf(c@));
        } else {
            proof {
                if rest.len() >= 2 {
                    assert(rest.drop_first() =~= c@.subrange(i + 1, c@.len() as int));
                } else {
                    assert(rest.len() == 1);
                    assert(c@.subrange(i + 1, c@.len() as int) =~= Seq::<char>::empty());
                    assert(crlf_to_lf(rest) == rest);
                }
            }
            out.push(c[i]);
            i = i + 1;
            assert(out@ + crlf_to_lf(c@.subrange(i as int, c@.len() as int)) =~= crlf_to_lf(c@));
        }
    }
    assert(c@.subrange(c@.len() as int, c@.len() as int) =~= Seq::<char>::empty());
    assert(out@ =~= crlf_to_lf(c@));
    from_chars(out.as_slice())
}

} // verus!
