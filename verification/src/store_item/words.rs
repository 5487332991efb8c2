//! Text helpers of the store item readers: splitting on white space, and
//! ordering texts as std orders `String`s.
use vstd::prelude::*;
use crate::parser::is_ws;
use crate::text::{to_chars, from_chars};

verus! {

// MARK: words

/// The words of `s` from index `i` on (std's `split_whitespace`): `cur` is
/// the word being read, `acc` the words read before it.
pub open spec fn words_run(s: Seq<char>, i: int, cur: Seq<char>, acc: Seq<Seq<char>>) -> Seq<Seq<char>>
    decreases s.len() - i,
{
    if i < 0 || i >= s.len() {
        if cur.len() > 0 { acc.push(cur) } else { acc }
    } else if is_ws(s[i]) {
        words_run(s, i + 1, Seq::empty(), if cur.len() > 0 { acc.push(cur) } else { acc })
    } else {
        words_run(s, i + 1, cur.push(s[i]), acc)
    }
}

/// The words of a text, split on Unicode white space.
pub open spec fn words(s: Seq<char>) -> Seq<Seq<char>> {
    words_run(s, 0, Seq::empty(), Seq::empty())
}

/// Is `c` white space (std's `char::is_whitespace`)?
pub fn is_whitespace(c: char) -> (r: bool)
    ensures
        r == is_ws(c),
{
    ('\u{9}' <= c && c <= '\u{d}') || c == ' ' || c == '\u{85}' || c == '\u{a0}' || c == '\u{1680}'
        || ('\u{2000}' <= c && c <= '\u{200a}') || c == '\u{2028}' || c == '\u{2029}' || c == '\u{202f}'
        || c == '\u{205f}' || c == '\u{3000}'
}

/// Split a text on white space.
pub fn split_words(s: &str) -> (r: Vec<String>)
    ensures
        r@.map_values(|w: String| w@) == words(s@),
{
    let c = to_chars(s);
    let mut out: Vec<String> = Vec::new();
    let mut cur: Vec<char> = Vec::new();
    let mut i: usize = 0;
    assert(out@.map_values(|w: String| w@) =~= Seq::<Seq<char>>::empty());
    while i < c.len()
        invariant
            i <= c@.len(),
            c@ == s@,
            words_run(c@, i as int, cur@, out@.map_values(|w: String| w@)) == words(s@),
        decreases c.len() - i,
    {
        let ghost before = out@;
        if is_whitespace(c[i]) {
            if cur.len() > 0 {
                let w = from_chars(cur.as_slice());
                out.push(w);
                assert(out@.map_values(|w: String| w@) =~= before.map_values(|w: String| w@).push(cur@));
            }
            cur = Vec::new();
            assert(cur@ =~= Seq::<char>::empty());
        } else {
            cur.push(c[i]);
        }
        i = i + 1;
    }
    if cur.len() > 0 {
        let ghost before = out@;
        let w = from_chars(cur.as_slice());
        out.push(w);
        assert(out@.map_values(|w: String| w@) =~= before.map_values(|w: String| w@).push(cur@));
    }
    out
}

// MARK: order

/// `a` comes before `b` as std orders strings: by code point, a proper
/// prefix first.
pub open spec fn chars_before(a: Seq<char>, b: Seq<char>) -> bool
    decreases a.len(),
{
    if a.len() == 0 {
        b.len() > 0
    } else if b.len() == 0 {
        false
    } else if (a[0] as u32) < (b[0] as u32) {
        true
    } else if a[0] == b[0] {
        chars_before(a.drop_first(), b.drop_first())
    } else {
        false
    }
}

/// Does `a` come before `b`?
pub fn before(a: &[char], b: &[char]) -> (r: bool)
    ensures
        r == chars_before(a@, b@),
{
    let mut i: usize = 0;
    assert(a@.skip(0) =~= a@ && b@.skip(0) =~= b@);
    while i < a.len() && i < b.len()
        invariant
            i <= a@.len(),
            i <= b@.len(),
            chars_before(a@.skip(i as int), b@.skip(i as int)) == chars_before(a@, b@),
        decreases a.len() - i,
    {
        let ghost sa = a@.skip(i as int);
        let ghost sb = b@.skip(i as int);
        assert(sa[0] == a@[i as int] && sb[0] == b@[i as int]);
        if (a[i] as u32) < (b[i] as u32) {
            return true;
        }
        if a[i] != b[i] {
            return false;
        }
        assert(sa.drop_first() =~= a@.skip(i + 1));
        assert(sb.drop_first() =~= b@.skip(i + 1));
        i = i + 1;
    }
    assert(a@.skip(i as int).len() == a@.len() - i);
    assert(b@.skip(i as int).len() == b@.len() - i);
    i == a.len() && i < b.len()
}

/// No text comes before itself.
pub proof fn lemma_before_irreflexive(a: Seq<char>)
    ensures
        !chars_before(a, a),
    decreases a.len(),
{
    if a.len() > 0 {
        lemma_before_irreflexive(a.drop_first());
    }
}

/// The order of texts is transitive.
pub proof fn lemma_before_transitive(a: Seq<char>, b: Seq<char>, c: Seq<char>)
    requires
        chars_before(a, b),
        chars_before(b, c),
    ensures
        chars_before(a, c),
    decreases a.len(),
{
    if a.len() > 0 && b.len() > 0 && c.len() > 0 && a[0] == b[0] && b[0] == c[0] {
        lemma_before_transitive(a.drop_first(), b.drop_first(), c.drop_first());
    }
}

/// Of two different texts, one comes before the other.
pub proof fn lemma_before_total(a: Seq<char>, b: Seq<char>)
    requires
        a != b,
    ensures
        chars_before(a, b) || chars_before(b, a),
    decreases a.len(),
{
    if a.len() == 0 && b.len() == 0 {
        assert(a =~= b);
    } else if a.len() > 0 && b.len() > 0 && a[0] == b[0] {
        if a.drop_first() == b.drop_first() {
            assert(a =~= seq![a[0]] + a.drop_first());
            assert(b =~= seq![b[0]] + b.drop_first());
        } else {
            lemma_before_total(a.drop_first(), b.drop_first());
        }
    } else if a.len() > 0 && b.len() > 0 {
        vstd::utf8::char_u32_cast(a[0], a[0] as u32);
        vstd::utf8::char_u32_cast(b[0], b[0] as u32);
    }
}

/// No text comes both before and after another.
pub proof fn lemma_before_asymmetric(a: Seq<char>, b: Seq<char>)
    requires
        chars_before(a, b),
    ensures
        !chars_before(b, a),
{
    if chars_before(b, a) {
        lemma_before_transitive(a, b, a);
        lemma_before_irreflexive(a);
    }
}

/// Where `k` goes in `s`: before the first entry whose key comes after it.
pub open spec fn insert_at<V>(s: Seq<(Seq<char>, V)>, k: Seq<char>) -> int
    decreases s.len(),
{
    if s.len() == 0 {
        0
    } else if chars_before(k, s[0].0) {
        0
    } else {
        1 + insert_at(s.drop_first(), k)
    }
}

/// Entries sorted by key, by insertion (equal keys keep their order).
pub open spec fn sort_by_key<V>(s: Seq<(Seq<char>, V)>) -> Seq<(Seq<char>, V)>
    decreases s.len(),
{
    if s.len() == 0 {
        s
    } else {
        let r = sort_by_key(s.drop_last());
        let p = insert_at(r, s.last().0);
        r.insert(p, s.last())
    }
}

pub proof fn lemma_insert_at<V>(s: Seq<(Seq<char>, V)>, k: Seq<char>)
    ensures
        0 <= insert_at(s, k) <= s.len(),
        forall|j: int| 0 <= j < insert_at(s, k) ==> !chars_before(k, #[trigger] s[j].0),
        insert_at(s, k) < s.len() ==> chars_before(k, s[insert_at(s, k)].0),
    decreases s.len(),
{
    if s.len() > 0 && !chars_before(k, s[0].0) {
        lemma_insert_at(s.drop_first(), k);
        assert forall|j: int| 0 <= j < insert_at(s, k) implies !chars_before(k, #[trigger] s[j].0) by {
            if j > 0 { assert(s[j] == s.drop_first()[j - 1]); }
        }
    }
}

pub proof fn lemma_sort_len<V>(s: Seq<(Seq<char>, V)>)
    ensures
        sort_by_key(s).len() == s.len(),
    decreases s.len(),
{
    if s.len() > 0 {
        lemma_sort_len(s.drop_last());
        lemma_insert_at(sort_by_key(s.drop_last()), s.last().0);
    }
}

/// Entries in the order of their keys.
pub open spec fn keys_sorted<V>(s: Seq<(Seq<char>, V)>) -> bool {
    forall|i: int, j: int| 0 <= i < j < s.len() ==> !chars_before(#[trigger] s[j].0, #[trigger] s[i].0)
}

/// Sorting entries by key puts them in the order of their keys and keeps
/// every entry, as often as it came.
pub proof fn law_sort_by_key<V>(s: Seq<(Seq<char>, V)>)
    ensures
        keys_sorted(sort_by_key(s)),
        sort_by_key(s).to_multiset() =~= s.to_multiset(),
    decreases s.len(),
{
    broadcast use vstd::seq_lib::group_to_multiset_ensures;
    if s.len() > 0 {
        let r = sort_by_key(s.drop_last());
        let x = s.last();
        law_sort_by_key(s.drop_last());
        lemma_insert_at(r, x.0);
        let p = insert_at(r, x.0);
        let t = r.insert(p, x);
        assert(t == sort_by_key(s));
        assert forall|i: int, j: int| 0 <= i < j < t.len() implies !chars_before(#[trigger] t[j].0, #[trigger] t[i].0) by {
            if j < p {
                assert(t[i] == r[i] && t[j] == r[j]);
            } else if j == p {
                assert(t[i] == r[i] && t[j] == x);
            } else if i < p {
                assert(t[i] == r[i] && t[j] == r[j - 1]);
            } else if i == p {
                assert(t[i] == x && t[j] == r[j - 1]);
                if j - 1 > p {
                    assert(!chars_before(r[j - 1].0, r[p].0));
                    if chars_before(r[j - 1].0, x.0) {
                        lemma_before_transitive(r[j - 1].0, x.0, r[p].0);
                    }
                } else {
                    lemma_before_asymmetric(x.0, r[p].0);
                }
            } else {
                assert(t[i] == r[i - 1] && t[j] == r[j - 1]);
            }
        }
        assert(t.remove(p) =~= r);
        assert(t[p] == x);
        assert(t.to_multiset().count(x) > 0) by { assert(t.contains(x)); }
        assert(s.drop_last().push(x) =~= s);
        assert(t.to_multiset() =~= r.to_multiset().insert(x));
    }
}

/// Texts in order, each after the one before it.
pub open spec fn strictly_sorted(s: Seq<Seq<char>>) -> bool {
    forall|i: int, j: int| 0 <= i < j < s.len() ==> chars_before(#[trigger] s[i], #[trigger] s[j])
}

/// Texts in order, equal ones side by side.
pub open spec fn texts_sorted(s: Seq<Seq<char>>) -> bool {
    forall|i: int, j: int| 0 <= i < j < s.len() ==> !chars_before(#[trigger] s[j], #[trigger] s[i])
}

/// Cutting runs of equal texts out of sorted texts leaves them strictly in
/// order, with the same texts and the same last one.
proof fn lemma_dedup_sorted(s: Seq<Seq<char>>)
    requires
        texts_sorted(s),
    ensures
        strictly_sorted(dedup(s)),
        forall|x: Seq<char>| dedup(s).contains(x) <==> s.contains(x),
        s.len() > 0 ==> dedup(s).len() > 0 && dedup(s).last() == s.last(),
    decreases s.len(),
{
    if s.len() > 0 {
        let s0 = s.drop_last();
        let x = s.last();
        lemma_dedup_sorted(s0);
        let d = dedup(s0);
        assert forall|y: Seq<char>| s.contains(y) <==> (s0.contains(y) || y == x) by {
            if s.contains(y) {
                let m = choose|m: int| 0 <= m < s.len() && s[m] == y;
                if m < s.len() - 1 { assert(s0[m] == y); }
            }
            if s0.contains(y) {
                let m = choose|m: int| 0 <= m < s0.len() && s0[m] == y;
                assert(s[m] == y);
            }
            if y == x { assert(s[s.len() - 1] == y); }
        }
        if s.len() > 1 && s[s.len() - 2] == x {
            assert(s0.contains(x)) by { assert(s0[s0.len() - 1] == x); }
        } else {
            let e = d.push(x);
            assert(dedup(s) == e);
            assert forall|y: Seq<char>| e.contains(y) <==> (d.contains(y) || y == x) by {
                if e.contains(y) {
                    let m = choose|m: int| 0 <= m < e.len() && e[m] == y;
                    if m < d.len() { assert(d[m] == y); }
                }
                if d.contains(y) {
                    let m = choose|m: int| 0 <= m < d.len() && d[m] == y;
                    assert(e[m] == y);
                }
                if y == x { assert(e[e.len() - 1] == y); }
            }
            assert forall|i: int| 0 <= i < d.len() implies chars_before(#[trigger] d[i], x) by {
                assert(d.contains(d[i]));
                assert(s0.contains(d[i]));
                let m = choose|m: int| 0 <= m < s0.len() && s0[m] == d[i];
                assert(s[m] == d[i]);
                let n = s.len() - 1;
                assert(!chars_before(s[n], s[m]));
                lemma_before_total(s[n - 1], x);
                if m < n - 1 {
                    assert(!chars_before(s[n - 1], s[m]));
                }
                if d[i] == x {
                    if m < n - 1 {
                        assert(!chars_before(s[n - 1], x));
                    }
                } else {
                    lemma_before_total(d[i], x);
                }
            }
            assert forall|i: int, j: int| 0 <= i < j < e.len() implies chars_before(#[trigger] e[i], #[trigger] e[j]) by {
                if j < d.len() {
                    assert(e[i] == d[i] && e[j] == d[j]);
                } else {
                    assert(e[i] == d[i] && e[j] == x);
                }
            }
        }
    }
}

/// Texts sorted and each kept once come strictly in order, and hold just
/// the texts given.
pub proof fn law_sorted_unique(s: Seq<Seq<char>>)
    ensures
        strictly_sorted(sorted_unique(s)),
        forall|x: Seq<char>| sorted_unique(s).contains(x) <==> s.contains(x),
{
    broadcast use vstd::seq_lib::group_to_multiset_ensures;
    let k = as_keys(s);
    let t = sort_by_key(k);
    law_sort_by_key(k);
    let ks = keys_of(t);
    assert forall|i: int, j: int| 0 <= i < j < ks.len() implies !chars_before(#[trigger] ks[j], #[trigger] ks[i]) by {
        assert(ks[j] == t[j].0 && ks[i] == t[i].0);
    }
    lemma_dedup_sorted(ks);
    assert forall|x: Seq<char>| ks.contains(x) <==> s.contains(x) by {
        if ks.contains(x) {
            let m = choose|m: int| 0 <= m < ks.len() && ks[m] == x;
            assert(t[m] == (x, ()));
            assert(t.contains((x, ())));
            assert(t.to_multiset().count((x, ())) > 0);
            assert(k.to_multiset().count((x, ())) > 0);
            assert(k.contains((x, ())));
            let n = choose|n: int| 0 <= n < k.len() && k[n] == (x, ());
            assert(s[n] == x);
        }
        if s.contains(x) {
            let n = choose|n: int| 0 <= n < s.len() && s[n] == x;
            assert(k[n] == (x, ()));
            assert(k.contains((x, ())));
            assert(k.to_multiset().count((x, ())) > 0);
            assert(t.to_multiset().count((x, ())) > 0);
            assert(t.contains((x, ())));
            let m = choose|m: int| 0 <= m < t.len() && t[m] == (x, ());
            assert(ks[m] == x);
        }
    }
}

/// Entries with their keys as plain text.
pub open spec fn keyed<V: View>(s: Seq<(String, V)>) -> Seq<(Seq<char>, V::V)> {
    s.map_values(|e: (String, V)| (e.0@, e.1@))
}

/// Find where `k` goes among the sorted entries.
fn insert_index<V: View>(r: &Vec<(String, V)>, k: &[char]) -> (p: usize)
    ensures
        p as int == insert_at(keyed(r@), k@),
{
    let ghost rs = keyed(r@);
    proof { lemma_insert_at(rs, k@); }
    let mut p: usize = 0;
    while p < r.len()
        invariant
            p <= r@.len(),
            rs == keyed(r@),
            forall|j: int| 0 <= j < p ==> !chars_before(k@, #[trigger] rs[j].0),
            0 <= insert_at(rs, k@) <= rs.len(),
            forall|j: int| 0 <= j < insert_at(rs, k@) ==> !chars_before(k@, #[trigger] rs[j].0),
            insert_at(rs, k@) < rs.len() ==> chars_before(k@, rs[insert_at(rs, k@)].0),
        decreases r.len() - p,
    {
        let key = to_chars(r[p].0.as_str());
        assert(rs[p as int].0 == key@);
        if before(k, key.as_slice()) {
            return p;
        }
        p = p + 1;
    }
    p
}

/// Sort entries by key, keeping the order of equal keys.
pub fn sort_entries<V: View>(s: Vec<(String, V)>) -> (r: Vec<(String, V)>)
    ensures
        keyed(r@) == sort_by_key(keyed(s@)),
{
    let ghost sv = keyed(s@);
    let n_exec = s.len();
    let ghost n = s@.len();
    let mut rest = s;
    let mut r: Vec<(String, V)> = Vec::new();
    let mut taken: usize = 0;
    assert(sv.subrange(0, 0) =~= Seq::<(Seq<char>, V::V)>::empty());
    assert(keyed(r@) =~= sort_by_key(sv.subrange(0, 0)));
    assert(keyed(rest@) =~= sv.subrange(0, n as int));
    while rest.len() > 0
        invariant
            taken <= n,
            n == n_exec,
            sv.len() == n,
            rest@.len() == n - taken,
            keyed(rest@) == sv.subrange(taken as int, n as int),
            keyed(r@) == sort_by_key(sv.subrange(0, taken as int)),
        decreases rest.len(),
    {
        let ghost rest0 = rest@;
        let x = rest.remove(0);
        assert(rest0[0] == x);
        assert(rest@ =~= rest0.subrange(1, rest0.len() as int));
        assert(keyed(rest0) == sv.subrange(taken as int, n as int));
        assert(sv.subrange(taken as int, n as int)[0] == (x.0@, x.1@));
        let k = to_chars(x.0.as_str());
        let p = insert_index(&r, k.as_slice());
        let ghost r0 = r@;
        let ghost rv0 = keyed(r0);
        proof { lemma_insert_at(rv0, k@); }
        r.insert(p, x);
        assert(sv.subrange(0, taken + 1).drop_last() =~= sv.subrange(0, taken as int));
        assert(sv.subrange(0, taken + 1).last() == (x.0@, x.1@));
        assert(keyed(r@) =~= rv0.insert(p as int, (x.0@, x.1@)));
        taken = taken + 1;
        assert forall|j: int| 0 <= j < rest@.len() implies
            #[trigger] keyed(rest@)[j] == sv.subrange(taken as int, n as int)[j] by {
            assert(rest@[j] == rest0[j + 1]);
            assert(keyed(rest0)[j + 1] == sv.subrange(taken - 1, n as int)[j + 1]);
        }
        assert(keyed(rest@) =~= sv.subrange(taken as int, n as int));
    }
    assert(sv.subrange(0, n as int) =~= sv);
    r
}

// MARK: sorted texts

/// A value that carries nothing, to sort texts as keys.
pub struct Nothing;

impl View for Nothing {
    type V = ();

    open spec fn view(&self) -> () {
        ()
    }
}

/// Texts as plain values.
pub open spec fn texts(v: Seq<String>) -> Seq<Seq<char>> {
    v.map_values(|w: String| w@)
}

/// Texts as keys with nothing attached.
pub open spec fn as_keys(s: Seq<Seq<char>>) -> Seq<(Seq<char>, ())> {
    s.map_values(|x: Seq<char>| (x, ()))
}

/// The keys of entries.
pub open spec fn keys_of<V>(s: Seq<(Seq<char>, V)>) -> Seq<Seq<char>> {
    s.map_values(|e: (Seq<char>, V)| e.0)
}

/// Texts with runs of equal neighbours cut to one (std's `Vec::dedup`).
pub open spec fn dedup(s: Seq<Seq<char>>) -> Seq<Seq<char>>
    decreases s.len(),
{
    if s.len() == 0 {
        s
    } else {
        let d = dedup(s.drop_last());
        if s.len() > 1 && s[s.len() - 2] == s.last() { d } else { d.push(s.last()) }
    }
}

/// Texts sorted, each once (std's `sort` then `dedup`).
pub open spec fn sorted_unique(s: Seq<Seq<char>>) -> Seq<Seq<char>> {
    dedup(keys_of(sort_by_key(as_keys(s))))
}

/// Sort texts and keep each once.
pub fn sort_dedup(v: Vec<String>) -> (r: Vec<String>)
    ensures
        texts(r@) == sorted_unique(texts(v@)),
{
    let ghost vs = texts(v@);
    let mut pairs: Vec<(String, Nothing)> = Vec::new();
    let mut rest = v;
    let n_exec = rest.len();
    let ghost n = rest@.len();
    let mut taken: usize = 0;
    assert(texts(rest@) =~= vs.subrange(0, n as int));
    assert(keyed(pairs@) =~= as_keys(vs.subrange(0, 0)));
    while rest.len() > 0
        invariant
            taken <= n,
            n == n_exec,
            vs.len() == n,
            rest@.len() == n - taken,
            texts(rest@) == vs.subrange(taken as int, n as int),
            keyed(pairs@) == as_keys(vs.subrange(0, taken as int)),
        decreases rest.len(),
    {
        let ghost rest0 = rest@;
        let ghost p0 = pairs@;
        let x = rest.remove(0);
        assert(texts(rest0)[0] == vs[taken as int]);
        pairs.push((x, Nothing));
        assert(x@ == vs[taken as int]);
        assert(keyed(pairs@) =~= keyed(p0).push((vs[taken as int], ())));
        assert(vs.subrange(0, taken + 1) =~= vs.subrange(0, taken as int).push(vs[taken as int]));
        assert(as_keys(vs.subrange(0, taken + 1)) =~= as_keys(vs.subrange(0, taken as int)).push((vs[taken as int], ())));
        assert(keyed(pairs@) =~= as_keys(vs.subrange(0, taken + 1)));
        assert forall|j: int| 0 <= j < rest@.len() implies #[trigger] texts(rest@)[j] == vs.subrange(taken + 1, n as int)[j] by {
            assert(rest@[j] == rest0[j + 1]);
            assert(texts(rest0)[j + 1] == vs.subrange(taken as int, n as int)[j + 1]);
        }
        assert(texts(rest@) =~= vs.subrange(taken + 1, n as int));
        taken = taken + 1;
    }
    assert(vs.subrange(0, n as int) =~= vs);
    let sorted = sort_entries(pairs);
    let ghost ks = keys_of(keyed(sorted@));
    let mut out: Vec<String> = Vec::new();
    let mut i: usize = 0;
    assert(ks.subrange(0, 0) =~= Seq::<Seq<char>>::empty());
    assert(texts(out@) =~= dedup(ks.subrange(0, 0)));
    while i < sorted.len()
        invariant
            i <= sorted@.len(),
            ks == keys_of(keyed(sorted@)),
            ks.len() == sorted@.len(),
            texts(out@) == dedup(ks.subrange(0, i as int)),
        decreases sorted.len() - i,
    {
        let ghost o0 = out@;
        assert(ks[i as int] == sorted@[i as int].0@);
        assert(ks.subrange(0, i + 1).drop_last() =~= ks.subrange(0, i as int));
        let same = i > 0 && str_eq_strings(&sorted[i - 1].0, &sorted[i].0);
        if !same {
            out.push(sorted[i].0.clone());
            assert(texts(out@) =~= texts(o0).push(ks[i as int]));
        }
        proof {
            if i > 0 {
                assert(ks.subrange(0, i + 1)[i - 1] == ks[i - 1]);
                assert(ks[i - 1] == sorted@[i - 1].0@);
            }
        }
        i = i + 1;
    }
    assert(ks.subrange(0, ks.len() as int) =~= ks);
    proof { lemma_sort_len(as_keys(vs)); }
    out
}

/// Are two texts equal?
fn str_eq_strings(a: &String, b: &String) -> (r: bool)
    ensures
        r == (a@ == b@),
{
    crate::text::str_eq(a.as_str(), b.as_str())
}

} // verus!
