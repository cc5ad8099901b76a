//! Text helpers: the order in which names are listed.

use vstd::prelude::*;
use vstd::std_specs::iter::IteratorSpec;

verus! {

/// Lexicographic order on text by code point: `a` comes strictly before `b`.
pub open spec fn lex_less(a: Seq<char>, b: Seq<char>) -> bool
    decreases a.len(),
{
    if b.len() == 0 {
        false
    } else if a.len() == 0 {
        true
    } else if a[0] != b[0] {
        (a[0] as u32) < (b[0] as u32)
    } else {
        lex_less(a.drop_first(), b.drop_first())
    }
}

/// No text comes before itself.
pub proof fn lemma_lex_irreflexive(a: Seq<char>)
    ensures
        !lex_less(a, a),
    decreases a.len(),
{
    if a.len() > 0 {
        lemma_lex_irreflexive(a.drop_first());
    }
}

/// What comes before a text comes before all that the text comes before.
pub proof fn lemma_lex_transitive(a: Seq<char>, b: Seq<char>, c: Seq<char>)
    requires
        lex_less(a, b),
        lex_less(b, c),
    ensures
        lex_less(a, c),
    decreases a.len(),
{
    if a.len() > 0 && a[0] == b[0] && b[0] == c[0] {
        lemma_lex_transitive(a.drop_first(), b.drop_first(), c.drop_first());
    }
}

/// Of two different texts one comes before the other.
pub proof fn lemma_lex_total(a: Seq<char>, b: Seq<char>)
    ensures
        lex_less(a, b) || lex_less(b, a) || a == b,
    decreases a.len(),
{
    if a.len() > 0 && b.len() > 0 && a[0] == b[0] {
        lemma_lex_total(a.drop_first(), b.drop_first());
        if a.drop_first() == b.drop_first() {
            assert(a =~= seq![a[0]] + a.drop_first());
            assert(b =~= seq![b[0]] + b.drop_first());
        }
    } else if a.len() == 0 && b.len() == 0 {
        assert(a =~= b);
    } else if a.len() > 0 && b.len() > 0 {
        vstd::utf8::char_u32_cast(a[0], a[0] as u32);
        vstd::utf8::char_u32_cast(b[0], b[0] as u32);
    }
}

/// A text that does not come before a second, which does not come before a
/// third, does not come before the third.
pub proof fn lemma_lex_not_less_transitive(a: Seq<char>, b: Seq<char>, c: Seq<char>)
    requires
        !lex_less(b, a),
        !lex_less(c, b),
    ensures
        !lex_less(c, a),
{
    if lex_less(c, a) {
        lemma_lex_total(b, c);
        if lex_less(b, c) {
            lemma_lex_transitive(b, c, a);
        }
    }
}

/// Whether `a` comes strictly before `b` in lexicographic order by code point.
pub fn str_less(a: &str, b: &str) -> (r: bool)
    ensures
        r == lex_less(a@, b@),
{
    let mut xs = a.chars();
    let mut ys = b.chars();
    let ghost mut k: int = 0;
    loop
        invariant
            0 <= k <= a@.len(),
            k <= b@.len(),
            xs.remaining() == a@.skip(k),
            ys.remaining() == b@.skip(k),
            lex_less(a@, b@) == lex_less(a@.skip(k), b@.skip(k)),
        decreases a@.len() - k,
    {
        let x = xs.next();
        let y = ys.next();
        match (x, y) {
            (_, None) => {
                return false;
            },
            (None, Some(_)) => {
                return true;
            },
            (Some(c), Some(d)) => {
                if c != d {
                    return (c as u32) < (d as u32);
                }
                proof {
                    assert(a@.skip(k).drop_first() =~= a@.skip(k + 1));
                    assert(b@.skip(k).drop_first() =~= b@.skip(k + 1));
                    k = k + 1;
                }
            },
        }
    }
}

/// Whether two texts hold the same characters.
pub fn str_eq(a: &str, b: &str) -> (r: bool)
    ensures
        r == (a@ == b@),
{
    let mut xs = a.chars();
    let mut ys = b.chars();
    let ghost mut k: int = 0;
    loop
        invariant
            0 <= k <= a@.len(),
            k <= b@.len(),
            xs.remaining() == a@.skip(k),
            ys.remaining() == b@.skip(k),
            a@.take(k) == b@.take(k),
        decreases a@.len() - k,
    {
        let x = xs.next();
        let y = ys.next();
        match (x, y) {
            (None, None) => {
                assert(a@ =~= a@.take(k));
                assert(b@ =~= b@.take(k));
                return true;
            },
            (Some(c), Some(d)) => {
                if c != d {
                    assert(a@[k] != b@[k]);
                    return false;
                }
                proof {
                    assert(a@.skip(k).drop_first() =~= a@.skip(k + 1));
                    assert(b@.skip(k).drop_first() =~= b@.skip(k + 1));
                    assert(a@.take(k + 1) =~= a@.take(k).push(a@[k]));
                    assert(b@.take(k + 1) =~= b@.take(k).push(b@[k]));
                    k = k + 1;
                }
            },
            _ => {
                assert(a@.len() != b@.len());
                return false;
            },
        }
    }
}

/// The parts written one after another, with `sep` between neighbours.
pub open spec fn join(parts: Seq<Seq<char>>, sep: Seq<char>) -> Seq<char>
    decreases parts.len(),
{
    if parts.len() == 0 {
        Seq::empty()
    } else if parts.len() == 1 {
        parts[0]
    } else {
        join(parts.drop_last(), sep) + sep + parts.last()
    }
}

/// Writes the parts one after another, with `sep` between neighbours.
pub fn join_strings(parts: &Vec<String>, sep: &str) -> (r: String)
    ensures
        r@ == join(parts.deep_view(), sep@),
{
    let mut out = String::new();
    let mut i: usize = 0;
    while i < parts.len()
        invariant
            i <= parts.len(),
            out@ == join(parts.deep_view().take(i as int), sep@),
        decreases parts.len() - i,
    {
        let ghost before = parts.deep_view().take(i as int);
        let ghost after = parts.deep_view().take(i + 1);
        proof {
            assert(after.drop_last() =~= before);
            assert(after.last() == parts[i as int]@);
        }
        if i > 0 {
            out.append(sep);
        } else {
            assert(out@ + parts[i as int]@ =~= parts[i as int]@);
        }
        out.append(parts[i].as_str());
        i += 1;
    }
    assert(parts.deep_view().take(parts.len() as int) =~= parts.deep_view());
    out
}

/// Every name comes before the names that follow it, so no name occurs
/// twice.
pub open spec fn ascending(names: Seq<Seq<char>>) -> bool {
    forall|i: int, j: int| 0 <= i < j < names.len() ==> lex_less(names[i], names[j])
}

/// Ascending names are settled by which names they are.
pub proof fn lemma_ascending_unique(a: Seq<Seq<char>>, b: Seq<Seq<char>>)
    requires
        ascending(a),
        ascending(b),
        forall|x: Seq<char>| a.contains(x) <==> b.contains(x),
    ensures
        a == b,
    decreases a.len(),
{
    if a.len() == 0 {
        if b.len() > 0 {
            assert(b.contains(b[0]));
        }
        assert(a =~= b);
    } else {
        assert(a.contains(a[0]));
        let la = a.last();
        let lb = b.last();
        assert(a.contains(la));
        assert(b.contains(lb));
        let k = choose|k: int| 0 <= k < b.len() && b[k] == la;
        let m = choose|m: int| 0 <= m < a.len() && a[m] == lb;
        if k < b.len() - 1 {
            assert(lex_less(b[k], b[b.len() - 1]));
            if m < a.len() - 1 {
                assert(lex_less(a[m], a[a.len() - 1]));
                lemma_lex_transitive(la, lb, la);
            }
            lemma_lex_irreflexive(la);
        }
        let ra = a.drop_last();
        let rb = b.drop_last();
        assert forall|x: Seq<char>| ra.contains(x) <==> rb.contains(x) by {
            lemma_lex_irreflexive(la);
            if ra.contains(x) {
                let i = choose|i: int| 0 <= i < ra.len() && ra[i] == x;
                assert(lex_less(a[i], a[a.len() - 1]));
                assert(a.contains(x));
                let j = choose|j: int| 0 <= j < b.len() && b[j] == x;
                assert(rb[j] == x);
            }
            if rb.contains(x) {
                let i = choose|i: int| 0 <= i < rb.len() && rb[i] == x;
                assert(lex_less(b[i], b[b.len() - 1]));
                assert(b.contains(x));
                let j = choose|j: int| 0 <= j < a.len() && a[j] == x;
                assert(ra[j] == x);
            }
        }
        assert(ascending(ra)) by {
            assert forall|i: int, j: int| 0 <= i < j < ra.len() implies lex_less(ra[i], ra[j]) by {
                assert(ra[i] == a[i] && ra[j] == a[j]);
            }
        }
        assert(ascending(rb)) by {
            assert forall|i: int, j: int| 0 <= i < j < rb.len() implies lex_less(rb[i], rb[j]) by {
                assert(rb[i] == b[i] && rb[j] == b[j]);
            }
        }
        lemma_ascending_unique(ra, rb);
        assert(a =~= ra.push(la));
        assert(b =~= rb.push(lb));
    }
}

/// Puts `name` at its place among the ascending `names`, unless it is there
/// already.
pub(crate) fn insert_name(names: &mut Vec<String>, name: &str)
    requires
        ascending(old(names).deep_view()),
    ensures
        ascending(final(names).deep_view()),
        forall|a: Seq<char>|
            final(names).deep_view().contains(a) <==> (old(names).deep_view().contains(a) || a
                == name@),
{
    let ghost before = names.deep_view();
    let mut p: usize = 0;
    while p < names.len() && str_less(names[p].as_str(), name)
        invariant
            p <= names.len(),
            names.deep_view() == before,
            forall|j: int| 0 <= j < p ==> lex_less(#[trigger] before[j], name@),
        decreases names.len() - p,
    {
        p += 1;
    }
    if p < names.len() && str_eq(names[p].as_str(), name) {
        assert(before[p as int] == name@);
        return ;
    }
    names.insert(p, name.to_owned());
    proof {
        let after = names.deep_view();
        assert(after =~= before.insert(p as int, name@));
        if p < before.len() {
            lemma_lex_total(name@, before[p as int]);
        }
        assert forall|i: int, j: int| 0 <= i < j < after.len() implies lex_less(
            after[i],
            after[j],
        ) by {
            if j == p {
                assert(after[i] == before[i]);
            } else if i == p {
                assert(after[j] == before[j - 1]);
                if j - 1 > p {
                    lemma_lex_transitive(name@, before[p as int], before[j - 1]);
                }
            } else if i < p && p < j {
                assert(after[i] == before[i] && after[j] == before[j - 1]);
            } else if j < p {
                assert(after[i] == before[i] && after[j] == before[j]);
            } else {
                assert(after[i] == before[i - 1] && after[j] == before[j - 1]);
            }
        }
        assert forall|a: Seq<char>| after.contains(a) <==> (before.contains(a) || a
            == name@) by {
            if after.contains(a) {
                let k = choose|k: int| 0 <= k < after.len() && after[k] == a;
                if k < p {
                    assert(before[k] == a);
                } else if k > p {
                    assert(before[k - 1] == a);
                }
            }
            if before.contains(a) {
                let k = choose|k: int| 0 <= k < before.len() && before[k] == a;
                if k < p {
                    assert(after[k] == a);
                } else {
                    assert(after[k + 1] == a);
                }
            }
            if a == name@ {
                assert(after[p as int] == a);
            }
        }
    }
}

/// Writes three texts one after another.
pub fn wrap(before: &str, text: &str, after: &str) -> (r: String)
    ensures
        r@ == before@ + text@ + after@,
{
    let mut out = String::from_str(before);
    out.append(text);
    out.append(after);
    out
}

/// `key`, an equals sign and `value` make up `text`, and `key` holds no
/// equals sign: the text is split at its first equals sign.
pub open spec fn is_split(text: Seq<char>, key: Seq<char>, value: Seq<char>) -> bool {
    text == key + seq!['='] + value && !key.contains('=')
}

/// Splits a text at its first equals sign, if it has one.
pub fn split_pair(text: &str) -> (r: Option<(String, String)>)
    ensures
        match r {
            Some((key, value)) => is_split(text@, key@, value@),
            None => !text@.contains('='),
        },
{
    let mut it = text.chars();
    let mut at: usize = 0;
    let len = text.unicode_len();
    loop
        invariant
            at <= text@.len(),
            len == text@.len(),
            it.remaining() == text@.skip(at as int),
            !text@.take(at as int).contains('='),
        decreases text@.len() - at,
    {
        match it.next() {
            None => {
                assert(text@.take(at as int) =~= text@);
                return None;
            },
            Some(c) => {
                if c == '=' {
                    let key = text.substring_char(0, at);
                    let value = text.substring_char(at + 1, len);
                    assert(text@ =~= key@ + seq!['='] + value@);
                    assert(key@ =~= text@.take(at as int));
                    return Some((key.to_owned(), value.to_owned()));
                }
                proof {
                    assert(text@.skip(at as int).drop_first() =~= text@.skip(at + 1));
                    assert(text@.take(at + 1) =~= text@.take(at as int).push(c));
                    let seen = text@.take(at as int);
                    let next = text@.take(at + 1);
                    assert forall|k: int| 0 <= k < next.len() implies #[trigger] next[k] != '=' by {
                        if k < at {
                            assert(seen[k] == next[k]);
                            assert(seen.contains(next[k]));
                        }
                    }
                }
                at += 1;
            },
        }
    }
}

} // verus!
