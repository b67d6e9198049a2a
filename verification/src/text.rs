//! Character-level string helpers used throughout the engine.

use vstd::prelude::*;

use crate::glob::{find_region, occurs_at, region_eq};

verus! {

/// The characters of `s`, in order.
pub(crate) fn chars_of(s: &str) -> (r: Vec<char>)
    ensures
        r@ == s@,
{
    broadcast use vstd::string::axiom_spec_iter;
    let mut v: Vec<char> = Vec::new();
    for c in it: s.chars()
        invariant
            v@ == it.seq().take(it.index() as int),
            it.seq() == s@,
    {
        v.push(c);
    }
    v
}

/// A `String` collected from the characters of `v` (`FromIterator<&char>`):
/// claims that it holds exactly those characters, in order.
#[verifier::external_body]
pub(crate) fn string_of(v: &[char]) -> (r: String)
    ensures
        r@ == v@,
{
    v.iter().collect()
}

/// `s` with every non-overlapping occurrence of `pat`, scanning left to
/// right, replaced by `rep`.
pub open spec fn replace_all(s: Seq<char>, pat: Seq<char>, rep: Seq<char>) -> Seq<char>
    decreases s.len(),
{
    if pat.len() == 0 || s.len() < pat.len() {
        s
    } else if s.take(pat.len() as int) == pat {
        rep + replace_all(s.skip(pat.len() as int), pat, rep)
    } else {
        seq![s[0]] + replace_all(s.drop_first(), pat, rep)
    }
}

/// `needle` occurs somewhere in `hay`.
pub open spec fn contains_seq(hay: Seq<char>, needle: Seq<char>) -> bool {
    exists|i: int| occurs_at(needle, hay, i)
}

/// The items separated by `sep`.
pub open spec fn join_with(items: Seq<Seq<char>>, sep: Seq<char>) -> Seq<char>
    decreases items.len(),
{
    if items.len() == 0 {
        Seq::empty()
    } else if items.len() == 1 {
        items[0]
    } else {
        join_with(items.drop_last(), sep) + sep + items.last()
    }
}

/// The characters with the Unicode `White_Space` property, which is what
/// `char::is_whitespace` tests.
pub open spec fn is_unicode_whitespace(c: char) -> bool {
    ||| ('\u{9}' <= c && c <= '\u{d}')
    ||| c == ' '
    ||| c == '\u{85}'
    ||| c == '\u{a0}'
    ||| c == '\u{1680}'
    ||| ('\u{2000}' <= c && c <= '\u{200a}')
    ||| c == '\u{2028}'
    ||| c == '\u{2029}'
    ||| c == '\u{202f}'
    ||| c == '\u{205f}'
    ||| c == '\u{3000}'
}

/// `s` without its whitespace characters.
pub open spec fn remove_whitespace(s: Seq<char>) -> Seq<char>
    decreases s.len(),
{
    if s.len() == 0 {
        s
    } else if is_unicode_whitespace(s.last()) {
        remove_whitespace(s.drop_last())
    } else {
        remove_whitespace(s.drop_last()).push(s.last())
    }
}

/// The decimal digit for `d` (`d < 10`).
pub open spec fn digit_char(d: nat) -> char {
    if d == 0 { '0' } else if d == 1 { '1' } else if d == 2 { '2' } else if d == 3 { '3' }
    else if d == 4 { '4' } else if d == 5 { '5' } else if d == 6 { '6' } else if d == 7 { '7' }
    else if d == 8 { '8' } else { '9' }
}

/// The decimal representation of `n`, without leading zeros.
pub open spec fn decimal(n: nat) -> Seq<char>
    decreases n,
{
    if n < 10 {
        seq![digit_char(n)]
    } else {
        decimal(n / 10).push(digit_char(n % 10))
    }
}

/// Whether `c` is whitespace (Unicode `White_Space`).
pub fn is_whitespace(c: char) -> (r: bool)
    ensures
        r == is_unicode_whitespace(c),
{
    ('\u{9}' <= c && c <= '\u{d}') || c == ' ' || c == '\u{85}' || c == '\u{a0}' || c == '\u{1680}'
        || ('\u{2000}' <= c && c <= '\u{200a}') || c == '\u{2028}' || c == '\u{2029}' || c
        == '\u{202f}' || c == '\u{205f}' || c == '\u{3000}'
}

fn digit(d: usize) -> (r: char)
    requires
        d < 10,
    ensures
        r == digit_char(d as nat),
{
    if d == 0 { '0' } else if d == 1 { '1' } else if d == 2 { '2' } else if d == 3 { '3' }
    else if d == 4 { '4' } else if d == 5 { '5' } else if d == 6 { '6' } else if d == 7 { '7' }
    else if d == 8 { '8' } else { '9' }
}

/// The decimal digits of `n`.
pub fn decimal_chars(n: usize) -> (r: Vec<char>)
    ensures
        r@ == decimal(n as nat),
    decreases n,
{
    if n < 10 {
        let mut v = Vec::new();
        v.push(digit(n));
        assert(v@ =~= seq![digit_char(n as nat)]);
        v
    } else {
        let mut v = decimal_chars(n / 10);
        v.push(digit(n % 10));
        v
    }
}

/// Appends `v` to `out`.
pub fn push_all(out: &mut Vec<char>, v: &Vec<char>)
    ensures
        final(out)@ == old(out)@ + v@,
{
    let mut i: usize = 0;
    while i < v.len()
        invariant
            i <= v.len(),
            out@ == old(out)@ + v@.take(i as int),
        decreases v.len() - i,
    {
        out.push(v[i]);
        i = i + 1;
        assert(v@.take(i as int) =~= v@.take(i - 1).push(v@[i - 1]));
    }
    assert(v@.take(i as int) =~= v@);
}

/// `s` with every occurrence of `pat` replaced by `rep`, as `str::replace`
/// does for a non-empty pattern.
pub fn replace(s: &str, pat: &str, rep: &str) -> (r: String)
    requires
        pat@.len() > 0,
    ensures
        r@ == replace_all(s@, pat@, rep@),
{
    let sv = chars_of(s);
    let pv = chars_of(pat);
    let rv = chars_of(rep);
    let m = pv.len();
    let mut out: Vec<char> = Vec::new();
    let mut i: usize = 0;
    proof {
        assert(sv@.skip(0) =~= sv@);
    }
    while i < sv.len()
        invariant
            sv@ == s@,
            pv@ == pat@,
            rv@ == rep@,
            m == pv@.len(),
            m > 0,
            i <= sv@.len(),
            out@ + replace_all(sv@.skip(i as int), pv@, rv@) == replace_all(sv@, pv@, rv@),
        decreases sv@.len() - i,
    {
        let ghost t = sv@.skip(i as int);
        if m <= sv.len() - i && region_eq(&sv, i, &pv, 0, m) {
            proof {
                assert(t.take(m as int) =~= sv@.subrange(i as int, i + m));
                assert(pv@.subrange(0, m as int) =~= pv@);
                assert(t.skip(m as int) =~= sv@.skip(i + m));
            }
            push_all(&mut out, &rv);
            i = i + m;
            proof {
                assert(out@ + replace_all(sv@.skip(i as int), pv@, rv@) =~= (out@.subrange(
                    0,
                    out@.len() - rv@.len(),
                ) + (rv@ + replace_all(sv@.skip(i as int), pv@, rv@))));
            }
        } else {
            proof {
                if m <= sv.len() - i {
                    assert(t.take(m as int) =~= sv@.subrange(i as int, i + m));
                    assert(pv@.subrange(0, m as int) =~= pv@);
                }
                assert(t.drop_first() =~= sv@.skip(i + 1));
                assert(t[0] == sv@[i as int]);
                if t.len() < m {
                    assert(replace_all(t, pv@, rv@) == t);
                    assert(replace_all(t.drop_first(), pv@, rv@) == t.drop_first());
                    assert(t =~= seq![t[0]] + t.drop_first());
                }
            }
            out.push(sv[i]);
            i = i + 1;
            proof {
                let o = out@.drop_last();
                assert(out@ + replace_all(sv@.skip(i as int), pv@, rv@) =~= o + (seq![t[0]]
                    + replace_all(t.drop_first(), pv@, rv@)));
            }
        }
    }
    assert(sv@.skip(i as int).len() == 0);
    assert(out@ + replace_all(sv@.skip(i as int), pv@, rv@) =~= out@);
    string_of(out.as_slice())
}

/// Whether `needle` occurs in `hay`.
pub fn contains(hay: &str, needle: &str) -> (r: bool)
    ensures
        r == contains_seq(hay@, needle@),
{
    let h = chars_of(hay);
    let n = chars_of(needle);
    if n.len() > h.len() {
        proof {
            assert forall|i: int| !occurs_at(needle@, hay@, i) by {}
        }
        return false;
    }
    let r = find_region(&h, 0, h.len(), &n, 0, n.len());
    proof {
        assert(n@.subrange(0, n@.len() as int) =~= n@);
    }
    match r {
        Some(i) => true,
        None => {
            proof {
                assert forall|i: int| !occurs_at(needle@, hay@, i) by {
                    if occurs_at(needle@, hay@, i) {
                        assert(0 <= i && i + n@.len() <= h@.len());
                    }
                }
            }
            false
        },
    }
}

/// `s` without its whitespace characters.
pub fn strip_whitespace(s: &str) -> (r: String)
    ensures
        r@ == remove_whitespace(s@),
{
    let v = chars_of(s);
    let mut out: Vec<char> = Vec::new();
    let mut i: usize = 0;
    while i < v.len()
        invariant
            v@ == s@,
            i <= v@.len(),
            out@ == remove_whitespace(v@.take(i as int)),
        decreases v@.len() - i,
    {
        proof {
            assert(v@.take(i + 1).drop_last() =~= v@.take(i as int));
            assert(v@.take(i + 1).last() == v@[i as int]);
        }
        if !is_whitespace(v[i]) {
            out.push(v[i]);
        }
        i = i + 1;
    }
    assert(v@.take(i as int) =~= v@);
    string_of(out.as_slice())
}

/// The strings separated by `sep`, as `[String]::join` does.
pub fn join(items: &[String], sep: &str) -> (r: String)
    ensures
        r@ == join_with(items@.map_values(|s: String| s@), sep@),
{
    let ghost iv = items@.map_values(|s: String| s@);
    let mut out = String::new();
    let mut i: usize = 0;
    while i < items.len()
        invariant
            i <= items@.len(),
            iv == items@.map_values(|s: String| s@),
            out@ == join_with(iv.take(i as int), sep@),
        decreases items@.len() - i,
    {
        proof {
            assert(iv.take(i + 1).drop_last() =~= iv.take(i as int));
            assert(iv.take(i + 1).last() == items@[i as int]@);
        }
        if i > 0 {
            out.append(sep);
        } else {
            assert(iv.take(1) =~= seq![items@[0]@]);
        }
        out.append(items[i].as_str());
        i = i + 1;
    }
    assert(iv.take(i as int) =~= iv);
    out
}

/// Whether `a` and `b` hold the same characters.
pub fn str_eq(a: &str, b: &str) -> (r: bool)
    ensures
        r == (a@ == b@),
{
    let av = chars_of(a);
    let bv = chars_of(b);
    crate::glob::chars_eq(&av, &bv)
}

} // verus!
