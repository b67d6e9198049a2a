//! Glob matching.
//!
//! Import-path and identifier patterns share one semantics: `*` stands for
//! any (possibly empty) sequence of characters, every other character stands
//! for itself. Filesystem globs are evaluated by the `globset` crate.

pub mod fs_path;
pub mod ident;
pub mod import_path;

use vstd::prelude::*;

verus! {

/// `s` matches the wildcard pattern `p`: each `*` of `p` stands for any
/// sequence of characters (possibly empty), every other character for itself.
pub open spec fn glob_match(p: Seq<char>, s: Seq<char>) -> bool
    decreases p.len(), s.len(),
{
    if p.len() == 0 {
        s.len() == 0
    } else if p[0] == '*' {
        glob_match(p.drop_first(), s) || (s.len() > 0 && glob_match(p, s.drop_first()))
    } else {
        s.len() > 0 && s[0] == p[0] && glob_match(p.drop_first(), s.drop_first())
    }
}

/// No character of `p` is a `*`.
pub open spec fn star_free(p: Seq<char>) -> bool {
    forall|i: int| 0 <= i < p.len() ==> p[i] != '*'
}

/// `c` occurs in `u` starting at position `i`.
pub open spec fn occurs_at(c: Seq<char>, u: Seq<char>, i: int) -> bool {
    0 <= i && i + c.len() <= u.len() && u.subrange(i, i + c.len()) == c
}

/// A star-free prefix of the pattern must be matched literally.
pub proof fn lemma_literal_prefix(c: Seq<char>, q: Seq<char>, s: Seq<char>)
    requires
        star_free(c),
    ensures
        glob_match(c + q, s) == (c.len() <= s.len() && s.take(c.len() as int) == c && glob_match(
            q,
            s.skip(c.len() as int),
        )),
    decreases c.len(),
{
    if c.len() == 0 {
        assert(c + q =~= q);
        assert(s.skip(0) =~= s);
        assert(s.take(0) =~= c);
    } else {
        let c1 = c.drop_first();
        assert((c + q).drop_first() =~= c1 + q);
        assert((c + q)[0] == c[0]);
        if s.len() > 0 {
            let s1 = s.drop_first();
            lemma_literal_prefix(c1, q, s1);
            if c.len() <= s.len() {
                assert(s1.skip(c1.len() as int) =~= s.skip(c.len() as int));
                if s.take(c.len() as int) == c {
                    assert(s1.take(c1.len() as int) =~= c1) by {
                        assert forall|i: int| 0 <= i < c1.len() implies s1.take(
                            c1.len() as int,
                        )[i] == c1[i] by {
                            assert(s.take(c.len() as int)[i + 1] == c[i + 1]);
                        }
                    }
                    assert(s.take(c.len() as int)[0] == c[0]);
                }
                if s[0] == c[0] && s1.take(c1.len() as int) == c1 {
                    assert(s.take(c.len() as int) =~= c) by {
                        assert forall|i: int| 0 <= i < c.len() implies s.take(c.len() as int)[i]
                            == c[i] by {
                            if i > 0 {
                                assert(s1.take(c1.len() as int)[i - 1] == c1[i - 1]);
                            }
                        }
                    }
                }
            }
        }
    }
}

/// A star-free pattern matches exactly itself.
pub proof fn lemma_star_free_exact(c: Seq<char>, s: Seq<char>)
    requires
        star_free(c),
    ensures
        glob_match(c, s) == (s == c),
{
    let e = Seq::<char>::empty();
    lemma_literal_prefix(c, e, s);
    assert(c + e =~= c);
    if s.len() == c.len() && s.take(c.len() as int) == c {
        assert(s.take(c.len() as int) =~= s);
    }
    if s == c {
        assert(s.take(c.len() as int) =~= c);
        assert(s.skip(c.len() as int).len() == 0);
    }
}

/// A leading `*` may skip any prefix: introduction.
pub proof fn lemma_star_intro(q: Seq<char>, s: Seq<char>, k: int)
    requires
        0 <= k <= s.len(),
        glob_match(q, s.skip(k)),
    ensures
        glob_match(seq!['*'] + q, s),
    decreases k,
{
    let p = seq!['*'] + q;
    assert(p.drop_first() =~= q);
    assert(p[0] == '*');
    if k == 0 {
        assert(s.skip(0) =~= s);
    } else {
        assert(s.drop_first().skip(k - 1) =~= s.skip(k));
        lemma_star_intro(q, s.drop_first(), k - 1);
    }
}

/// A leading `*` skips some prefix: elimination, returning the prefix length.
pub proof fn lemma_star_elim(q: Seq<char>, s: Seq<char>) -> (k: int)
    requires
        glob_match(seq!['*'] + q, s),
    ensures
        0 <= k <= s.len(),
        glob_match(q, s.skip(k)),
    decreases s.len(),
{
    let p = seq!['*'] + q;
    assert(p.drop_first() =~= q);
    assert(p[0] == '*');
    if glob_match(q, s) {
        assert(s.skip(0) =~= s);
        0
    } else {
        let k1 = lemma_star_elim(q, s.drop_first());
        assert(s.drop_first().skip(k1) =~= s.skip(k1 + 1));
        k1 + 1
    }
}

/// A match of a concatenated pattern splits the subject at some point.
pub proof fn lemma_concat_elim(a: Seq<char>, b: Seq<char>, s: Seq<char>) -> (k: int)
    requires
        glob_match(a + b, s),
    ensures
        0 <= k <= s.len(),
        glob_match(a, s.take(k)),
        glob_match(b, s.skip(k)),
    decreases a.len(), s.len(),
{
    if a.len() == 0 {
        assert(a + b =~= b);
        assert(s.skip(0) =~= s);
        assert(s.take(0).len() == 0);
        0
    } else {
        let a1 = a.drop_first();
        assert((a + b).drop_first() =~= a1 + b);
        assert((a + b)[0] == a[0]);
        if a[0] == '*' {
            if glob_match(a1 + b, s) {
                let k = lemma_concat_elim(a1, b, s);
                assert(glob_match(a, s.take(k)));
                k
            } else {
                let s1 = s.drop_first();
                let k1 = lemma_concat_elim(a, b, s1);
                let k = k1 + 1;
                assert(s.take(k).drop_first() =~= s1.take(k1));
                assert(s.skip(k) =~= s1.skip(k1));
                assert(glob_match(a, s.take(k)));
                k
            }
        } else {
            let s1 = s.drop_first();
            let k1 = lemma_concat_elim(a1, b, s1);
            let k = k1 + 1;
            assert(s.take(k).drop_first() =~= s1.take(k1));
            assert(s.skip(k) =~= s1.skip(k1));
            assert(s.take(k)[0] == s[0]);
            assert(glob_match(a, s.take(k)));
            k
        }
    }
}

/// A pattern that ends in a star-free tail only matches subjects ending in
/// that tail.
pub proof fn lemma_literal_suffix_needed(q: Seq<char>, c: Seq<char>, s: Seq<char>)
    requires
        star_free(c),
        glob_match(q + c, s),
    ensures
        c.len() <= s.len(),
        s.skip(s.len() - c.len()) == c,
{
    let k = lemma_concat_elim(q, c, s);
    lemma_star_free_exact(c, s.skip(k));
    assert(k == s.len() - c.len());
}

/// A pattern `*R` that matches a suffix of `v` matches `v` too.
pub proof fn lemma_star_widen(r: Seq<char>, v: Seq<char>, d: int)
    requires
        0 <= d <= v.len(),
        glob_match(seq!['*'] + r, v.skip(d)),
    ensures
        glob_match(seq!['*'] + r, v),
{
    let k = lemma_star_elim(r, v.skip(d));
    assert(v.skip(d).skip(k) =~= v.skip(d + k));
    lemma_star_intro(r, v, d + k);
}

/// Greedy step, forward: a match of `*c*R` places `c` at some occurrence
/// followed by a match of `*R`.
pub proof fn lemma_chunk_elim(c: Seq<char>, r: Seq<char>, t: Seq<char>) -> (i: int)
    requires
        star_free(c),
        glob_match(seq!['*'] + c + seq!['*'] + r, t),
    ensures
        occurs_at(c, t, i),
        glob_match(seq!['*'] + r, t.skip(i + c.len())),
{
    let tail = seq!['*'] + r;
    assert(seq!['*'] + c + seq!['*'] + r =~= seq!['*'] + (c + tail));
    let i = lemma_star_elim(c + tail, t);
    lemma_literal_prefix(c, tail, t.skip(i));
    assert(t.skip(i).take(c.len() as int) =~= t.subrange(i, i + c.len()));
    assert(t.skip(i).skip(c.len() as int) =~= t.skip(i + c.len()));
    i
}

/// Greedy step, backward: an occurrence of `c` followed by a match of `*R`
/// gives a match of `*c*R`.
pub proof fn lemma_chunk_intro(c: Seq<char>, r: Seq<char>, t: Seq<char>, i: int)
    requires
        star_free(c),
        occurs_at(c, t, i),
        glob_match(seq!['*'] + r, t.skip(i + c.len())),
    ensures
        glob_match(seq!['*'] + c + seq!['*'] + r, t),
{
    let tail = seq!['*'] + r;
    assert(seq!['*'] + c + seq!['*'] + r =~= seq!['*'] + (c + tail));
    lemma_literal_prefix(c, tail, t.skip(i));
    assert(t.skip(i).take(c.len() as int) =~= t.subrange(i, i + c.len()));
    assert(t.skip(i).skip(c.len() as int) =~= t.skip(i + c.len()));
    lemma_star_intro(c + tail, t, i);
}

/// Greedy step: choosing the leftmost occurrence of `c` loses no match.
pub proof fn lemma_chunk_leftmost(c: Seq<char>, r: Seq<char>, t: Seq<char>, i0: int)
    requires
        star_free(c),
        occurs_at(c, t, i0),
        forall|j: int| 0 <= j < i0 ==> !occurs_at(c, t, j),
    ensures
        glob_match(seq!['*'] + c + seq!['*'] + r, t) == glob_match(
            seq!['*'] + r,
            t.skip(i0 + c.len()),
        ),
{
    if glob_match(seq!['*'] + c + seq!['*'] + r, t) {
        let i = lemma_chunk_elim(c, r, t);
        assert(i0 <= i);
        assert(t.skip(i0 + c.len()).skip(i - i0) =~= t.skip(i + c.len()));
        lemma_star_widen(r, t.skip(i0 + c.len()), i - i0);
    }
    if glob_match(seq!['*'] + r, t.skip(i0 + c.len())) {
        lemma_chunk_intro(c, r, t, i0);
    }
}

/// Index of the first `ch` in `v` at or after `from`, if any.
pub fn find_char_from(v: &Vec<char>, ch: char, from: usize) -> (r: Option<usize>)
    requires
        from <= v.len(),
    ensures
        match r {
            Some(i) => from <= i < v.len() && v@[i as int] == ch && forall|j: int|
                from <= j < i ==> v@[j] != ch,
            None => forall|j: int| from <= j < v.len() ==> v@[j] != ch,
        },
{
    let mut i = from;
    while i < v.len()
        invariant
            from <= i <= v.len(),
            forall|j: int| from <= j < i ==> v@[j] != ch,
        decreases v.len() - i,
    {
        if v[i] == ch {
            return Some(i);
        }
        i = i + 1;
    }
    None
}

/// Index of the last `ch` in `v`, if any.
pub fn rfind_char(v: &Vec<char>, ch: char) -> (r: Option<usize>)
    ensures
        match r {
            Some(i) => i < v.len() && v@[i as int] == ch && forall|j: int|
                i < j < v.len() ==> v@[j] != ch,
            None => forall|j: int| 0 <= j < v.len() ==> v@[j] != ch,
        },
{
    let mut i = v.len();
    while i > 0
        invariant
            i <= v.len(),
            forall|j: int| i <= j < v.len() ==> v@[j] != ch,
        decreases i,
    {
        if v[i - 1] == ch {
            return Some(i - 1);
        }
        i = i - 1;
    }
    None
}

/// `s[i..i+len]` equals `p[a..a+len]`.
pub fn region_eq(s: &Vec<char>, i: usize, p: &Vec<char>, a: usize, len: usize) -> (r: bool)
    requires
        i + len <= s.len(),
        a + len <= p.len(),
    ensures
        r == (s@.subrange(i as int, i + len) == p@.subrange(a as int, a + len)),
{
    let mut k: usize = 0;
    while k < len
        invariant
            k <= len,
            i + len <= s.len(),
            a + len <= p.len(),
            forall|m: int| 0 <= m < k ==> #[trigger] s@[i + m] == p@[a + m],
        decreases len - k,
    {
        if s[i + k] != p[a + k] {
            assert(s@.subrange(i as int, i + len)[k as int] != p@.subrange(a as int, a + len)[k as int]);
            return false;
        }
        k = k + 1;
    }
    assert forall|m: int| 0 <= m < len implies #[trigger] s@.subrange(i as int, i + len)[m] == p@.subrange(
        a as int,
        a + len,
    )[m] by {
        assert(s@[i + m] == p@[a + m]);
    }
    assert(s@.subrange(i as int, i + len) =~= p@.subrange(a as int, a + len));
    true
}

/// Leftmost occurrence of `p[a..b]` in `s` that lies within `s[from..to]`.
pub fn find_region(s: &Vec<char>, from: usize, to: usize, p: &Vec<char>, a: usize, b: usize) -> (r:
    Option<usize>)
    requires
        from <= to <= s.len(),
        a <= b <= p.len(),
    ensures
        match r {
            Some(i) => from <= i && i + (b - a) <= to && occurs_at(
                p@.subrange(a as int, b as int),
                s@,
                i as int,
            ) && forall|j: int|
                from <= j < i ==> !occurs_at(p@.subrange(a as int, b as int), s@, j),
            None => forall|j: int|
                from <= j && j + (b - a) <= to ==> !occurs_at(
                    p@.subrange(a as int, b as int),
                    s@,
                    j,
                ),
        },
{
    let len = b - a;
    let ghost c = p@.subrange(a as int, b as int);
    if len > to - from {
        return None;
    }
    let mut i = from;
    while i <= to - len
        invariant
            from <= i <= to - len + 1,
            len == b - a,
            len <= to - from,
            to <= s.len(),
            a <= b <= p.len(),
            c == p@.subrange(a as int, b as int),
            forall|j: int| from <= j < i ==> !occurs_at(c, s@, j),
        decreases to - len + 1 - i,
    {
        if region_eq(s, i, p, a, len) {
            return Some(i);
        }
        if i == to - len {
            return None;
        }
        i = i + 1;
    }
    None
}

/// `s` and `p` hold the same characters.
pub fn chars_eq(s: &Vec<char>, p: &Vec<char>) -> (r: bool)
    ensures
        r == (s@ == p@),
{
    if s.len() != p.len() {
        return false;
    }
    let r = region_eq(s, 0, p, 0, s.len());
    assert(s@.subrange(0, s.len() as int) =~= s@);
    assert(p@.subrange(0, p.len() as int) =~= p@);
    r
}

/// Locates the middle chunks of `p` (those between positions `j0` and the
/// last `*` at `l`) greedily in `s[cursor0..end]`; the text after the last
/// `*` is already known to occupy `s[end..]`.
#[verifier::rlimit(30)]
fn match_middle(p: &Vec<char>, s: &Vec<char>, j0: usize, l: usize, cursor0: usize, end: usize) -> (r:
    bool)
    requires
        0 < j0 <= l + 1,
        l < p.len(),
        p@[l as int] == '*',
        p@[j0 - 1] == '*',
        cursor0 <= end <= s.len(),
        end == s.len() - (p.len() - l - 1),
        star_free(p@.skip(l + 1)),
        s@.skip(end as int) == p@.skip(l + 1),
    ensures
        r == glob_match(seq!['*'] + p@.skip(j0 as int), s@.skip(cursor0 as int)),
{
    let ghost ps = p@;
    let ghost ss = s@;
    let ghost last = ps.skip(l + 1);
    let ghost goal = glob_match(seq!['*'] + ps.skip(j0 as int), ss.skip(cursor0 as int));
    let mut cursor = cursor0;
    let mut j = j0;
    while j <= l
        invariant
            ps == p@,
            ss == s@,
            0 < j <= l + 1,
            l < p.len(),
            ps[l as int] == '*',
            cursor <= end,
            end == s.len() - (p.len() - l - 1),
            last == ps.skip(l + 1),
            star_free(last),
            ss.skip(end as int) == last,
            goal == glob_match(seq!['*'] + ps.skip(j as int), ss.skip(cursor as int)),
            goal == glob_match(seq!['*'] + p@.skip(j0 as int), s@.skip(cursor0 as int)),
        decreases l + 1 - j,
    {
        let k = match find_char_from(p, '*', j) {
            Some(k) => k,
            None => {
                assert(false);
                0
            },
        };
        assert(k <= l);
        let ghost c = ps.subrange(j as int, k as int);
        let ghost rest = ps.skip(k + 1);
        let ghost t = ss.skip(cursor as int);
        proof {
            assert(star_free(c));
            assert(seq!['*'] + ps.skip(j as int) =~= seq!['*'] + c + seq!['*'] + rest);
            assert(rest =~= ps.subrange(k + 1, l + 1) + last);
        }
        match find_region(s, cursor, end, p, j, k) {
            None => {
                proof {
                    if goal {
                        let i = lemma_chunk_elim(c, rest, t);
                        let w = t.skip(i + c.len());
                        assert(c.len() == k - j);
                        assert(glob_match(seq!['*'] + ps.skip(j as int), t));
                        assert(occurs_at(c, ss, cursor + i)) by {
                            assert(ss.subrange(cursor + i, cursor + i + c.len()) =~= t.subrange(
                                i,
                                i + c.len(),
                            ));
                        }
                        assert(cursor + i + c.len() > end);
                        assert(seq!['*'] + rest =~= (seq!['*'] + ps.subrange(k + 1, l + 1))
                            + last);
                        lemma_literal_suffix_needed(
                            seq!['*'] + ps.subrange(k + 1, l + 1),
                            last,
                            w,
                        );
                        assert(w.len() == ss.len() - cursor - i - c.len());
                        assert(last.len() == ss.len() - end);
                        assert(false);
                    }
                }
                return false;
            },
            Some(idx) => {
                proof {
                    let i0 = idx - cursor;
                    assert(occurs_at(c, t, i0)) by {
                        assert(ss.subrange(idx as int, idx + c.len()) =~= t.subrange(
                            i0,
                            i0 + c.len(),
                        ));
                    }
                    assert forall|jj: int| 0 <= jj < i0 implies !occurs_at(c, t, jj) by {
                        if occurs_at(c, t, jj) {
                            assert(ss.subrange(cursor + jj, cursor + jj + c.len()) =~= t.subrange(
                                jj,
                                jj + c.len(),
                            ));
                            assert(occurs_at(c, ss, cursor + jj));
                        }
                    }
                    lemma_chunk_leftmost(c, rest, t, i0);
                    assert(t.skip(i0 + c.len()) =~= ss.skip(idx + c.len()));
                }
                cursor = idx + (k - j);
                j = k + 1;
            },
        }
    }
    proof {
        assert(ps.skip(j as int) =~= last);
        let t = ss.skip(cursor as int);
        let d = end - cursor;
        assert(t.skip(d) =~= last);
        lemma_star_free_exact(last, t.skip(d));
        lemma_star_intro(last, t, d);
    }
    true
}

/// Wildcard match of `s` against `p`: the first chunk (before the first `*`)
/// must be a prefix, the last chunk (after the last `*`) a suffix, and every
/// chunk in between is located greedily, leftmost first, in the window that
/// the prefix and suffix leave.
pub fn wildcard_match(p: &Vec<char>, s: &Vec<char>) -> (r: bool)
    ensures
        r == glob_match(p@, s@),
{
    let first = find_char_from(p, '*', 0);
    match first {
        None => {
            proof {
                lemma_star_free_exact(p@, s@);
            }
            chars_eq(s, p)
        },
        Some(f) => {
            let l = match rfind_char(p, '*') {
                Some(l) => l,
                None => {
                    assert(false);
                    0
                },
            };
            assert(f <= l);
            let last_len = p.len() - l - 1;
            let ghost ps = p@;
            let ghost ss = s@;
            let ghost head = ps.take(f as int);
            let ghost last = ps.skip(l + 1);
            proof {
                assert(star_free(head));
                assert(star_free(last));
                assert(ps =~= head + ps.skip(f as int));
                lemma_literal_prefix(head, ps.skip(f as int), ss);
                assert(ps =~= ps.take(l + 1) + last);
            }
            if f > s.len() {
                return false;
            }
            if !region_eq(s, 0, p, 0, f) {
                assert(ss.take(f as int) =~= ss.subrange(0, f as int));
                assert(head =~= ps.subrange(0, f as int));
                return false;
            }
            assert(ss.take(f as int) =~= ss.subrange(0, f as int));
            assert(head =~= ps.subrange(0, f as int));
            if last_len > s.len() {
                proof {
                    if glob_match(ps, ss) {
                        lemma_literal_suffix_needed(ps.take(l + 1), last, ss);
                    }
                }
                return false;
            }
            let end = s.len() - last_len;
            if !region_eq(s, end, p, l + 1, last_len) {
                proof {
                    assert(last =~= ps.subrange(l + 1, ps.len() as int));
                    assert(ss.skip(end as int) =~= ss.subrange(end as int, ss.len() as int));
                    if glob_match(ps, ss) {
                        lemma_literal_suffix_needed(ps.take(l + 1), last, ss);
                    }
                }
                return false;
            }
            proof {
                assert(last =~= ps.subrange(l + 1, ps.len() as int));
                assert(ss.skip(end as int) =~= ss.subrange(end as int, ss.len() as int));
            }
            let ghost mid_and_last = ps.skip(f as int);
            proof {
                assert(mid_and_last =~= ps.subrange(f as int, l + 1) + last);
            }
            if f > end {
                proof {
                    if glob_match(ps, ss) {
                        lemma_literal_suffix_needed(
                            ps.subrange(f as int, l + 1),
                            last,
                            ss.skip(f as int),
                        );
                    }
                }
                return false;
            }
            proof {
                assert(ps.skip(f as int) =~= seq!['*'] + ps.skip(f + 1));
            }
            match_middle(p, s, f + 1, l, f, end)
        },
    }
}

/// `*` matches any sequence of characters, `::` separators included.
pub proof fn law_star_matches_anything(s: Seq<char>)
    ensures
        glob_match(seq!['*'], s),
    decreases s.len(),
{
    let p = seq!['*'];
    assert(p.drop_first() =~= Seq::<char>::empty());
    assert(p.len() == 1 && p[0] == '*');
    if s.len() > 0 {
        law_star_matches_anything(s.drop_first());
        assert(glob_match(p, s.drop_first()));
    } else {
        assert(glob_match(p.drop_first(), s));
    }
}

/// A star-free pattern followed by `*` (such as `axum*`) matches exactly
/// the strings that start with it.
pub proof fn law_prefix_star(c: Seq<char>, s: Seq<char>)
    requires
        star_free(c),
    ensures
        glob_match(c + seq!['*'], s) == (c.len() <= s.len() && s.take(c.len() as int) == c),
{
    lemma_literal_prefix(c, seq!['*'], s);
    if c.len() <= s.len() {
        law_star_matches_anything(s.skip(c.len() as int));
    }
}

/// `*`, a star-free pattern, then `*` (such as `*transports*`) matches
/// exactly the strings that contain it.
pub proof fn law_infix_stars(c: Seq<char>, s: Seq<char>)
    requires
        star_free(c),
    ensures
        glob_match(seq!['*'] + c + seq!['*'], s) == exists|i: int| occurs_at(c, s, i),
{
    let e = Seq::<char>::empty();
    assert(seq!['*'] + c + seq!['*'] + e =~= seq!['*'] + c + seq!['*']);
    if glob_match(seq!['*'] + c + seq!['*'], s) {
        let i = lemma_chunk_elim(c, e, s);
        assert(occurs_at(c, s, i));
    }
    if exists|i: int| occurs_at(c, s, i) {
        let i = choose|i: int| occurs_at(c, s, i);
        assert(seq!['*'] + e =~= seq!['*']);
        law_star_matches_anything(s.skip(i + c.len()));
        lemma_chunk_intro(c, e, s, i);
    }
}

/// `p` with every run of consecutive `*` collapsed to a single `*`.
pub open spec fn collapse_stars(p: Seq<char>) -> Seq<char>
    decreases p.len(),
{
    if p.len() < 2 {
        p
    } else if p[0] == '*' && p[1] == '*' {
        collapse_stars(p.drop_first())
    } else {
        seq![p[0]] + collapse_stars(p.drop_first())
    }
}

/// `**` followed by `q` matches what `*` followed by `q` matches.
proof fn lemma_double_star(p: Seq<char>, s: Seq<char>)
    requires
        p.len() >= 2,
        p[0] == '*',
        p[1] == '*',
    ensures
        glob_match(p, s) == glob_match(p.drop_first(), s),
    decreases s.len(),
{
    let q = p.drop_first();
    assert(q[0] == '*');
    if s.len() > 0 {
        lemma_double_star(p, s.drop_first());
    }
}

/// Collapsing runs of `*` into one leaves matching unchanged: under
/// `import_path::matches` and `ident::matches` (both specified by
/// [`glob_match`]), `db**` matches exactly what `db*` matches, for every
/// pattern and every input.
pub proof fn law_star_runs_collapse(p: Seq<char>, s: Seq<char>)
    ensures
        glob_match(p, s) == glob_match(collapse_stars(p), s),
    decreases p.len(), s.len(),
{
    if p.len() < 2 {
    } else if p[0] == '*' && p[1] == '*' {
        lemma_double_star(p, s);
        law_star_runs_collapse(p.drop_first(), s);
    } else {
        let c = collapse_stars(p);
        let t = collapse_stars(p.drop_first());
        assert(c == seq![p[0]] + t);
        assert(c[0] == p[0]);
        assert(c.drop_first() =~= t);
        if p[0] == '*' {
            law_star_runs_collapse(p.drop_first(), s);
            if s.len() > 0 {
                law_star_runs_collapse(p, s.drop_first());
            }
        } else if s.len() > 0 {
            law_star_runs_collapse(p.drop_first(), s.drop_first());
        }
    }
}

} // verus!
