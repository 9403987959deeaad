//! Lexicographic ordering of byte strings, deduplication, and a verified
//! insertion sort; the content index lists its chapters in this order.

use vstd::prelude::*;

verus! {

/// Strict byte-wise lexicographic order.
pub open spec fn lex_lt(a: Seq<u8>, b: Seq<u8>) -> bool
    decreases a.len(),
{
    if b.len() == 0 {
        false
    } else if a.len() == 0 {
        true
    } else if a[0] < b[0] {
        true
    } else if a[0] > b[0] {
        false
    } else {
        lex_lt(a.drop_first(), b.drop_first())
    }
}

/// No byte string is below itself.
pub proof fn lemma_lex_irrefl(a: Seq<u8>)
    ensures
        !lex_lt(a, a),
    decreases a.len(),
{
    if a.len() > 0 {
        lemma_lex_irrefl(a.drop_first());
    }
}

/// Two byte strings are ordered one way or the other, or are equal.
pub proof fn lemma_lex_trichotomy(a: Seq<u8>, b: Seq<u8>)
    ensures
        lex_lt(a, b) || lex_lt(b, a) || a == b,
    decreases a.len(),
{
    if a.len() > 0 && b.len() > 0 && a[0] == b[0] {
        lemma_lex_trichotomy(a.drop_first(), b.drop_first());
        if a.drop_first() == b.drop_first() {
            assert forall|j: int| 0 <= j < a.len() implies a[j] == b[j] by {
                if j > 0 {
                    assert(a.drop_first()[j - 1] == a[j]);
                    assert(b.drop_first()[j - 1] == b[j]);
                }
            }
            assert(a =~= b);
        }
    }
}

/// Compares two byte strings lexicographically.
pub fn lex_lt_bytes(a: &Vec<u8>, b: &Vec<u8>) -> (r: bool)
    ensures
        r == lex_lt(a@, b@),
{
    let mut i: usize = 0;
    proof {
        assert(a@.subrange(0, a@.len() as int) =~= a@);
        assert(b@.subrange(0, b@.len() as int) =~= b@);
    }
    loop
        invariant
            0 <= i <= a.len(),
            i <= b.len(),
            forall|j: int| 0 <= j < i ==> a@[j] == b@[j],
            lex_lt(a@, b@) == lex_lt(
                a@.subrange(i as int, a@.len() as int),
                b@.subrange(i as int, b@.len() as int),
            ),
        ensures
            lex_lt(a@, b@) == {
                if i >= b.len() {
                    false
                } else if i >= a.len() {
                    true
                } else if a@[i as int] < b@[i as int] {
                    true
                } else {
                    false
                }
            },
        decreases a.len() - i,
    {
        let ghost at = a@.subrange(i as int, a@.len() as int);
        let ghost bt = b@.subrange(i as int, b@.len() as int);
        if i >= b.len() {
            break ;
        }
        if i >= a.len() {
            break ;
        }
        if a[i] < b[i] {
            proof {
                assert(at[0] == a@[i as int] && bt[0] == b@[i as int]);
            }
            break ;
        }
        if a[i] > b[i] {
            proof {
                assert(at[0] == a@[i as int] && bt[0] == b@[i as int]);
            }
            break ;
        }
        proof {
            assert(at[0] == bt[0]);
            assert(at.drop_first() =~= a@.subrange(i + 1, a@.len() as int));
            assert(bt.drop_first() =~= b@.subrange(i + 1, b@.len() as int));
        }
        i = i + 1;
    }
    if i >= b.len() {
        false
    } else if i >= a.len() {
        true
    } else {
        a[i] < b[i]
    }
}

/// `s` with later repetitions of a value removed: the first occurrence of
/// every byte string survives, in order.
pub open spec fn spec_dedupe(s: Seq<Seq<u8>>) -> Seq<Seq<u8>>
    decreases s.len(),
{
    if s.len() == 0 {
        Seq::empty()
    } else {
        let r = spec_dedupe(s.drop_last());
        if r.contains(s.last()) {
            r
        } else {
            r.push(s.last())
        }
    }
}

/// Deduplication keeps exactly the values of `s`, each once.
pub proof fn lemma_dedupe(s: Seq<Seq<u8>>)
    ensures
        spec_dedupe(s).no_duplicates(),
        forall|x: Seq<u8>| spec_dedupe(s).contains(x) == s.contains(x),
    decreases s.len(),
{
    if s.len() > 0 {
        lemma_dedupe(s.drop_last());
        let r = spec_dedupe(s.drop_last());
        let t = s.drop_last();
        let d = spec_dedupe(s);
        assert forall|x: Seq<u8>| d.contains(x) == s.contains(x) by {
            if s.contains(x) {
                let j = choose|j: int| 0 <= j < s.len() && s[j] == x;
                if j < s.len() - 1 {
                    assert(t[j] == x);
                    assert(t.contains(x));
                } else {
                    assert(x == s.last());
                }
            }
            if t.contains(x) {
                let j = choose|j: int| 0 <= j < t.len() && t[j] == x;
                assert(s[j] == x);
                assert(s.contains(x));
            }
            assert(s[s.len() - 1] == s.last());
            assert(s.contains(s.last()));
            if r.contains(s.last()) {
                assert(d == r);
            } else {
                assert(d == r.push(s.last()));
                if d.contains(x) {
                    let j = choose|j: int| 0 <= j < d.len() && d[j] == x;
                    if j < r.len() {
                        assert(r[j] == x);
                        assert(r.contains(x));
                    } else {
                        assert(x == s.last());
                    }
                }
                if r.contains(x) {
                    let j = choose|j: int| 0 <= j < r.len() && r[j] == x;
                    assert(d[j] == x);
                    assert(d.contains(x));
                }
                assert(d[r.len() as int] == s.last());
                assert(d.contains(s.last()));
            }
        }
        if !r.contains(s.last()) {
            let d = spec_dedupe(s);
            assert forall|i: int, j: int| 0 <= i < j < d.len() implies d[i] != d[j] by {
                if j < r.len() {
                    assert(d[i] == r[i] && d[j] == r[j]);
                } else {
                    assert(d[j] == s.last());
                    assert(d[i] == r[i]);
                    if r[i] == s.last() {
                        assert(r.contains(s.last()));
                    }
                }
            }
        }
    }
}

/// `c` inserted before the first element not below it.
pub open spec fn spec_insert_sorted(c: Seq<u8>, s: Seq<Seq<u8>>) -> Seq<Seq<u8>>
    decreases s.len(),
{
    if s.len() == 0 {
        seq![c]
    } else if lex_lt(s[0], c) {
        seq![s[0]] + spec_insert_sorted(c, s.drop_first())
    } else {
        seq![c] + s
    }
}

/// Whether `s` ascends strictly in lexicographic order.
pub open spec fn strict_sorted(s: Seq<Seq<u8>>) -> bool {
    forall|i: int, j: int| 0 <= i < j < s.len() ==> lex_lt(#[trigger] s[i], #[trigger] s[j])
}

/// Inserting a fresh value into a strictly sorted list keeps it strictly
/// sorted and adds exactly that value.
pub proof fn lemma_insert_sorted(c: Seq<u8>, s: Seq<Seq<u8>>)
    requires
        strict_sorted(s),
        !s.contains(c),
    ensures
        strict_sorted(spec_insert_sorted(c, s)),
        spec_insert_sorted(c, s).len() == s.len() + 1,
        forall|x: Seq<u8>|
            spec_insert_sorted(c, s).contains(x) == (s.contains(x) || x == c),
    decreases s.len(),
{
    let r = spec_insert_sorted(c, s);
    if s.len() == 0 {
        assert(r =~= seq![c]);
        assert(r[0] == c);
        assert forall|x: Seq<u8>| r.contains(x) == (s.contains(x) || x == c) by {
            if r.contains(x) {
                let j = choose|j: int| 0 <= j < r.len() && r[j] == x;
                assert(j == 0);
            }
            if x == c {
                assert(r[0] == x);
            }
        }
    } else if lex_lt(s[0], c) {
        let t = s.drop_first();
        assert forall|i: int, j: int| 0 <= i < j < t.len() implies lex_lt(
            #[trigger] t[i],
            #[trigger] t[j],
        ) by {
            assert(t[i] == s[i + 1] && t[j] == s[j + 1]);
        }
        if t.contains(c) {
            let j = choose|j: int| 0 <= j < t.len() && t[j] == c;
            assert(s[j + 1] == c);
        }
        lemma_insert_sorted(c, t);
        let rt = spec_insert_sorted(c, t);
        assert(r == seq![s[0]] + rt);
        assert forall|i: int, j: int| 0 <= i < j < r.len() implies lex_lt(
            #[trigger] r[i],
            #[trigger] r[j],
        ) by {
            if i == 0 {
                assert(r[0] == s[0]);
                assert(r[j] == rt[j - 1]);
                assert(rt.contains(rt[j - 1]));
                if rt[j - 1] == c {
                    assert(lex_lt(s[0], c));
                } else {
                    assert(t.contains(rt[j - 1]));
                    let k = choose|k: int| 0 <= k < t.len() && t[k] == rt[j - 1];
                    assert(t[k] == s[k + 1]);
                    assert(lex_lt(s[0], s[k + 1]));
                }
            } else {
                assert(r[i] == rt[i - 1] && r[j] == rt[j - 1]);
            }
        }
        assert forall|x: Seq<u8>| r.contains(x) == (s.contains(x) || x == c) by {
            if r.contains(x) {
                let j = choose|j: int| 0 <= j < r.len() && r[j] == x;
                if j == 0 {
                    assert(s[0] == x);
                } else {
                    assert(rt[j - 1] == x);
                    assert(rt.contains(x));
                    if x != c {
                        assert(t.contains(x));
                        let k = choose|k: int| 0 <= k < t.len() && t[k] == x;
                        assert(s[k + 1] == x);
                    }
                }
            }
            if s.contains(x) {
                let j = choose|j: int| 0 <= j < s.len() && s[j] == x;
                if j == 0 {
                    assert(r[0] == x);
                } else {
                    assert(t[j - 1] == x);
                    assert(t.contains(x));
                    assert(rt.contains(x));
                    let k = choose|k: int| 0 <= k < rt.len() && rt[k] == x;
                    assert(r[k + 1] == x);
                }
            }
            if x == c {
                assert(rt.contains(c));
                let k = choose|k: int| 0 <= k < rt.len() && rt[k] == c;
                assert(r[k + 1] == x);
            }
        }
    } else {
        lemma_lex_trichotomy(s[0], c);
        assert(c != s[0]);
        assert(lex_lt(c, s[0]));
        assert(r == seq![c] + s);
        assert forall|i: int, j: int| 0 <= i < j < r.len() implies lex_lt(
            #[trigger] r[i],
            #[trigger] r[j],
        ) by {
            if i == 0 {
                assert(r[0] == c && r[j] == s[j - 1]);
                if j == 1 {
                    assert(lex_lt(c, s[0]));
                } else {
                    lemma_lex_trans(c, s[0], s[j - 1]);
                }
            } else {
                assert(r[i] == s[i - 1] && r[j] == s[j - 1]);
            }
        }
        assert forall|x: Seq<u8>| r.contains(x) == (s.contains(x) || x == c) by {
            if r.contains(x) {
                let j = choose|j: int| 0 <= j < r.len() && r[j] == x;
                if j > 0 {
                    assert(s[j - 1] == x);
                }
            }
            if s.contains(x) {
                let j = choose|j: int| 0 <= j < s.len() && s[j] == x;
                assert(r[j + 1] == x);
            }
            if x == c {
                assert(r[0] == x);
            }
        }
    }
}

/// Lexicographic order is transitive.
pub proof fn lemma_lex_trans(a: Seq<u8>, b: Seq<u8>, c: Seq<u8>)
    requires
        lex_lt(a, b),
        lex_lt(b, c),
    ensures
        lex_lt(a, c),
    decreases a.len() + b.len() + c.len(),
{
    if b.len() > 0 && c.len() > 0 && a.len() > 0 {
        if a[0] == b[0] && b[0] == c[0] {
            lemma_lex_trans(a.drop_first(), b.drop_first(), c.drop_first());
        }
    }
}

/// The values of `s` sorted into ascending lexicographic order by repeated
/// insertion.
pub open spec fn spec_sort_lex(s: Seq<Seq<u8>>) -> Seq<Seq<u8>>
    decreases s.len(),
{
    if s.len() == 0 {
        Seq::empty()
    } else {
        spec_insert_sorted(s.last(), spec_sort_lex(s.drop_last()))
    }
}

/// Sorting a duplicate-free list yields a strictly ascending list with the
/// same values.
pub proof fn lemma_sort_lex(s: Seq<Seq<u8>>)
    requires
        s.no_duplicates(),
    ensures
        strict_sorted(spec_sort_lex(s)),
        spec_sort_lex(s).len() == s.len(),
        forall|x: Seq<u8>| spec_sort_lex(s).contains(x) == s.contains(x),
    decreases s.len(),
{
    if s.len() > 0 {
        let t = s.drop_last();
        assert forall|i: int, j: int| 0 <= i < j < t.len() implies t[i] != t[j] by {
            assert(t[i] == s[i] && t[j] == s[j]);
        }
        lemma_sort_lex(t);
        if spec_sort_lex(t).contains(s.last()) {
            assert(t.contains(s.last()));
            let j = choose|j: int| 0 <= j < t.len() && t[j] == s.last();
            assert(s[j] == s.last());
            assert(false);
        }
        lemma_insert_sorted(s.last(), spec_sort_lex(t));
        assert forall|x: Seq<u8>| spec_sort_lex(s).contains(x) == s.contains(x) by {
            if t.contains(x) {
                let j = choose|j: int| 0 <= j < t.len() && t[j] == x;
                assert(s[j] == x);
            }
            if s.contains(x) && x != s.last() {
                let j = choose|j: int| 0 <= j < s.len() && s[j] == x;
                if j < s.len() - 1 {
                    assert(t[j] == x);
                } else {
                    assert(false);
                }
            }
        }
    }
}

/// Inserts `c` into the sorted vector `s`; see `spec_insert_sorted`.
pub fn insert_sorted(s: &mut Vec<Vec<u8>>, c: Vec<u8>)
    ensures
        crate::text::views(final(s)@) == spec_insert_sorted(c@, crate::text::views(old(s)@)),
{
    let ghost sv = crate::text::views(s@);
    let mut pos: usize = 0;
    while pos < s.len() && lex_lt_bytes(&s[pos], &c)
        invariant
            0 <= pos <= s.len(),
            sv == crate::text::views(s@),
            forall|j: int| 0 <= j < pos ==> lex_lt(#[trigger] sv[j], c@),
        decreases s.len() - pos,
    {
        pos = pos + 1;
    }
    let ghost stop_lt = pos < s.len();
    proof {
        if pos < s.len() {
            assert(!lex_lt(sv[pos as int], c@));
        }
    }
    s.insert(pos, c);
    proof {
        lemma_insert_sorted_at(c@, sv, pos as int);
        assert(crate::text::views(s@) =~= sv.insert(pos as int, c@));
    }
}

/// If the first `pos` elements are below `c` and the element at `pos` (if
/// any) is not, insertion lands at `pos`.
proof fn lemma_insert_sorted_at(c: Seq<u8>, s: Seq<Seq<u8>>, pos: int)
    requires
        0 <= pos <= s.len(),
        forall|j: int| 0 <= j < pos ==> lex_lt(#[trigger] s[j], c),
        pos < s.len() ==> !lex_lt(s[pos], c),
    ensures
        spec_insert_sorted(c, s) == s.insert(pos, c),
    decreases pos,
{
    if s.len() == 0 {
        assert(spec_insert_sorted(c, s) =~= s.insert(0, c));
    } else if pos == 0 {
        assert(spec_insert_sorted(c, s) == seq![c] + s);
        assert(seq![c] + s =~= s.insert(0, c));
    } else {
        let t = s.drop_first();
        assert forall|j: int| 0 <= j < pos - 1 implies lex_lt(#[trigger] t[j], c) by {
            assert(t[j] == s[j + 1]);
        }
        if pos - 1 < t.len() {
            assert(t[pos - 1] == s[pos]);
        }
        lemma_insert_sorted_at(c, t, pos - 1);
        assert(spec_insert_sorted(c, s) == seq![s[0]] + t.insert(pos - 1, c));
        assert(seq![s[0]] + t.insert(pos - 1, c) =~= s.insert(pos, c));
    }
}

} // verus!
