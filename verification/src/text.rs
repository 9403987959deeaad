//! Byte-level text primitives: whitespace trimming, prefix and substring
//! search, line splitting and joining. Every document transformation in this
//! crate is built from these.

use vstd::prelude::*;

verus! {

/// The bytes that count as whitespace when a line is trimmed: space, tab,
/// line feed, vertical tab, form feed, carriage return.
pub open spec fn is_ws(b: u8) -> bool {
    b == 32 || b == 9 || b == 10 || b == 11 || b == 12 || b == 13
}

/// Executable twin of `is_ws`.
pub fn byte_is_ws(b: u8) -> (r: bool)
    ensures
        r == is_ws(b),
{
    b == 32 || b == 9 || b == 10 || b == 11 || b == 12 || b == 13
}

/// `s` with leading whitespace removed.
pub open spec fn spec_trim_start(s: Seq<u8>) -> Seq<u8>
    decreases s.len(),
{
    if s.len() > 0 && is_ws(s[0]) {
        spec_trim_start(s.drop_first())
    } else {
        s
    }
}

/// `s` with trailing whitespace removed.
pub open spec fn spec_trim_end(s: Seq<u8>) -> Seq<u8>
    decreases s.len(),
{
    if s.len() > 0 && is_ws(s.last()) {
        spec_trim_end(s.drop_last())
    } else {
        s
    }
}

/// `s` with whitespace removed at both ends.
pub open spec fn spec_trim(s: Seq<u8>) -> Seq<u8> {
    spec_trim_end(spec_trim_start(s))
}

/// The number of leading whitespace bytes of `s`; used as the indentation
/// depth of a line.
pub open spec fn spec_indent(s: Seq<u8>) -> nat
    decreases s.len(),
{
    if s.len() > 0 && is_ws(s[0]) {
        1 + spec_indent(s.drop_first())
    } else {
        0
    }
}

proof fn lemma_trim_start_skip(s: Seq<u8>, k: int)
    requires
        0 <= k <= s.len(),
        forall|j: int| 0 <= j < k ==> is_ws(s[j]),
    ensures
        spec_trim_start(s) == spec_trim_start(s.subrange(k, s.len() as int)),
    decreases k,
{
    if k > 0 {
        assert(s.drop_first() =~= s.subrange(1, s.len() as int));
        lemma_trim_start_skip(s.drop_first(), k - 1);
        assert(s.drop_first().subrange(k - 1, s.drop_first().len() as int) =~= s.subrange(
            k,
            s.len() as int,
        ));
    } else {
        assert(s.subrange(0, s.len() as int) =~= s);
    }
}

proof fn lemma_trim_start_fixed(s: Seq<u8>)
    requires
        s.len() == 0 || !is_ws(s[0]),
    ensures
        spec_trim_start(s) == s,
{
}

proof fn lemma_trim_end_skip(s: Seq<u8>, k: int)
    requires
        0 <= k <= s.len(),
        forall|j: int| k <= j < s.len() ==> is_ws(s[j]),
    ensures
        spec_trim_end(s) == spec_trim_end(s.subrange(0, k)),
    decreases s.len() - k,
{
    if k < s.len() {
        assert(s.drop_last() =~= s.subrange(0, s.len() - 1));
        lemma_trim_end_skip(s.drop_last(), k);
        assert(s.drop_last().subrange(0, k) =~= s.subrange(0, k));
    } else {
        assert(s.subrange(0, s.len() as int) =~= s);
    }
}

proof fn lemma_trim_end_fixed(s: Seq<u8>)
    requires
        s.len() == 0 || !is_ws(s.last()),
    ensures
        spec_trim_end(s) == s,
{
}

pub proof fn lemma_trim_start_len(s: Seq<u8>)
    ensures
        spec_trim_start(s).len() <= s.len(),
    decreases s.len(),
{
    if s.len() > 0 && is_ws(s[0]) {
        lemma_trim_start_len(s.drop_first());
    }
}

pub proof fn lemma_trim_end_len(s: Seq<u8>)
    ensures
        spec_trim_end(s).len() <= s.len(),
    decreases s.len(),
{
    if s.len() > 0 && is_ws(s.last()) {
        lemma_trim_end_len(s.drop_last());
    }
}

/// A sequence whose end bytes are not whitespace is its own trimmed form.
pub proof fn lemma_trim_noop(s: Seq<u8>)
    requires
        s.len() == 0 || (!is_ws(s[0]) && !is_ws(s.last())),
    ensures
        spec_trim(s) == s,
{
}

/// A trimmed fixed point is also fixed under one-sided trimming, and its end
/// bytes are not whitespace.
pub proof fn lemma_trim_parts(s: Seq<u8>)
    requires
        spec_trim(s) == s,
    ensures
        spec_trim_start(s) == s,
        spec_trim_end(s) == s,
        s.len() > 0 ==> !is_ws(s[0]) && !is_ws(s.last()),
{
    lemma_trim_start_len(s);
    lemma_trim_end_len(spec_trim_start(s));
    if s.len() > 0 && is_ws(s[0]) {
        lemma_trim_start_len(s.drop_first());
        assert(spec_trim_start(s).len() < s.len());
        assert(false);
    }
    assert(spec_trim_start(s) == s);
    if s.len() > 0 && is_ws(s.last()) {
        lemma_trim_end_len(s.drop_last());
        assert(spec_trim_end(s).len() < s.len());
        assert(false);
    }
}

/// Copies `s[from..to]` into a fresh vector.
pub fn subvec(s: &Vec<u8>, from: usize, to: usize) -> (r: Vec<u8>)
    requires
        from <= to <= s.len(),
    ensures
        r@ == s@.subrange(from as int, to as int),
{
    let mut r: Vec<u8> = Vec::new();
    let mut i: usize = from;
    while i < to
        invariant
            from <= i <= to <= s.len(),
            r@ =~= s@.subrange(from as int, i as int),
        decreases to - i,
    {
        r.push(s[i]);
        i = i + 1;
        assert(r@ =~= s@.subrange(from as int, i as int));
    }
    assert(r@ =~= s@.subrange(from as int, to as int));
    r
}

/// The number of leading whitespace bytes of `line`.
pub fn indent_of(line: &Vec<u8>) -> (r: usize)
    ensures
        r == spec_indent(line@),
        r <= line@.len(),
{
    let mut i: usize = 0;
    proof {
        assert(line@.subrange(0, line@.len() as int) =~= line@);
    }
    while i < line.len() && byte_is_ws(line[i])
        invariant
            0 <= i <= line.len(),
            spec_indent(line@) == i + spec_indent(line@.subrange(i as int, line@.len() as int)),
            forall|j: int| 0 <= j < i ==> is_ws(line@[j]),
        decreases line.len() - i,
    {
        proof {
            let rest = line@.subrange(i as int, line@.len() as int);
            assert(rest[0] == line@[i as int]);
            assert(rest.drop_first() =~= line@.subrange(i + 1, line@.len() as int));
        }
        i = i + 1;
    }
    proof {
        let rest = line@.subrange(i as int, line@.len() as int);
        assert(rest.len() == 0 || !is_ws(rest[0]));
        assert(spec_indent(rest) == 0);
    }
    i
}

/// Removes whitespace from both ends of `s`.
pub fn trim_bytes(s: &Vec<u8>) -> (r: Vec<u8>)
    ensures
        r@ == spec_trim(s@),
{
    let mut lo: usize = 0;
    while lo < s.len() && byte_is_ws(s[lo])
        invariant
            0 <= lo <= s.len(),
            forall|j: int| 0 <= j < lo ==> is_ws(s@[j]),
        decreases s.len() - lo,
    {
        lo = lo + 1;
    }
    let mut hi: usize = s.len();
    while hi > lo && byte_is_ws(s[hi - 1])
        invariant
            lo <= hi <= s.len(),
            forall|j: int| 0 <= j < lo ==> is_ws(s@[j]),
            forall|j: int| hi <= j < s.len() ==> is_ws(s@[j]),
        decreases hi,
    {
        hi = hi - 1;
    }
    let r = subvec(s, lo, hi);
    proof {
        lemma_trim_start_skip(s@, lo as int);
        let tail = s@.subrange(lo as int, s@.len() as int);
        lemma_trim_start_fixed(tail);
        lemma_trim_end_skip(tail, hi - lo);
        assert(tail.subrange(0, hi - lo) =~= s@.subrange(lo as int, hi as int));
        let mid = s@.subrange(lo as int, hi as int);
        lemma_trim_end_fixed(mid);
    }
    r
}

/// Whether `p` occurs in `s` starting at index `i`.
pub open spec fn matches_at(s: Seq<u8>, p: Seq<u8>, i: int) -> bool {
    0 <= i && i + p.len() <= s.len() && s.subrange(i, i + p.len() as int) == p
}

/// Whether `p` is a prefix of `s`.
pub open spec fn spec_starts_with(s: Seq<u8>, p: Seq<u8>) -> bool {
    matches_at(s, p, 0)
}

/// Whether `p` occurs anywhere in `s`.
pub open spec fn spec_contains(s: Seq<u8>, p: Seq<u8>) -> bool {
    exists|i: int| matches_at(s, p, i)
}

/// Whether `p` occurs at `i` and nowhere earlier than `i`.
pub open spec fn first_match_at(s: Seq<u8>, p: Seq<u8>, i: int) -> bool {
    matches_at(s, p, i) && forall|j: int| 0 <= j < i ==> !matches_at(s, p, j)
}

/// Whether the bytes of `s` and `p` agree from `i` on for `p.len()` bytes;
/// executable version of `matches_at`.
pub fn matches_at_exec(s: &Vec<u8>, p: &Vec<u8>, i: usize) -> (r: bool)
    requires
        i <= s.len(),
    ensures
        r == matches_at(s@, p@, i as int),
{
    if p.len() > s.len() - i {
        proof {
            assert(!matches_at(s@, p@, i as int));
        }
        return false;
    }
    let mut k: usize = 0;
    while k < p.len()
        invariant
            i + p.len() <= s.len(),
            0 <= k <= p.len(),
            forall|j: int| 0 <= j < k ==> s@[i + j] == p@[j],
        decreases p.len() - k,
    {
        if s[i + k] != p[k] {
            proof {
                assert(s@.subrange(i as int, i + p@.len() as int)[k as int] == s@[i + k]);
                assert(!matches_at(s@, p@, i as int));
            }
            return false;
        }
        k = k + 1;
    }
    proof {
        assert(s@.subrange(i as int, i + p@.len() as int) =~= p@);
    }
    true
}

/// Whether two byte vectors hold the same bytes.
pub fn bytes_eq(a: &Vec<u8>, b: &Vec<u8>) -> (r: bool)
    ensures
        r == (a@ == b@),
{
    let r = a == b;
    proof {
        if r {
            assert(a@ =~= b@);
        }
    }
    r
}

/// Whether `p` is a prefix of `s`.
pub fn starts_with(s: &Vec<u8>, p: &Vec<u8>) -> (r: bool)
    ensures
        r == spec_starts_with(s@, p@),
{
    matches_at_exec(s, p, 0)
}

/// The position of the first occurrence of `p` in `s` at or after `from`,
/// if any occurrence exists there.
pub fn find_sub(s: &Vec<u8>, p: &Vec<u8>, from: usize) -> (r: Option<usize>)
    requires
        from <= s.len(),
    ensures
        match r {
            Some(i) => {
                &&& from <= i <= s.len()
                &&& matches_at(s@, p@, i as int)
                &&& forall|j: int| from <= j < i ==> !matches_at(s@, p@, j)
            },
            None => forall|j: int| from <= j ==> !matches_at(s@, p@, j),
        },
{
    let mut i: usize = from;
    while i < s.len()
        invariant
            from <= i <= s.len(),
            forall|j: int| from <= j < i ==> !matches_at(s@, p@, j),
        decreases s.len() - i,
    {
        if matches_at_exec(s, p, i) {
            return Some(i);
        }
        i = i + 1;
    }
    if matches_at_exec(s, p, s.len()) {
        return Some(s.len());
    }
    proof {
        assert forall|j: int| from <= j implies !matches_at(s@, p@, j) by {
            if j > s@.len() {
                assert(!matches_at(s@, p@, j));
            }
        }
    }
    None
}

/// Whether `p` occurs anywhere in `s`.
pub fn contains_sub(s: &Vec<u8>, p: &Vec<u8>) -> (r: bool)
    ensures
        r == spec_contains(s@, p@),
{
    match find_sub(s, p, 0) {
        Some(_) => true,
        None => {
            proof {
                assert forall|j: int| !matches_at(s@, p@, j) by {
                    if 0 <= j {
                        assert(!matches_at(s@, p@, j));
                    }
                }
            }
            false
        },
    }
}

/// The position of the first occurrence of byte `b` in `s` at or after
/// `from`, if there is one.
pub fn find_byte(s: &Vec<u8>, b: u8, from: usize) -> (r: Option<usize>)
    requires
        from <= s.len(),
    ensures
        match r {
            Some(i) => {
                &&& from <= i < s.len()
                &&& s@[i as int] == b
                &&& forall|j: int| from <= j < i ==> s@[j] != b
            },
            None => forall|j: int| from <= j < s@.len() ==> s@[j] != b,
        },
{
    let mut i: usize = from;
    while i < s.len()
        invariant
            from <= i <= s.len(),
            forall|j: int| from <= j < i ==> s@[j] != b,
        decreases s.len() - i,
    {
        if s[i] == b {
            return Some(i);
        }
        i = i + 1;
    }
    None
}

/// A pattern longer than the text never occurs in it.
pub proof fn lemma_no_match_too_long(s: Seq<u8>, p: Seq<u8>)
    requires
        p.len() > s.len(),
    ensures
        !spec_contains(s, p),
{
    assert forall|i: int| !matches_at(s, p, i) by {}
}

/// A pattern whose first byte stands at no feasible position never occurs.
pub proof fn lemma_no_match_first_byte(s: Seq<u8>, p: Seq<u8>)
    requires
        p.len() > 0,
        forall|i: int| 0 <= i && i + p.len() <= s.len() ==> s[i] != p[0],
    ensures
        !spec_contains(s, p),
{
    assert forall|i: int| !matches_at(s, p, i) by {
        if 0 <= i && i + p.len() <= s.len() {
            if s.subrange(i, i + p.len() as int) == p {
                assert(s.subrange(i, i + p.len() as int)[0] == s[i]);
            }
        }
    }
}

/// A pattern whose first two bytes stand together at no feasible position
/// never occurs.
pub proof fn lemma_no_match_two_bytes(s: Seq<u8>, p: Seq<u8>)
    requires
        p.len() >= 2,
        forall|i: int| 0 <= i && i + p.len() <= s.len() ==> #[trigger] s[i] != p[0] || s[i + 1]
            != p[1],
    ensures
        !spec_contains(s, p),
{
    assert forall|i: int| !matches_at(s, p, i) by {
        if 0 <= i && i + p.len() <= s.len() {
            if s.subrange(i, i + p.len() as int) == p {
                assert(s.subrange(i, i + p.len() as int)[0] == s[i]);
                assert(s.subrange(i, i + p.len() as int)[1] == s[i + 1]);
            }
        }
    }
}

/// A witnessed match position shows the pattern occurs.
pub proof fn lemma_contains_at(s: Seq<u8>, p: Seq<u8>, i: int)
    requires
        matches_at(s, p, i),
    ensures
        spec_contains(s, p),
{
}

/// The index of the leftmost occurrence of `p` in `s`, or `s.len()` if
/// there is none.
pub open spec fn first_sub(s: Seq<u8>, p: Seq<u8>) -> int
    decreases s.len(),
{
    if matches_at(s, p, 0) {
        0
    } else if s.len() == 0 {
        0
    } else {
        1 + first_sub(s.drop_first(), p)
    }
}

/// A match one step into `s` is a match at the head of its tail.
pub proof fn lemma_matches_shift(s: Seq<u8>, p: Seq<u8>, j: int)
    requires
        0 <= j,
        s.len() > 0,
    ensures
        matches_at(s, p, j + 1) == matches_at(s.drop_first(), p, j),
{
    if j + 1 + p.len() <= s.len() {
        assert(s.subrange(j + 1, j + 1 + p.len() as int) =~= s.drop_first().subrange(
            j,
            j + p.len() as int,
        ));
    }
}

pub proof fn lemma_first_sub(s: Seq<u8>, p: Seq<u8>)
    requires
        p.len() > 0,
    ensures
        0 <= first_sub(s, p) <= s.len(),
        forall|j: int| 0 <= j < first_sub(s, p) ==> !matches_at(s, p, j),
        first_sub(s, p) < s.len() ==> matches_at(s, p, first_sub(s, p)),
        first_sub(s, p) == s.len() ==> forall|j: int| !matches_at(s, p, j),
    decreases s.len(),
{
    if !matches_at(s, p, 0) && s.len() > 0 {
        lemma_first_sub(s.drop_first(), p);
        assert forall|j: int| 0 <= j < first_sub(s, p) implies !matches_at(s, p, j) by {
            if j > 0 {
                lemma_matches_shift(s, p, j - 1);
            }
        }
        if first_sub(s, p) < s.len() {
            lemma_matches_shift(s, p, first_sub(s, p) - 1);
        } else {
            assert forall|j: int| !matches_at(s, p, j) by {
                if 0 < j && j + p.len() <= s.len() {
                    lemma_matches_shift(s, p, j - 1);
                }
            }
        }
    } else if s.len() == 0 {
        assert forall|j: int| !matches_at(s, p, j) by {}
    }
}

/// Copies `lines[from..to]` into a fresh vector of lines.
pub fn sub_lines(lines: &Vec<Vec<u8>>, from: usize, to: usize) -> (r: Vec<Vec<u8>>)
    requires
        from <= to <= lines.len(),
    ensures
        views(r@) == views(lines@).subrange(from as int, to as int),
{
    let mut r: Vec<Vec<u8>> = Vec::new();
    let mut i: usize = from;
    proof {
        assert(views(r@) =~= views(lines@).subrange(from as int, from as int));
    }
    while i < to
        invariant
            from <= i <= to <= lines.len(),
            views(r@) =~= views(lines@).subrange(from as int, i as int),
        decreases to - i,
    {
        let line = subvec(&lines[i], 0, lines[i].len());
        proof {
            assert(line@ =~= lines@[i as int]@);
        }
        let ghost prev = r@;
        r.push(line);
        proof {
            lemma_views_push(prev, line);
            assert(views(r@) =~= views(lines@).subrange(from as int, i + 1));
        }
        i = i + 1;
    }
    r
}

/// The views of a sequence of byte vectors, as a sequence of byte sequences.
pub open spec fn views(ls: Seq<Vec<u8>>) -> Seq<Seq<u8>> {
    ls.map_values(|l: Vec<u8>| l@)
}

/// Appending one vector to a sequence of vectors appends its view.
pub broadcast proof fn lemma_views_push(ls: Seq<Vec<u8>>, l: Vec<u8>)
    ensures
        #[trigger] views(ls.push(l)) =~= views(ls).push(l@),
{
}

/// The index of the first line feed in `s`, or `s.len()` if there is none.
pub open spec fn first_nl(s: Seq<u8>) -> int
    decreases s.len(),
{
    if s.len() == 0 {
        0
    } else if s[0] == 10 {
        0
    } else {
        1 + first_nl(s.drop_first())
    }
}

pub proof fn lemma_first_nl(s: Seq<u8>)
    ensures
        0 <= first_nl(s) <= s.len(),
        forall|j: int| 0 <= j < first_nl(s) ==> s[j] != 10,
        first_nl(s) < s.len() ==> s[first_nl(s)] == 10,
    decreases s.len(),
{
    if s.len() > 0 && s[0] != 10 {
        lemma_first_nl(s.drop_first());
        assert forall|j: int| 0 <= j < first_nl(s) implies s[j] != 10 by {
            if j > 0 {
                assert(s.drop_first()[j - 1] == s[j]);
            }
        }
    }
}

/// Joining a single line appends exactly one line feed to it.
pub proof fn lemma_unlines_singleton(l: Seq<u8>)
    ensures
        spec_unlines(seq![l]) == l + seq![10u8],
{
    assert(seq![l].drop_first() =~= Seq::<Seq<u8>>::empty());
    assert(spec_unlines(Seq::<Seq<u8>>::empty()) == Seq::<u8>::empty());
    assert(seq![l][0] == l);
    assert(spec_unlines(seq![l]) == l + seq![10u8] + Seq::<u8>::empty());
    assert(l + seq![10u8] + Seq::<u8>::empty() =~= l + seq![10u8]);
}

/// Conversely: a newline at `i` with none before it pins `first_nl`.
pub proof fn lemma_first_nl_at(s: Seq<u8>, i: int)
    requires
        0 <= i <= s.len(),
        forall|j: int| 0 <= j < i ==> s[j] != 10,
        i < s.len() ==> s[i] == 10,
        i == s.len() ==> forall|j: int| 0 <= j < s.len() ==> s[j] != 10,
    ensures
        first_nl(s) == i,
    decreases i,
{
    if i > 0 {
        assert(s[0] != 10);
        lemma_first_nl_at(s.drop_first(), i - 1);
    }
}

/// The index of the first occurrence of `b` in `s`, or `s.len()` if there
/// is none.
pub open spec fn first_byte(s: Seq<u8>, b: u8) -> int
    decreases s.len(),
{
    if s.len() == 0 {
        0
    } else if s[0] == b {
        0
    } else {
        1 + first_byte(s.drop_first(), b)
    }
}

pub proof fn lemma_first_byte(s: Seq<u8>, b: u8)
    ensures
        0 <= first_byte(s, b) <= s.len(),
        forall|j: int| 0 <= j < first_byte(s, b) ==> s[j] != b,
        first_byte(s, b) < s.len() ==> s[first_byte(s, b)] == b,
    decreases s.len(),
{
    if s.len() > 0 && s[0] != b {
        lemma_first_byte(s.drop_first(), b);
        assert forall|j: int| 0 <= j < first_byte(s, b) implies s[j] != b by {
            if j > 0 {
                assert(s.drop_first()[j - 1] == s[j]);
            }
        }
    }
}

/// Conversely: an occurrence at `i` with none before it pins `first_byte`.
pub proof fn lemma_first_byte_at(s: Seq<u8>, b: u8, i: int)
    requires
        0 <= i <= s.len(),
        forall|j: int| 0 <= j < i ==> s[j] != b,
        i < s.len() ==> s[i] == b,
        i == s.len() ==> forall|j: int| 0 <= j < s.len() ==> s[j] != b,
    ensures
        first_byte(s, b) == i,
    decreases i,
{
    if i > 0 {
        assert(s[0] != b);
        lemma_first_byte_at(s.drop_first(), b, i - 1);
    }
}

/// Appends copies of the lines of `src` to `dst`.
pub fn append_lines(dst: &mut Vec<Vec<u8>>, src: &Vec<Vec<u8>>)
    ensures
        views(final(dst)@) == views(old(dst)@) + views(src@),
{
    let mut i: usize = 0;
    proof {
        assert(views(dst@) =~= views(old(dst)@) + views(src@).subrange(0, 0));
    }
    while i < src.len()
        invariant
            0 <= i <= src.len(),
            views(dst@) =~= views(old(dst)@) + views(src@).subrange(0, i as int),
        decreases src.len() - i,
    {
        let line = subvec(&src[i], 0, src[i].len());
        proof {
            assert(line@ =~= src@[i as int]@);
        }
        let ghost prev = dst@;
        dst.push(line);
        proof {
            lemma_views_push(prev, line);
            assert(views(dst@) =~= views(old(dst)@) + views(src@).subrange(0, i + 1));
        }
        i = i + 1;
    }
    proof {
        assert(views(src@).subrange(0, src@.len() as int) =~= views(src@));
    }
}

/// The lines of `s`: maximal runs of bytes between line feeds. A trailing
/// line feed ends the last line rather than opening an empty one, so
/// `"a\nb\n"` and `"a\nb"` both split into `["a", "b"]`.
pub open spec fn spec_lines(s: Seq<u8>) -> Seq<Seq<u8>>
    decreases s.len(),
{
    if s.len() == 0 {
        Seq::empty()
    } else {
        let i = first_nl(s);
        if 0 <= i && i < s.len() {
            seq![s.subrange(0, i)] + spec_lines(s.subrange(i + 1, s.len() as int))
        } else {
            seq![s]
        }
    }
}

/// The concatenation of `ls` with a line feed after every line.
pub open spec fn spec_unlines(ls: Seq<Seq<u8>>) -> Seq<u8>
    decreases ls.len(),
{
    if ls.len() == 0 {
        Seq::empty()
    } else {
        ls[0] + seq![10u8] + spec_unlines(ls.drop_first())
    }
}

/// The concatenation of `ls` with a line feed between lines but not at the
/// end.
pub open spec fn spec_join_nl(ls: Seq<Seq<u8>>) -> Seq<u8>
    decreases ls.len(),
{
    if ls.len() == 0 {
        Seq::empty()
    } else if ls.len() == 1 {
        ls[0]
    } else {
        ls[0] + seq![10u8] + spec_join_nl(ls.drop_first())
    }
}

/// No line produced by `spec_lines` contains a line feed.
pub proof fn lemma_lines_no_nl(s: Seq<u8>)
    ensures
        forall|k: int|
            0 <= k < spec_lines(s).len() ==> !#[trigger] spec_lines(s)[k].contains(10u8),
    decreases s.len(),
{
    lemma_first_nl(s);
    if s.len() > 0 {
        let i = first_nl(s);
        if i < s.len() {
            lemma_lines_no_nl(s.subrange(i + 1, s.len() as int));
            assert forall|k: int|
                0 <= k < spec_lines(s).len() implies !#[trigger] spec_lines(s)[k].contains(10u8) by {
                if k == 0 {
                    let l = s.subrange(0, i);
                    assert forall|m: int| 0 <= m < l.len() implies l[m] != 10 by {
                        assert(l[m] == s[m]);
                    }
                    if l.contains(10u8) {
                        let m = choose|m: int| 0 <= m < l.len() && l[m] == 10u8;
                        assert(false);
                    }
                } else {
                    assert(spec_lines(s)[k] == spec_lines(s.subrange(i + 1, s.len() as int))[k - 1]);
                }
            }
        } else {
            assert forall|k: int|
                0 <= k < spec_lines(s).len() implies !#[trigger] spec_lines(s)[k].contains(10u8) by {
                assert(spec_lines(s)[k] == s);
                if s.contains(10u8) {
                    let m = choose|m: int| 0 <= m < s.len() && s[m] == 10u8;
                    assert(false);
                }
            }
        }
    }
}

/// Joining the lines of `s` with trailing line feeds restores `s`, up to a
/// single line feed added at the end when `s` does not already end in one.
pub proof fn lemma_unlines_lines(s: Seq<u8>)
    ensures
        s.len() == 0 || s.last() == 10 ==> spec_unlines(spec_lines(s)) == s,
        s.len() > 0 && s.last() != 10 ==> spec_unlines(spec_lines(s)) == s + seq![10u8],
    decreases s.len(),
{
    lemma_first_nl(s);
    if s.len() > 0 {
        let i = first_nl(s);
        if i == s.len() {
            assert(s.last() != 10);
            assert(spec_lines(s) == seq![s]);
            lemma_unlines_singleton(s);
        } else {
            let rest = s.subrange(i + 1, s.len() as int);
            lemma_unlines_lines(rest);
            let ls = spec_lines(s);
            assert(ls == seq![s.subrange(0, i)] + spec_lines(rest));
            assert(ls[0] == s.subrange(0, i));
            assert(ls.drop_first() =~= spec_lines(rest));
            if rest.len() == 0 {
                assert(s.last() == 10);
                assert(i + 1 == s.len());
                assert(spec_unlines(ls) =~= s.subrange(0, i) + seq![10u8]);
                assert(s.subrange(0, i) + seq![10u8] =~= s);
            } else {
                assert(rest.last() == s.last());
                if s.last() == 10 {
                    assert(spec_unlines(ls) =~= s.subrange(0, i) + seq![10u8] + rest);
                    assert(s.subrange(0, i) + seq![10u8] + rest =~= s);
                } else {
                    assert(spec_unlines(ls) =~= s.subrange(0, i) + seq![10u8] + (rest
                        + seq![10u8]));
                    assert(s.subrange(0, i) + seq![10u8] + (rest + seq![10u8]) =~= s + seq![10u8]);
                }
            }
        }
    }
}

/// Splitting what `spec_unlines` joined restores the lines, provided no line
/// contains a line feed.
pub proof fn lemma_lines_unlines(ls: Seq<Seq<u8>>)
    requires
        forall|k: int| 0 <= k < ls.len() ==> !#[trigger] ls[k].contains(10u8),
    ensures
        spec_lines(spec_unlines(ls)) == ls,
    decreases ls.len(),
{
    if ls.len() > 0 {
        let s = spec_unlines(ls);
        let head = ls[0];
        let rest = spec_unlines(ls.drop_first());
        assert(s == head + seq![10u8] + rest);
        assert forall|j: int| 0 <= j < head.len() implies s[j] != 10 by {
            assert(s[j] == head[j]);
            if head[j] == 10 {
                assert(head.contains(10u8));
            }
        }
        assert(s[head.len() as int] == 10);
        lemma_first_nl_at(s, head.len() as int);
        assert(s.subrange(0, head.len() as int) =~= head);
        assert(s.subrange(head.len() as int + 1, s.len() as int) =~= rest);
        assert forall|k: int| 0 <= k < ls.drop_first().len() implies !#[trigger] ls.drop_first()[k].contains(10u8) by {
            assert(ls.drop_first()[k] == ls[k + 1]);
        }
        lemma_lines_unlines(ls.drop_first());
        assert(spec_lines(s) =~= ls);
    }
}

/// Splits `s` into lines at line feed bytes; see `spec_lines`.
pub fn split_lines(s: &Vec<u8>) -> (r: Vec<Vec<u8>>)
    ensures
        views(r@) == spec_lines(s@),
{
    let mut r: Vec<Vec<u8>> = Vec::new();
    let mut pos: usize = 0;
    proof {
        assert(s@.subrange(0, s@.len() as int) =~= s@);
        assert(views(r@) + spec_lines(s@) =~= spec_lines(s@));
    }
    while pos < s.len()
        invariant
            0 <= pos <= s.len(),
            spec_lines(s@) =~= views(r@) + spec_lines(s@.subrange(pos as int, s@.len() as int)),
        decreases s.len() - pos,
    {
        let ghost tail = s@.subrange(pos as int, s@.len() as int);
        match find_byte(s, 10, pos) {
            Some(i) => {
                let line = subvec(s, pos, i);
                r.push(line);
                proof {
                    assert forall|j: int| 0 <= j < i - pos implies tail[j] != 10 by {
                        assert(tail[j] == s@[pos + j]);
                    }
                    assert(tail[i - pos] == 10);
                    lemma_first_nl_at(tail, i - pos);
                    assert(tail.subrange(0, i - pos) =~= s@.subrange(pos as int, i as int));
                    assert(tail.subrange(i - pos + 1, tail.len() as int) =~= s@.subrange(
                        i + 1,
                        s@.len() as int,
                    ));
                    assert(spec_lines(tail) == seq![s@.subrange(pos as int, i as int)]
                        + spec_lines(s@.subrange(i + 1, s@.len() as int)));
                    lemma_views_push(r@.drop_last(), line);
                    assert(r@.drop_last().push(line) =~= r@);
                    assert(spec_lines(s@) =~= views(r@) + spec_lines(
                        s@.subrange(i + 1, s@.len() as int),
                    ));
                }
                pos = i + 1;
            },
            None => {
                let line = subvec(s, pos, s.len());
                r.push(line);
                proof {
                    assert forall|j: int| 0 <= j < tail.len() implies tail[j] != 10 by {
                        assert(tail[j] == s@[pos + j]);
                    }
                    lemma_first_nl_at(tail, tail.len() as int);
                    assert(spec_lines(tail) == seq![tail]);
                    lemma_views_push(r@.drop_last(), line);
                    assert(r@.drop_last().push(line) =~= r@);
                    assert(s@.subrange(s@.len() as int, s@.len() as int) =~= Seq::<u8>::empty());
                    assert(spec_lines(s@) =~= views(r@) + spec_lines(
                        s@.subrange(s@.len() as int, s@.len() as int),
                    ));
                }
                pos = s.len();
            },
        }
    }
    proof {
        assert(s@.subrange(pos as int, s@.len() as int) =~= Seq::<u8>::empty());
        assert(views(r@) =~= spec_lines(s@));
    }
    r
}

/// Appends `suffix` to `acc`.
pub fn push_all(acc: &mut Vec<u8>, suffix: &Vec<u8>)
    ensures
        final(acc)@ == old(acc)@ + suffix@,
{
    let mut i: usize = 0;
    while i < suffix.len()
        invariant
            0 <= i <= suffix.len(),
            acc@ =~= old(acc)@ + suffix@.subrange(0, i as int),
        decreases suffix.len() - i,
    {
        acc.push(suffix[i]);
        i = i + 1;
        assert(acc@ =~= old(acc)@ + suffix@.subrange(0, i as int));
    }
    assert(acc@ =~= old(acc)@ + suffix@);
}

/// Joins `ls` with a line feed after every line; see `spec_unlines`.
pub fn unlines(ls: &Vec<Vec<u8>>) -> (r: Vec<u8>)
    ensures
        r@ == spec_unlines(views(ls@)),
{
    let mut r: Vec<u8> = Vec::new();
    let mut i: usize = 0;
    while i < ls.len()
        invariant
            0 <= i <= ls.len(),
            r@ =~= spec_unlines(views(ls@).subrange(0, i as int)),
        decreases ls.len() - i,
    {
        push_all(&mut r, &ls[i]);
        r.push(10);
        i = i + 1;
        proof {
            lemma_unlines_take_push(views(ls@), i as int);
        }
    }
    proof {
        assert(views(ls@).subrange(0, ls@.len() as int) =~= views(ls@));
    }
    r
}

/// Extending the prefix being joined by one line appends that line and a
/// line feed.
pub proof fn lemma_unlines_take_push(ls: Seq<Seq<u8>>, i: int)
    requires
        0 < i <= ls.len(),
    ensures
        spec_unlines(ls.subrange(0, i)) == spec_unlines(ls.subrange(0, i - 1)) + ls[i - 1]
            + seq![10u8],
    decreases i,
{
    if i == 1 {
        assert(ls.subrange(0, 1) =~= seq![ls[0]]);
        lemma_unlines_singleton(ls[0]);
        assert(spec_unlines(ls.subrange(0, 0)) =~= Seq::<u8>::empty());
        assert(spec_unlines(ls.subrange(0, 0)) + ls[0] + seq![10u8] =~= ls[0] + seq![10u8]);
    } else {
        let a = ls.subrange(0, i);
        let b = ls.subrange(0, i - 1);
        assert(a.drop_first() =~= ls.subrange(1, ls.len() as int).subrange(0, i - 1));
        assert(b.drop_first() =~= ls.subrange(1, ls.len() as int).subrange(0, i - 2));
        lemma_unlines_take_push(ls.subrange(1, ls.len() as int), i - 1);
        assert(a[0] == ls[0] && b[0] == ls[0]);
        assert(spec_unlines(a) == a[0] + seq![10u8] + spec_unlines(a.drop_first()));
        assert(spec_unlines(b) == b[0] + seq![10u8] + spec_unlines(b.drop_first()));
        assert(ls.subrange(1, ls.len() as int)[i - 2] == ls[i - 1]);
        assert(spec_unlines(a) =~= spec_unlines(b) + ls[i - 1] + seq![10u8]);
    }
}

/// Joins `ls` with a line feed between lines; see `spec_join_nl`.
pub fn join_nl(ls: &Vec<Vec<u8>>) -> (r: Vec<u8>)
    ensures
        r@ == spec_join_nl(views(ls@)),
{
    let mut r: Vec<u8> = Vec::new();
    let mut i: usize = 0;
    while i < ls.len()
        invariant
            0 <= i <= ls.len(),
            r@ =~= spec_join_nl(views(ls@).subrange(0, i as int)),
        decreases ls.len() - i,
    {
        if i > 0 {
            r.push(10);
        }
        push_all(&mut r, &ls[i]);
        i = i + 1;
        proof {
            lemma_join_nl_take_push(views(ls@), i as int);
        }
    }
    proof {
        assert(views(ls@).subrange(0, ls@.len() as int) =~= views(ls@));
    }
    r
}

/// Extending the prefix being joined by one line appends a separating line
/// feed (except for the first line) and that line.
proof fn lemma_join_nl_take_push(ls: Seq<Seq<u8>>, i: int)
    requires
        0 < i <= ls.len(),
    ensures
        i == 1 ==> spec_join_nl(ls.subrange(0, 1)) == ls[0],
        i > 1 ==> spec_join_nl(ls.subrange(0, i)) == spec_join_nl(ls.subrange(0, i - 1))
            + seq![10u8] + ls[i - 1],
    decreases i,
{
    if i == 1 {
        assert(spec_join_nl(ls.subrange(0, 1)) == ls.subrange(0, 1)[0]);
    } else if i == 2 {
        let a = ls.subrange(0, 2);
        assert(a.drop_first() =~= ls.subrange(1, 2));
        assert(spec_join_nl(ls.subrange(1, 2)) == ls[1]);
        assert(spec_join_nl(ls.subrange(0, 1)) == ls[0]);
        assert(spec_join_nl(a) =~= spec_join_nl(ls.subrange(0, 1)) + seq![10u8] + ls[1]);
    } else {
        let a = ls.subrange(0, i);
        let b = ls.subrange(0, i - 1);
        assert(a.drop_first() =~= ls.subrange(1, ls.len() as int).subrange(0, i - 1));
        assert(b.drop_first() =~= ls.subrange(1, ls.len() as int).subrange(0, i - 2));
        lemma_join_nl_take_push(ls.subrange(1, ls.len() as int), i - 1);
        assert(ls.subrange(1, ls.len() as int)[i - 2] == ls[i - 1]);
        assert(spec_join_nl(a) == a[0] + seq![10u8] + spec_join_nl(a.drop_first()));
        assert(spec_join_nl(b) == b[0] + seq![10u8] + spec_join_nl(b.drop_first()));
        assert(spec_join_nl(a) =~= spec_join_nl(b) + seq![10u8] + ls[i - 1]);
    }
}

/// Removes whitespace from the start of `s`.
pub fn trim_start_bytes(s: &Vec<u8>) -> (r: Vec<u8>)
    ensures
        r@ == spec_trim_start(s@),
{
    let mut lo: usize = 0;
    while lo < s.len() && byte_is_ws(s[lo])
        invariant
            0 <= lo <= s.len(),
            forall|j: int| 0 <= j < lo ==> is_ws(s@[j]),
        decreases s.len() - lo,
    {
        lo = lo + 1;
    }
    let r = subvec(s, lo, s.len());
    proof {
        lemma_trim_start_skip(s@, lo as int);
        lemma_trim_start_fixed(s@.subrange(lo as int, s@.len() as int));
    }
    r
}

} // verus!
