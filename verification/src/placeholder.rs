//! The placeholder resolver: finding `@{target}` markers in a document and
//! substituting referenced content for them. A target names a file, or a
//! file and an identifier split at the first colon. Resolution is purely
//! textual; a marker whose replacement is unavailable is left unchanged, so
//! that a partly resolved document remains valid Markdown. Markers are
//! resolved left to right and a substituted text is not scanned again.

use vstd::prelude::*;

use crate::language::{lowercase_bytes, spec_lang_of_ext, spec_lower};
use crate::text::{find_byte, first_byte, push_all, subvec, views};
use crate::tokens::{
    spec_inline_close, spec_inline_mid, spec_inline_open, spec_inline_open_plain, tok_inline_close,
    tok_inline_mid, tok_inline_open, tok_inline_open_plain,
};

verus! {

/// Whether a placeholder marker opens at `i`: the bytes `@{`, then at least
/// one content byte that is not a closing brace, then a closing brace
/// somewhere after.
pub open spec fn ph_match_at(s: Seq<u8>, i: int) -> bool {
    &&& 0 <= i
    &&& i + 2 < s.len()
    &&& s[i] == 64
    &&& s[i + 1] == 123
    &&& s[i + 2] != 125
    &&& exists|k: int| i + 2 < k < s.len() && s[k] == 125
}

/// The index of the closing brace of the marker opening at `i`: the first
/// closing brace after the opening.
pub open spec fn ph_close(s: Seq<u8>, i: int) -> int {
    i + 2 + first_byte(s.subrange(i + 2, s.len() as int), 125)
}

/// The position of the first marker at or after `from`, or `s.len()` when
/// there is none.
pub open spec fn next_ph(s: Seq<u8>, from: int) -> int
    decreases s.len() - from,
    when from <= s.len()
{
    if from >= s.len() {
        s.len() as int
    } else if ph_match_at(s, from) {
        from
    } else {
        next_ph(s, from + 1)
    }
}

pub proof fn lemma_next_ph(s: Seq<u8>, from: int)
    requires
        0 <= from <= s.len(),
    ensures
        from <= next_ph(s, from) <= s.len(),
        forall|j: int| from <= j < next_ph(s, from) ==> !ph_match_at(s, j),
        next_ph(s, from) < s.len() ==> ph_match_at(s, next_ph(s, from)),
    decreases s.len() - from,
{
    if from < s.len() && !ph_match_at(s, from) {
        lemma_next_ph(s, from + 1);
    }
}

/// Conversely: a marker at `i` with none between pins `next_ph`.
pub proof fn lemma_next_ph_at(s: Seq<u8>, from: int, i: int)
    requires
        0 <= from <= i <= s.len(),
        forall|j: int| from <= j < i ==> !ph_match_at(s, j),
        i < s.len() ==> ph_match_at(s, i),
        i == s.len() ==> forall|j: int| from <= j < s.len() ==> !ph_match_at(s, j),
    ensures
        next_ph(s, from) == i,
    decreases i - from,
{
    if from < i {
        lemma_next_ph_at(s, from + 1, i);
    }
}

/// The bounds of the closing brace of a marker.
pub proof fn lemma_ph_close(s: Seq<u8>, i: int)
    requires
        ph_match_at(s, i),
    ensures
        i + 2 < ph_close(s, i) < s.len(),
        s[ph_close(s, i)] == 125,
        forall|j: int| i + 2 <= j < ph_close(s, i) ==> s[j] != 125,
{
    let tail = s.subrange(i + 2, s.len() as int);
    crate::text::lemma_first_byte(tail, 125);
    let k = choose|k: int| i + 2 < k < s.len() && s[k] == 125;
    assert(tail[k - i - 2] == 125);
    assert(first_byte(tail, 125) <= k - i - 2) by {
        if first_byte(tail, 125) > k - i - 2 {
            assert(tail[k - i - 2] != 125);
        }
    }
    assert(tail[0] == s[i + 2]);
    assert(first_byte(tail, 125) > 0) by {
        if first_byte(tail, 125) == 0 {
            assert(tail[0] == 125);
        }
    }
    assert(tail[first_byte(tail, 125)] == 125);
    assert(s[ph_close(s, i)] == 125);
    assert forall|j: int| i + 2 <= j < ph_close(s, i) implies s[j] != 125 by {
        assert(tail[j - i - 2] != 125);
    }
}

/// The markers of `s` from `from` on: for each, the index of its `@` and
/// the index one past its closing brace, in text order, non-overlapping.
pub open spec fn ph_list(s: Seq<u8>, from: int) -> Seq<(int, int)>
    decreases s.len() - from,
    when 0 <= from <= s.len()
{
    let i = next_ph(s, from);
    if i >= s.len() {
        Seq::empty()
    } else {
        let k = ph_close(s, i);
        if from <= i && i + 2 < k && k < s.len() {
            seq![(i, k + 1)] + ph_list(s, k + 1)
        } else {
            Seq::empty()
        }
    }
}

/// The target of a marker `(i, j)`: the bytes between `@{` and the closing
/// brace.
pub open spec fn ph_target(s: Seq<u8>, m: (int, int)) -> Seq<u8> {
    s.subrange(m.0 + 2, m.1 - 1)
}

/// `s` from `from` on, with the `n`-th marker from there replaced by
/// `repls[n]` where that is present, and left unchanged where it is absent
/// or `repls` is exhausted.
pub open spec fn spec_substitute(s: Seq<u8>, from: int, repls: Seq<Option<Seq<u8>>>) -> Seq<u8>
    decreases s.len() - from,
    when 0 <= from <= s.len()
{
    let i = next_ph(s, from);
    if i >= s.len() {
        s.subrange(from, s.len() as int)
    } else {
        let k = ph_close(s, i);
        if from <= i && i + 2 < k && k < s.len() {
            s.subrange(from, i) + (if repls.len() > 0 && repls[0] is Some {
                repls[0]->0
            } else {
                s.subrange(i, k + 1)
            }) + spec_substitute(
                s,
                k + 1,
                if repls.len() > 0 {
                    repls.drop_first()
                } else {
                    repls
                },
            )
        } else {
            s.subrange(from, s.len() as int)
        }
    }
}

/// Leaving every marker unresolved returns the text unchanged, byte for
/// byte.
pub proof fn lemma_substitute_nothing(s: Seq<u8>, from: int, repls: Seq<Option<Seq<u8>>>)
    requires
        0 <= from <= s.len(),
        forall|n: int| 0 <= n < repls.len() ==> repls[n] is None,
    ensures
        spec_substitute(s, from, repls) == s.subrange(from, s.len() as int),
    decreases s.len() - from,
{
    let i = next_ph(s, from);
    lemma_next_ph(s, from);
    if i < s.len() {
        lemma_ph_close(s, i);
        let k = ph_close(s, i);
        let rest = if repls.len() > 0 {
            repls.drop_first()
        } else {
            repls
        };
        assert forall|n: int| 0 <= n < rest.len() implies rest[n] is None by {
            if repls.len() > 0 {
                assert(rest[n] == repls[n + 1]);
            }
        }
        lemma_substitute_nothing(s, k + 1, rest);
        if repls.len() > 0 {
            assert(repls[0] is None);
        }
        assert(s.subrange(from, i) + s.subrange(i, k + 1) + s.subrange(k + 1, s.len() as int)
            =~= s.subrange(from, s.len() as int));
    }
}

/// Resolving placeholders on a document where every target is missing
/// returns the document unchanged, byte for byte: a replacement list with
/// no present entry substitutes nothing.
pub proof fn lemma_resolve_missing_identity(text: Seq<u8>, repls: Seq<Option<Seq<u8>>>)
    requires
        forall|n: int| 0 <= n < repls.len() ==> repls[n] is None,
    ensures
        spec_substitute(text, 0, repls) == text,
{
    lemma_substitute_nothing(text, 0, repls);
    assert(text.subrange(0, text.len() as int) =~= text);
}

/// One placeholder marker found in a document: the index of its `@`, the
/// index one past its closing brace, and the target text between.
pub struct Placeholder {
    pub start: usize,
    pub end: usize,
    pub target: Vec<u8>,
}

impl View for Placeholder {
    type V = (int, int);

    open spec fn view(&self) -> (int, int) {
        (self.start as int, self.end as int)
    }
}

/// The position pairs of found placeholders.
pub open spec fn ph_views(v: Seq<Placeholder>) -> Seq<(int, int)> {
    v.map_values(|p: Placeholder| p@)
}

/// Whether a marker opens at `i`; executable version of `ph_match_at`.
fn ph_match_exec(s: &Vec<u8>, i: usize) -> (r: bool)
    requires
        i < s.len(),
    ensures
        r == ph_match_at(s@, i as int),
{
    if s[i] != 64 {
        return false;
    }
    if s.len() - i <= 2 {
        return false;
    }
    if s[i + 1] != 123 {
        return false;
    }
    if s[i + 2] == 125 {
        return false;
    }
    match find_byte(s, 125, i + 2) {
        Some(k) => {
            proof {
                assert(i + 2 < k < s@.len() && s@[k as int] == 125);
            }
            true
        },
        None => {
            proof {
                if ph_match_at(s@, i as int) {
                    let k = choose|k: int| i + 2 < k < s@.len() && s@[k] == 125;
                    assert(false);
                }
            }
            false
        },
    }
}

/// Finds all placeholder markers of `text`, in order; see `ph_list`. The
/// target of each is the text between its braces.
pub fn find_placeholders(text: &Vec<u8>) -> (r: Vec<Placeholder>)
    ensures
        ph_views(r@) == ph_list(text@, 0),
        forall|n: int|
            0 <= n < r@.len() ==> (#[trigger] r@[n].target)@ == ph_target(
                text@,
                ph_list(text@, 0)[n],
            ),
{
    let mut r: Vec<Placeholder> = Vec::new();
    let mut pos: usize = 0;
    proof {
        assert(ph_views(r@) + ph_list(text@, 0) =~= ph_list(text@, 0));
    }
    while pos < text.len()
        invariant
            0 <= pos <= text.len(),
            ph_list(text@, 0) =~= ph_views(r@) + ph_list(text@, pos as int),
            forall|n: int|
                0 <= n < r@.len() ==> (#[trigger] r@[n].target)@ == ph_target(
                    text@,
                    ph_list(text@, 0)[n],
                ),
            forall|n: int| 0 <= n < r@.len() ==> ph_list(text@, 0)[n] == r@[n]@,
        decreases text.len() - pos,
    {
        let ghost old_pos = pos as int;
        let mut i: usize = pos;
        let mut found: bool = false;
        while i < text.len() && !found
            invariant
                pos <= i <= text.len(),
                forall|j: int| pos <= j < i ==> !ph_match_at(text@, j),
                found ==> i < text.len() && ph_match_at(text@, i as int),
                !found ==> forall|j: int| pos <= j <= i && j < text@.len() ==> (j < i
                    ==> !ph_match_at(text@, j)),
            decreases text.len() - i + (if found {
                0int
            } else {
                1int
            }),
        {
            if ph_match_exec(text, i) {
                found = true;
            } else {
                i = i + 1;
            }
        }
        if !found {
            proof {
                lemma_next_ph_at(text@, pos as int, text@.len() as int);
                assert(ph_list(text@, pos as int) =~= Seq::<(int, int)>::empty());
                assert(ph_views(r@) + ph_list(text@, pos as int) =~= ph_views(r@));
            }
            pos = text.len();
        } else {
            proof {
                lemma_next_ph_at(text@, pos as int, i as int);
                lemma_ph_close(text@, i as int);
            }
            let k = match find_byte(text, 125, i + 2) {
                Some(k) => k,
                None => {
                    proof {
                        assert(text@[ph_close(text@, i as int)] == 125);
                        assert(false);
                    }
                    0
                },
            };
            proof {
                assert(k as int == ph_close(text@, i as int)) by {
                    crate::text::lemma_first_byte_at(
                        text@.subrange(i + 2, text@.len() as int),
                        125,
                        k - i - 2,
                    );
                }
            }
            let target = subvec(text, i + 2, k);
            let ph = Placeholder { start: i, end: k + 1, target };
            let ghost prev = r@;
            r.push(ph);
            proof {
                assert(ph_list(text@, old_pos) == seq![(i as int, k as int + 1)] + ph_list(
                    text@,
                    k as int + 1,
                ));
                assert(ph_views(r@) =~= ph_views(prev).push((i as int, k as int + 1)));
                assert(ph_list(text@, 0) =~= ph_views(r@) + ph_list(text@, k as int + 1));
                assert(r@[prev.len() as int].target@ == ph_target(
                    text@,
                    (i as int, k as int + 1),
                ));
            }
            pos = k + 1;
        }
    }
    proof {
        if pos == text.len() {
            assert(next_ph(text@, pos as int) == text@.len());
            assert(ph_list(text@, pos as int) =~= Seq::<(int, int)>::empty());
        }
        assert(ph_views(r@) =~= ph_list(text@, 0));
    }
    r
}

/// The views of the replacement choices.
pub open spec fn repl_views(v: Seq<Option<Vec<u8>>>) -> Seq<Option<Seq<u8>>> {
    v.map_values(
        |o: Option<Vec<u8>>|
            match o {
                Some(x) => Some(x@),
                None => None,
            },
    )
}

/// Replaces the markers of `text` by the given choices, in order: the
/// `n`-th marker is replaced by `repls[n]` where that is present, and left
/// unchanged where it is absent or `repls` is exhausted; see
/// `spec_substitute`.
pub fn substitute_placeholders(text: &Vec<u8>, repls: &Vec<Option<Vec<u8>>>) -> (r: Vec<u8>)
    ensures
        r@ == spec_substitute(text@, 0, repl_views(repls@)),
{
    let mut out: Vec<u8> = Vec::new();
    let mut pos: usize = 0;
    let mut ridx: usize = 0;
    let ghost rv = repl_views(repls@);
    proof {
        assert(rv.subrange(0, rv.len() as int) =~= rv);
    }
    while pos < text.len()
        invariant
            0 <= pos <= text.len(),
            0 <= ridx <= repls.len(),
            rv == repl_views(repls@),
            spec_substitute(text@, 0, rv) == out@ + spec_substitute(
                text@,
                pos as int,
                rv.subrange(ridx as int, rv.len() as int),
            ),
        decreases text.len() - pos,
    {
        let ghost tail_repls = rv.subrange(ridx as int, rv.len() as int);
        let mut i: usize = pos;
        let mut found: bool = false;
        while i < text.len() && !found
            invariant
                pos <= i <= text.len(),
                forall|j: int| pos <= j < i ==> !ph_match_at(text@, j),
                found ==> i < text.len() && ph_match_at(text@, i as int),
            decreases text.len() - i + (if found {
                0int
            } else {
                1int
            }),
        {
            if ph_match_exec(text, i) {
                found = true;
            } else {
                i = i + 1;
            }
        }
        if !found {
            proof {
                lemma_next_ph_at(text@, pos as int, text@.len() as int);
            }
            let rest = subvec(text, pos, text.len());
            push_all(&mut out, &rest);
            proof {
                assert(spec_substitute(text@, pos as int, tail_repls) == text@.subrange(
                    pos as int,
                    text@.len() as int,
                ));
            }
            pos = text.len();
        } else {
            proof {
                lemma_next_ph_at(text@, pos as int, i as int);
                lemma_ph_close(text@, i as int);
            }
            let k = match find_byte(text, 125, i + 2) {
                Some(k) => k,
                None => {
                    proof {
                        assert(text@[ph_close(text@, i as int)] == 125);
                        assert(false);
                    }
                    0
                },
            };
            proof {
                assert(k as int == ph_close(text@, i as int)) by {
                    crate::text::lemma_first_byte_at(
                        text@.subrange(i + 2, text@.len() as int),
                        125,
                        k - i - 2,
                    );
                }
            }
            let before = subvec(text, pos, i);
            push_all(&mut out, &before);
            let mut used_repl: bool = false;
            if ridx < repls.len() {
                match &repls[ridx] {
                    Some(rep) => {
                        push_all(&mut out, rep);
                        used_repl = true;
                    },
                    None => {},
                }
            }
            if !used_repl {
                let orig = subvec(text, i, k + 1);
                push_all(&mut out, &orig);
            }
            proof {
                let next_tail = if tail_repls.len() > 0 {
                    tail_repls.drop_first()
                } else {
                    tail_repls
                };
                if ridx < repls@.len() {
                    assert(tail_repls[0] == rv[ridx as int]);
                    assert(rv[ridx as int] == repl_views(repls@)[ridx as int]);
                    assert(next_tail =~= rv.subrange(ridx + 1, rv.len() as int));
                } else {
                    assert(tail_repls.len() == 0);
                    assert(next_tail =~= rv.subrange(ridx as int, rv.len() as int));
                }
                assert(spec_substitute(text@, pos as int, tail_repls) == text@.subrange(
                    pos as int,
                    i as int,
                ) + (if tail_repls.len() > 0 && tail_repls[0] is Some {
                    tail_repls[0]->0
                } else {
                    text@.subrange(i as int, k as int + 1)
                }) + spec_substitute(text@, k as int + 1, next_tail));
            }
            pos = k + 1;
            ridx = if ridx < repls.len() {
                ridx + 1
            } else {
                ridx
            };
            proof {
                assert(spec_substitute(text@, 0, rv) == out@ + spec_substitute(
                    text@,
                    pos as int,
                    rv.subrange(ridx as int, rv.len() as int),
                ));
            }
        }
    }
    proof {
        let tail = rv.subrange(ridx as int, rv.len() as int);
        assert(next_ph(text@, pos as int) == text@.len());
        assert(spec_substitute(text@, pos as int, tail) =~= Seq::<u8>::empty());
        assert(out@ =~= spec_substitute(text@, 0, rv));
    }
    out
}

/// The fenced block substituted for a `file:identifier` marker: the
/// extracted definition inside a fence annotated with the file's language
/// where one is known, else inside a plain fence.
pub open spec fn spec_render_snippet(content: Seq<u8>, ext: Seq<u8>) -> Seq<u8> {
    match spec_lang_of_ext(spec_lower(ext)) {
        Some(tok) => spec_inline_open() + tok + spec_inline_mid() + content + spec_inline_close(),
        None => spec_inline_open_plain() + content + spec_inline_close(),
    }
}

/// The text substituted for a whole-file marker: the file content inside an
/// annotated fence where its language is known, else the raw content.
pub open spec fn spec_render_whole_file(content: Seq<u8>, ext: Seq<u8>) -> Seq<u8> {
    match spec_lang_of_ext(spec_lower(ext)) {
        Some(tok) => spec_inline_open() + tok + spec_inline_mid() + content + spec_inline_close(),
        None => content,
    }
}

/// Wraps an extracted definition for substitution; see
/// `spec_render_snippet`.
pub fn render_snippet(content: &Vec<u8>, ext: &Vec<u8>) -> (r: Vec<u8>)
    ensures
        r@ == spec_render_snippet(content@, ext@),
{
    let e = lowercase_bytes(ext);
    match crate::language::infer_language_from_extension(&e) {
        Some(tok) => {
            let mut r = tok_inline_open();
            push_all(&mut r, &tok);
            push_all(&mut r, &tok_inline_mid());
            push_all(&mut r, content);
            push_all(&mut r, &tok_inline_close());
            r
        },
        None => {
            let mut r = tok_inline_open_plain();
            push_all(&mut r, content);
            push_all(&mut r, &tok_inline_close());
            r
        },
    }
}

/// Wraps whole-file content for substitution; see
/// `spec_render_whole_file`.
pub fn render_whole_file(content: &Vec<u8>, ext: &Vec<u8>) -> (r: Vec<u8>)
    ensures
        r@ == spec_render_whole_file(content@, ext@),
{
    let e = lowercase_bytes(ext);
    match crate::language::infer_language_from_extension(&e) {
        Some(tok) => {
            let mut r = tok_inline_open();
            push_all(&mut r, &tok);
            push_all(&mut r, &tok_inline_mid());
            push_all(&mut r, content);
            push_all(&mut r, &tok_inline_close());
            r
        },
        None => subvec(content, 0, content.len()),
    }
}

/// A target split at its first colon: the file part, and the identifier
/// part if a colon is present.
pub open spec fn spec_split_target(t: Seq<u8>) -> (Seq<u8>, Option<Seq<u8>>) {
    let i = first_byte(t, 58);
    if 0 <= i && i < t.len() {
        (t.subrange(0, i), Some(t.subrange(i + 1, t.len() as int)))
    } else {
        (t, None)
    }
}

/// Splits a marker target into file name and optional identifier; see
/// `spec_split_target`.
pub fn split_target(t: &Vec<u8>) -> (r: (Vec<u8>, Option<Vec<u8>>))
    ensures
        r.0@ == spec_split_target(t@).0,
        match r.1 {
            Some(id) => spec_split_target(t@).1 == Some(id@),
            None => spec_split_target(t@).1 is None,
        },
{
    match find_byte(t, 58, 0) {
        Some(i) => {
            proof {
                crate::text::lemma_first_byte_at(t@, 58, i as int);
            }
            (subvec(t, 0, i), Some(subvec(t, i + 1, t.len())))
        },
        None => {
            proof {
                crate::text::lemma_first_byte_at(t@, 58, t@.len() as int);
            }
            (subvec(t, 0, t.len()), None)
        },
    }
}

} // verus!
