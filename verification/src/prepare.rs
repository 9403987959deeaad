//! Preparing a folder's `README.md`: every file of the folder should be
//! mentioned once as an `@{filename}` placeholder. The existing mentions
//! are read off the README, and a mention line is appended for each file
//! not yet mentioned; the `README.md` itself is never mentioned.

use vstd::prelude::*;

use crate::language::spec_lower;
use crate::text::{
    find_byte, find_sub, first_byte, first_sub, matches_at, push_all, subvec, views,
};
use crate::tokens::{spec_ph_open, spec_readme_name, tok_ph_open, tok_readme_name};

verus! {

broadcast use crate::text::lemma_views_push;

/// The file a line's first `@{...}` mention refers to: the text between
/// `@{` and the first closing brace after the opening, cut at the first
/// colon; `None` for a line without a complete mention.
pub open spec fn spec_line_mention(l: Seq<u8>) -> Option<Seq<u8>> {
    let st = first_sub(l, spec_ph_open());
    if st < l.len() {
        let rel = first_byte(l.subrange(st, l.len() as int), 125);
        if st + rel < l.len() {
            let m = l.subrange(st + 2, st + rel);
            let c = first_byte(m, 58);
            if 0 <= c && c < m.len() {
                Some(m.subrange(0, c))
            } else {
                Some(m)
            }
        } else {
            None
        }
    } else {
        None
    }
}

/// The files mentioned by the lines of a README, one entry per line that
/// carries a mention, in line order.
pub open spec fn spec_mentions(lines: Seq<Seq<u8>>) -> Seq<Seq<u8>>
    decreases lines.len(),
{
    if lines.len() == 0 {
        Seq::empty()
    } else {
        spec_mentions(lines.drop_last()) + (match spec_line_mention(lines.last()) {
            Some(m) => seq![m],
            None => Seq::empty(),
        })
    }
}

/// Reads the first mention off one line; see `spec_line_mention`.
fn line_mention(l: &Vec<u8>) -> (r: Option<Vec<u8>>)
    ensures
        match r {
            Some(m) => spec_line_mention(l@) == Some(m@),
            None => spec_line_mention(l@) is None,
        },
{
    let opener = tok_ph_open();
    match find_sub(l, &opener, 0) {
        None => {
            proof {
                crate::text::lemma_first_sub(l@, spec_ph_open());
                if first_sub(l@, spec_ph_open()) < l@.len() {
                    assert(matches_at(l@, spec_ph_open(), first_sub(l@, spec_ph_open())));
                }
            }
            None
        },
        Some(st) => {
            proof {
                crate::text::lemma_first_sub(l@, spec_ph_open());
                let fs = first_sub(l@, spec_ph_open());
                assert(matches_at(l@, spec_ph_open(), st as int));
                if fs < st {
                    assert(matches_at(l@, spec_ph_open(), fs));
                }
                if fs > st {
                    assert(!matches_at(l@, spec_ph_open(), st as int));
                }
                assert(fs == st);
                assert(st + spec_ph_open().len() <= l@.len());
            }
            match find_byte(l, 125, st) {
                None => {
                    proof {
                        let tail = l@.subrange(st as int, l@.len() as int);
                        crate::text::lemma_first_byte_at(tail, 125, tail.len() as int);
                    }
                    None
                },
                Some(k) => {
                    proof {
                        let tail = l@.subrange(st as int, l@.len() as int);
                        crate::text::lemma_first_byte_at(tail, 125, k - st);
                        assert(l@[st as int] == 64 && l@[st + 1] == 123);
                        assert(tail[0] == 64 && tail[1] == 123);
                        assert(k - st >= 2);
                    }
                    let m = subvec(l, st + 2, k);
                    match find_byte(&m, 58, 0) {
                        Some(c) => {
                            proof {
                                crate::text::lemma_first_byte_at(m@, 58, c as int);
                            }
                            Some(subvec(&m, 0, c))
                        },
                        None => {
                            proof {
                                crate::text::lemma_first_byte_at(m@, 58, m@.len() as int);
                            }
                            Some(m)
                        },
                    }
                },
            }
        },
    }
}

/// Collects the files mentioned by a README's lines; see `spec_mentions`.
pub fn collect_mentions(lines: &Vec<Vec<u8>>) -> (r: Vec<Vec<u8>>)
    ensures
        views(r@) == spec_mentions(views(lines@)),
{
    let ghost ls = views(lines@);
    let mut r: Vec<Vec<u8>> = Vec::new();
    let mut i: usize = 0;
    proof {
        assert(ls.subrange(0, 0) =~= Seq::<Seq<u8>>::empty());
        assert(views(r@) =~= spec_mentions(ls.subrange(0, 0)));
    }
    while i < lines.len()
        invariant
            0 <= i <= lines.len(),
            ls == views(lines@),
            views(r@) == spec_mentions(ls.subrange(0, i as int)),
        decreases lines.len() - i,
    {
        proof {
            assert(ls.subrange(0, i + 1).drop_last() =~= ls.subrange(0, i as int));
            assert(ls.subrange(0, i + 1).last() == ls[i as int]);
        }
        match line_mention(&lines[i]) {
            Some(m) => {
                let ghost prev = r@;
                r.push(m);
                proof {
                    assert(views(r@) =~= spec_mentions(ls.subrange(0, i + 1)));
                }
            },
            None => {
                proof {
                    assert(spec_mentions(ls.subrange(0, i + 1)) =~= spec_mentions(
                        ls.subrange(0, i as int),
                    ));
                }
            },
        }
        i = i + 1;
    }
    proof {
        assert(ls.subrange(0, ls.len() as int) =~= ls);
    }
    r
}

/// Whether two names are the same up to ASCII case.
pub open spec fn eq_ignore_case(a: Seq<u8>, b: Seq<u8>) -> bool {
    spec_lower(a) == spec_lower(b)
}

/// The file names that still need a mention: those that are not the README
/// itself (compared ignoring ASCII case) and are not already mentioned, in
/// input order.
pub open spec fn spec_missing_mentions(mentions: Seq<Seq<u8>>, files: Seq<Seq<u8>>) -> Seq<
    Seq<u8>,
> {
    files.filter(
        |f: Seq<u8>| !eq_ignore_case(f, spec_readme_name()) && !mentions.contains(f),
    )
}

/// Lists the files that still need a mention; see `spec_missing_mentions`.
pub fn missing_mentions(mentions: &Vec<Vec<u8>>, files: &Vec<Vec<u8>>) -> (r: Vec<Vec<u8>>)
    ensures
        views(r@) == spec_missing_mentions(views(mentions@), views(files@)),
{
    let ghost ms = views(mentions@);
    let ghost fs = views(files@);
    let ghost pred = |f: Seq<u8>| !eq_ignore_case(f, spec_readme_name()) && !ms.contains(f);
    let readme = tok_readme_name();
    let mut r: Vec<Vec<u8>> = Vec::new();
    let mut i: usize = 0;
    proof {
        reveal(Seq::filter);
        assert(fs.subrange(0, 0) =~= Seq::<Seq<u8>>::empty());
        assert(views(r@) =~= fs.subrange(0, 0).filter(pred));
    }
    while i < files.len()
        invariant
            0 <= i <= files.len(),
            ms == views(mentions@),
            fs == views(files@),
            readme@ == spec_readme_name(),
            pred == (|f: Seq<u8>| !eq_ignore_case(f, spec_readme_name()) && !ms.contains(f)),
            views(r@) == fs.subrange(0, i as int).filter(pred),
        decreases files.len() - i,
    {
        proof {
            reveal(Seq::filter);
            assert(fs.subrange(0, i + 1).drop_last() =~= fs.subrange(0, i as int));
            assert(fs.subrange(0, i + 1).last() == fs[i as int]);
        }
        let low = crate::language::lowercase_bytes(&files[i]);
        let low_readme = crate::language::lowercase_bytes(&readme);
        proof {
            assert(readme@ == spec_readme_name());
            assert(low_readme@ == spec_lower(readme@));
            assert(low@ == spec_lower(files@[i as int]@));
            assert(files@[i as int]@ == fs[i as int]);
        }
        let is_readme = crate::text::bytes_eq(&low, &low_readme);
        if !is_readme && !mentioned(mentions, &files[i]) {
            let copy = subvec(&files[i], 0, files[i].len());
            proof {
                assert(copy@ =~= fs[i as int]);
            }
            let ghost prev = r@;
            r.push(copy);
            proof {
                assert(pred(fs[i as int]));
                assert(views(r@) =~= fs.subrange(0, i + 1).filter(pred));
            }
        } else {
            proof {
                assert(!pred(fs[i as int]));
                assert(views(r@) =~= fs.subrange(0, i + 1).filter(pred));
            }
        }
        i = i + 1;
    }
    proof {
        assert(fs.subrange(0, fs.len() as int) =~= fs);
    }
    r
}

/// Whether `f` stands among the collected mentions.
fn mentioned(mentions: &Vec<Vec<u8>>, f: &Vec<u8>) -> (r: bool)
    ensures
        r == views(mentions@).contains(f@),
{
    let mut i: usize = 0;
    while i < mentions.len()
        invariant
            0 <= i <= mentions.len(),
            forall|j: int| 0 <= j < i ==> views(mentions@)[j] != f@,
        decreases mentions.len() - i,
    {
        if crate::text::bytes_eq(&mentions[i], f) {
            proof {
                assert(views(mentions@)[i as int] == f@);
            }
            return true;
        }
        i = i + 1;
    }
    proof {
        if views(mentions@).contains(f@) {
            let j = choose|j: int|
                0 <= j < views(mentions@).len() && views(mentions@)[j] == f@;
            assert(false);
        }
    }
    false
}

/// The appended mention line for one file: `@{`, the file name, `}`.
pub open spec fn spec_mention_line(f: Seq<u8>) -> Seq<u8> {
    spec_ph_open() + f + seq![125u8]
}

/// Builds the mention line for one file; see `spec_mention_line`.
pub fn mention_line(f: &Vec<u8>) -> (r: Vec<u8>)
    ensures
        r@ == spec_mention_line(f@),
{
    let mut r = tok_ph_open();
    push_all(&mut r, f);
    r.push(125);
    proof {
        assert(r@ =~= spec_mention_line(f@));
    }
    r
}

} // verus!
