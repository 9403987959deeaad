//! Text passes that serve HTML rendering: unescaping the common HTML
//! entities in highlighted code, and splitting a Markdown document into its
//! front matter title and its remaining body.

use vstd::prelude::*;

use crate::front_matter::{find_value, is_dashes_line, opt_value};
use crate::text::{
    matches_at, matches_at_exec, push_all, sub_lines, views,
};
use crate::tokens::{
    spec_ent_amp, spec_ent_gt, spec_ent_lt, spec_ent_quot, spec_key_output, spec_rep_amp,
    spec_rep_gt, spec_rep_lt, spec_rep_quot, tok_ent_amp, tok_ent_gt, tok_ent_lt, tok_ent_quot,
    tok_key_output, tok_rep_amp, tok_rep_gt, tok_rep_lt, tok_rep_quot,
};

verus! {

/// `s` with every occurrence of `pat` replaced by `rep`, scanning left to
/// right without re-scanning replaced text.
pub open spec fn spec_replace_all(s: Seq<u8>, pat: Seq<u8>, rep: Seq<u8>) -> Seq<u8>
    decreases s.len(),
    when pat.len() > 0
{
    if s.len() < pat.len() {
        s
    } else if s.subrange(0, pat.len() as int) == pat {
        rep + spec_replace_all(s.subrange(pat.len() as int, s.len() as int), pat, rep)
    } else {
        seq![s[0]] + spec_replace_all(s.drop_first(), pat, rep)
    }
}

/// Replaces every occurrence of `pat` in `s` by `rep`; see
/// `spec_replace_all`.
pub fn replace_all(s: &Vec<u8>, pat: &Vec<u8>, rep: &Vec<u8>) -> (r: Vec<u8>)
    requires
        pat.len() > 0,
    ensures
        r@ == spec_replace_all(s@, pat@, rep@),
{
    let mut out: Vec<u8> = Vec::new();
    let mut pos: usize = 0;
    proof {
        assert(s@.subrange(0, s@.len() as int) =~= s@);
    }
    while pos < s.len()
        invariant
            0 <= pos <= s.len(),
            pat@.len() > 0,
            spec_replace_all(s@, pat@, rep@) == out@ + spec_replace_all(
                s@.subrange(pos as int, s@.len() as int),
                pat@,
                rep@,
            ),
        decreases s.len() - pos,
    {
        let ghost tail = s@.subrange(pos as int, s@.len() as int);
        if matches_at_exec(s, pat, pos) {
            push_all(&mut out, rep);
            proof {
                assert(tail.subrange(0, pat@.len() as int) =~= s@.subrange(
                    pos as int,
                    pos + pat@.len(),
                ));
                assert(tail.subrange(0, pat@.len() as int) =~= pat@);
                assert(tail.subrange(pat@.len() as int, tail.len() as int) =~= s@.subrange(
                    pos + pat@.len(),
                    s@.len() as int,
                ));
            }
            pos = pos + pat.len();
        } else {
            out.push(s[pos]);
            proof {
                if tail.len() >= pat@.len() && tail.subrange(0, pat@.len() as int) == pat@ {
                    assert(matches_at(s@, pat@, pos as int)) by {
                        assert(s@.subrange(pos as int, pos + pat@.len()) =~= tail.subrange(
                            0,
                            pat@.len() as int,
                        ));
                    }
                }
                assert(tail[0] == s@[pos as int]);
                assert(tail.drop_first() =~= s@.subrange(pos + 1, s@.len() as int));
            }
            pos = pos + 1;
        }
    }
    proof {
        assert(s@.subrange(pos as int, s@.len() as int).len() == 0);
        assert(out@ =~= spec_replace_all(s@, pat@, rep@));
    }
    out
}

/// The four entity replacements applied to `s`, in this order: `&lt;`,
/// `&gt;`, `&amp;`, `&quot;`. The passes run one after the other, so an
/// ampersand produced by a later pass is not itself unescaped.
pub open spec fn spec_html_unescape(s: Seq<u8>) -> Seq<u8> {
    spec_replace_all(
        spec_replace_all(
            spec_replace_all(spec_replace_all(s, spec_ent_lt(), spec_rep_lt()), spec_ent_gt(), spec_rep_gt()),
            spec_ent_amp(),
            spec_rep_amp(),
        ),
        spec_ent_quot(),
        spec_rep_quot(),
    )
}

/// Unescapes the common HTML entities; see `spec_html_unescape`.
pub fn html_unescape(input: &Vec<u8>) -> (r: Vec<u8>)
    ensures
        r@ == spec_html_unescape(input@),
{
    let a = replace_all(input, &tok_ent_lt(), &tok_rep_lt());
    let b = replace_all(&a, &tok_ent_gt(), &tok_rep_gt());
    let c = replace_all(&b, &tok_ent_amp(), &tok_rep_amp());
    replace_all(&c, &tok_ent_quot(), &tok_rep_quot())
}

/// The front matter title and the cleaned body of a Markdown document: when
/// the document opens with a `---` line and a later line closes the block,
/// the title is the non-empty `output_filename` value between them (if one
/// stands there) and the body is everything after the closing line; else
/// there is no title and the body is the whole document.
pub open spec fn spec_extract_front_matter(doc: Seq<Seq<u8>>) -> (Option<Seq<u8>>, Seq<Seq<u8>>) {
    if doc.len() > 0 && is_dashes_line(doc[0]) && (exists|j: int|
        1 <= j < doc.len() && is_dashes_line(doc[j])) {
        let close = choose|j: int|
            1 <= j < doc.len() && is_dashes_line(#[trigger] doc[j]) && forall|k: int|
                1 <= k < j ==> !is_dashes_line(#[trigger] doc[k]);
        (
            opt_value(find_value(doc.subrange(1, close), spec_key_output())),
            doc.subrange(close + 1, doc.len() as int),
        )
    } else {
        (None, doc)
    }
}

/// Splits a document into its front matter title and its body; see
/// `spec_extract_front_matter`.
pub fn extract_front_matter(doc: &Vec<Vec<u8>>) -> (r: (Option<Vec<u8>>, Vec<Vec<u8>>))
    ensures
        match r.0 {
            Some(t) => spec_extract_front_matter(views(doc@)).0 == Some(t@),
            None => spec_extract_front_matter(views(doc@)).0 is None,
        },
        views(r.1@) == spec_extract_front_matter(views(doc@)).1,
{
    if doc.len() == 0 || !crate::front_matter::dashes_line(&doc[0]) {
        let body = sub_lines(doc, 0, doc.len());
        proof {
            assert(views(doc@).subrange(0, views(doc@).len() as int) =~= views(doc@));
        }
        return (None, body);
    }
    match crate::front_matter::find_dashes_line(doc, 1) {
        None => {
            let body = sub_lines(doc, 0, doc.len());
            proof {
                assert(views(doc@).subrange(0, views(doc@).len() as int) =~= views(doc@));
            }
            (None, body)
        },
        Some(close) => {
            proof {
                let dv = views(doc@);
                let cl = choose|j: int|
                    1 <= j < dv.len() && is_dashes_line(#[trigger] dv[j]) && forall|k: int|
                        1 <= k < j ==> !is_dashes_line(#[trigger] dv[k]);
                assert(1 <= close < dv.len() && is_dashes_line(dv[close as int]) && forall|
                    k: int,
                |
                    1 <= k < close ==> !is_dashes_line(#[trigger] dv[k]));
                if cl != close {
                    if cl < close {
                        assert(!is_dashes_line(dv[cl]));
                    } else {
                        assert(!is_dashes_line(dv[close as int]));
                    }
                }
                assert(cl == close);
            }
            let fm_lines = sub_lines(doc, 1, close);
            let body = sub_lines(doc, close + 1, doc.len());
            let title = match crate::front_matter::find_value_exec(&fm_lines, &tok_key_output()) {
                Some(v) => {
                    if v.len() == 0 {
                        None
                    } else {
                        Some(v)
                    }
                },
                None => None,
            };
            (title, body)
        },
    }
}

} // verus!
