//! The laws that tie weaving and tangling together: a woven document always
//! carries usable front matter, a document without front matter always
//! tangles to the no-front-matter outcome, and tangling a woven source file
//! restores its content up to a single trailing line feed.

use vstd::prelude::*;

use crate::front_matter::{
    is_dashes_line, lemma_meta_round_trip, spec_meta_line, spec_meta_lines, spec_parse_meta,
    wf_meta_value, MetaView,
};
use crate::language::{spec_detect_fence_lang, spec_ext_of_lang, spec_lang_of_ext, FenceLang};
use crate::tangle::{
    block_idx, ensure_block, spec_block_file, spec_extract_code, tangle_init,
    tangle_run, tangle_step, TangleError, TangleView,
};
use crate::text::{
    is_ws, lemma_contains_at, lemma_no_match_first_byte, lemma_no_match_too_long,
    lemma_no_match_two_bytes, lemma_trim_noop, matches_at, spec_contains, spec_lines,
    spec_starts_with, spec_trim, spec_unlines,
};
use crate::tokens::{
    spec_dashes, spec_dot_h, spec_dot_js, spec_dot_py, spec_dot_python, spec_dot_rs,
    spec_dot_rust, spec_dot_sh, spec_dot_ts, spec_ext_h, spec_ext_js, spec_ext_py, spec_ext_rs,
    spec_ext_sh, spec_ext_ts, spec_fence, spec_key_output, spec_lang_bash, spec_lang_c,
    spec_lang_cpp, spec_lang_javascript, spec_lang_python, spec_lang_rust, spec_lang_typescript,
};
use crate::weave::{spec_fence_open, spec_weave_document, spec_weave_lines};

verus! {

/// None of the eight dotted fence annotations occurs in a text free of
/// dots.
proof fn refute_dotted(f: Seq<u8>)
    requires
        forall|j: int| 0 <= j < f.len() ==> f[j] != 46,
    ensures
        !spec_contains(f, spec_dot_python()),
        !spec_contains(f, spec_dot_py()),
        !spec_contains(f, spec_dot_rust()),
        !spec_contains(f, spec_dot_rs()),
        !spec_contains(f, spec_dot_js()),
        !spec_contains(f, spec_dot_ts()),
        !spec_contains(f, spec_dot_sh()),
        !spec_contains(f, spec_dot_h()),
{
    lemma_no_match_first_byte(f, spec_dot_python());
    lemma_no_match_first_byte(f, spec_dot_py());
    lemma_no_match_first_byte(f, spec_dot_rust());
    lemma_no_match_first_byte(f, spec_dot_rs());
    lemma_no_match_first_byte(f, spec_dot_js());
    lemma_no_match_first_byte(f, spec_dot_ts());
    lemma_no_match_first_byte(f, spec_dot_sh());
    lemma_no_match_first_byte(f, spec_dot_h());
}

/// The fence line woven for a supported extension is detected as the
/// language whose tangle extension names the restored file: the extension
/// itself, except that a header file comes back as a C file.
#[verifier::rlimit(60)]
pub proof fn lemma_detect_woven_fence(ext: Seq<u8>)
    requires
        spec_lang_of_ext(ext) is Some,
    ensures
        spec_detect_fence_lang(spec_fence_open(ext)) is Some,
        spec_ext_of_lang(spec_detect_fence_lang(spec_fence_open(ext))->0) == (if ext
            == spec_ext_h() {
            spec_lang_c()
        } else {
            ext
        }),
{
    let f = spec_fence_open(ext);
    if ext == spec_ext_py() {
        assert(f == spec_fence() + spec_lang_python());
        assert(f.len() == 9);
        assert(matches_at(f, spec_lang_python(), 3)) by {
            assert(f.subrange(3, 9) =~= spec_lang_python());
        }
        lemma_contains_at(f, spec_lang_python(), 3);
    } else if ext == spec_ext_rs() {
        assert(f == spec_fence() + spec_lang_rust());
        assert(f.len() == 7);
        assert(forall|j: int| 0 <= j < f.len() ==> f[j] != 46);
        refute_dotted(f);
        lemma_no_match_first_byte(f, spec_lang_python());
        assert(matches_at(f, spec_lang_rust(), 3)) by {
            assert(f.subrange(3, 7) =~= spec_lang_rust());
        }
        lemma_contains_at(f, spec_lang_rust(), 3);
    } else if ext == spec_lang_cpp() {
        assert(f == spec_fence() + spec_lang_cpp());
        assert(f.len() == 6);
        assert(forall|j: int| 0 <= j < f.len() ==> f[j] != 46);
        refute_dotted(f);
        lemma_no_match_first_byte(f, spec_lang_python());
        lemma_no_match_first_byte(f, spec_lang_rust());
        assert(matches_at(f, spec_lang_cpp(), 3)) by {
            assert(f.subrange(3, 6) =~= spec_lang_cpp());
        }
        lemma_contains_at(f, spec_lang_cpp(), 3);
    } else if ext == spec_lang_c() || ext == spec_ext_h() {
        assert(f == spec_fence() + spec_lang_c());
        assert(f.len() == 4);
        assert(forall|j: int| 0 <= j < f.len() ==> f[j] != 46);
        refute_dotted(f);
        lemma_no_match_too_long(f, spec_lang_python());
        lemma_no_match_first_byte(f, spec_lang_rust());
        lemma_no_match_first_byte(f, spec_lang_cpp());
        lemma_no_match_too_long(f, spec_lang_javascript());
        lemma_no_match_too_long(f, spec_lang_typescript());
        lemma_no_match_first_byte(f, spec_lang_bash());
        assert(matches_at(f, spec_lang_c(), 3)) by {
            assert(f.subrange(3, 4) =~= spec_lang_c());
        }
        lemma_contains_at(f, spec_lang_c(), 3);
    } else if ext == spec_ext_js() {
        assert(f == spec_fence() + spec_lang_javascript());
        assert(f.len() == 13);
        assert(forall|j: int| 0 <= j < f.len() ==> f[j] != 46);
        refute_dotted(f);
        lemma_no_match_first_byte(f, spec_lang_python());
        lemma_no_match_two_bytes(f, spec_lang_rust());
        lemma_no_match_two_bytes(f, spec_lang_cpp());
        assert(matches_at(f, spec_lang_javascript(), 3)) by {
            assert(f.subrange(3, 13) =~= spec_lang_javascript());
        }
        lemma_contains_at(f, spec_lang_javascript(), 3);
    } else if ext == spec_ext_ts() {
        assert(f == spec_fence() + spec_lang_typescript());
        assert(f.len() == 13);
        assert(forall|j: int| 0 <= j < f.len() ==> f[j] != 46);
        refute_dotted(f);
        lemma_no_match_two_bytes(f, spec_lang_python());
        lemma_no_match_two_bytes(f, spec_lang_rust());
        lemma_no_match_two_bytes(f, spec_lang_cpp());
        lemma_no_match_first_byte(f, spec_lang_javascript());
        assert(matches_at(f, spec_lang_typescript(), 3)) by {
            assert(f.subrange(3, 13) =~= spec_lang_typescript());
        }
        lemma_contains_at(f, spec_lang_typescript(), 3);
    } else if ext == spec_ext_sh() {
        assert(f == spec_fence() + spec_lang_bash());
        assert(f.len() == 7);
        assert(forall|j: int| 0 <= j < f.len() ==> f[j] != 46);
        refute_dotted(f);
        lemma_no_match_first_byte(f, spec_lang_python());
        lemma_no_match_first_byte(f, spec_lang_rust());
        lemma_no_match_first_byte(f, spec_lang_cpp());
        lemma_no_match_too_long(f, spec_lang_javascript());
        lemma_no_match_too_long(f, spec_lang_typescript());
        assert(matches_at(f, spec_lang_bash(), 3)) by {
            assert(f.subrange(3, 7) =~= spec_lang_bash());
        }
        lemma_contains_at(f, spec_lang_bash(), 3);
    }
}

/// A document in which no line trims to `---` always tangles to the
/// no-front-matter outcome, never to a partial code map.
pub proof fn lemma_no_front_matter(lines: Seq<Seq<u8>>)
    requires
        forall|k: int| 0 <= k < lines.len() ==> !is_dashes_line(#[trigger] lines[k]),
    ensures
        spec_extract_code(lines) == Err::<Seq<(Seq<u8>, Seq<u8>)>, TangleError>(
            TangleError::NoFrontMatter,
        ),
{
    lemma_run_no_dashes(lines);
}

/// Without delimiter lines the scanner never enters front matter and never
/// records any.
proof fn lemma_run_no_dashes(lines: Seq<Seq<u8>>)
    requires
        forall|k: int| 0 <= k < lines.len() ==> !is_dashes_line(#[trigger] lines[k]),
    ensures
        !tangle_run(lines).in_fm,
        !tangle_run(lines).found,
    decreases lines.len(),
{
    if lines.len() > 0 {
        assert forall|k: int| 0 <= k < lines.drop_last().len() implies !is_dashes_line(
            #[trigger] lines.drop_last()[k],
        ) by {
            assert(lines.drop_last()[k] == lines[k]);
        }
        lemma_run_no_dashes(lines.drop_last());
        assert(lines[lines.len() - 1] == lines.last());
        assert(!is_dashes_line(lines.last()));
    }
}

/// The fence line woven for a supported extension: free of line feeds,
/// fixed under trimming, opening with the fence marker, and no front-matter
/// delimiter.
proof fn lemma_fence_open_props(ext: Seq<u8>)
    requires
        spec_lang_of_ext(ext) is Some,
    ensures
        !spec_fence_open(ext).contains(10u8),
        spec_trim(spec_fence_open(ext)) == spec_fence_open(ext),
        spec_starts_with(spec_trim(spec_fence_open(ext)), spec_fence()),
        spec_trim(spec_fence_open(ext)) != spec_dashes(),
{
    let f = spec_fence_open(ext);
    assert(f.len() >= 4);
    assert(f[0] == 96);
    assert(!is_ws(f[0]));
    assert(!is_ws(f.last()) && f.last() != 10) by {
        if ext == spec_ext_py() {
            assert(f.last() == 110);
        } else if ext == spec_ext_rs() {
            assert(f.last() == 116);
        } else if ext == spec_lang_cpp() {
            assert(f.last() == 112);
        } else if ext == spec_lang_c() || ext == spec_ext_h() {
            assert(f.last() == 99);
        } else if ext == spec_ext_js() {
            assert(f.last() == 116);
        } else if ext == spec_ext_ts() {
            assert(f.last() == 116);
        } else if ext == spec_ext_sh() {
            assert(f.last() == 104);
        }
    }
    lemma_trim_noop(f);
    assert(f.subrange(0, 3) =~= spec_fence());
    assert(f != spec_dashes()) by {
        assert(f[0] == 96 && spec_dashes()[0] == 45);
    }
    assert(!f.contains(10u8)) by {
        if f.contains(10u8) {
            let j = choose|j: int| 0 <= j < f.len() && f[j] == 10u8;
            if j < 3 {
                assert(f[j] == 96);
            } else {
                assert(f[j] == spec_lang_of_ext(ext)->0[j - 3]);
                let tok = spec_lang_of_ext(ext)->0;
                if ext == spec_ext_py() {
                    assert(tok[j - 3] != 10);
                } else if ext == spec_ext_rs() {
                    assert(tok[j - 3] != 10);
                } else if ext == spec_lang_cpp() {
                    assert(tok[j - 3] != 10);
                } else if ext == spec_lang_c() || ext == spec_ext_h() {
                    assert(tok[j - 3] != 10);
                } else if ext == spec_ext_js() {
                    assert(tok[j - 3] != 10);
                } else if ext == spec_ext_ts() {
                    assert(tok[j - 3] != 10);
                } else if ext == spec_ext_sh() {
                    assert(tok[j - 3] != 10);
                }
            }
        }
    }
}

/// The serialized metadata line of a well-formed stem: free of line feeds,
/// fixed under trimming, no delimiter, and no fence opener.
proof fn lemma_meta_line_props(stem: Seq<u8>)
    requires
        wf_meta_value(stem),
    ensures
        !spec_meta_line(spec_key_output(), stem).contains(10u8),
        spec_trim(spec_meta_line(spec_key_output(), stem)) == spec_meta_line(
            spec_key_output(),
            stem,
        ),
        spec_trim(spec_meta_line(spec_key_output(), stem)) != spec_dashes(),
        !spec_starts_with(spec_trim(spec_meta_line(spec_key_output(), stem)), spec_fence()),
{
    let l = spec_meta_line(spec_key_output(), stem);
    crate::text::lemma_trim_parts(stem);
    assert(l[0] == 111);
    assert(l.last() == stem.last());
    lemma_trim_noop(l);
    assert(l != spec_dashes()) by {
        assert(l[0] == 111 && spec_dashes()[0] == 45);
    }
    assert(!spec_starts_with(l, spec_fence())) by {
        if spec_starts_with(l, spec_fence()) {
            assert(l.subrange(0, 3)[0] == l[0]);
            assert(spec_fence()[0] == 96);
        }
    }
    assert(!l.contains(10u8)) by {
        if l.contains(10u8) {
            let j = choose|j: int| 0 <= j < l.len() && l[j] == 10u8;
            if j < spec_key_output().len() {
                assert(l[j] == spec_key_output()[j]);
                assert(spec_key_output()[j] != 10);
            } else if j == spec_key_output().len() {
                assert(l[j] == 32);
            } else {
                assert(l[j] == stem[j - spec_key_output().len() - 1]);
                assert(stem.contains(10u8));
            }
        }
    }
}

/// Reading the lines of one woven code block from an open-block state
/// appends exactly their joined text to the single accumulator.
proof fn lemma_run_block_lines(st: TangleView, lang: FenceLang, lines: Seq<Seq<u8>>)
    requires
        !st.in_fm,
        st.cur == Some(lang),
        st.blocks.len() == 1,
        st.blocks[0].0 == lang,
        forall|k: int|
            0 <= k < lines.len() ==> !is_dashes_line(#[trigger] lines[k]) && !spec_starts_with(
                spec_trim(lines[k]),
                spec_fence(),
            ),
    ensures
        crate::tangle::tangle_run_from(st, lines) == (TangleView {
            blocks: seq![(lang, st.blocks[0].1 + spec_unlines(lines))],
            ..st
        }),
    decreases lines.len(),
{
    if lines.len() == 0 {
        assert(st.blocks[0].1 + spec_unlines(lines) =~= st.blocks[0].1);
        assert(seq![(lang, st.blocks[0].1)] =~= st.blocks);
    } else {
        assert forall|k: int|
            0 <= k < lines.drop_last().len() implies !is_dashes_line(
            #[trigger] lines.drop_last()[k],
        ) && !spec_starts_with(spec_trim(lines.drop_last()[k]), spec_fence()) by {
            assert(lines.drop_last()[k] == lines[k]);
        }
        lemma_run_block_lines(st, lang, lines.drop_last());
        let mid = crate::tangle::tangle_run_from(st, lines.drop_last());
        let l = lines.last();
        assert(lines[lines.len() - 1] == l);
        assert(!is_dashes_line(l) && !spec_starts_with(spec_trim(l), spec_fence()));
        assert(mid.blocks[0].0 == lang);
        assert(block_idx(mid.blocks, lang) == 0);
        let stepped = tangle_step(mid, l);
        assert(stepped.blocks =~= seq![
            (lang, st.blocks[0].1 + spec_unlines(lines.drop_last()) + l + seq![10u8]),
        ]);
        crate::text::lemma_unlines_take_push(lines, lines.len() as int);
        assert(lines.subrange(0, lines.len() as int) =~= lines);
        assert(lines.subrange(0, lines.len() - 1) =~= lines.drop_last());
        assert(lines[lines.len() - 1] == l);
        assert(st.blocks[0].1 + spec_unlines(lines.drop_last()) + l + seq![10u8] =~= st.blocks[0].1
            + spec_unlines(lines));
    }
}

/// The lines of a woven document are free of line feeds, so splitting the
/// document restores exactly them.
proof fn lemma_weave_doc_lines(stem: Seq<u8>, ext: Seq<u8>, content: Seq<u8>)
    requires
        spec_lang_of_ext(ext) is Some,
        wf_meta_value(stem),
    ensures
        spec_lines(spec_weave_document(stem, ext, content)) == spec_weave_lines(
            stem,
            ext,
            content,
        ),
        spec_weave_lines(stem, ext, content) =~= seq![
            spec_dashes(),
            spec_meta_line(spec_key_output(), stem),
            spec_dashes(),
            Seq::<u8>::empty(),
            spec_fence_open(ext),
        ] + spec_lines(content) + seq![spec_fence()],
{
    let meta = MetaView { output_filename: stem, brief: None, details: None };
    let metaline = spec_meta_line(spec_key_output(), stem);
    let wl = spec_weave_lines(stem, ext, content);
    let cl = spec_lines(content);
    assert(spec_meta_lines(meta) =~= seq![metaline]);
    lemma_fence_open_props(ext);
    lemma_meta_line_props(stem);
    crate::text::lemma_lines_no_nl(content);
    assert forall|k: int| 0 <= k < wl.len() implies !#[trigger] wl[k].contains(10u8) by {
        assert(!spec_dashes().contains(10u8)) by {
            if spec_dashes().contains(10u8) {
                let j = choose|j: int| 0 <= j < 3 && spec_dashes()[j] == 10u8;
                assert(spec_dashes()[j] == 45);
            }
        }
        assert(!spec_fence().contains(10u8)) by {
            if spec_fence().contains(10u8) {
                let j = choose|j: int| 0 <= j < 3 && spec_fence()[j] == 10u8;
                assert(spec_fence()[j] == 96);
            }
        }
        assert(!Seq::<u8>::empty().contains(10u8));
        if 5 <= k < 5 + cl.len() {
            assert(wl[k] == cl[k - 5]);
        }
    }
    crate::text::lemma_lines_unlines(wl);
}

/// Running the scanner over the five opening lines of a woven document
/// leaves it with recorded front matter and an open block for the detected
/// language.
/// Running the scanner over the three front-matter lines records the
/// metadata line.
proof fn lemma_weave_fm_run(stem: Seq<u8>)
    requires
        wf_meta_value(stem),
    ensures
        tangle_run(seq![spec_dashes(), spec_meta_line(spec_key_output(), stem), spec_dashes()])
            == (TangleView {
            in_fm: false,
            found: true,
            meta: seq![spec_meta_line(spec_key_output(), stem)],
            cur: None,
            blocks: Seq::empty(),
        }),
{
    let metaline = spec_meta_line(spec_key_output(), stem);
    lemma_meta_line_props(stem);
    lemma_trim_noop(spec_dashes());
    assert(!is_ws(45u8));
    assert(spec_trim(spec_dashes()) == spec_dashes());
    let st0 = tangle_init();
    let st1 = tangle_step(st0, spec_dashes());
    assert(st1 == (TangleView { in_fm: true, ..st0 }));
    let st2 = tangle_step(st1, metaline);
    assert(st2 == (TangleView { meta: seq![metaline], ..st1 })) by {
        assert(st1.meta.push(metaline) =~= seq![metaline]);
    }
    let st3 = tangle_step(st2, spec_dashes());
    assert(st3 == (TangleView { in_fm: false, found: true, ..st2 }));
    let p3 = seq![spec_dashes(), metaline, spec_dashes()];
    assert(p3.drop_last() =~= seq![spec_dashes(), metaline]);
    let p2 = seq![spec_dashes(), metaline];
    assert(p2.drop_last() =~= seq![spec_dashes()]);
    let p1 = seq![spec_dashes()];
    assert(p1.drop_last() =~= Seq::<Seq<u8>>::empty());
    assert(tangle_run(Seq::<Seq<u8>>::empty()) == tangle_init());
    assert(p1.last() == spec_dashes());
    assert(tangle_run(p1) == st1);
    assert(tangle_run(p2) == st2);
    assert(tangle_run(p3) == st3);
}

/// Running the scanner over the five opening lines of a woven document
/// leaves it with recorded front matter and an open block for the detected
/// language.
#[verifier::rlimit(60)]
proof fn lemma_weave_prefix_run(stem: Seq<u8>, ext: Seq<u8>)
    requires
        spec_lang_of_ext(ext) is Some,
        wf_meta_value(stem),
    ensures
        spec_detect_fence_lang(spec_fence_open(ext)) is Some,
        tangle_run(
            seq![
                spec_dashes(),
                spec_meta_line(spec_key_output(), stem),
                spec_dashes(),
                Seq::<u8>::empty(),
                spec_fence_open(ext),
            ],
        ) == (TangleView {
            in_fm: false,
            found: true,
            meta: seq![spec_meta_line(spec_key_output(), stem)],
            cur: Some(spec_detect_fence_lang(spec_fence_open(ext))->0),
            blocks: seq![
                (spec_detect_fence_lang(spec_fence_open(ext))->0, Seq::<u8>::empty()),
            ],
        }),
{
    let metaline = spec_meta_line(spec_key_output(), stem);
    let prefix = seq![spec_dashes(), metaline, spec_dashes(), Seq::<u8>::empty(), spec_fence_open(
        ext,
    )];
    let p3 = seq![spec_dashes(), metaline, spec_dashes()];
    lemma_weave_fm_run(stem);
    let st3 = tangle_run(p3);
    lemma_fence_open_props(ext);
    lemma_detect_woven_fence(ext);
    assert(spec_trim(Seq::<u8>::empty()) =~= Seq::<u8>::empty());
    assert(!spec_starts_with(Seq::<u8>::empty(), spec_fence()));
    assert(Seq::<u8>::empty() != spec_dashes());
    let lang = spec_detect_fence_lang(spec_fence_open(ext))->0;
    let st4 = tangle_step(st3, Seq::<u8>::empty());
    assert(st4 == st3);
    let st5 = tangle_step(st4, spec_fence_open(ext));
    assert(st5 == (TangleView {
        cur: Some(lang),
        blocks: seq![(lang, Seq::<u8>::empty())],
        ..st4
    })) by {
        assert(block_idx(st4.blocks, lang) == -1);
        assert(ensure_block(st4.blocks, lang) =~= seq![(lang, Seq::<u8>::empty())]);
    }
    crate::tangle::lemma_tangle_run_split(p3, seq![Seq::<u8>::empty(), spec_fence_open(ext)]);
    assert(prefix =~= p3 + seq![Seq::<u8>::empty(), spec_fence_open(ext)]);
    let tail = seq![Seq::<u8>::empty(), spec_fence_open(ext)];
    assert(tail.drop_last() =~= seq![Seq::<u8>::empty()]);
    assert(seq![Seq::<u8>::empty()].drop_last() =~= Seq::<Seq<u8>>::empty());
    assert(crate::tangle::tangle_run_from(st3, Seq::<Seq<u8>>::empty()) == st3);
    assert(crate::tangle::tangle_run_from(st3, seq![Seq::<u8>::empty()]) == st4);
    assert(crate::tangle::tangle_run_from(st3, tail) == st5);
    assert(tangle_run(prefix) == st5);
}

/// Tangling a woven source file restores its content: for a supported
/// extension and a content whose lines neither trim to `---` nor open with
/// a code fence, extracting code from the woven document yields exactly one
/// file, named by the stem and the extension (a header file comes back with
/// the C extension), whose text is the content with each line closed by a
/// line feed — the content itself when it ended in a line feed or was
/// empty, and the content plus one trailing line feed otherwise.
#[verifier::rlimit(60)]
pub proof fn lemma_weave_tangle_round_trip(stem: Seq<u8>, ext: Seq<u8>, content: Seq<u8>)
    requires
        spec_lang_of_ext(ext) is Some,
        wf_meta_value(stem),
        forall|k: int|
            0 <= k < spec_lines(content).len() ==> !is_dashes_line(
                #[trigger] spec_lines(content)[k],
            ) && !spec_starts_with(spec_trim(spec_lines(content)[k]), spec_fence()),
    ensures
        spec_extract_code(spec_lines(spec_weave_document(stem, ext, content))) == Ok::<
            Seq<(Seq<u8>, Seq<u8>)>,
            TangleError,
        >(
            seq![
                (
                    stem + seq![46u8] + (if ext == spec_ext_h() {
                        spec_lang_c()
                    } else {
                        ext
                    }),
                    spec_unlines(spec_lines(content)),
                ),
            ],
        ),
        content.len() == 0 || content.last() == 10 ==> spec_unlines(spec_lines(content))
            == content,
        content.len() > 0 && content.last() != 10 ==> spec_unlines(spec_lines(content)) == content
            + seq![10u8],
{
    let meta = MetaView { output_filename: stem, brief: None, details: None };
    let metaline = spec_meta_line(spec_key_output(), stem);
    let wl = spec_weave_lines(stem, ext, content);
    let cl = spec_lines(content);
    let prefix = seq![spec_dashes(), metaline, spec_dashes(), Seq::<u8>::empty(), spec_fence_open(
        ext,
    )];
    lemma_weave_doc_lines(stem, ext, content);
    assert(wl =~= prefix + cl + seq![spec_fence()]);
    lemma_weave_prefix_run(stem, ext);
    let lang = spec_detect_fence_lang(spec_fence_open(ext))->0;
    let st5 = tangle_run(prefix);

    crate::tangle::lemma_tangle_run_split(prefix, cl);
    lemma_run_block_lines(st5, lang, cl);
    let st6 = crate::tangle::tangle_run_from(st5, cl);
    assert(st6 == (TangleView { blocks: seq![(lang, spec_unlines(cl))], ..st5 })) by {
        assert(st5.blocks[0].1 + spec_unlines(cl) =~= spec_unlines(cl));
    }
    assert(tangle_run(prefix + cl) == st6);

    crate::tangle::lemma_tangle_run_split(prefix + cl, seq![spec_fence()]);
    lemma_trim_noop(spec_fence());
    assert(!is_ws(96u8));
    assert(spec_starts_with(spec_fence(), spec_fence())) by {
        assert(spec_fence().subrange(0, 3) =~= spec_fence());
    }
    assert(spec_fence() != spec_dashes()) by {
        assert(spec_fence()[0] == 96 && spec_dashes()[0] == 45);
    }
    let st7 = tangle_step(st6, spec_fence());
    assert(st7 == (TangleView { cur: None, ..st6 }));
    assert(crate::tangle::tangle_run_from(st6, Seq::<Seq<u8>>::empty()) == st6);
    assert(crate::tangle::tangle_run_from(st6, seq![spec_fence()]) == st7) by {
        assert(seq![spec_fence()].drop_last() =~= Seq::<Seq<u8>>::empty());
        assert(seq![spec_fence()].last() == spec_fence());
        assert(crate::tangle::tangle_run_from(st6, Seq::<Seq<u8>>::empty()) == st6);
    }
    assert((prefix + cl) + seq![spec_fence()] =~= wl);
    assert(tangle_run(wl) == st7);

    lemma_meta_round_trip(meta);
    lemma_detect_woven_fence(ext);
    assert(spec_meta_lines(meta) =~= seq![metaline]);
    assert(spec_parse_meta(st7.meta) == Some(meta));
    assert(st7.blocks.map_values(|b: (FenceLang, Seq<u8>)| spec_block_file(meta, b)) =~= seq![
        (
            stem + seq![46u8] + (if ext == spec_ext_h() {
                spec_lang_c()
            } else {
                ext
            }),
            spec_unlines(cl),
        ),
    ]);
    crate::text::lemma_unlines_lines(content);
}

} // verus!
