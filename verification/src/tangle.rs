//! The tangle engine: extracting source code back out of a literate Markdown
//! document. A line-oriented state machine tracks front matter and fenced
//! code blocks, accumulates the body of every recognized language, and the
//! front-matter `output_filename` names the extracted files.

use vstd::prelude::*;

use crate::front_matter::{parse_meta_lines, spec_parse_meta, MetaView};
use crate::language::{
    detect_fence_lang, ext_of_lang, spec_detect_fence_lang, spec_ext_of_lang, FenceLang,
};
use crate::text::{
    push_all, split_lines, spec_lines, spec_starts_with, spec_trim, starts_with, subvec,
    trim_bytes, views,
};
use crate::tokens::{spec_dashes, spec_fence, tok_fence};

verus! {

/// Why no code could be extracted from a document.
#[derive(PartialEq, Eq, Structural, Clone, Copy, Debug)]
pub enum TangleError {
    /// The document has no `---`-delimited front matter at all.
    NoFrontMatter,
    /// Front matter was found but holds no usable `output_filename`.
    InvalidFrontMatter,
}

/// One file extracted from a document: its name and its code text.
#[derive(Debug, Clone)]
pub struct TangleFile {
    pub name: Vec<u8>,
    pub code: Vec<u8>,
}

impl View for TangleFile {
    type V = (Seq<u8>, Seq<u8>);

    open spec fn view(&self) -> (Seq<u8>, Seq<u8>) {
        (self.name@, self.code@)
    }
}

/// One per-language accumulator while scanning a document.
struct BlockAcc {
    lang: FenceLang,
    code: Vec<u8>,
}

/// The state of the tangle scanner: whether the scanner stands inside front
/// matter, whether a complete front-matter block was seen, the collected
/// front-matter lines, the language of the currently open code block, and
/// the per-language accumulators in order of first appearance.
pub ghost struct TangleView {
    pub in_fm: bool,
    pub found: bool,
    pub meta: Seq<Seq<u8>>,
    pub cur: Option<FenceLang>,
    pub blocks: Seq<(FenceLang, Seq<u8>)>,
}

/// The scanner state before any line was read.
pub open spec fn tangle_init() -> TangleView {
    TangleView { in_fm: false, found: false, meta: Seq::empty(), cur: None, blocks: Seq::empty() }
}

/// The position of the accumulator of language `l`, or `-1` if none exists.
pub open spec fn block_idx(bs: Seq<(FenceLang, Seq<u8>)>, l: FenceLang) -> int
    decreases bs.len(),
{
    if bs.len() == 0 {
        -1
    } else if bs[0].0 == l {
        0
    } else {
        let r = block_idx(bs.drop_first(), l);
        if r < 0 {
            -1
        } else {
            1 + r
        }
    }
}

pub proof fn lemma_block_idx(bs: Seq<(FenceLang, Seq<u8>)>, l: FenceLang)
    ensures
        block_idx(bs, l) == -1 ==> forall|j: int| 0 <= j < bs.len() ==> (#[trigger] bs[j]).0 != l,
        block_idx(bs, l) != -1 ==> {
            &&& 0 <= block_idx(bs, l) < bs.len()
            &&& bs[block_idx(bs, l)].0 == l
            &&& forall|j: int| 0 <= j < block_idx(bs, l) ==> (#[trigger] bs[j]).0 != l
        },
    decreases bs.len(),
{
    if bs.len() > 0 && bs[0].0 != l {
        lemma_block_idx(bs.drop_first(), l);
        assert forall|j: int| 1 <= j < bs.len() implies bs.drop_first()[j - 1] == bs[j] by {}
    }
}

/// Appends `line` and a line feed to the accumulator of language `l`, if one
/// exists.
pub open spec fn append_block(
    bs: Seq<(FenceLang, Seq<u8>)>,
    l: FenceLang,
    line: Seq<u8>,
) -> Seq<(FenceLang, Seq<u8>)> {
    let i = block_idx(bs, l);
    if i < 0 {
        bs
    } else {
        bs.update(i, (l, bs[i].1 + line + seq![10u8]))
    }
}

/// Opens an accumulator for language `l` if none exists yet.
pub open spec fn ensure_block(bs: Seq<(FenceLang, Seq<u8>)>, l: FenceLang) -> Seq<
    (FenceLang, Seq<u8>),
> {
    if block_idx(bs, l) < 0 {
        bs.push((l, Seq::empty()))
    } else {
        bs
    }
}

/// One step of the tangle scanner. A line trimming to `---` toggles front
/// matter (and closing it records that front matter was found); lines inside
/// front matter are collected; a line whose trimmed form opens with a fence
/// closes the open code block or opens one in the language guessed from the
/// raw line; any other line is appended to the open block's accumulator.
pub open spec fn tangle_step(st: TangleView, line: Seq<u8>) -> TangleView {
    let t = spec_trim(line);
    if t == spec_dashes() && !st.in_fm {
        TangleView { in_fm: true, ..st }
    } else if t == spec_dashes() && st.in_fm {
        TangleView { in_fm: false, found: true, ..st }
    } else if st.in_fm {
        TangleView { meta: st.meta.push(line), ..st }
    } else if spec_starts_with(t, spec_fence()) && st.cur is Some {
        TangleView { cur: None, ..st }
    } else if spec_starts_with(t, spec_fence()) {
        match spec_detect_fence_lang(line) {
            Some(l) => TangleView { cur: Some(l), blocks: ensure_block(st.blocks, l), ..st },
            None => st,
        }
    } else {
        match st.cur {
            Some(l) => TangleView { blocks: append_block(st.blocks, l, line), ..st },
            None => st,
        }
    }
}

/// The scanner state after reading all of `lines`.
pub open spec fn tangle_run(lines: Seq<Seq<u8>>) -> TangleView
    decreases lines.len(),
{
    if lines.len() == 0 {
        tangle_init()
    } else {
        tangle_step(tangle_run(lines.drop_last()), lines.last())
    }
}

/// The scanner state after reading `lines` starting from state `st`.
pub open spec fn tangle_run_from(st: TangleView, lines: Seq<Seq<u8>>) -> TangleView
    decreases lines.len(),
{
    if lines.len() == 0 {
        st
    } else {
        tangle_step(tangle_run_from(st, lines.drop_last()), lines.last())
    }
}

/// Running the scanner over a concatenation runs it over the parts in
/// turn.
pub proof fn lemma_tangle_run_split(a: Seq<Seq<u8>>, b: Seq<Seq<u8>>)
    ensures
        tangle_run(a + b) == tangle_run_from(tangle_run(a), b),
    decreases b.len(),
{
    if b.len() == 0 {
        assert(a + b =~= a);
    } else {
        assert((a + b).drop_last() =~= a + b.drop_last());
        assert((a + b).last() == b.last());
        lemma_tangle_run_split(a, b.drop_last());
    }
}

/// The extracted file name of one accumulated block: the front-matter
/// `output_filename`, a dot, and the extension of the block's language.
pub open spec fn spec_block_file(m: MetaView, b: (FenceLang, Seq<u8>)) -> (Seq<u8>, Seq<u8>) {
    (m.output_filename + seq![46u8] + spec_ext_of_lang(b.0), b.1)
}

/// What tangling a document's lines yields: an error when no front matter
/// was found or when it holds no usable `output_filename`, else one file per
/// accumulated language, in order of first appearance.
pub open spec fn spec_extract_code(lines: Seq<Seq<u8>>) -> Result<
    Seq<(Seq<u8>, Seq<u8>)>,
    TangleError,
> {
    let st = tangle_run(lines);
    if !st.found {
        Err(TangleError::NoFrontMatter)
    } else {
        match spec_parse_meta(st.meta) {
            None => Err(TangleError::InvalidFrontMatter),
            Some(m) => Ok(st.blocks.map_values(|b: (FenceLang, Seq<u8>)| spec_block_file(m, b))),
        }
    }
}

/// The views of the per-language accumulators.
spec fn block_views(bs: Seq<BlockAcc>) -> Seq<(FenceLang, Seq<u8>)> {
    bs.map_values(|b: BlockAcc| (b.lang, b.code@))
}

/// Finds the accumulator of language `l`.
fn find_block(blocks: &Vec<BlockAcc>, l: FenceLang) -> (r: Option<usize>)
    ensures
        match r {
            Some(j) => j < blocks@.len() && block_idx(block_views(blocks@), l) == j as int,
            None => block_idx(block_views(blocks@), l) == -1,
        },
{
    let ghost bv = block_views(blocks@);
    let mut j: usize = 0;
    while j < blocks.len()
        invariant
            0 <= j <= blocks.len(),
            bv == block_views(blocks@),
            forall|k: int| 0 <= k < j ==> (#[trigger] bv[k]).0 != l,
        decreases blocks.len() - j,
    {
        if blocks[j].lang == l {
            proof {
                assert(bv[j as int].0 == l);
                lemma_block_idx_first(bv, l, j as int);
            }
            return Some(j);
        }
        j = j + 1;
    }
    proof {
        lemma_block_idx_none(bv, l);
    }
    None
}

/// Extracts code from the lines of a Markdown document; see
/// `spec_extract_code`.
pub fn extract_code_from_lines(lines: &Vec<Vec<u8>>) -> (r: Result<Vec<TangleFile>, TangleError>)
    ensures
        match r {
            Ok(files) => spec_extract_code(views(lines@)) == Ok::<
                Seq<(Seq<u8>, Seq<u8>)>,
                TangleError,
            >(files@.map_values(|f: TangleFile| f@)),
            Err(e) => spec_extract_code(views(lines@)) == Err::<
                Seq<(Seq<u8>, Seq<u8>)>,
                TangleError,
            >(e),
        },
{
    let ghost ls = views(lines@);
    let mut in_fm: bool = false;
    let mut found: bool = false;
    let mut meta: Vec<Vec<u8>> = Vec::new();
    let mut cur: Option<FenceLang> = None;
    let mut blocks: Vec<BlockAcc> = Vec::new();
    let mut i: usize = 0;
    proof {
        assert(ls.subrange(0, 0) =~= Seq::<Seq<u8>>::empty());
        assert(views(meta@) =~= Seq::<Seq<u8>>::empty());
        assert(block_views(blocks@) =~= Seq::<(FenceLang, Seq<u8>)>::empty());
    }
    while i < lines.len()
        invariant
            0 <= i <= lines.len(),
            ls == views(lines@),
            tangle_run(ls.subrange(0, i as int)) == (TangleView {
                in_fm,
                found,
                meta: views(meta@),
                cur,
                blocks: block_views(blocks@),
            }),
        decreases lines.len() - i,
    {
        let ghost prefix = ls.subrange(0, i as int);
        let ghost st = tangle_run(prefix);
        let line = &lines[i];
        let ghost lv = line@;
        proof {
            assert(ls.subrange(0, i + 1).drop_last() =~= prefix);
            assert(ls.subrange(0, i + 1).last() == ls[i as int]);
            assert(ls[i as int] == lv);
            assert(tangle_run(ls.subrange(0, i + 1)) == tangle_step(st, lv));
        }
        let t = trim_bytes(line);
        let is_dash = crate::text::bytes_eq(&t, &crate::tokens::tok_dashes());
        if is_dash && !in_fm {
            in_fm = true;
        } else if is_dash {
            in_fm = false;
            found = true;
        } else if in_fm {
            let copy = subvec(line, 0, line.len());
            proof {
                assert(copy@ =~= lv);
            }
            let ghost prev = meta@;
            meta.push(copy);
            proof {
                crate::text::lemma_views_push(prev, copy);
                assert(views(meta@) =~= views(prev).push(lv));
            }
        } else if starts_with(&t, &tok_fence()) && cur.is_some() {
            cur = None;
        } else if starts_with(&t, &tok_fence()) {
            match detect_fence_lang(line) {
                Some(l) => {
                    cur = Some(l);
                    match find_block(&blocks, l) {
                        Some(_) => {
                            proof {
                                assert(ensure_block(block_views(blocks@), l) == block_views(
                                    blocks@,
                                ));
                            }
                        },
                        None => {
                            let ghost prev = blocks@;
                            blocks.push(BlockAcc { lang: l, code: Vec::new() });
                            proof {
                                assert(block_views(blocks@) =~= block_views(prev).push(
                                    (l, Seq::<u8>::empty()),
                                ));
                                assert(block_views(blocks@) == ensure_block(
                                    block_views(prev),
                                    l,
                                ));
                            }
                        },
                    }
                },
                None => {},
            }
        } else {
            match cur {
                Some(l) => {
                    match find_block(&blocks, l) {
                        Some(j) => {
                            let ghost prev = blocks@;
                            proof {
                                lemma_block_idx(block_views(prev), l);
                                assert(block_views(prev)[j as int].0 == l);
                                assert(prev[j as int].lang == l);
                            }
                            let code_line = subvec(line, 0, line.len());
                            proof {
                                assert(code_line@ =~= lv);
                            }
                            let b = &mut blocks[j];
                            push_all(&mut b.code, &code_line);
                            b.code.push(10);
                            proof {
                                assert(blocks@[j as int].lang == prev[j as int].lang);
                                assert(blocks@[j as int].code@ == prev[j as int].code@ + lv
                                    + seq![10u8]);
                                assert(forall|k: int|
                                    0 <= k < blocks@.len() && k != j ==> blocks@[k]
                                        == prev[k]);
                                assert(block_views(prev)[j as int].1 == prev[j as int].code@);
                                assert(block_views(blocks@) =~= append_block(
                                    block_views(prev),
                                    l,
                                    lv,
                                ));
                            }
                        },
                        None => {},
                    }
                },
                None => {},
            }
        }
        i = i + 1;
    }
    proof {
        assert(ls.subrange(0, ls.len() as int) =~= ls);
    }
    let ghost st = tangle_run(ls);
    if !found {
        return Err(TangleError::NoFrontMatter);
    }
    match parse_meta_lines(&meta) {
        None => Err(TangleError::InvalidFrontMatter),
        Some(m) => {
            let mut files: Vec<TangleFile> = Vec::new();
            let mut k: usize = 0;
            while k < blocks.len()
                invariant
                    0 <= k <= blocks.len(),
                    st.blocks == block_views(blocks@),
                    spec_parse_meta(st.meta) == Some(m@),
                    files@.map_values(|f: TangleFile| f@) =~= st.blocks.subrange(
                        0,
                        k as int,
                    ).map_values(|b: (FenceLang, Seq<u8>)| spec_block_file(m@, b)),
                decreases blocks.len() - k,
            {
                let mut name = subvec(&m.output_filename, 0, m.output_filename.len());
                name.push(46);
                let ext = ext_of_lang(blocks[k].lang);
                push_all(&mut name, &ext);
                let code = subvec(&blocks[k].code, 0, blocks[k].code.len());
                let ghost nv = name@;
                let ghost cv = code@;
                proof {
                    assert(st.blocks[k as int] == block_views(blocks@)[k as int]);
                    assert(st.blocks[k as int] == (blocks@[k as int].lang, blocks@[
                        k as int].code@));
                    assert(nv =~= m@.output_filename + seq![46u8] + spec_ext_of_lang(
                        blocks@[k as int].lang,
                    ));
                    assert(cv =~= blocks@[k as int].code@);
                    assert(spec_block_file(m@, st.blocks[k as int]) == (nv, cv));
                }
                let ghost prevf = files@;
                files.push(TangleFile { name, code });
                proof {
                    assert(files@.last()@ == (nv, cv));
                    assert(prevf.map_values(|f: TangleFile| f@) == st.blocks.subrange(
                        0,
                        k as int,
                    ).map_values(|b: (FenceLang, Seq<u8>)| spec_block_file(m@, b)));
                    assert(prevf.map_values(|f: TangleFile| f@).len() == prevf.len());
                    assert(st.blocks.subrange(0, k as int).map_values(
                        |b: (FenceLang, Seq<u8>)| spec_block_file(m@, b),
                    ).len() == k);
                    assert(prevf.len() == k);
                    let lhs = files@.map_values(|f: TangleFile| f@);
                    let rhs = st.blocks.subrange(0, k + 1).map_values(
                        |b: (FenceLang, Seq<u8>)| spec_block_file(m@, b),
                    );
                    assert(lhs.len() == rhs.len());
                    assert forall|t: int| 0 <= t < k + 1 implies lhs[t] == rhs[t] by {
                        if t < k {
                            assert(files@[t] == prevf[t]);
                            assert(lhs[t] == prevf.map_values(|f: TangleFile| f@)[t]);
                            assert(prevf.map_values(|f: TangleFile| f@)[t] == st.blocks.subrange(
                                0,
                                k as int,
                            ).map_values(|b: (FenceLang, Seq<u8>)| spec_block_file(m@, b))[t]);
                            assert(rhs[t] == spec_block_file(m@, st.blocks[t]));
                        } else {
                            assert(files@[t] == files@.last());
                            assert(lhs[t] == (nv, cv));
                            assert(rhs[t] == spec_block_file(m@, st.blocks[k as int]));
                        }
                    }
                    assert(lhs =~= rhs);
                }
                k = k + 1;
            }
            proof {
                assert(st.blocks.subrange(0, st.blocks.len() as int) =~= st.blocks);
            }
            Ok(files)
        },
    }
}

/// If a linear search saw no accumulator of language `l`, there is none.
proof fn lemma_block_idx_none(bs: Seq<(FenceLang, Seq<u8>)>, l: FenceLang)
    requires
        forall|k: int| 0 <= k < bs.len() ==> (#[trigger] bs[k]).0 != l,
    ensures
        block_idx(bs, l) == -1,
    decreases bs.len(),
{
    if bs.len() > 0 {
        assert forall|k: int| 0 <= k < bs.drop_first().len() implies (#[trigger] bs.drop_first()[k]).0
            != l by {
            assert(bs.drop_first()[k] == bs[k + 1]);
        }
        lemma_block_idx_none(bs.drop_first(), l);
    }
}

/// A first hit of a linear search is the block index.
proof fn lemma_block_idx_first(bs: Seq<(FenceLang, Seq<u8>)>, l: FenceLang, j: int)
    requires
        0 <= j < bs.len(),
        bs[j].0 == l,
        forall|k: int| 0 <= k < j ==> (#[trigger] bs[k]).0 != l,
    ensures
        block_idx(bs, l) == j,
    decreases j,
{
    if j > 0 {
        assert forall|k: int| 0 <= k < j - 1 implies (#[trigger] bs.drop_first()[k]).0 != l by {
            assert(bs.drop_first()[k] == bs[k + 1]);
        }
        assert(bs.drop_first()[j - 1] == bs[j]);
        lemma_block_idx_first(bs.drop_first(), l, j - 1);
    }
}

/// Extracts code from a whole Markdown document; the document is split into
/// lines and handed to `extract_code_from_lines`.
pub fn extract_code_from_markdown(doc: &Vec<u8>) -> (r: Result<Vec<TangleFile>, TangleError>)
    ensures
        match r {
            Ok(files) => spec_extract_code(spec_lines(doc@)) == Ok::<
                Seq<(Seq<u8>, Seq<u8>)>,
                TangleError,
            >(files@.map_values(|f: TangleFile| f@)),
            Err(e) => spec_extract_code(spec_lines(doc@)) == Err::<
                Seq<(Seq<u8>, Seq<u8>)>,
                TangleError,
            >(e),
        },
{
    let lines = split_lines(doc);
    extract_code_from_lines(&lines)
}

} // verus!
