//! The weave engine: embedding a source file into a literate Markdown
//! document (front matter followed by one fenced code block), and building
//! the content index that groups woven documents by chapter.

use vstd::prelude::*;

use crate::front_matter::{meta_to_lines, spec_meta_lines, MarkdownMeta, MetaView};
use crate::language::{infer_language_from_extension, spec_lang_of_ext, spec_lower};
use crate::order::{spec_dedupe, spec_sort_lex, strict_sorted};
use crate::text::{
    append_lines, find_byte, first_byte, push_all, spec_lines, spec_unlines, split_lines, subvec,
    unlines, views,
};
use crate::tokens::{
    spec_cell_close, spec_cell_open, spec_cell_sep, spec_chapter_prefix, spec_check_prefix,
    spec_cross_mark, spec_details_close, spec_details_open, spec_ext_markdown, spec_ext_md,
    spec_fence, spec_index_blurb, spec_table_head1, spec_table_head2, spec_title_line,
    spec_uncategorized, tok_cell_close, tok_cell_open, tok_cell_sep, tok_chapter_prefix,
    tok_check_prefix, tok_cross_mark, tok_details_close, tok_details_open, tok_ext_markdown,
    tok_ext_md, tok_fence, tok_index_blurb, tok_table_head1, tok_table_head2, tok_title_line,
    tok_uncategorized,
};

verus! {

broadcast use crate::text::lemma_views_push;

/// The opening fence line of a woven document: three backticks, annotated
/// with the language token of the file's extension where one is known.
pub open spec fn spec_fence_open(ext: Seq<u8>) -> Seq<u8> {
    match spec_lang_of_ext(ext) {
        Some(tok) => spec_fence() + tok,
        None => spec_fence(),
    }
}

/// The lines of the Markdown document woven for a source file: front matter
/// carrying the file stem as `output_filename`, a blank line, and the whole
/// file content inside one fenced code block.
pub open spec fn spec_weave_lines(stem: Seq<u8>, ext: Seq<u8>, content: Seq<u8>) -> Seq<Seq<u8>> {
    seq![crate::tokens::spec_dashes()] + spec_meta_lines(
        MetaView { output_filename: stem, brief: None, details: None },
    ) + seq![crate::tokens::spec_dashes(), Seq::<u8>::empty(), spec_fence_open(ext)]
        + spec_lines(content) + seq![spec_fence()]
}

/// The woven Markdown document as bytes: its lines, each closed by a line
/// feed.
pub open spec fn spec_weave_document(stem: Seq<u8>, ext: Seq<u8>, content: Seq<u8>) -> Seq<u8> {
    spec_unlines(spec_weave_lines(stem, ext, content))
}

/// Weaves one source file into a Markdown document; see
/// `spec_weave_document`. The caller passes the file stem, its extension,
/// and the file content.
pub fn weave_document(stem: &Vec<u8>, ext: &Vec<u8>, content: &Vec<u8>) -> (r: Vec<u8>)
    ensures
        r@ == spec_weave_document(stem@, ext@, content@),
{
    let mut doc_lines: Vec<Vec<u8>> = Vec::new();
    doc_lines.push(crate::tokens::tok_dashes());
    let ofn = subvec(stem, 0, stem.len());
    proof {
        assert(ofn@ =~= stem@);
    }
    let meta = MarkdownMeta { output_filename: ofn, brief: None, details: None };
    proof {
        assert(meta@ == MetaView { output_filename: stem@, brief: None, details: None });
    }
    let meta_lines = meta_to_lines(&meta);
    append_lines(&mut doc_lines, &meta_lines);
    doc_lines.push(crate::tokens::tok_dashes());
    doc_lines.push(Vec::new());
    let mut fence_line = tok_fence();
    match infer_language_from_extension(ext) {
        Some(tok) => {
            push_all(&mut fence_line, &tok);
        },
        None => {},
    }
    proof {
        assert(fence_line@ == spec_fence_open(ext@));
    }
    doc_lines.push(fence_line);
    let content_lines = split_lines(content);
    append_lines(&mut doc_lines, &content_lines);
    doc_lines.push(tok_fence());
    proof {
        assert(views(doc_lines@) =~= spec_weave_lines(stem@, ext@, content@));
    }
    unlines(&doc_lines)
}

/// What weaving one file yields: nothing for a Markdown file (those are
/// copied as they stand), else the name of the generated document, the
/// document itself, and its metadata. The extension is compared in ASCII
/// lower case.
pub open spec fn spec_convert_file(stem: Seq<u8>, ext: Seq<u8>, content: Seq<u8>) -> Option<
    (Seq<u8>, Seq<u8>, MetaView),
> {
    let e = spec_lower(ext);
    if e == spec_ext_md() || e == spec_ext_markdown() {
        None
    } else {
        Some(
            (
                stem + spec_dot_md(),
                spec_weave_document(stem, e, content),
                MetaView { output_filename: stem, brief: None, details: None },
            ),
        )
    }
}

/// The suffix `.md` appended to a stem to name a woven document.
pub open spec fn spec_dot_md() -> Seq<u8> {
    seq![46u8] + spec_ext_md()
}

/// Converts one source file to a Markdown document; see
/// `spec_convert_file`. Returns the document's file name, the document, and
/// the metadata recorded for the content index, or `None` for a file that
/// already is Markdown.
pub fn convert_file_to_markdown(stem: &Vec<u8>, ext: &Vec<u8>, content: &Vec<u8>) -> (r: Option<
    (Vec<u8>, Vec<u8>, MarkdownMeta),
>)
    ensures
        match r {
            Some(t) => spec_convert_file(stem@, ext@, content@) == Some(
                (t.0@, t.1@, t.2@),
            ),
            None => spec_convert_file(stem@, ext@, content@) is None,
        },
{
    let e = crate::language::lowercase_bytes(ext);
    if crate::text::bytes_eq(&e, &tok_ext_md()) || crate::text::bytes_eq(&e, &tok_ext_markdown()) {
        return None;
    }
    let doc = weave_document(stem, &e, content);
    let mut name = subvec(stem, 0, stem.len());
    name.push(46);
    push_all(&mut name, &tok_ext_md());
    let ofn = subvec(stem, 0, stem.len());
    proof {
        assert(ofn@ =~= stem@);
    }
    let meta = MarkdownMeta { output_filename: ofn, brief: None, details: None };
    proof {
        assert(name@ =~= stem@ + spec_dot_md());
        assert(meta@ == MetaView { output_filename: stem@, brief: None, details: None });
    }
    Some((name, doc, meta))
}

/// One woven document recorded for the content index: its path relative to
/// the output root, and its metadata.
pub struct IndexEntry {
    pub rel_path: Vec<u8>,
    pub meta: MarkdownMeta,
}

impl View for IndexEntry {
    type V = (Seq<u8>, MetaView);

    open spec fn view(&self) -> (Seq<u8>, MetaView) {
        (self.rel_path@, self.meta@)
    }
}

/// The views of a sequence of index entries.
pub open spec fn entry_views(es: Seq<IndexEntry>) -> Seq<(Seq<u8>, MetaView)> {
    es.map_values(|e: IndexEntry| e@)
}

/// The chapter of a relative path: its first component, that is, everything
/// before the first slash (the whole path when there is no slash), or
/// `Uncategorized` for an empty path.
pub open spec fn spec_chapter_of(p: Seq<u8>) -> Seq<u8> {
    if p.len() == 0 {
        spec_uncategorized()
    } else {
        let i = first_byte(p, 47);
        if 0 <= i && i < p.len() {
            p.subrange(0, i)
        } else {
            p
        }
    }
}

/// Computes the chapter of a relative path; see `spec_chapter_of`.
pub fn chapter_of(p: &Vec<u8>) -> (r: Vec<u8>)
    ensures
        r@ == spec_chapter_of(p@),
{
    if p.len() == 0 {
        return tok_uncategorized();
    }
    match find_byte(p, 47, 0) {
        Some(i) => {
            proof {
                crate::text::lemma_first_byte_at(p@, 47, i as int);
            }
            subvec(p, 0, i)
        },
        None => {
            proof {
                crate::text::lemma_first_byte_at(p@, 47, p@.len() as int);
            }
            subvec(p, 0, p.len())
        },
    }
}

/// The brief cell of an index row: the brief behind a check mark, or a
/// cross mark when there is none.
pub open spec fn spec_brief_cell(b: Option<Seq<u8>>) -> Seq<u8> {
    match b {
        Some(t) => spec_check_prefix() + t,
        None => spec_cross_mark(),
    }
}

/// The details cell of an index row: the details inside a collapsed HTML
/// block, or a cross mark when there is none.
pub open spec fn spec_details_cell(d: Option<Seq<u8>>) -> Seq<u8> {
    match d {
        Some(t) => spec_details_open() + t + spec_details_close(),
        None => spec_cross_mark(),
    }
}

/// One table row of the content index: the document's `output_filename`, a
/// link to its relative path, its brief, and its details.
pub open spec fn spec_index_row(e: (Seq<u8>, MetaView)) -> Seq<u8> {
    spec_cell_open() + e.1.output_filename + spec_cell_sep() + seq![91u8] + e.0 + seq![93u8, 40u8]
        + e.0 + seq![41u8] + spec_cell_sep() + spec_brief_cell(e.1.brief) + spec_cell_sep()
        + spec_details_cell(e.1.details) + spec_cell_close()
}

/// The lines of one chapter section: its heading, a blank line, the table
/// header, one row per entry of the chapter in input order, and a closing
/// blank line.
pub open spec fn spec_chapter_section(c: Seq<u8>, es: Seq<(Seq<u8>, MetaView)>) -> Seq<Seq<u8>> {
    seq![spec_chapter_prefix() + c, Seq::<u8>::empty(), spec_table_head1(), spec_table_head2()]
        + es.filter(|e: (Seq<u8>, MetaView)| spec_chapter_of(e.0) == c).map_values(
        |e: (Seq<u8>, MetaView)| spec_index_row(e),
    ) + seq![Seq::<u8>::empty()]
}

/// The chapter sections of the content index, one per chapter, in order.
pub open spec fn spec_sections(cs: Seq<Seq<u8>>, es: Seq<(Seq<u8>, MetaView)>) -> Seq<Seq<u8>>
    decreases cs.len(),
{
    if cs.len() == 0 {
        Seq::empty()
    } else {
        spec_chapter_section(cs[0], es) + spec_sections(cs.drop_first(), es)
    }
}

/// The chapters of a set of entries: their first path components, first
/// occurrences only, sorted lexicographically.
pub open spec fn spec_chapters(es: Seq<(Seq<u8>, MetaView)>) -> Seq<Seq<u8>> {
    spec_sort_lex(spec_dedupe(es.map_values(|e: (Seq<u8>, MetaView)| spec_chapter_of(e.0))))
}

/// The lines of the whole content index document.
pub open spec fn spec_index_lines(es: Seq<(Seq<u8>, MetaView)>) -> Seq<Seq<u8>> {
    seq![spec_title_line(), Seq::<u8>::empty(), spec_index_blurb(), Seq::<u8>::empty()]
        + spec_sections(spec_chapters(es), es)
}

/// The content index document as bytes.
pub open spec fn spec_content_index(es: Seq<(Seq<u8>, MetaView)>) -> Seq<u8> {
    spec_unlines(spec_index_lines(es))
}

/// The chapter list of the content index ascends strictly and holds exactly
/// the chapters of the entries: every entry's chapter is listed, and
/// nothing else.
pub proof fn lemma_chapters_sorted(es: Seq<(Seq<u8>, MetaView)>)
    ensures
        strict_sorted(spec_chapters(es)),
        spec_chapters(es).no_duplicates(),
        forall|x: Seq<u8>|
            spec_chapters(es).contains(x) == es.map_values(
                |e: (Seq<u8>, MetaView)| spec_chapter_of(e.0),
            ).contains(x),
{
    let raw = es.map_values(|e: (Seq<u8>, MetaView)| spec_chapter_of(e.0));
    crate::order::lemma_dedupe(raw);
    crate::order::lemma_sort_lex(spec_dedupe(raw));
    let ch = spec_chapters(es);
    assert forall|i: int, j: int| 0 <= i < j < ch.len() implies ch[i] != ch[j] by {
        crate::order::lemma_lex_irrefl(ch[i]);
    }
}

/// Builds one index row.
fn index_row(e: &IndexEntry) -> (r: Vec<u8>)
    ensures
        r@ == spec_index_row(e@),
{
    let mut r = tok_cell_open();
    push_all(&mut r, &e.meta.output_filename);
    let sep = tok_cell_sep();
    push_all(&mut r, &sep);
    r.push(91);
    push_all(&mut r, &e.rel_path);
    r.push(93);
    r.push(40);
    push_all(&mut r, &e.rel_path);
    r.push(41);
    push_all(&mut r, &sep);
    match &e.meta.brief {
        Some(b) => {
            let mut cell = tok_check_prefix();
            push_all(&mut cell, b);
            push_all(&mut r, &cell);
        },
        None => {
            let cell = tok_cross_mark();
            push_all(&mut r, &cell);
        },
    }
    push_all(&mut r, &sep);
    match &e.meta.details {
        Some(d) => {
            let mut cell = tok_details_open();
            push_all(&mut cell, d);
            push_all(&mut cell, &tok_details_close());
            push_all(&mut r, &cell);
        },
        None => {
            let cell = tok_cross_mark();
            push_all(&mut r, &cell);
        },
    }
    push_all(&mut r, &tok_cell_close());
    proof {
        assert(r@ =~= spec_index_row(e@));
    }
    r
}

/// Builds the lines of one chapter section.
fn chapter_section(c: &Vec<u8>, entries: &Vec<IndexEntry>) -> (r: Vec<Vec<u8>>)
    ensures
        views(r@) == spec_chapter_section(c@, entry_views(entries@)),
{
    let ghost es = entry_views(entries@);
    let ghost pred = |e: (Seq<u8>, MetaView)| spec_chapter_of(e.0) == c@;
    let mut r: Vec<Vec<u8>> = Vec::new();
    let mut heading = tok_chapter_prefix();
    push_all(&mut heading, c);
    r.push(heading);
    r.push(Vec::new());
    r.push(tok_table_head1());
    r.push(tok_table_head2());
    let mut i: usize = 0;
    proof {
        reveal(Seq::filter);
        assert(es.subrange(0, 0) =~= Seq::<(Seq<u8>, MetaView)>::empty());
        assert(es.subrange(0, 0).filter(pred) =~= Seq::<(Seq<u8>, MetaView)>::empty());
        assert(views(r@) =~= seq![
            spec_chapter_prefix() + c@,
            Seq::<u8>::empty(),
            spec_table_head1(),
            spec_table_head2(),
        ] + es.subrange(0, 0).filter(pred).map_values(
            |e: (Seq<u8>, MetaView)| spec_index_row(e),
        ));
    }
    while i < entries.len()
        invariant
            0 <= i <= entries.len(),
            es == entry_views(entries@),
            pred == (|e: (Seq<u8>, MetaView)| spec_chapter_of(e.0) == c@),
            views(r@) =~= seq![
                spec_chapter_prefix() + c@,
                Seq::<u8>::empty(),
                spec_table_head1(),
                spec_table_head2(),
            ] + es.subrange(0, i as int).filter(pred).map_values(
                |e: (Seq<u8>, MetaView)| spec_index_row(e),
            ),
        decreases entries.len() - i,
    {
        let ghost pre = es.subrange(0, i as int);
        let ghost post = es.subrange(0, i + 1);
        proof {
            reveal(Seq::filter);
            assert(post.drop_last() =~= pre);
            assert(post.last() == es[i as int]);
        }
        let ch = chapter_of(&entries[i].rel_path);
        if crate::text::bytes_eq(&ch, c) {
            let row = index_row(&entries[i]);
            proof {
                assert(entries@[i as int]@ == es[i as int]);
                assert(pred(es[i as int]));
                assert(post.filter(pred) == pre.filter(pred).push(es[i as int]));
            }
            r.push(row);
        } else {
            proof {
                assert(entries@[i as int]@ == es[i as int]);
                assert(!pred(es[i as int]));
                assert(post.filter(pred) == pre.filter(pred));
            }
        }
        i = i + 1;
    }
    r.push(Vec::new());
    proof {
        assert(es.subrange(0, es.len() as int) =~= es);
        assert(views(r@) =~= spec_chapter_section(c@, es));
    }
    r
}

/// Computes the sorted chapter list of the entries; see `spec_chapters`.
pub fn index_chapters(entries: &Vec<IndexEntry>) -> (r: Vec<Vec<u8>>)
    ensures
        views(r@) == spec_chapters(entry_views(entries@)),
{
    let ghost es = entry_views(entries@);
    let ghost raw = es.map_values(|e: (Seq<u8>, MetaView)| spec_chapter_of(e.0));
    let mut deduped: Vec<Vec<u8>> = Vec::new();
    let mut i: usize = 0;
    proof {
        assert(raw.subrange(0, 0) =~= Seq::<Seq<u8>>::empty());
        assert(views(deduped@) =~= spec_dedupe(raw.subrange(0, 0)));
    }
    while i < entries.len()
        invariant
            0 <= i <= entries.len(),
            es == entry_views(entries@),
            raw == es.map_values(|e: (Seq<u8>, MetaView)| spec_chapter_of(e.0)),
            views(deduped@) == spec_dedupe(raw.subrange(0, i as int)),
        decreases entries.len() - i,
    {
        let c = chapter_of(&entries[i].rel_path);
        proof {
            assert(entries@[i as int]@ == es[i as int]);
            assert(raw[i as int] == spec_chapter_of(es[i as int].0));
            assert(raw.subrange(0, i + 1).drop_last() =~= raw.subrange(0, i as int));
            assert(raw.subrange(0, i + 1).last() == raw[i as int]);
        }
        if !contains_line(&deduped, &c) {
            let ghost prev = deduped@;
            deduped.push(c);
            proof {
                assert(views(deduped@) =~= spec_dedupe(raw.subrange(0, i + 1)));
            }
        } else {
            proof {
                assert(views(deduped@) == spec_dedupe(raw.subrange(0, i + 1)));
            }
        }
        i = i + 1;
    }
    proof {
        assert(raw.subrange(0, raw.len() as int) =~= raw);
    }
    let mut sorted: Vec<Vec<u8>> = Vec::new();
    let mut k: usize = 0;
    let ghost dv = views(deduped@);
    proof {
        assert(dv.subrange(0, 0) =~= Seq::<Seq<u8>>::empty());
        assert(views(sorted@) =~= spec_sort_lex(dv.subrange(0, 0)));
    }
    while k < deduped.len()
        invariant
            0 <= k <= deduped.len(),
            dv == views(deduped@),
            views(sorted@) == spec_sort_lex(dv.subrange(0, k as int)),
        decreases deduped.len() - k,
    {
        let c = subvec(&deduped[k], 0, deduped[k].len());
        proof {
            assert(c@ =~= deduped@[k as int]@);
            assert(dv.subrange(0, k + 1).drop_last() =~= dv.subrange(0, k as int));
            assert(dv.subrange(0, k + 1).last() == dv[k as int]);
        }
        crate::order::insert_sorted(&mut sorted, c);
        k = k + 1;
    }
    proof {
        assert(dv.subrange(0, dv.len() as int) =~= dv);
    }
    sorted
}

/// Whether `x` occurs among the lines of `v`.
fn contains_line(v: &Vec<Vec<u8>>, x: &Vec<u8>) -> (r: bool)
    ensures
        r == views(v@).contains(x@),
{
    let mut i: usize = 0;
    while i < v.len()
        invariant
            0 <= i <= v.len(),
            forall|j: int| 0 <= j < i ==> views(v@)[j] != x@,
        decreases v.len() - i,
    {
        if crate::text::bytes_eq(&v[i], x) {
            proof {
                assert(views(v@)[i as int] == x@);
            }
            return true;
        }
        i = i + 1;
    }
    proof {
        if views(v@).contains(x@) {
            let j = choose|j: int| 0 <= j < views(v@).len() && views(v@)[j] == x@;
            assert(false);
        }
    }
    false
}

/// Builds the content index document for the given entries; see
/// `spec_content_index`: a heading, an introduction, and per chapter (in
/// ascending lexicographic order) a table with one row per document of that
/// chapter.
pub fn build_content_index(entries: &Vec<IndexEntry>) -> (r: Vec<u8>)
    ensures
        r@ == spec_content_index(entry_views(entries@)),
{
    let ghost es = entry_views(entries@);
    let chapters = index_chapters(entries);
    let ghost cs = views(chapters@);
    let mut doc_lines: Vec<Vec<u8>> = Vec::new();
    doc_lines.push(tok_title_line());
    doc_lines.push(Vec::new());
    doc_lines.push(tok_index_blurb());
    doc_lines.push(Vec::new());
    let ghost header = seq![
        spec_title_line(),
        Seq::<u8>::empty(),
        spec_index_blurb(),
        Seq::<u8>::empty(),
    ];
    let mut k: usize = 0;
    proof {
        assert(views(doc_lines@) =~= header + spec_sections(cs.subrange(0, 0), es));
    }
    while k < chapters.len()
        invariant
            0 <= k <= chapters.len(),
            es == entry_views(entries@),
            cs == views(chapters@),
            views(doc_lines@) == header + spec_sections(cs.subrange(0, k as int), es),
        decreases chapters.len() - k,
    {
        let section = chapter_section(&chapters[k], entries);
        proof {
            assert(chapters@[k as int]@ == cs[k as int]);
        }
        append_lines(&mut doc_lines, &section);
        proof {
            lemma_sections_snoc(cs, k as int, es);
            assert(views(doc_lines@) =~= header + spec_sections(cs.subrange(0, k + 1), es));
        }
        k = k + 1;
    }
    proof {
        assert(cs.subrange(0, cs.len() as int) =~= cs);
        assert(views(doc_lines@) =~= spec_index_lines(es));
    }
    unlines(&doc_lines)
}

/// Extending the chapter prefix by one chapter appends that chapter's
/// section.
proof fn lemma_sections_snoc(cs: Seq<Seq<u8>>, k: int, es: Seq<(Seq<u8>, MetaView)>)
    requires
        0 <= k < cs.len(),
    ensures
        spec_sections(cs.subrange(0, k + 1), es) == spec_sections(cs.subrange(0, k), es)
            + spec_chapter_section(cs[k], es),
    decreases k,
{
    if k == 0 {
        assert(cs.subrange(0, 1)[0] == cs[0]);
        assert(cs.subrange(0, 1).drop_first() =~= Seq::<Seq<u8>>::empty());
        assert(spec_sections(cs.subrange(0, 1), es) == spec_chapter_section(cs[0], es)
            + spec_sections(Seq::empty(), es));
        assert(spec_chapter_section(cs[0], es) + Seq::<Seq<u8>>::empty() =~= spec_chapter_section(
            cs[0],
            es,
        ));
        assert(spec_sections(cs.subrange(0, 0), es) + spec_chapter_section(cs[0], es)
            =~= spec_chapter_section(cs[0], es));
    } else {
        let t = cs.drop_first();
        lemma_sections_snoc(t, k - 1, es);
        assert(cs.subrange(0, k + 1)[0] == cs[0]);
        assert(cs.subrange(0, k + 1).drop_first() =~= t.subrange(0, k));
        assert(cs.subrange(0, k).drop_first() =~= t.subrange(0, k - 1));
        assert(t[k - 1] == cs[k]);
        assert(spec_sections(cs.subrange(0, k + 1), es) == spec_chapter_section(cs[0], es)
            + spec_sections(t.subrange(0, k), es));
        assert(spec_sections(cs.subrange(0, k), es) == spec_chapter_section(cs[0], es)
            + spec_sections(t.subrange(0, k - 1), es));
        assert(spec_chapter_section(cs[0], es) + (spec_sections(t.subrange(0, k - 1), es)
            + spec_chapter_section(cs[k], es)) =~= (spec_chapter_section(cs[0], es)
            + spec_sections(t.subrange(0, k - 1), es)) + spec_chapter_section(cs[k], es));
    }
}

} // verus!
