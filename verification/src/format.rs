//! Locating the fenced code blocks of a Markdown document so that an
//! external formatter can rewrite them in place: each complete block is
//! reported with the line range of its content and the language guessed
//! from its opening fence.

use vstd::prelude::*;

use crate::language::{detect_language_from_line, spec_detect_language_from_line, CodeLanguage};
use crate::text::{
    append_lines, spec_starts_with, spec_trim, starts_with, sub_lines, trim_bytes, views,
};
use crate::tokens::{spec_fence, tok_fence};

verus! {

broadcast use crate::text::lemma_views_push;

/// One complete fenced code block: the index of its first content line, the
/// index of its closing fence line (the content is `start..end`), and the
/// language of its opening fence.
pub struct CodeBlockSpan {
    pub start: usize,
    pub end: usize,
    pub lang: CodeLanguage,
}

impl View for CodeBlockSpan {
    type V = (int, int, CodeLanguage);

    open spec fn view(&self) -> (int, int, CodeLanguage) {
        (self.start as int, self.end as int, self.lang)
    }
}

/// The scan state: outside any block, or inside one opened with the given
/// language whose content starts at the recorded line.
pub ghost enum FmtState {
    Outside,
    Inside { start: int, lang: CodeLanguage },
}

/// Whether a line is a fence line: its trimmed form opens with three
/// backticks.
pub open spec fn is_fence_line(l: Seq<u8>) -> bool {
    spec_starts_with(spec_trim(l), spec_fence())
}

/// One scan step at line `i`: a fence line opens a block (remembering the
/// language of the fence line) or closes the open one, recording its span.
pub open spec fn fmt_step(
    st: (FmtState, Seq<(int, int, CodeLanguage)>),
    i: int,
    line: Seq<u8>,
) -> (FmtState, Seq<(int, int, CodeLanguage)>) {
    if is_fence_line(line) {
        match st.0 {
            FmtState::Outside => (
                FmtState::Inside { start: i + 1, lang: spec_detect_language_from_line(line) },
                st.1,
            ),
            FmtState::Inside { start, lang } => (FmtState::Outside, st.1.push((start, i, lang))),
        }
    } else {
        st
    }
}

/// The scan state after the first `n` lines.
pub open spec fn fmt_run(lines: Seq<Seq<u8>>, n: int) -> (FmtState, Seq<(int, int, CodeLanguage)>)
    decreases n,
    when 0 <= n <= lines.len()
{
    if n == 0 {
        (FmtState::Outside, Seq::empty())
    } else {
        fmt_step(fmt_run(lines, n - 1), n - 1, lines[n - 1])
    }
}

/// The complete code block spans of a document, in order; an unclosed final
/// block is not reported.
pub open spec fn spec_code_block_spans(lines: Seq<Seq<u8>>) -> Seq<(int, int, CodeLanguage)> {
    fmt_run(lines, lines.len() as int).1
}

/// The spans of found code blocks.
pub open spec fn span_views(v: Seq<CodeBlockSpan>) -> Seq<(int, int, CodeLanguage)> {
    v.map_values(|b: CodeBlockSpan| b@)
}

/// Finds the complete fenced code blocks of a document; see
/// `spec_code_block_spans`.
pub fn code_block_spans(lines: &Vec<Vec<u8>>) -> (r: Vec<CodeBlockSpan>)
    ensures
        span_views(r@) == spec_code_block_spans(views(lines@)),
        forall|n: int|
            0 <= n < r@.len() ==> (#[trigger] r@[n]).start <= r@[n].end < lines@.len(),
{
    let ghost ls = views(lines@);
    let mut r: Vec<CodeBlockSpan> = Vec::new();
    let mut inside: bool = false;
    let mut start: usize = 0;
    let mut lang: CodeLanguage = CodeLanguage::Unknown;
    let mut i: usize = 0;
    let fence = tok_fence();
    while i < lines.len()
        invariant
            0 <= i <= lines.len(),
            ls == views(lines@),
            fence@ == spec_fence(),
            fmt_run(ls, i as int) == (if inside {
                (FmtState::Inside { start: start as int, lang }, span_views(r@))
            } else {
                (FmtState::Outside, span_views(r@))
            }),
            inside ==> start <= i,
            forall|n: int|
                0 <= n < r@.len() ==> (#[trigger] r@[n]).start <= r@[n].end < i,
        decreases lines.len() - i,
    {
        let t = trim_bytes(&lines[i]);
        if starts_with(&t, &fence) {
            if inside {
                let ghost prev = r@;
                r.push(CodeBlockSpan { start, end: i, lang });
                proof {
                    assert(span_views(r@) =~= span_views(prev).push(
                        (start as int, i as int, lang),
                    ));
                }
                inside = false;
            } else {
                lang = detect_language_from_line(&lines[i]);
                start = i + 1;
                inside = true;
            }
        }
        i = i + 1;
    }
    r
}

/// The lines with the range `start..end` replaced by `repl`.
pub open spec fn spec_splice(
    lines: Seq<Seq<u8>>,
    start: int,
    end: int,
    repl: Seq<Seq<u8>>,
) -> Seq<Seq<u8>> {
    lines.subrange(0, start) + repl + lines.subrange(end, lines.len() as int)
}

/// Replaces the lines `start..end` by `repl`; used to put a formatted code
/// block back into its document.
pub fn splice_lines(lines: &Vec<Vec<u8>>, start: usize, end: usize, repl: &Vec<Vec<u8>>) -> (r:
    Vec<Vec<u8>>)
    requires
        start <= end <= lines.len(),
    ensures
        views(r@) == spec_splice(views(lines@), start as int, end as int, views(repl@)),
{
    let mut r = sub_lines(lines, 0, start);
    append_lines(&mut r, repl);
    let tail = sub_lines(lines, end, lines.len());
    append_lines(&mut r, &tail);
    proof {
        assert(views(r@) =~= spec_splice(views(lines@), start as int, end as int, views(repl@)));
    }
    r
}

} // verus!
