use lila::cli::{tangle_root, weave_root};
use lila::format::{code_block_spans, splice_lines};
use lila::language::CodeLanguage;
use lila::prepare::{collect_mentions, mention_line, missing_mentions};
use lila::text::{join_nl, split_lines, unlines};

fn v(s: &str) -> Vec<u8> {
    s.as_bytes().to_vec()
}

fn s(b: &[u8]) -> String {
    String::from_utf8(b.to_vec()).unwrap()
}

fn lines(text: &str) -> Vec<Vec<u8>> {
    split_lines(&v(text))
}

#[test]
fn mentions_are_read_off_readme_lines() {
    let readme = lines("intro\nsee @{main.py} for the code\nand @{lib.rs:helper} too\n");
    let mentions = collect_mentions(&readme);
    assert_eq!(mentions.len(), 2);
    assert_eq!(s(&mentions[0]), "main.py");
    assert_eq!(s(&mentions[1]), "lib.rs");
}

#[test]
fn missing_mentions_skip_the_readme_and_known_files() {
    let mentions = vec![v("a.py")];
    let files = vec![v("a.py"), v("b.rs"), v("README.md"), v("readme.MD"), v("c.c")];
    let missing = missing_mentions(&mentions, &files);
    assert_eq!(missing.len(), 2);
    assert_eq!(s(&missing[0]), "b.rs");
    assert_eq!(s(&missing[1]), "c.c");
}

#[test]
fn mention_line_has_the_placeholder_shape() {
    assert_eq!(s(&mention_line(&v("notes.txt"))), "@{notes.txt}");
}

#[test]
fn code_block_spans_report_content_ranges_and_languages() {
    let doc = lines("title\n```python\na = 1\nb = 2\n```\ntext\n```rust\nfn f() {}\n```\n");
    let spans = code_block_spans(&doc);
    assert_eq!(spans.len(), 2);
    assert_eq!((spans[0].start, spans[0].end), (2, 4));
    assert_eq!(spans[0].lang, CodeLanguage::Python);
    assert_eq!((spans[1].start, spans[1].end), (7, 8));
    assert_eq!(spans[1].lang, CodeLanguage::Rust);
}

#[test]
fn unclosed_block_is_not_reported() {
    let doc = lines("```python\na = 1\n");
    assert_eq!(code_block_spans(&doc).len(), 0);
}

#[test]
fn splice_replaces_a_line_range() {
    let doc = lines("a\nb\nc\nd\n");
    let repl = lines("X\nY\n");
    let out = splice_lines(&doc, 1, 3, &repl);
    assert_eq!(s(&unlines(&out)), "a\nX\nY\nd\n");
}

#[test]
fn tangle_root_prefers_the_output_option() {
    assert_eq!(s(&tangle_root(Some(v("out")), Some(v("env")), v("root"))), "out");
    assert_eq!(s(&tangle_root(None, Some(v("env")), v("root"))), "env");
    assert_eq!(s(&tangle_root(None, None, v("root"))), "root");
}

#[test]
fn weave_root_appends_doc_only_below_defaults() {
    assert_eq!(s(&weave_root(Some(v("out")), Some(v("env")), v("root"))), "out");
    assert_eq!(s(&weave_root(None, Some(v("env")), v("root"))), "env/doc");
    assert_eq!(s(&weave_root(None, None, v("root"))), "root/doc");
}

#[test]
fn split_and_join_round_trip() {
    let text = v("one\ntwo\n\nthree\n");
    let ls = split_lines(&text);
    assert_eq!(ls.len(), 4);
    assert_eq!(unlines(&ls), text);
    assert_eq!(s(&join_nl(&ls)), "one\ntwo\n\nthree");
    let no_trailing = v("a\nb");
    let ls2 = split_lines(&no_trailing);
    assert_eq!(ls2.len(), 2);
    assert_eq!(s(&unlines(&ls2)), "a\nb\n");
}
