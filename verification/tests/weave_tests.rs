use lila::front_matter::MarkdownMeta;
use lila::tangle::extract_code_from_markdown;
use lila::weave::{
    build_content_index, chapter_of, convert_file_to_markdown, index_chapters, weave_document,
    IndexEntry,
};

fn v(s: &str) -> Vec<u8> {
    s.as_bytes().to_vec()
}

fn s(b: &[u8]) -> String {
    String::from_utf8(b.to_vec()).unwrap()
}

#[test]
fn woven_document_has_the_documented_format() {
    let doc = weave_document(&v("main"), &v("py"), &v("print(1)\n"));
    assert_eq!(s(&doc), "---\noutput_filename: main\n---\n\n```python\nprint(1)\n```\n");
}

#[test]
fn woven_document_for_unknown_extension_has_plain_fence() {
    let doc = weave_document(&v("notes"), &v("txt"), &v("hello\n"));
    assert_eq!(s(&doc), "---\noutput_filename: notes\n---\n\n```\nhello\n```\n");
}

#[test]
fn round_trip_restores_python_content() {
    let content = v("def f(x):\n    return x + 1\n\nprint(f(2))\n");
    let doc = weave_document(&v("prog"), &v("py"), &content);
    let files = extract_code_from_markdown(&doc).unwrap();
    assert_eq!(files.len(), 1);
    assert_eq!(s(&files[0].name), "prog.py");
    assert_eq!(files[0].code, content);
}

#[test]
fn round_trip_adds_one_trailing_newline_at_most() {
    let content = v("fn main() {}");
    let doc = weave_document(&v("m"), &v("rs"), &content);
    let files = extract_code_from_markdown(&doc).unwrap();
    assert_eq!(s(&files[0].name), "m.rs");
    assert_eq!(s(&files[0].code), "fn main() {}\n");
}

#[test]
fn round_trip_header_file_comes_back_as_c() {
    let content = v("#define N 2\n");
    let doc = weave_document(&v("defs"), &v("h"), &content);
    let files = extract_code_from_markdown(&doc).unwrap();
    assert_eq!(s(&files[0].name), "defs.c");
    assert_eq!(files[0].code, content);
}

#[test]
fn round_trip_all_supported_extensions() {
    for ext in ["py", "rs", "cpp", "c", "js", "ts", "sh"] {
        let content = v("some code line\nanother line\n");
        let doc = weave_document(&v("f"), &v(ext), &content);
        let files = extract_code_from_markdown(&doc).unwrap();
        assert_eq!(files.len(), 1, "extension {ext}");
        assert_eq!(s(&files[0].name), format!("f.{ext}"));
        assert_eq!(files[0].code, content, "extension {ext}");
    }
}

#[test]
fn convert_skips_markdown_files() {
    assert!(convert_file_to_markdown(&v("readme"), &v("md"), &v("x")).is_none());
    assert!(convert_file_to_markdown(&v("readme"), &v("MARKDOWN"), &v("x")).is_none());
}

#[test]
fn convert_names_and_fills_the_document() {
    let (name, doc, meta) = convert_file_to_markdown(&v("main"), &v("RS"), &v("fn main() {}\n")).unwrap();
    assert_eq!(s(&name), "main.md");
    assert_eq!(s(&doc), "---\noutput_filename: main\n---\n\n```rust\nfn main() {}\n```\n");
    assert_eq!(s(&meta.output_filename), "main");
    assert!(meta.brief.is_none() && meta.details.is_none());
}

#[test]
fn chapter_is_the_first_path_component() {
    assert_eq!(s(&chapter_of(&v("chapterA/x.md"))), "chapterA");
    assert_eq!(s(&chapter_of(&v("x.md"))), "x.md");
    assert_eq!(s(&chapter_of(&v(""))), "Uncategorized");
    assert_eq!(s(&chapter_of(&v("a/b/c.md"))), "a");
}

fn entry(path: &str, name: &str, brief: Option<&str>, details: Option<&str>) -> IndexEntry {
    IndexEntry {
        rel_path: v(path),
        meta: MarkdownMeta {
            output_filename: v(name),
            brief: brief.map(v),
            details: details.map(v),
        },
    }
}

#[test]
fn content_index_groups_by_chapter_in_sorted_order() {
    let entries = vec![
        entry("chapterB/z.md", "z", None, None),
        entry("chapterA/x.md", "x", Some("an x"), None),
        entry("chapterA/y.md", "y", None, Some("long text")),
    ];
    let doc = build_content_index(&entries);
    let text = s(&doc);
    let sections: Vec<usize> = text.match_indices("## Chapter: ").map(|(i, _)| i).collect();
    assert_eq!(sections.len(), 2);
    let a = text.find("## Chapter: chapterA\n").unwrap();
    let b = text.find("## Chapter: chapterB\n").unwrap();
    assert!(a < b);
    let row_x = "| x | [chapterA/x.md](chapterA/x.md) | \u{2705} an x | \u{274C} |";
    let row_y =
        "| y | [chapterA/y.md](chapterA/y.md) | \u{274C} | <details><summary>View Details</summary>long text</details> |";
    let row_z = "| z | [chapterB/z.md](chapterB/z.md) | \u{274C} | \u{274C} |";
    let px = text.find(row_x).unwrap();
    let py = text.find(row_y).unwrap();
    let pz = text.find(row_z).unwrap();
    assert!(a < px && px < py && py < b && b < pz);
}

#[test]
fn content_index_opens_with_the_overview_heading() {
    let entries = vec![entry("c/x.md", "x", None, None)];
    let doc = build_content_index(&entries);
    let text = s(&doc);
    assert!(text.starts_with("# Book Overview\n\n"));
    assert!(text.contains("| **File Name** | **Path** | **Brief** | **Details** |"));
    assert!(text.contains("|---------------|----------|-----------|-------------|"));
}

#[test]
fn chapters_are_deduplicated_and_sorted() {
    let entries = vec![
        entry("b/1.md", "1", None, None),
        entry("a/2.md", "2", None, None),
        entry("b/3.md", "3", None, None),
    ];
    let chapters = index_chapters(&entries);
    assert_eq!(chapters.len(), 2);
    assert_eq!(s(&chapters[0]), "a");
    assert_eq!(s(&chapters[1]), "b");
}
