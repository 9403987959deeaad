use lila::tangle::{extract_code_from_markdown, TangleError};

fn v(s: &str) -> Vec<u8> {
    s.as_bytes().to_vec()
}

fn s(b: &[u8]) -> String {
    String::from_utf8(b.to_vec()).unwrap()
}

#[test]
fn extracts_one_python_file() {
    let doc = v("---\noutput_filename: hello\n---\n\n```python\nprint(1)\n```\n");
    let files = extract_code_from_markdown(&doc).unwrap();
    assert_eq!(files.len(), 1);
    assert_eq!(s(&files[0].name), "hello.py");
    assert_eq!(s(&files[0].code), "print(1)\n");
}

#[test]
fn no_front_matter_is_always_reported() {
    let doc = v("# a document\n\n```python\nprint(1)\n```\n");
    let r = extract_code_from_markdown(&doc);
    assert_eq!(r.unwrap_err(), TangleError::NoFrontMatter);
}

#[test]
fn empty_document_has_no_front_matter() {
    let doc = v("");
    assert_eq!(extract_code_from_markdown(&doc).unwrap_err(), TangleError::NoFrontMatter);
}

#[test]
fn lone_delimiter_is_not_front_matter() {
    let doc = v("---\noutput_filename: x\n```python\na\n```\n");
    assert_eq!(extract_code_from_markdown(&doc).unwrap_err(), TangleError::NoFrontMatter);
}

#[test]
fn front_matter_without_output_filename_is_invalid() {
    let doc = v("---\nbrief: something\n---\n\n```python\nprint(1)\n```\n");
    assert_eq!(extract_code_from_markdown(&doc).unwrap_err(), TangleError::InvalidFrontMatter);
}

#[test]
fn empty_output_filename_is_invalid() {
    let doc = v("---\noutput_filename:\n---\n\n```python\nprint(1)\n```\n");
    assert_eq!(extract_code_from_markdown(&doc).unwrap_err(), TangleError::InvalidFrontMatter);
}

#[test]
fn same_language_blocks_are_appended() {
    let doc = v("---\noutput_filename: app\n---\n\n```rust\nfn a() {}\n```\ntext between\n```rust\nfn b() {}\n```\n");
    let files = extract_code_from_markdown(&doc).unwrap();
    assert_eq!(files.len(), 1);
    assert_eq!(s(&files[0].name), "app.rs");
    assert_eq!(s(&files[0].code), "fn a() {}\nfn b() {}\n");
}

#[test]
fn two_languages_give_two_files() {
    let doc = v("---\noutput_filename: two\n---\n\n```python\npass\n```\n\n```rust\nfn m() {}\n```\n");
    let files = extract_code_from_markdown(&doc).unwrap();
    assert_eq!(files.len(), 2);
    assert_eq!(s(&files[0].name), "two.py");
    assert_eq!(s(&files[0].code), "pass\n");
    assert_eq!(s(&files[1].name), "two.rs");
    assert_eq!(s(&files[1].code), "fn m() {}\n");
}

#[test]
fn unannotated_fence_is_not_collected() {
    let doc = v("---\noutput_filename: x\n---\n\n```\nplain text\n```\n");
    let files = extract_code_from_markdown(&doc).unwrap();
    assert_eq!(files.len(), 0);
}

#[test]
fn python_annotation_wins_over_cpp_on_one_line() {
    let doc = v("---\noutput_filename: x\n---\n\n```{.python cpp}\na = 1\n```\n");
    let files = extract_code_from_markdown(&doc).unwrap();
    assert_eq!(files.len(), 1);
    assert_eq!(s(&files[0].name), "x.py");
}

#[test]
fn dotted_fence_annotations_are_recognized() {
    let doc = v("---\noutput_filename: x\n---\n\n```{.rust}\nfn f() {}\n```\n");
    let files = extract_code_from_markdown(&doc).unwrap();
    assert_eq!(s(&files[0].name), "x.rs");
}

#[test]
fn header_extension_maps_to_h_file() {
    let doc = v("---\noutput_filename: defs\n---\n\n```{.h}\n#define A 1\n```\n");
    let files = extract_code_from_markdown(&doc).unwrap();
    assert_eq!(s(&files[0].name), "defs.h");
}

#[test]
fn indented_front_matter_delimiters_still_count() {
    let doc = v("  ---\noutput_filename: y\n ---\n\n```python\nz = 3\n```\n");
    let files = extract_code_from_markdown(&doc).unwrap();
    assert_eq!(s(&files[0].name), "y.py");
    assert_eq!(s(&files[0].code), "z = 3\n");
}
