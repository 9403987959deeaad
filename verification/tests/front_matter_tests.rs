use lila::front_matter::{meta_to_lines, parse_markdown_front_matter, parse_meta_lines, MarkdownMeta};
use lila::html::{extract_front_matter, html_unescape};
use lila::language::{detect_language_from_line, infer_language_from_extension, CodeLanguage};
use lila::text::split_lines;

fn v(s: &str) -> Vec<u8> {
    s.as_bytes().to_vec()
}

fn s(b: &[u8]) -> String {
    String::from_utf8(b.to_vec()).unwrap()
}

fn lines(text: &str) -> Vec<Vec<u8>> {
    split_lines(&v(text))
}

#[test]
fn meta_lines_parse_back_to_the_meta() {
    let meta = MarkdownMeta {
        output_filename: v("main"),
        brief: Some(v("a brief")),
        details: Some(v("many details")),
    };
    let serialized = meta_to_lines(&meta);
    assert_eq!(s(&serialized[0]), "output_filename: main");
    assert_eq!(s(&serialized[1]), "brief: a brief");
    assert_eq!(s(&serialized[2]), "details: many details");
    let parsed = parse_meta_lines(&serialized).unwrap();
    assert_eq!(parsed.output_filename, meta.output_filename);
    assert_eq!(parsed.brief, meta.brief);
    assert_eq!(parsed.details, meta.details);
}

#[test]
fn missing_output_filename_fails_the_parse() {
    assert!(parse_meta_lines(&lines("brief: only a brief\n")).is_none());
}

#[test]
fn empty_optional_values_are_absent() {
    let parsed = parse_meta_lines(&lines("output_filename: x\nbrief:\n")).unwrap();
    assert!(parsed.brief.is_none());
}

#[test]
fn front_matter_requires_an_opening_first_line() {
    assert!(parse_markdown_front_matter(&lines("text\n---\noutput_filename: x\n---\n")).is_none());
}

#[test]
fn front_matter_requires_a_closing_line() {
    assert!(parse_markdown_front_matter(&lines("---\noutput_filename: x\n")).is_none());
}

#[test]
fn front_matter_parses_between_the_delimiters() {
    let doc = lines("---\noutput_filename: prog\nbrief: short\n---\nbody\n");
    let meta = parse_markdown_front_matter(&doc).unwrap();
    assert_eq!(s(&meta.output_filename), "prog");
    assert_eq!(s(&meta.brief.unwrap()), "short");
    assert!(meta.details.is_none());
}

#[test]
fn extract_front_matter_returns_title_and_body() {
    let doc = lines("---\noutput_filename: page\n---\n# heading\nbody line\n");
    let (title, body) = extract_front_matter(&doc);
    assert_eq!(s(&title.unwrap()), "page");
    assert_eq!(body.len(), 2);
    assert_eq!(s(&body[0]), "# heading");
    assert_eq!(s(&body[1]), "body line");
}

#[test]
fn extract_front_matter_without_delimiters_keeps_the_document() {
    let doc = lines("just\ntext\n");
    let (title, body) = extract_front_matter(&doc);
    assert!(title.is_none());
    assert_eq!(body.len(), 2);
}

#[test]
fn html_unescape_replaces_the_four_entities() {
    let out = html_unescape(&v("&lt;a href=&quot;x&quot;&gt; &amp; more"));
    assert_eq!(s(&out), "<a href=\"x\"> & more");
}

#[test]
fn html_unescape_runs_its_passes_in_order() {
    // `&amp;lt;` first loses nothing to the `&lt;` pass, then the `&amp;`
    // pass turns it into `&lt;`, which is not scanned again.
    let out = html_unescape(&v("&amp;lt;"));
    assert_eq!(s(&out), "&lt;");
}

#[test]
fn fence_language_detection_ignores_case() {
    assert_eq!(detect_language_from_line(&v("```{.PYTHON}")), CodeLanguage::Python);
    assert_eq!(detect_language_from_line(&v("```Rust")), CodeLanguage::Rust);
    assert_eq!(detect_language_from_line(&v("```yaml")), CodeLanguage::Unknown);
}

#[test]
fn python_annotations_win_over_rust_ones() {
    assert_eq!(detect_language_from_line(&v("``` .py .rs")), CodeLanguage::Python);
}

#[test]
fn extension_to_language_table() {
    let cases = [
        ("py", Some("python")),
        ("rs", Some("rust")),
        ("cpp", Some("cpp")),
        ("c", Some("c")),
        ("h", Some("c")),
        ("js", Some("javascript")),
        ("ts", Some("typescript")),
        ("sh", Some("bash")),
        ("txt", None),
    ];
    for (ext, want) in cases {
        let got = infer_language_from_extension(&v(ext));
        assert_eq!(got.map(|g| s(&g)), want.map(|w| w.to_string()), "extension {ext}");
    }
}
