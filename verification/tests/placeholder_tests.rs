use lila::definition::extract_definition;
use lila::placeholder::{
    find_placeholders, render_snippet, render_whole_file, split_target, substitute_placeholders,
};

fn v(s: &str) -> Vec<u8> {
    s.as_bytes().to_vec()
}

fn s(b: &[u8]) -> String {
    String::from_utf8(b.to_vec()).unwrap()
}

#[test]
fn markers_are_found_in_order_with_their_targets() {
    let text = v("before @{a.py} middle @{b.rs:main} after");
    let found = find_placeholders(&text);
    assert_eq!(found.len(), 2);
    assert_eq!(s(&found[0].target), "a.py");
    assert_eq!(s(&found[1].target), "b.rs:main");
    assert_eq!(&text[found[0].start..found[0].end], b"@{a.py}");
    assert_eq!(&text[found[1].start..found[1].end], b"@{b.rs:main}");
}

#[test]
fn empty_marker_is_no_marker() {
    let found = find_placeholders(&v("x @{} y"));
    assert_eq!(found.len(), 0);
}

#[test]
fn unclosed_marker_is_no_marker() {
    let found = find_placeholders(&v("x @{never closed"));
    assert_eq!(found.len(), 0);
}

#[test]
fn marker_content_stops_at_the_first_closing_brace() {
    let found = find_placeholders(&v("@{@{a}}"));
    assert_eq!(found.len(), 1);
    assert_eq!(s(&found[0].target), "@{a");
}

#[test]
fn unresolved_markers_leave_the_text_unchanged() {
    let text = v("intro @{missing.py} middle @{also/gone.rs:f} end");
    let repls: Vec<Option<Vec<u8>>> = vec![None, None];
    let out = substitute_placeholders(&text, &repls);
    assert_eq!(out, text);
}

#[test]
fn resolved_marker_is_replaced_in_place() {
    let text = v("a @{x} b");
    let repls = vec![Some(v("XY"))];
    let out = substitute_placeholders(&text, &repls);
    assert_eq!(s(&out), "a XY b");
}

#[test]
fn replacements_apply_left_to_right() {
    let text = v("@{one} and @{two}");
    let repls = vec![Some(v("1")), None];
    let out = substitute_placeholders(&text, &repls);
    assert_eq!(s(&out), "1 and @{two}");
}

#[test]
fn split_target_cuts_at_the_first_colon() {
    let (file, ident) = split_target(&v("a.rs:main"));
    assert_eq!(s(&file), "a.rs");
    assert_eq!(s(&ident.unwrap()), "main");
    let (file2, ident2) = split_target(&v("whole.py"));
    assert_eq!(s(&file2), "whole.py");
    assert!(ident2.is_none());
    let (file3, ident3) = split_target(&v("a:b:c"));
    assert_eq!(s(&file3), "a");
    assert_eq!(s(&ident3.unwrap()), "b:c");
}

#[test]
fn whole_file_inline_wraps_known_languages_in_a_fence() {
    let text = v("@{snippet.py}");
    let found = find_placeholders(&text);
    assert_eq!(found.len(), 1);
    let content = v("print(1)\n");
    let rendered = render_whole_file(&content, &v("py"));
    let out = substitute_placeholders(&text, &vec![Some(rendered)]);
    assert_eq!(s(&out), "\n\n```{.python .cb-code}\nprint(1)\n\n```");
    assert!(s(&out).contains("print(1)"));
}

#[test]
fn whole_file_inline_of_unknown_extension_is_raw() {
    let rendered = render_whole_file(&v("plain words"), &v("txt"));
    assert_eq!(s(&rendered), "plain words");
}

#[test]
fn definition_inline_resolves_through_the_extractor() {
    let doc = v("see @{lib.rs:helper} here");
    let source = v("fn main() {}\nfn helper() {\n    work();\n}\n");
    let found = find_placeholders(&doc);
    let (_file, ident) = split_target(&found[0].target);
    let def = extract_definition(&source, &v("rs"), &ident.unwrap()).unwrap();
    let rendered = render_snippet(&def, &v("rs"));
    let out = substitute_placeholders(&doc, &vec![Some(rendered)]);
    assert_eq!(
        s(&out),
        "see \n\n```{.rust .cb-code}\nfn helper() {\n    work();\n}\n``` here"
    );
}

#[test]
fn definition_inline_of_unknown_extension_uses_a_plain_fence() {
    let rendered = render_snippet(&v("body"), &v("zig"));
    assert_eq!(s(&rendered), "\n\n```\nbody\n```");
}
