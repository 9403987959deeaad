use lila::definition::extract_definition;

fn v(s: &str) -> Vec<u8> {
    s.as_bytes().to_vec()
}

fn s(b: &[u8]) -> String {
    String::from_utf8(b.to_vec()).unwrap()
}

#[test]
fn python_indentation_rule_stops_at_dedent() {
    let src = v("def foo():\n    x = 1\n    if x:\n        y = 2\ndef bar():\n    pass\n");
    let d = extract_definition(&src, &v("py"), &v("foo")).unwrap();
    assert_eq!(s(&d), "def foo():\n    x = 1\n    if x:\n        y = 2");
}

#[test]
fn python_blank_lines_belong_to_the_definition() {
    let src = v("def foo():\n    a = 1\n\n    b = 2\nz = 3\n");
    let d = extract_definition(&src, &v("py"), &v("foo")).unwrap();
    assert_eq!(s(&d), "def foo():\n    a = 1\n\n    b = 2");
}

#[test]
fn python_class_rule_matches_with_colon_and_parenthesis() {
    let src = v("class A:\n    pass\nclass B(A):\n    x = 1\n");
    let a = extract_definition(&src, &v("py"), &v("A")).unwrap();
    assert_eq!(s(&a), "class A:\n    pass");
    let b = extract_definition(&src, &v("py"), &v("B")).unwrap();
    assert_eq!(s(&b), "class B(A):\n    x = 1");
}

#[test]
fn rust_brace_rule_returns_only_the_named_function() {
    let src = v("fn foo() {\n    let a = 1;\n}\nfn bar() {}\n");
    let d = extract_definition(&src, &v("rs"), &v("bar")).unwrap();
    assert_eq!(s(&d), "fn bar() {}");
}

#[test]
fn rust_brace_rule_spans_nested_braces() {
    let src = v("fn foo() {\n    if true {\n        work();\n    }\n}\nfn tail() {}\n");
    let d = extract_definition(&src, &v("rs"), &v("foo")).unwrap();
    assert_eq!(s(&d), "fn foo() {\n    if true {\n        work();\n    }\n}");
}

#[test]
fn rust_pub_fn_headers_match() {
    let src = v("pub fn api(x: u8) -> u8 {\n    x\n}\n");
    let d = extract_definition(&src, &v("rs"), &v("api")).unwrap();
    assert_eq!(s(&d), "pub fn api(x: u8) -> u8 {\n    x\n}");
}

#[test]
fn rust_name_must_not_be_a_prefix_of_a_longer_name() {
    let src = v("fn foobar() {}\nfn foo() {}\n");
    let d = extract_definition(&src, &v("rs"), &v("foo")).unwrap();
    assert_eq!(s(&d), "fn foo() {}");
}

#[test]
fn first_matching_definition_wins() {
    let src = v("def f():\n    return 1\ndef f():\n    return 2\n");
    let d = extract_definition(&src, &v("py"), &v("f")).unwrap();
    assert_eq!(s(&d), "def f():\n    return 1");
}

#[test]
fn missing_identifier_gives_none() {
    let src = v("def foo():\n    pass\n");
    assert!(extract_definition(&src, &v("py"), &v("bar")).is_none());
}

#[test]
fn unsupported_extension_gives_none() {
    let src = v("def foo():\n    pass\n");
    assert!(extract_definition(&src, &v("txt"), &v("foo")).is_none());
}

#[test]
fn extension_case_is_ignored() {
    let src = v("fn run() {}\n");
    let d = extract_definition(&src, &v("RS"), &v("run")).unwrap();
    assert_eq!(s(&d), "fn run() {}");
}

#[test]
fn python_definition_at_end_of_file_runs_to_the_end() {
    let src = v("x = 0\ndef last():\n    a = 1\n    b = 2");
    let d = extract_definition(&src, &v("py"), &v("last")).unwrap();
    assert_eq!(s(&d), "def last():\n    a = 1\n    b = 2");
}
