//! Language recognition: mapping file extensions to fenced-code-block
//! language tokens and back, and guessing the language of a fence line from
//! the annotations it carries.

use vstd::prelude::*;

use crate::text::{bytes_eq, contains_sub, spec_contains};
use crate::tokens::{
    spec_dot_h, spec_dot_js, spec_dot_py, spec_dot_python, spec_dot_rs, spec_dot_rust,
    spec_dot_sh, spec_dot_ts, spec_ext_h, spec_ext_js, spec_ext_py, spec_ext_rs, spec_ext_sh,
    spec_ext_ts, spec_lang_bash, spec_lang_c, spec_lang_cpp, spec_lang_javascript,
    spec_lang_python, spec_lang_rust, spec_lang_typescript, tok_dot_h, tok_dot_js, tok_dot_py,
    tok_dot_python, tok_dot_rs, tok_dot_rust, tok_dot_sh, tok_dot_ts, tok_ext_h, tok_ext_js,
    tok_ext_py, tok_ext_rs, tok_ext_sh, tok_ext_ts, tok_lang_bash, tok_lang_c, tok_lang_cpp,
    tok_lang_javascript, tok_lang_python, tok_lang_rust, tok_lang_typescript,
};

verus! {

/// The languages a fenced code block can be attributed to when a Markdown
/// document is tangled back into source files.
#[derive(PartialEq, Eq, Structural, Clone, Copy, Debug)]
pub enum FenceLang {
    Python,
    Rust,
    Cpp,
    C,
    H,
    Js,
    Ts,
    Sh,
}

/// The code languages the auto-formatting pass distinguishes.
#[derive(PartialEq, Eq, Structural, Clone, Copy, Debug)]
pub enum CodeLanguage {
    Python,
    Rust,
    Unknown,
}

/// A byte lowered to its ASCII lower-case form.
pub open spec fn lower_byte(b: u8) -> u8 {
    if 65 <= b <= 90 {
        (b + 32) as u8
    } else {
        b
    }
}

/// `s` with every byte lowered to its ASCII lower-case form.
pub open spec fn spec_lower(s: Seq<u8>) -> Seq<u8> {
    s.map_values(|b: u8| lower_byte(b))
}

/// Lowers every byte of `s` to its ASCII lower-case form.
pub fn lowercase_bytes(s: &Vec<u8>) -> (r: Vec<u8>)
    ensures
        r@ == spec_lower(s@),
{
    let mut r: Vec<u8> = Vec::new();
    let mut i: usize = 0;
    while i < s.len()
        invariant
            0 <= i <= s.len(),
            r@ =~= spec_lower(s@.subrange(0, i as int)),
        decreases s.len() - i,
    {
        let b = s[i];
        if 65 <= b && b <= 90 {
            r.push(b + 32);
        } else {
            r.push(b);
        }
        i = i + 1;
        assert(r@ =~= spec_lower(s@.subrange(0, i as int)));
    }
    assert(s@.subrange(0, s@.len() as int) =~= s@);
    r
}

/// The language guessed from a fence line by the auto-formatting pass: the
/// line is lowered to ASCII lower case, then checked for Python annotations
/// before Rust ones.
pub open spec fn spec_detect_language_from_line(line: Seq<u8>) -> CodeLanguage {
    let low = spec_lower(line);
    if spec_contains(low, spec_dot_python()) || spec_contains(low, spec_lang_python())
        || spec_contains(low, spec_dot_py()) {
        CodeLanguage::Python
    } else if spec_contains(low, spec_dot_rust()) || spec_contains(low, spec_lang_rust())
        || spec_contains(low, spec_dot_rs()) {
        CodeLanguage::Rust
    } else {
        CodeLanguage::Unknown
    }
}

/// Guesses the language of a code block from its opening fence line; see
/// `spec_detect_language_from_line`.
pub fn detect_language_from_line(line: &Vec<u8>) -> (r: CodeLanguage)
    ensures
        r == spec_detect_language_from_line(line@),
{
    let low = lowercase_bytes(line);
    if contains_sub(&low, &tok_dot_python()) || contains_sub(&low, &tok_lang_python())
        || contains_sub(&low, &tok_dot_py()) {
        CodeLanguage::Python
    } else if contains_sub(&low, &tok_dot_rust()) || contains_sub(&low, &tok_lang_rust())
        || contains_sub(&low, &tok_dot_rs()) {
        CodeLanguage::Rust
    } else {
        CodeLanguage::Unknown
    }
}

/// The fence language detected on an opening fence line during tangling, by
/// substring checks on the raw line. The checks run in a fixed precedence
/// order and the first hit wins, so a line mentioning several annotations is
/// classified by the earliest rule; this mirrors how the fence line was
/// produced by weaving, where every supported extension emits its canonical
/// token.
pub open spec fn spec_detect_fence_lang(line: Seq<u8>) -> Option<FenceLang> {
    if spec_contains(line, spec_dot_python()) || spec_contains(line, spec_lang_python())
        || spec_contains(line, spec_dot_py()) {
        Some(FenceLang::Python)
    } else if spec_contains(line, spec_dot_rust()) || spec_contains(line, spec_lang_rust())
        || spec_contains(line, spec_dot_rs()) {
        Some(FenceLang::Rust)
    } else if spec_contains(line, spec_lang_cpp()) {
        Some(FenceLang::Cpp)
    } else if spec_contains(line, spec_lang_javascript()) || spec_contains(line, spec_dot_js()) {
        Some(FenceLang::Js)
    } else if spec_contains(line, spec_lang_typescript()) || spec_contains(line, spec_dot_ts()) {
        Some(FenceLang::Ts)
    } else if spec_contains(line, spec_lang_bash()) || spec_contains(line, spec_dot_sh()) {
        Some(FenceLang::Sh)
    } else if spec_contains(line, spec_dot_h()) {
        Some(FenceLang::H)
    } else if spec_contains(line, spec_lang_c()) {
        Some(FenceLang::C)
    } else {
        None
    }
}

/// Detects the fence language of an opening fence line; see
/// `spec_detect_fence_lang`.
pub fn detect_fence_lang(line: &Vec<u8>) -> (r: Option<FenceLang>)
    ensures
        r == spec_detect_fence_lang(line@),
{
    if contains_sub(line, &tok_dot_python()) || contains_sub(line, &tok_lang_python())
        || contains_sub(line, &tok_dot_py()) {
        Some(FenceLang::Python)
    } else if contains_sub(line, &tok_dot_rust()) || contains_sub(line, &tok_lang_rust())
        || contains_sub(line, &tok_dot_rs()) {
        Some(FenceLang::Rust)
    } else if contains_sub(line, &tok_lang_cpp()) {
        Some(FenceLang::Cpp)
    } else if contains_sub(line, &tok_lang_javascript()) || contains_sub(line, &tok_dot_js()) {
        Some(FenceLang::Js)
    } else if contains_sub(line, &tok_lang_typescript()) || contains_sub(line, &tok_dot_ts()) {
        Some(FenceLang::Ts)
    } else if contains_sub(line, &tok_lang_bash()) || contains_sub(line, &tok_dot_sh()) {
        Some(FenceLang::Sh)
    } else if contains_sub(line, &tok_dot_h()) {
        Some(FenceLang::H)
    } else if contains_sub(line, &tok_lang_c()) {
        Some(FenceLang::C)
    } else {
        None
    }
}

/// The file extension a tangled code block of language `l` is written under.
pub open spec fn spec_ext_of_lang(l: FenceLang) -> Seq<u8> {
    match l {
        FenceLang::Python => spec_ext_py(),
        FenceLang::Rust => spec_ext_rs(),
        FenceLang::Cpp => spec_lang_cpp(),
        FenceLang::C => spec_lang_c(),
        FenceLang::H => spec_ext_h(),
        FenceLang::Js => spec_ext_js(),
        FenceLang::Ts => spec_ext_ts(),
        FenceLang::Sh => spec_ext_sh(),
    }
}

/// Executable twin of `spec_ext_of_lang`.
pub fn ext_of_lang(l: FenceLang) -> (r: Vec<u8>)
    ensures
        r@ == spec_ext_of_lang(l),
{
    match l {
        FenceLang::Python => tok_ext_py(),
        FenceLang::Rust => tok_ext_rs(),
        FenceLang::Cpp => tok_lang_cpp(),
        FenceLang::C => tok_lang_c(),
        FenceLang::H => tok_ext_h(),
        FenceLang::Js => tok_ext_js(),
        FenceLang::Ts => tok_ext_ts(),
        FenceLang::Sh => tok_ext_sh(),
    }
}

/// The language token woven into a fence line for a source file with
/// extension `ext`, if the extension is supported. Header files share the
/// `c` token with plain C sources.
pub open spec fn spec_lang_of_ext(ext: Seq<u8>) -> Option<Seq<u8>> {
    if ext == spec_ext_py() {
        Some(spec_lang_python())
    } else if ext == spec_ext_rs() {
        Some(spec_lang_rust())
    } else if ext == spec_lang_cpp() {
        Some(spec_lang_cpp())
    } else if ext == spec_lang_c() || ext == spec_ext_h() {
        Some(spec_lang_c())
    } else if ext == spec_ext_js() {
        Some(spec_lang_javascript())
    } else if ext == spec_ext_ts() {
        Some(spec_lang_typescript())
    } else if ext == spec_ext_sh() {
        Some(spec_lang_bash())
    } else {
        None
    }
}

/// Infers the fence language token for a file extension; see
/// `spec_lang_of_ext`.
pub fn infer_language_from_extension(ext: &Vec<u8>) -> (r: Option<Vec<u8>>)
    ensures
        match r {
            Some(tok) => spec_lang_of_ext(ext@) == Some(tok@),
            None => spec_lang_of_ext(ext@) is None,
        },
{
    if bytes_eq(ext, &tok_ext_py()) {
        Some(tok_lang_python())
    } else if bytes_eq(ext, &tok_ext_rs()) {
        Some(tok_lang_rust())
    } else if bytes_eq(ext, &tok_lang_cpp()) {
        Some(tok_lang_cpp())
    } else if bytes_eq(ext, &tok_lang_c()) || bytes_eq(ext, &tok_ext_h()) {
        Some(tok_lang_c())
    } else if bytes_eq(ext, &tok_ext_js()) {
        Some(tok_lang_javascript())
    } else if bytes_eq(ext, &tok_ext_ts()) {
        Some(tok_lang_typescript())
    } else if bytes_eq(ext, &tok_ext_sh()) {
        Some(tok_lang_bash())
    } else {
        None
    }
}

/// The extensions for which weaving and tangling support code blocks.
pub open spec fn supported_ext(ext: Seq<u8>) -> bool {
    spec_lang_of_ext(ext) is Some
}

} // verus!
