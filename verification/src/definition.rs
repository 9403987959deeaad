//! The definition extractor: locating the full text of one named function
//! or class inside a source file without a real parser. Python-family files
//! use an indentation rule, Rust-family files a brace-balance rule; both are
//! deliberate heuristics and are fooled by braces or dedented text inside
//! string literals or comments. The first definition of the name in file
//! order always wins.

use vstd::prelude::*;

use crate::language::{lowercase_bytes, spec_lower};
use crate::text::{
    find_byte, first_byte, indent_of, join_nl, spec_indent, spec_join_nl, spec_lines,
    spec_starts_with, spec_trim, spec_trim_start, split_lines, starts_with, subvec, trim_bytes,
    trim_start_bytes, views,
};
use crate::tokens::{
    spec_ext_py, spec_ext_rs, spec_kw_class, spec_kw_def, spec_kw_fn, spec_kw_pub_fn,
    tok_ext_py, tok_ext_rs, tok_kw_class, tok_kw_def, tok_kw_fn, tok_kw_pub_fn,
};

verus! {

broadcast use crate::text::lemma_views_push;

/// The number of occurrences of `b` in `s`.
pub open spec fn count_byte(s: Seq<u8>, b: u8) -> nat
    decreases s.len(),
{
    if s.len() == 0 {
        0
    } else {
        count_byte(s.drop_last(), b) + if s.last() == b {
            1nat
        } else {
            0nat
        }
    }
}

/// Counts the occurrences of `b` in `s`.
pub fn count_byte_exec(s: &Vec<u8>, b: u8) -> (r: usize)
    ensures
        r == count_byte(s@, b),
{
    let mut r: usize = 0;
    let mut i: usize = 0;
    proof {
        assert(s@.subrange(0, 0) =~= Seq::<u8>::empty());
    }
    while i < s.len()
        invariant
            0 <= i <= s.len(),
            r <= i,
            r == count_byte(s@.subrange(0, i as int), b),
        decreases s.len() - i,
    {
        proof {
            assert(s@.subrange(0, i + 1).drop_last() =~= s@.subrange(0, i as int));
            assert(s@.subrange(0, i + 1).last() == s@[i as int]);
        }
        if s[i] == b {
            r = r + 1;
        }
        i = i + 1;
    }
    proof {
        assert(s@.subrange(0, s@.len() as int) =~= s@);
    }
    r
}

/// The index of the first colon or opening parenthesis in `s`, or `s.len()`
/// if there is none; a Python `class` header's name ends there.
pub open spec fn first_class_sep(s: Seq<u8>) -> int
    decreases s.len(),
{
    if s.len() == 0 {
        0
    } else if s[0] == 58 || s[0] == 40 {
        0
    } else {
        1 + first_class_sep(s.drop_first())
    }
}

proof fn lemma_first_class_sep_at(s: Seq<u8>, i: int)
    requires
        0 <= i <= s.len(),
        forall|j: int| 0 <= j < i ==> s[j] != 58 && s[j] != 40,
        i < s.len() ==> s[i] == 58 || s[i] == 40,
    ensures
        first_class_sep(s) == i,
    decreases i,
{
    if i > 0 {
        lemma_first_class_sep_at(s.drop_first(), i - 1);
    }
}

/// The name a Python definition line declares: after `def `, the text up to
/// the first opening parenthesis (no parenthesis, no candidate); after
/// `class `, the text up to the first colon or parenthesis. Both trimmed.
pub open spec fn spec_py_def_name(line: Seq<u8>) -> Option<Seq<u8>> {
    let t = spec_trim_start(line);
    if spec_starts_with(t, spec_kw_def()) {
        let rest = t.subrange(spec_kw_def().len() as int, t.len() as int);
        let i = first_byte(rest, 40);
        if 0 <= i && i < rest.len() {
            Some(spec_trim(rest.subrange(0, i)))
        } else {
            None
        }
    } else if spec_starts_with(t, spec_kw_class()) {
        let rest = t.subrange(spec_kw_class().len() as int, t.len() as int);
        let i = first_class_sep(rest);
        if 0 <= i && i <= rest.len() {
            Some(spec_trim(rest.subrange(0, i)))
        } else {
            None
        }
    } else {
        None
    }
}

/// Reads the declared name off a Python definition line; see
/// `spec_py_def_name`.
pub fn py_def_name(line: &Vec<u8>) -> (r: Option<Vec<u8>>)
    ensures
        match r {
            Some(n) => spec_py_def_name(line@) == Some(n@),
            None => spec_py_def_name(line@) is None,
        },
{
    let t = trim_start_bytes(line);
    let kw_def = tok_kw_def();
    let kw_class = tok_kw_class();
    if starts_with(&t, &kw_def) {
        let rest = subvec(&t, kw_def.len(), t.len());
        match find_byte(&rest, 40, 0) {
            Some(i) => {
                proof {
                    crate::text::lemma_first_byte_at(rest@, 40, i as int);
                }
                let name = subvec(&rest, 0, i);
                Some(trim_bytes(&name))
            },
            None => {
                proof {
                    crate::text::lemma_first_byte_at(rest@, 40, rest@.len() as int);
                }
                None
            },
        }
    } else if starts_with(&t, &kw_class) {
        let rest = subvec(&t, kw_class.len(), t.len());
        let mut i: usize = 0;
        while i < rest.len() && rest[i] != 58 && rest[i] != 40
            invariant
                0 <= i <= rest.len(),
                forall|j: int| 0 <= j < i ==> rest@[j] != 58 && rest@[j] != 40,
            decreases rest.len() - i,
        {
            i = i + 1;
        }
        proof {
            lemma_first_class_sep_at(rest@, i as int);
        }
        let name = subvec(&rest, 0, i);
        Some(trim_bytes(&name))
    } else {
        None
    }
}

/// Whether a Rust line declares a function named `ident`: after `fn ` or
/// `pub fn `, the line continues with the name followed by an opening
/// parenthesis or a space (so a longer name does not match a prefix of it).
pub open spec fn spec_rs_match(line: Seq<u8>, ident: Seq<u8>) -> bool {
    let t = spec_trim_start(line);
    if spec_starts_with(t, spec_kw_fn()) || spec_starts_with(t, spec_kw_pub_fn()) {
        let wp = if spec_starts_with(t, spec_kw_pub_fn()) {
            t.subrange(spec_kw_pub_fn().len() as int, t.len() as int)
        } else {
            t.subrange(spec_kw_fn().len() as int, t.len() as int)
        };
        spec_starts_with(wp, ident) && ident.len() < wp.len() && (wp[ident.len() as int] == 40
            || wp[ident.len() as int] == 32)
    } else {
        false
    }
}

/// Tests a Rust line against `ident`; see `spec_rs_match`.
pub fn rs_match(line: &Vec<u8>, ident: &Vec<u8>) -> (r: bool)
    ensures
        r == spec_rs_match(line@, ident@),
{
    let t = trim_start_bytes(line);
    let kw_fn = tok_kw_fn();
    let kw_pub_fn = tok_kw_pub_fn();
    let is_fn = starts_with(&t, &kw_fn);
    let is_pub_fn = starts_with(&t, &kw_pub_fn);
    if !is_fn && !is_pub_fn {
        return false;
    }
    let wp = if is_pub_fn {
        subvec(&t, kw_pub_fn.len(), t.len())
    } else {
        subvec(&t, kw_fn.len(), t.len())
    };
    if !starts_with(&wp, ident) {
        return false;
    }
    if ident.len() >= wp.len() {
        return false;
    }
    let c = wp[ident.len()];
    c == 40 || c == 32
}

/// The state of the Python scan: still searching, inside the definition
/// that opened at the recorded indentation, or past its end.
pub ghost enum PyState {
    Scan,
    Within { indent: nat, acc: Seq<Seq<u8>> },
    Ended { acc: Seq<Seq<u8>> },
}

/// One step of the Python scan: a matching `def `/`class ` header opens the
/// definition at its indentation; afterwards blank lines and more deeply
/// indented lines belong to it, and the first other line ends it
/// (exclusive).
pub open spec fn py_step(ident: Seq<u8>, st: PyState, line: Seq<u8>) -> PyState {
    match st {
        PyState::Scan => if spec_py_def_name(line) == Some(ident) {
            PyState::Within { indent: spec_indent(line), acc: seq![line] }
        } else {
            PyState::Scan
        },
        PyState::Within { indent, acc } => if spec_trim(line).len() == 0 || spec_indent(line)
            > indent {
            PyState::Within { indent, acc: acc.push(line) }
        } else {
            PyState::Ended { acc }
        },
        PyState::Ended { acc } => PyState::Ended { acc },
    }
}

/// The Python scan state after reading all of `lines`.
pub open spec fn py_run(ident: Seq<u8>, lines: Seq<Seq<u8>>) -> PyState
    decreases lines.len(),
{
    if lines.len() == 0 {
        PyState::Scan
    } else {
        py_step(ident, py_run(ident, lines.drop_last()), lines.last())
    }
}

/// Whether the accumulated Rust lines hold a positive and balanced count of
/// braces; the scan ends (inclusive) on the line that balances them.
pub open spec fn rs_balanced(acc: Seq<Seq<u8>>) -> bool {
    count_byte(spec_join_nl(acc), 123) > 0 && count_byte(spec_join_nl(acc), 123) == count_byte(
        spec_join_nl(acc),
        125,
    )
}

/// The state of the Rust scan.
pub ghost enum RsState {
    Scan,
    Within { acc: Seq<Seq<u8>> },
    Ended { acc: Seq<Seq<u8>> },
}

/// One step of the Rust scan: a matching `fn `/`pub fn ` header opens the
/// definition; every line of it is collected, and the line on which the
/// collected text first balances its braces closes it (inclusive).
pub open spec fn rs_step(ident: Seq<u8>, st: RsState, line: Seq<u8>) -> RsState {
    match st {
        RsState::Scan => if spec_rs_match(line, ident) {
            if rs_balanced(seq![line]) {
                RsState::Ended { acc: seq![line] }
            } else {
                RsState::Within { acc: seq![line] }
            }
        } else {
            RsState::Scan
        },
        RsState::Within { acc } => if rs_balanced(acc.push(line)) {
            RsState::Ended { acc: acc.push(line) }
        } else {
            RsState::Within { acc: acc.push(line) }
        },
        RsState::Ended { acc } => RsState::Ended { acc },
    }
}

/// The Rust scan state after reading all of `lines`.
pub open spec fn rs_run(ident: Seq<u8>, lines: Seq<Seq<u8>>) -> RsState
    decreases lines.len(),
{
    if lines.len() == 0 {
        RsState::Scan
    } else {
        rs_step(ident, rs_run(ident, lines.drop_last()), lines.last())
    }
}

/// What extracting `ident` from a file with the given (lower-cased)
/// extension and content yields: the collected definition lines joined by
/// line feeds, or `None` when no definition matched or the extension is not
/// supported.
pub open spec fn spec_extract_definition(content: Seq<u8>, ext: Seq<u8>, ident: Seq<u8>) -> Option<
    Seq<u8>,
> {
    let lines = spec_lines(content);
    let e = spec_lower(ext);
    if e == spec_ext_py() {
        match py_run(ident, lines) {
            PyState::Scan => None,
            PyState::Within { acc, .. } => Some(spec_join_nl(acc)),
            PyState::Ended { acc } => Some(spec_join_nl(acc)),
        }
    } else if e == spec_ext_rs() {
        match rs_run(ident, lines) {
            RsState::Scan => None,
            RsState::Within { acc } => Some(spec_join_nl(acc)),
            RsState::Ended { acc } => Some(spec_join_nl(acc)),
        }
    } else {
        None
    }
}

/// Runs the Python scan over `lines`.
fn py_extract(lines: &Vec<Vec<u8>>, ident: &Vec<u8>) -> (r: Option<Vec<u8>>)
    ensures
        match r {
            Some(d) => match py_run(ident@, views(lines@)) {
                PyState::Scan => false,
                PyState::Within { acc, .. } => d@ == spec_join_nl(acc),
                PyState::Ended { acc } => d@ == spec_join_nl(acc),
            },
            None => py_run(ident@, views(lines@)) is Scan,
        },
{
    let ghost ls = views(lines@);
    let mut acc: Vec<Vec<u8>> = Vec::new();
    let mut within: bool = false;
    let mut ended: bool = false;
    let mut indent: usize = 0;
    let mut i: usize = 0;
    proof {
        assert(ls.subrange(0, 0) =~= Seq::<Seq<u8>>::empty());
    }
    while i < lines.len() && !ended
        invariant
            0 <= i <= lines.len(),
            ls == views(lines@),
            py_run(ident@, ls.subrange(0, i as int)) == (if ended {
                PyState::Ended { acc: views(acc@) }
            } else if within {
                PyState::Within { indent: indent as nat, acc: views(acc@) }
            } else {
                PyState::Scan
            }),
            !within && !ended ==> acc@.len() == 0,
            ended ==> py_run(ident@, ls) == (PyState::Ended { acc: views(acc@) }),
        decreases lines.len() - i,
    {
        let ghost st = py_run(ident@, ls.subrange(0, i as int));
        let line = &lines[i];
        proof {
            assert(ls.subrange(0, i + 1).drop_last() =~= ls.subrange(0, i as int));
            assert(ls.subrange(0, i + 1).last() == ls[i as int]);
            assert(ls[i as int] == line@);
        }
        if !within {
            match py_def_name(line) {
                Some(name) => {
                    if crate::text::bytes_eq(&name, ident) {
                        within = true;
                        indent = indent_of(line);
                        let copy = subvec(line, 0, line.len());
                        proof {
                            assert(copy@ =~= line@);
                        }
                        acc.push(copy);
                        proof {
                            assert(views(acc@) =~= seq![line@]);
                        }
                    }
                },
                None => {},
            }
        } else {
            let t = trim_bytes(line);
            let ind = indent_of(line);
            if t.len() == 0 || ind > indent {
                let copy = subvec(line, 0, line.len());
                proof {
                    assert(copy@ =~= line@);
                }
                let ghost prev = acc@;
                acc.push(copy);
                proof {
                    assert(views(acc@) =~= views(prev).push(line@));
                }
            } else {
                ended = true;
            }
        }
        i = i + 1;
        proof {
            if ended {
                lemma_py_ended(ident@, ls, i as int, views(acc@));
            }
        }
    }
    proof {
        if !ended {
            assert(ls.subrange(0, i as int) =~= ls);
        }
    }
    if within || ended {
        Some(join_nl(&acc))
    } else {
        None
    }
}

/// Once the Python scan has ended, later lines change nothing.
proof fn lemma_py_ended(ident: Seq<u8>, ls: Seq<Seq<u8>>, i: int, acc: Seq<Seq<u8>>)
    requires
        0 <= i <= ls.len(),
        py_run(ident, ls.subrange(0, i)) == (PyState::Ended { acc }),
    ensures
        py_run(ident, ls) == (PyState::Ended { acc }),
    decreases ls.len() - i,
{
    if i < ls.len() {
        assert(ls.subrange(0, i + 1).drop_last() =~= ls.subrange(0, i));
        lemma_py_ended(ident, ls, i + 1, acc);
    } else {
        assert(ls.subrange(0, i) =~= ls);
    }
}

/// Runs the Rust scan over `lines`.
fn rs_extract(lines: &Vec<Vec<u8>>, ident: &Vec<u8>) -> (r: Option<Vec<u8>>)
    ensures
        match r {
            Some(d) => match rs_run(ident@, views(lines@)) {
                RsState::Scan => false,
                RsState::Within { acc } => d@ == spec_join_nl(acc),
                RsState::Ended { acc } => d@ == spec_join_nl(acc),
            },
            None => rs_run(ident@, views(lines@)) is Scan,
        },
{
    let ghost ls = views(lines@);
    let mut acc: Vec<Vec<u8>> = Vec::new();
    let mut within: bool = false;
    let mut ended: bool = false;
    let mut i: usize = 0;
    proof {
        assert(ls.subrange(0, 0) =~= Seq::<Seq<u8>>::empty());
    }
    while i < lines.len() && !ended
        invariant
            0 <= i <= lines.len(),
            ls == views(lines@),
            rs_run(ident@, ls.subrange(0, i as int)) == (if ended {
                RsState::Ended { acc: views(acc@) }
            } else if within {
                RsState::Within { acc: views(acc@) }
            } else {
                RsState::Scan
            }),
            !within && !ended ==> acc@.len() == 0,
            ended ==> rs_run(ident@, ls) == (RsState::Ended { acc: views(acc@) }),
        decreases lines.len() - i,
    {
        let ghost st = rs_run(ident@, ls.subrange(0, i as int));
        let line = &lines[i];
        proof {
            assert(ls.subrange(0, i + 1).drop_last() =~= ls.subrange(0, i as int));
            assert(ls.subrange(0, i + 1).last() == ls[i as int]);
            assert(ls[i as int] == line@);
        }
        if !within {
            if rs_match(line, ident) {
                let copy = subvec(line, 0, line.len());
                proof {
                    assert(copy@ =~= line@);
                }
                acc.push(copy);
                proof {
                    assert(views(acc@) =~= seq![line@]);
                }
                let joined = join_nl(&acc);
                let opens = count_byte_exec(&joined, 123);
                let closes = count_byte_exec(&joined, 125);
                if opens > 0 && opens == closes {
                    ended = true;
                } else {
                    within = true;
                }
            }
        } else {
            let copy = subvec(line, 0, line.len());
            proof {
                assert(copy@ =~= line@);
            }
            let ghost prev = acc@;
            acc.push(copy);
            proof {
                assert(views(acc@) =~= views(prev).push(line@));
            }
            let joined = join_nl(&acc);
            let opens = count_byte_exec(&joined, 123);
            let closes = count_byte_exec(&joined, 125);
            if opens > 0 && opens == closes {
                ended = true;
            }
        }
        i = i + 1;
        proof {
            if ended {
                lemma_rs_ended(ident@, ls, i as int, views(acc@));
            }
        }
    }
    proof {
        if !ended {
            assert(ls.subrange(0, i as int) =~= ls);
        }
    }
    if within || ended {
        Some(join_nl(&acc))
    } else {
        None
    }
}

/// Once the Rust scan has ended, later lines change nothing.
proof fn lemma_rs_ended(ident: Seq<u8>, ls: Seq<Seq<u8>>, i: int, acc: Seq<Seq<u8>>)
    requires
        0 <= i <= ls.len(),
        rs_run(ident, ls.subrange(0, i)) == (RsState::Ended { acc }),
    ensures
        rs_run(ident, ls) == (RsState::Ended { acc }),
    decreases ls.len() - i,
{
    if i < ls.len() {
        assert(ls.subrange(0, i + 1).drop_last() =~= ls.subrange(0, i));
        lemma_rs_ended(ident, ls, i + 1, acc);
    } else {
        assert(ls.subrange(0, i) =~= ls);
    }
}

/// Extracts the definition of `identifier` from a source file with the
/// given extension and content; see `spec_extract_definition`.
pub fn extract_definition(content: &Vec<u8>, ext: &Vec<u8>, identifier: &Vec<u8>) -> (r: Option<
    Vec<u8>,
>)
    ensures
        match r {
            Some(d) => spec_extract_definition(content@, ext@, identifier@) == Some(d@),
            None => spec_extract_definition(content@, ext@, identifier@) is None,
        },
{
    let lines = split_lines(content);
    let e = lowercase_bytes(ext);
    if crate::text::bytes_eq(&e, &tok_ext_py()) {
        py_extract(&lines, identifier)
    } else if crate::text::bytes_eq(&e, &tok_ext_rs()) {
        rs_extract(&lines, identifier)
    } else {
        None
    }
}

} // verus!
