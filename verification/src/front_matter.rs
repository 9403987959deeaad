//! The front-matter model shared by weaving and tangling: a metadata block
//! delimited by `---` lines at the top of a Markdown document, holding an
//! `output_filename` and optionally a `brief` and a `details` entry, one
//! `key: value` pair per line.

use vstd::prelude::*;

use crate::text::{
    bytes_eq, spec_starts_with, spec_trim, spec_trim_start, starts_with, subvec, trim_bytes,
    views,
};
use crate::tokens::{
    spec_dashes, spec_key_brief, spec_key_details, spec_key_output, tok_dashes, tok_key_brief,
    tok_key_details, tok_key_output,
};

verus! {

/// The metadata carried by a woven Markdown document.
#[derive(Debug, Clone)]
pub struct MarkdownMeta {
    /// The base name (without extension) that tangling writes extracted code
    /// under.
    pub output_filename: Vec<u8>,
    /// An optional one-line summary shown in the content index.
    pub brief: Option<Vec<u8>>,
    /// An optional long-form description shown collapsed in the content
    /// index.
    pub details: Option<Vec<u8>>,
}

/// The mathematical shape of `MarkdownMeta`.
pub ghost struct MetaView {
    pub output_filename: Seq<u8>,
    pub brief: Option<Seq<u8>>,
    pub details: Option<Seq<u8>>,
}

impl View for MarkdownMeta {
    type V = MetaView;

    open spec fn view(&self) -> MetaView {
        MetaView {
            output_filename: self.output_filename@,
            brief: match self.brief {
                Some(b) => Some(b@),
                None => None,
            },
            details: match self.details {
                Some(d) => Some(d@),
                None => None,
            },
        }
    }
}

/// Whether the trimmed line opens with `key`.
pub open spec fn line_has_key(l: Seq<u8>, key: Seq<u8>) -> bool {
    spec_starts_with(spec_trim(l), key)
}

/// The value of a `key: value` line: what follows the key, trimmed.
pub open spec fn line_value(l: Seq<u8>, key: Seq<u8>) -> Seq<u8> {
    spec_trim(spec_trim(l).subrange(key.len() as int, spec_trim(l).len() as int))
}

/// The value of the first line carrying `key`, if any line does.
pub open spec fn find_value(lines: Seq<Seq<u8>>, key: Seq<u8>) -> Option<Seq<u8>>
    decreases lines.len(),
{
    if lines.len() == 0 {
        None
    } else if line_has_key(lines[0], key) {
        Some(line_value(lines[0], key))
    } else {
        find_value(lines.drop_first(), key)
    }
}

/// An empty value stands for an absent optional entry.
pub open spec fn opt_value(v: Option<Seq<u8>>) -> Option<Seq<u8>> {
    match v {
        Some(s) => if s.len() == 0 {
            None
        } else {
            Some(s)
        },
        None => None,
    }
}

/// The metadata read from the lines between the `---` delimiters: the first
/// `output_filename` line must carry a non-empty value, and the first
/// `brief` and `details` lines fill the optional entries.
pub open spec fn spec_parse_meta(lines: Seq<Seq<u8>>) -> Option<MetaView> {
    match find_value(lines, spec_key_output()) {
        None => None,
        Some(v) => if v.len() == 0 {
            None
        } else {
            Some(
                MetaView {
                    output_filename: v,
                    brief: opt_value(find_value(lines, spec_key_brief())),
                    details: opt_value(find_value(lines, spec_key_details())),
                },
            )
        },
    }
}

proof fn lemma_find_value_step(ls: Seq<Seq<u8>>, key: Seq<u8>)
    requires
        ls.len() > 0,
        !line_has_key(ls[0], key),
    ensures
        find_value(ls, key) == find_value(ls.drop_first(), key),
{
}

proof fn lemma_find_value_skip(lines: Seq<Seq<u8>>, key: Seq<u8>, k: int)
    requires
        0 <= k <= lines.len(),
        forall|j: int| 0 <= j < k ==> !line_has_key(#[trigger] lines[j], key),
    ensures
        find_value(lines, key) == find_value(lines.subrange(k, lines.len() as int), key),
    decreases k,
{
    if k > 0 {
        assert(lines.drop_first() =~= lines.subrange(1, lines.len() as int));
        assert forall|j: int| 0 <= j < k - 1 implies !line_has_key(
            #[trigger] lines.drop_first()[j],
            key,
        ) by {
            assert(lines.drop_first()[j] == lines[j + 1]);
        }
        lemma_find_value_skip(lines.drop_first(), key, k - 1);
        assert(lines.drop_first().subrange(k - 1, lines.drop_first().len() as int) =~= lines
            .subrange(k, lines.len() as int));
    } else {
        assert(lines.subrange(0, lines.len() as int) =~= lines);
    }
}

/// Looks for the first line opening with `key` and returns its value.
pub(crate) fn find_value_exec(lines: &Vec<Vec<u8>>, key: &Vec<u8>) -> (r: Option<Vec<u8>>)
    ensures
        match r {
            Some(v) => find_value(views(lines@), key@) == Some(v@),
            None => find_value(views(lines@), key@) is None,
        },
{
    let ghost ls = views(lines@);
    let mut i: usize = 0;
    while i < lines.len()
        invariant
            0 <= i <= lines.len(),
            ls == views(lines@),
            forall|j: int| 0 <= j < i ==> !line_has_key(#[trigger] ls[j], key@),
        decreases lines.len() - i,
    {
        let t = trim_bytes(&lines[i]);
        if starts_with(&t, key) {
            let v = subvec(&t, key.len(), t.len());
            let tv = trim_bytes(&v);
            proof {
                lemma_find_value_skip(ls, key@, i as int);
                let tail = ls.subrange(i as int, ls.len() as int);
                assert(tail[0] == ls[i as int]);
                assert(line_has_key(ls[i as int], key@));
                assert(find_value(tail, key@) == Some(line_value(ls[i as int], key@)));
            }
            return Some(tv);
        }
        i = i + 1;
    }
    proof {
        lemma_find_value_skip(ls, key@, i as int);
        assert(ls.subrange(i as int, ls.len() as int).len() == 0);
    }
    None
}

/// Reads the metadata out of the lines between the `---` delimiters; see
/// `spec_parse_meta`.
pub fn parse_meta_lines(lines: &Vec<Vec<u8>>) -> (r: Option<MarkdownMeta>)
    ensures
        match r {
            Some(m) => spec_parse_meta(views(lines@)) == Some(m@),
            None => spec_parse_meta(views(lines@)) is None,
        },
{
    match find_value_exec(lines, &tok_key_output()) {
        None => None,
        Some(v) => {
            if v.len() == 0 {
                None
            } else {
                let brief = match find_value_exec(lines, &tok_key_brief()) {
                    Some(b) => if b.len() == 0 {
                        None
                    } else {
                        Some(b)
                    },
                    None => None,
                };
                let details = match find_value_exec(lines, &tok_key_details()) {
                    Some(d) => if d.len() == 0 {
                        None
                    } else {
                        Some(d)
                    },
                    None => None,
                };
                Some(MarkdownMeta { output_filename: v, brief, details })
            }
        },
    }
}

/// A serialized `key: value` line.
pub open spec fn spec_meta_line(key: Seq<u8>, v: Seq<u8>) -> Seq<u8> {
    key + seq![32u8] + v
}

/// The serialized form of a metadata block: one `key: value` line per
/// present entry, `output_filename` first.
pub open spec fn spec_meta_lines(m: MetaView) -> Seq<Seq<u8>> {
    seq![spec_meta_line(spec_key_output(), m.output_filename)] + (match m.brief {
        Some(b) => seq![spec_meta_line(spec_key_brief(), b)],
        None => Seq::empty(),
    }) + (match m.details {
        Some(d) => seq![spec_meta_line(spec_key_details(), d)],
        None => Seq::empty(),
    })
}

/// A metadata value fit for one serialized line: non-empty, free of line
/// feeds, and carrying no whitespace at its ends.
pub open spec fn wf_meta_value(v: Seq<u8>) -> bool {
    v.len() > 0 && !v.contains(10u8) && spec_trim(v) == v
}

/// Whether a metadata block serializes to lines that parse back to it.
pub open spec fn wf_meta(m: MetaView) -> bool {
    &&& wf_meta_value(m.output_filename)
    &&& match m.brief {
        Some(b) => wf_meta_value(b),
        None => true,
    }
    &&& match m.details {
        Some(d) => wf_meta_value(d),
        None => true,
    }
}

/// Builds one serialized `key: value` line.
fn meta_line(key: &Vec<u8>, v: &Vec<u8>) -> (r: Vec<u8>)
    ensures
        r@ == spec_meta_line(key@, v@),
{
    let mut r = subvec(key, 0, key.len());
    proof {
        assert(r@ =~= key@);
    }
    r.push(32);
    crate::text::push_all(&mut r, v);
    proof {
        assert(r@ =~= spec_meta_line(key@, v@));
    }
    r
}

/// Serializes a metadata block; see `spec_meta_lines`.
pub fn meta_to_lines(m: &MarkdownMeta) -> (r: Vec<Vec<u8>>)
    ensures
        views(r@) == spec_meta_lines(m@),
{
    let mut r: Vec<Vec<u8>> = Vec::new();
    let l0 = meta_line(&tok_key_output(), &m.output_filename);
    r.push(l0);
    match &m.brief {
        Some(b) => {
            let ghost prev = r@;
            let l = meta_line(&tok_key_brief(), b);
            r.push(l);
            proof {
                crate::text::lemma_views_push(prev, l);
            }
        },
        None => {},
    }
    match &m.details {
        Some(d) => {
            let ghost prev = r@;
            let l = meta_line(&tok_key_details(), d);
            r.push(l);
            proof {
                crate::text::lemma_views_push(prev, l);
            }
        },
        None => {},
    }
    proof {
        assert(views(r@) =~= spec_meta_lines(m@));
    }
    r
}

/// A serialized line carries its own key and no other of the three; its
/// value parses back out unchanged.
proof fn lemma_meta_line_value(key: Seq<u8>, v: Seq<u8>)
    requires
        wf_meta_value(v),
        key == spec_key_output() || key == spec_key_brief() || key == spec_key_details(),
    ensures
        line_has_key(spec_meta_line(key, v), key),
        line_value(spec_meta_line(key, v), key) == v,
{
    let l = spec_meta_line(key, v);
    crate::text::lemma_trim_parts(v);
    assert(!crate::text::is_ws(l[0]));
    assert(l.last() == v.last());
    crate::text::lemma_trim_noop(l);
    assert(spec_trim(l) == l);
    assert(l.subrange(0, key.len() as int) =~= key);
    assert(line_has_key(l, key));
    let tail = l.subrange(key.len() as int, l.len() as int);
    assert(tail =~= seq![32u8] + v);
    assert(crate::text::is_ws(tail[0]));
    assert(tail.drop_first() =~= v);
    assert(spec_trim_start(tail) == spec_trim_start(v));
    crate::text::lemma_trim_parts(v);
    assert(spec_trim(tail) == v);
}

/// A serialized line of one key does not match another of the three keys.
proof fn lemma_meta_line_other(key: Seq<u8>, v: Seq<u8>, other: Seq<u8>)
    requires
        wf_meta_value(v),
        key == spec_key_output() || key == spec_key_brief() || key == spec_key_details(),
        other == spec_key_output() || other == spec_key_brief() || other == spec_key_details(),
        key != other,
    ensures
        !line_has_key(spec_meta_line(key, v), other),
{
    let l = spec_meta_line(key, v);
    crate::text::lemma_trim_parts(v);
    crate::text::lemma_trim_noop(l);
    assert(spec_trim(l) == l);
    if line_has_key(l, other) {
        let p = l.subrange(0, other.len() as int);
        assert(p == other);
        if key == spec_key_output() {
            assert(l[0] == 111u8);
            assert(other[0] == p[0]);
            if other == spec_key_brief() {
                assert(other[0] == 98u8);
            } else {
                assert(other[0] == 100u8);
            }
        } else if key == spec_key_brief() {
            assert(l[0] == 98u8);
            if other == spec_key_output() {
                assert(other[0] == 111u8);
            } else {
                assert(other[0] == 100u8);
            }
        } else {
            assert(l[0] == 100u8);
            if other == spec_key_output() {
                assert(other[0] == 111u8);
            } else {
                assert(other[0] == 98u8);
            }
        }
        assert(false);
    }
}

/// Serializing a well-formed metadata block and parsing the lines back
/// yields the same block: the front-matter codec round-trips.
pub proof fn lemma_meta_round_trip(m: MetaView)
    requires
        wf_meta(m),
    ensures
        spec_parse_meta(spec_meta_lines(m)) == Some(m),
{
    let ls = spec_meta_lines(m);
    let l0 = spec_meta_line(spec_key_output(), m.output_filename);
    lemma_meta_line_value(spec_key_output(), m.output_filename);
    assert(ls[0] == l0);
    assert(find_value(ls, spec_key_output()) == Some(m.output_filename));
    let rest1 = ls.drop_first();
    lemma_meta_line_other(spec_key_output(), m.output_filename, spec_key_brief());
    lemma_find_value_step(ls, spec_key_brief());
    match m.brief {
        Some(b) => {
            lemma_meta_line_value(spec_key_brief(), b);
            assert(ls[1] == spec_meta_line(spec_key_brief(), b));
            assert(rest1[0] == ls[1]);
            assert(find_value(rest1, spec_key_brief()) == Some(b));
        },
        None => {
            match m.details {
                Some(d) => {
                    lemma_meta_line_other(spec_key_details(), d, spec_key_brief());
                    assert(ls.len() == 2);
                    assert(rest1[0] == ls[1]);
                    assert(ls[1] == spec_meta_line(spec_key_details(), d));
                    lemma_find_value_step(rest1, spec_key_brief());
                    assert(rest1.drop_first() =~= Seq::<Seq<u8>>::empty());
                    assert(find_value(rest1.drop_first(), spec_key_brief()) is None);
                    assert(find_value(ls, spec_key_brief()) is None);
                },
                None => {
                    assert(ls.len() == 1);
                    assert(rest1 =~= Seq::<Seq<u8>>::empty());
                    assert(find_value(rest1, spec_key_brief()) is None);
                },
            }
        },
    }
    lemma_meta_line_other(spec_key_output(), m.output_filename, spec_key_details());
    lemma_find_value_step(ls, spec_key_details());
    match m.details {
        Some(d) => {
            lemma_meta_line_value(spec_key_details(), d);
            match m.brief {
                Some(b) => {
                    lemma_meta_line_other(spec_key_brief(), b, spec_key_details());
                    assert(ls.len() == 3);
                    assert(rest1[0] == ls[1]);
                    assert(ls[1] == spec_meta_line(spec_key_brief(), b));
                    lemma_find_value_step(rest1, spec_key_details());
                    assert(rest1.drop_first()[0] == ls[2]);
                    assert(ls[2] == spec_meta_line(spec_key_details(), d));
                    assert(find_value(rest1.drop_first(), spec_key_details()) == Some(d));
                    assert(find_value(ls, spec_key_details()) == Some(d));
                },
                None => {
                    assert(ls.len() == 2);
                    assert(rest1[0] == ls[1]);
                    assert(ls[1] == spec_meta_line(spec_key_details(), d));
                    assert(find_value(rest1, spec_key_details()) == Some(d));
                },
            }
        },
        None => {
            match m.brief {
                Some(b) => {
                    lemma_meta_line_other(spec_key_brief(), b, spec_key_details());
                    assert(ls.len() == 2);
                    assert(rest1[0] == ls[1]);
                    assert(ls[1] == spec_meta_line(spec_key_brief(), b));
                    lemma_find_value_step(rest1, spec_key_details());
                    assert(rest1.drop_first() =~= Seq::<Seq<u8>>::empty());
                    assert(find_value(rest1.drop_first(), spec_key_details()) is None);
                },
                None => {
                    assert(ls.len() == 1);
                    assert(rest1 =~= Seq::<Seq<u8>>::empty());
                    assert(find_value(rest1, spec_key_details()) is None);
                },
            }
        },
    }
}

/// Whether a line is a front-matter delimiter: it trims to `---`.
pub open spec fn is_dashes_line(l: Seq<u8>) -> bool {
    spec_trim(l) == spec_dashes()
}

/// Whether a line trims to `---`.
pub fn dashes_line(l: &Vec<u8>) -> (r: bool)
    ensures
        r == is_dashes_line(l@),
{
    let t = trim_bytes(l);
    bytes_eq(&t, &tok_dashes())
}

/// The index of the first delimiter line at or after `from`, if any.
pub fn find_dashes_line(lines: &Vec<Vec<u8>>, from: usize) -> (r: Option<usize>)
    requires
        from <= lines.len(),
    ensures
        match r {
            Some(i) => {
                &&& from <= i < lines.len()
                &&& is_dashes_line(views(lines@)[i as int])
                &&& forall|j: int|
                    from <= j < i ==> !is_dashes_line(#[trigger] views(lines@)[j])
            },
            None => forall|j: int|
                from <= j < lines@.len() ==> !is_dashes_line(#[trigger] views(lines@)[j]),
        },
{
    let mut i: usize = from;
    while i < lines.len()
        invariant
            from <= i <= lines.len(),
            forall|j: int| from <= j < i ==> !is_dashes_line(#[trigger] views(lines@)[j]),
        decreases lines.len() - i,
    {
        if dashes_line(&lines[i]) {
            return Some(i);
        }
        i = i + 1;
    }
    None
}

/// The metadata of a document whose first line is a `---` delimiter with a
/// matching closing delimiter, read from the lines between the two; `None`
/// when the delimiters are absent or the block carries no usable
/// `output_filename`.
pub open spec fn spec_front_matter(doc: Seq<Seq<u8>>) -> Option<MetaView> {
    if doc.len() > 0 && is_dashes_line(doc[0]) && (exists|j: int|
        1 <= j < doc.len() && is_dashes_line(doc[j])) {
        let close = choose|j: int|
            1 <= j < doc.len() && is_dashes_line(#[trigger] doc[j]) && forall|k: int|
                1 <= k < j ==> !is_dashes_line(#[trigger] doc[k]);
        spec_parse_meta(doc.subrange(1, close))
    } else {
        None
    }
}

/// Reads the front matter of a whole document; see `spec_front_matter`.
pub fn parse_markdown_front_matter(doc: &Vec<Vec<u8>>) -> (r: Option<MarkdownMeta>)
    ensures
        match r {
            Some(m) => spec_front_matter(views(doc@)) == Some(m@),
            None => spec_front_matter(views(doc@)) is None,
        },
{
    if doc.len() == 0 {
        return None;
    }
    if !dashes_line(&doc[0]) {
        return None;
    }
    match find_dashes_line(doc, 1) {
        None => {
            proof {
                assert forall|j: int|
                    !(1 <= j < views(doc@).len() && is_dashes_line(#[trigger] views(doc@)[j]))
                by {}
            }
            None
        },
        Some(close) => {
            let mut meta_lines: Vec<Vec<u8>> = Vec::new();
            let mut i: usize = 1;
            while i < close
                invariant
                    1 <= i <= close < doc@.len(),
                    views(meta_lines@) =~= views(doc@).subrange(1, i as int),
                decreases close - i,
            {
                let line = subvec(&doc[i], 0, doc[i].len());
                proof {
                    assert(line@ =~= doc@[i as int]@);
                    assert(views(doc@)[i as int] == doc@[i as int]@);
                }
                let ghost prev = meta_lines@;
                meta_lines.push(line);
                proof {
                    assert(meta_lines@ == prev.push(line));
                    crate::text::lemma_views_push(prev, line);
                    assert(views(meta_lines@) =~= views(doc@).subrange(1, i + 1));
                }
                i = i + 1;
            }
            proof {
                let dv = views(doc@);
                let cl = choose|j: int|
                    1 <= j < dv.len() && is_dashes_line(#[trigger] dv[j]) && forall|k: int|
                        1 <= k < j ==> !is_dashes_line(#[trigger] dv[k]);
                assert(1 <= close < dv.len() && is_dashes_line(dv[close as int]) && forall|k: int|
                    1 <= k < close ==> !is_dashes_line(#[trigger] dv[k]));
                if cl != close {
                    if cl < close {
                        assert(!is_dashes_line(dv[cl]));
                    } else {
                        assert(!is_dashes_line(dv[close as int]));
                    }
                }
                assert(cl == close);
            }
            parse_meta_lines(&meta_lines)
        },
    }
}

} // verus!
