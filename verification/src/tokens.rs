//! The byte-string constants that the document grammars of this crate are
//! built from, each as a specification sequence with its executable twin.

use vstd::prelude::*;

verus! {

/// Bytes of the front-matter delimiter `---`.
pub open spec fn spec_dashes() -> Seq<u8> {
    seq![45u8, 45u8, 45u8]
}

/// Executable twin of `spec_dashes`.
pub fn tok_dashes() -> (r: Vec<u8>)
    ensures
        r@ == spec_dashes(),
{
    let r: Vec<u8> = vec![45u8, 45u8, 45u8];
    proof {
        assert(r@ =~= spec_dashes());
    }
    r
}

/// Bytes of the code-fence marker of three backticks.
pub open spec fn spec_fence() -> Seq<u8> {
    seq![96u8, 96u8, 96u8]
}

/// Executable twin of `spec_fence`.
pub fn tok_fence() -> (r: Vec<u8>)
    ensures
        r@ == spec_fence(),
{
    let r: Vec<u8> = vec![96u8, 96u8, 96u8];
    proof {
        assert(r@ =~= spec_fence());
    }
    r
}

/// Bytes of the front-matter key `output_filename:`.
pub open spec fn spec_key_output() -> Seq<u8> {
    seq![111u8, 117u8, 116u8, 112u8, 117u8, 116u8, 95u8, 102u8, 105u8, 108u8, 101u8, 110u8, 97u8, 109u8, 101u8, 58u8]
}

/// Executable twin of `spec_key_output`.
pub fn tok_key_output() -> (r: Vec<u8>)
    ensures
        r@ == spec_key_output(),
{
    let r: Vec<u8> = vec![111u8, 117u8, 116u8, 112u8, 117u8, 116u8, 95u8, 102u8, 105u8, 108u8, 101u8, 110u8, 97u8, 109u8, 101u8, 58u8];
    proof {
        assert(r@ =~= spec_key_output());
    }
    r
}

/// Bytes of the front-matter key `brief:`.
pub open spec fn spec_key_brief() -> Seq<u8> {
    seq![98u8, 114u8, 105u8, 101u8, 102u8, 58u8]
}

/// Executable twin of `spec_key_brief`.
pub fn tok_key_brief() -> (r: Vec<u8>)
    ensures
        r@ == spec_key_brief(),
{
    let r: Vec<u8> = vec![98u8, 114u8, 105u8, 101u8, 102u8, 58u8];
    proof {
        assert(r@ =~= spec_key_brief());
    }
    r
}

/// Bytes of the front-matter key `details:`.
pub open spec fn spec_key_details() -> Seq<u8> {
    seq![100u8, 101u8, 116u8, 97u8, 105u8, 108u8, 115u8, 58u8]
}

/// Executable twin of `spec_key_details`.
pub fn tok_key_details() -> (r: Vec<u8>)
    ensures
        r@ == spec_key_details(),
{
    let r: Vec<u8> = vec![100u8, 101u8, 116u8, 97u8, 105u8, 108u8, 115u8, 58u8];
    proof {
        assert(r@ =~= spec_key_details());
    }
    r
}

/// Bytes of the language token `python`.
pub open spec fn spec_lang_python() -> Seq<u8> {
    seq![112u8, 121u8, 116u8, 104u8, 111u8, 110u8]
}

/// Executable twin of `spec_lang_python`.
pub fn tok_lang_python() -> (r: Vec<u8>)
    ensures
        r@ == spec_lang_python(),
{
    let r: Vec<u8> = vec![112u8, 121u8, 116u8, 104u8, 111u8, 110u8];
    proof {
        assert(r@ =~= spec_lang_python());
    }
    r
}

/// Bytes of the language token `rust`.
pub open spec fn spec_lang_rust() -> Seq<u8> {
    seq![114u8, 117u8, 115u8, 116u8]
}

/// Executable twin of `spec_lang_rust`.
pub fn tok_lang_rust() -> (r: Vec<u8>)
    ensures
        r@ == spec_lang_rust(),
{
    let r: Vec<u8> = vec![114u8, 117u8, 115u8, 116u8];
    proof {
        assert(r@ =~= spec_lang_rust());
    }
    r
}

/// Bytes of the language token `cpp`.
pub open spec fn spec_lang_cpp() -> Seq<u8> {
    seq![99u8, 112u8, 112u8]
}

/// Executable twin of `spec_lang_cpp`.
pub fn tok_lang_cpp() -> (r: Vec<u8>)
    ensures
        r@ == spec_lang_cpp(),
{
    let r: Vec<u8> = vec![99u8, 112u8, 112u8];
    proof {
        assert(r@ =~= spec_lang_cpp());
    }
    r
}

/// Bytes of the language token `c`.
pub open spec fn spec_lang_c() -> Seq<u8> {
    seq![99u8]
}

/// Executable twin of `spec_lang_c`.
pub fn tok_lang_c() -> (r: Vec<u8>)
    ensures
        r@ == spec_lang_c(),
{
    let r: Vec<u8> = vec![99u8];
    proof {
        assert(r@ =~= spec_lang_c());
    }
    r
}

/// Bytes of the language token `javascript`.
pub open spec fn spec_lang_javascript() -> Seq<u8> {
    seq![106u8, 97u8, 118u8, 97u8, 115u8, 99u8, 114u8, 105u8, 112u8, 116u8]
}

/// Executable twin of `spec_lang_javascript`.
pub fn tok_lang_javascript() -> (r: Vec<u8>)
    ensures
        r@ == spec_lang_javascript(),
{
    let r: Vec<u8> = vec![106u8, 97u8, 118u8, 97u8, 115u8, 99u8, 114u8, 105u8, 112u8, 116u8];
    proof {
        assert(r@ =~= spec_lang_javascript());
    }
    r
}

/// Bytes of the language token `typescript`.
pub open spec fn spec_lang_typescript() -> Seq<u8> {
    seq![116u8, 121u8, 112u8, 101u8, 115u8, 99u8, 114u8, 105u8, 112u8, 116u8]
}

/// Executable twin of `spec_lang_typescript`.
pub fn tok_lang_typescript() -> (r: Vec<u8>)
    ensures
        r@ == spec_lang_typescript(),
{
    let r: Vec<u8> = vec![116u8, 121u8, 112u8, 101u8, 115u8, 99u8, 114u8, 105u8, 112u8, 116u8];
    proof {
        assert(r@ =~= spec_lang_typescript());
    }
    r
}

/// Bytes of the language token `bash`.
pub open spec fn spec_lang_bash() -> Seq<u8> {
    seq![98u8, 97u8, 115u8, 104u8]
}

/// Executable twin of `spec_lang_bash`.
pub fn tok_lang_bash() -> (r: Vec<u8>)
    ensures
        r@ == spec_lang_bash(),
{
    let r: Vec<u8> = vec![98u8, 97u8, 115u8, 104u8];
    proof {
        assert(r@ =~= spec_lang_bash());
    }
    r
}

/// Bytes of the fence annotation `.python`.
pub open spec fn spec_dot_python() -> Seq<u8> {
    seq![46u8, 112u8, 121u8, 116u8, 104u8, 111u8, 110u8]
}

/// Executable twin of `spec_dot_python`.
pub fn tok_dot_python() -> (r: Vec<u8>)
    ensures
        r@ == spec_dot_python(),
{
    let r: Vec<u8> = vec![46u8, 112u8, 121u8, 116u8, 104u8, 111u8, 110u8];
    proof {
        assert(r@ =~= spec_dot_python());
    }
    r
}

/// Bytes of the fence annotation `.py`.
pub open spec fn spec_dot_py() -> Seq<u8> {
    seq![46u8, 112u8, 121u8]
}

/// Executable twin of `spec_dot_py`.
pub fn tok_dot_py() -> (r: Vec<u8>)
    ensures
        r@ == spec_dot_py(),
{
    let r: Vec<u8> = vec![46u8, 112u8, 121u8];
    proof {
        assert(r@ =~= spec_dot_py());
    }
    r
}

/// Bytes of the fence annotation `.rust`.
pub open spec fn spec_dot_rust() -> Seq<u8> {
    seq![46u8, 114u8, 117u8, 115u8, 116u8]
}

/// Executable twin of `spec_dot_rust`.
pub fn tok_dot_rust() -> (r: Vec<u8>)
    ensures
        r@ == spec_dot_rust(),
{
    let r: Vec<u8> = vec![46u8, 114u8, 117u8, 115u8, 116u8];
    proof {
        assert(r@ =~= spec_dot_rust());
    }
    r
}

/// Bytes of the fence annotation `.rs`.
pub open spec fn spec_dot_rs() -> Seq<u8> {
    seq![46u8, 114u8, 115u8]
}

/// Executable twin of `spec_dot_rs`.
pub fn tok_dot_rs() -> (r: Vec<u8>)
    ensures
        r@ == spec_dot_rs(),
{
    let r: Vec<u8> = vec![46u8, 114u8, 115u8];
    proof {
        assert(r@ =~= spec_dot_rs());
    }
    r
}

/// Bytes of the fence annotation `.js`.
pub open spec fn spec_dot_js() -> Seq<u8> {
    seq![46u8, 106u8, 115u8]
}

/// Executable twin of `spec_dot_js`.
pub fn tok_dot_js() -> (r: Vec<u8>)
    ensures
        r@ == spec_dot_js(),
{
    let r: Vec<u8> = vec![46u8, 106u8, 115u8];
    proof {
        assert(r@ =~= spec_dot_js());
    }
    r
}

/// Bytes of the fence annotation `.ts`.
pub open spec fn spec_dot_ts() -> Seq<u8> {
    seq![46u8, 116u8, 115u8]
}

/// Executable twin of `spec_dot_ts`.
pub fn tok_dot_ts() -> (r: Vec<u8>)
    ensures
        r@ == spec_dot_ts(),
{
    let r: Vec<u8> = vec![46u8, 116u8, 115u8];
    proof {
        assert(r@ =~= spec_dot_ts());
    }
    r
}

/// Bytes of the fence annotation `.sh`.
pub open spec fn spec_dot_sh() -> Seq<u8> {
    seq![46u8, 115u8, 104u8]
}

/// Executable twin of `spec_dot_sh`.
pub fn tok_dot_sh() -> (r: Vec<u8>)
    ensures
        r@ == spec_dot_sh(),
{
    let r: Vec<u8> = vec![46u8, 115u8, 104u8];
    proof {
        assert(r@ =~= spec_dot_sh());
    }
    r
}

/// Bytes of the fence annotation `.h`.
pub open spec fn spec_dot_h() -> Seq<u8> {
    seq![46u8, 104u8]
}

/// Executable twin of `spec_dot_h`.
pub fn tok_dot_h() -> (r: Vec<u8>)
    ensures
        r@ == spec_dot_h(),
{
    let r: Vec<u8> = vec![46u8, 104u8];
    proof {
        assert(r@ =~= spec_dot_h());
    }
    r
}

/// Bytes of the file extension `py`.
pub open spec fn spec_ext_py() -> Seq<u8> {
    seq![112u8, 121u8]
}

/// Executable twin of `spec_ext_py`.
pub fn tok_ext_py() -> (r: Vec<u8>)
    ensures
        r@ == spec_ext_py(),
{
    let r: Vec<u8> = vec![112u8, 121u8];
    proof {
        assert(r@ =~= spec_ext_py());
    }
    r
}

/// Bytes of the file extension `rs`.
pub open spec fn spec_ext_rs() -> Seq<u8> {
    seq![114u8, 115u8]
}

/// Executable twin of `spec_ext_rs`.
pub fn tok_ext_rs() -> (r: Vec<u8>)
    ensures
        r@ == spec_ext_rs(),
{
    let r: Vec<u8> = vec![114u8, 115u8];
    proof {
        assert(r@ =~= spec_ext_rs());
    }
    r
}

/// Bytes of the file extension `h`.
pub open spec fn spec_ext_h() -> Seq<u8> {
    seq![104u8]
}

/// Executable twin of `spec_ext_h`.
pub fn tok_ext_h() -> (r: Vec<u8>)
    ensures
        r@ == spec_ext_h(),
{
    let r: Vec<u8> = vec![104u8];
    proof {
        assert(r@ =~= spec_ext_h());
    }
    r
}

/// Bytes of the file extension `js`.
pub open spec fn spec_ext_js() -> Seq<u8> {
    seq![106u8, 115u8]
}

/// Executable twin of `spec_ext_js`.
pub fn tok_ext_js() -> (r: Vec<u8>)
    ensures
        r@ == spec_ext_js(),
{
    let r: Vec<u8> = vec![106u8, 115u8];
    proof {
        assert(r@ =~= spec_ext_js());
    }
    r
}

/// Bytes of the file extension `ts`.
pub open spec fn spec_ext_ts() -> Seq<u8> {
    seq![116u8, 115u8]
}

/// Executable twin of `spec_ext_ts`.
pub fn tok_ext_ts() -> (r: Vec<u8>)
    ensures
        r@ == spec_ext_ts(),
{
    let r: Vec<u8> = vec![116u8, 115u8];
    proof {
        assert(r@ =~= spec_ext_ts());
    }
    r
}

/// Bytes of the file extension `sh`.
pub open spec fn spec_ext_sh() -> Seq<u8> {
    seq![115u8, 104u8]
}

/// Executable twin of `spec_ext_sh`.
pub fn tok_ext_sh() -> (r: Vec<u8>)
    ensures
        r@ == spec_ext_sh(),
{
    let r: Vec<u8> = vec![115u8, 104u8];
    proof {
        assert(r@ =~= spec_ext_sh());
    }
    r
}

/// Bytes of the file extension `md`.
pub open spec fn spec_ext_md() -> Seq<u8> {
    seq![109u8, 100u8]
}

/// Executable twin of `spec_ext_md`.
pub fn tok_ext_md() -> (r: Vec<u8>)
    ensures
        r@ == spec_ext_md(),
{
    let r: Vec<u8> = vec![109u8, 100u8];
    proof {
        assert(r@ =~= spec_ext_md());
    }
    r
}

/// Bytes of the file extension `markdown`.
pub open spec fn spec_ext_markdown() -> Seq<u8> {
    seq![109u8, 97u8, 114u8, 107u8, 100u8, 111u8, 119u8, 110u8]
}

/// Executable twin of `spec_ext_markdown`.
pub fn tok_ext_markdown() -> (r: Vec<u8>)
    ensures
        r@ == spec_ext_markdown(),
{
    let r: Vec<u8> = vec![109u8, 97u8, 114u8, 107u8, 100u8, 111u8, 119u8, 110u8];
    proof {
        assert(r@ =~= spec_ext_markdown());
    }
    r
}

/// Bytes of the Python keyword `def` with its trailing space.
pub open spec fn spec_kw_def() -> Seq<u8> {
    seq![100u8, 101u8, 102u8, 32u8]
}

/// Executable twin of `spec_kw_def`.
pub fn tok_kw_def() -> (r: Vec<u8>)
    ensures
        r@ == spec_kw_def(),
{
    let r: Vec<u8> = vec![100u8, 101u8, 102u8, 32u8];
    proof {
        assert(r@ =~= spec_kw_def());
    }
    r
}

/// Bytes of the Python keyword `class` with its trailing space.
pub open spec fn spec_kw_class() -> Seq<u8> {
    seq![99u8, 108u8, 97u8, 115u8, 115u8, 32u8]
}

/// Executable twin of `spec_kw_class`.
pub fn tok_kw_class() -> (r: Vec<u8>)
    ensures
        r@ == spec_kw_class(),
{
    let r: Vec<u8> = vec![99u8, 108u8, 97u8, 115u8, 115u8, 32u8];
    proof {
        assert(r@ =~= spec_kw_class());
    }
    r
}

/// Bytes of the Rust keyword `fn` with its trailing space.
pub open spec fn spec_kw_fn() -> Seq<u8> {
    seq![102u8, 110u8, 32u8]
}

/// Executable twin of `spec_kw_fn`.
pub fn tok_kw_fn() -> (r: Vec<u8>)
    ensures
        r@ == spec_kw_fn(),
{
    let r: Vec<u8> = vec![102u8, 110u8, 32u8];
    proof {
        assert(r@ =~= spec_kw_fn());
    }
    r
}

/// Bytes of the Rust prefix `pub fn` with its trailing space.
pub open spec fn spec_kw_pub_fn() -> Seq<u8> {
    seq![112u8, 117u8, 98u8, 32u8, 102u8, 110u8, 32u8]
}

/// Executable twin of `spec_kw_pub_fn`.
pub fn tok_kw_pub_fn() -> (r: Vec<u8>)
    ensures
        r@ == spec_kw_pub_fn(),
{
    let r: Vec<u8> = vec![112u8, 117u8, 98u8, 32u8, 102u8, 110u8, 32u8];
    proof {
        assert(r@ =~= spec_kw_pub_fn());
    }
    r
}

/// Bytes of the opening of a placeholder marker.
pub open spec fn spec_ph_open() -> Seq<u8> {
    seq![64u8, 123u8]
}

/// Executable twin of `spec_ph_open`.
pub fn tok_ph_open() -> (r: Vec<u8>)
    ensures
        r@ == spec_ph_open(),
{
    let r: Vec<u8> = vec![64u8, 123u8];
    proof {
        assert(r@ =~= spec_ph_open());
    }
    r
}

/// Bytes of the opening of a language-annotated inline code fence.
pub open spec fn spec_inline_open() -> Seq<u8> {
    seq![10u8, 10u8, 96u8, 96u8, 96u8, 123u8, 46u8]
}

/// Executable twin of `spec_inline_open`.
pub fn tok_inline_open() -> (r: Vec<u8>)
    ensures
        r@ == spec_inline_open(),
{
    let r: Vec<u8> = vec![10u8, 10u8, 96u8, 96u8, 96u8, 123u8, 46u8];
    proof {
        assert(r@ =~= spec_inline_open());
    }
    r
}

/// Bytes of the closing of an inline fence annotation.
pub open spec fn spec_inline_mid() -> Seq<u8> {
    seq![32u8, 46u8, 99u8, 98u8, 45u8, 99u8, 111u8, 100u8, 101u8, 125u8, 10u8]
}

/// Executable twin of `spec_inline_mid`.
pub fn tok_inline_mid() -> (r: Vec<u8>)
    ensures
        r@ == spec_inline_mid(),
{
    let r: Vec<u8> = vec![32u8, 46u8, 99u8, 98u8, 45u8, 99u8, 111u8, 100u8, 101u8, 125u8, 10u8];
    proof {
        assert(r@ =~= spec_inline_mid());
    }
    r
}

/// Bytes of the opening of a plain inline code fence.
pub open spec fn spec_inline_open_plain() -> Seq<u8> {
    seq![10u8, 10u8, 96u8, 96u8, 96u8, 10u8]
}

/// Executable twin of `spec_inline_open_plain`.
pub fn tok_inline_open_plain() -> (r: Vec<u8>)
    ensures
        r@ == spec_inline_open_plain(),
{
    let r: Vec<u8> = vec![10u8, 10u8, 96u8, 96u8, 96u8, 10u8];
    proof {
        assert(r@ =~= spec_inline_open_plain());
    }
    r
}

/// Bytes of the closing fence of an inline code block.
pub open spec fn spec_inline_close() -> Seq<u8> {
    seq![10u8, 96u8, 96u8, 96u8]
}

/// Executable twin of `spec_inline_close`.
pub fn tok_inline_close() -> (r: Vec<u8>)
    ensures
        r@ == spec_inline_close(),
{
    let r: Vec<u8> = vec![10u8, 96u8, 96u8, 96u8];
    proof {
        assert(r@ =~= spec_inline_close());
    }
    r
}

/// Bytes of the heading of the content index.
pub open spec fn spec_title_line() -> Seq<u8> {
    seq![35u8, 32u8, 66u8, 111u8, 111u8, 107u8, 32u8, 79u8, 118u8, 101u8, 114u8, 118u8, 105u8, 101u8, 119u8]
}

/// Executable twin of `spec_title_line`.
pub fn tok_title_line() -> (r: Vec<u8>)
    ensures
        r@ == spec_title_line(),
{
    let r: Vec<u8> = vec![35u8, 32u8, 66u8, 111u8, 111u8, 107u8, 32u8, 79u8, 118u8, 101u8, 114u8, 118u8, 105u8, 101u8, 119u8];
    proof {
        assert(r@ =~= spec_title_line());
    }
    r
}

/// Bytes of the introduction paragraph of the content index.
pub open spec fn spec_index_blurb() -> Seq<u8> {
    seq![66u8, 101u8, 108u8, 111u8, 119u8, 32u8, 105u8, 115u8, 32u8, 97u8, 32u8, 108u8, 105u8, 115u8, 116u8, 32u8, 111u8, 102u8, 32u8, 97u8, 108u8, 108u8, 32u8, 77u8, 97u8, 114u8, 107u8, 100u8, 111u8, 119u8, 110u8, 32u8, 102u8, 105u8, 108u8, 101u8, 115u8, 32u8, 116u8, 104u8, 97u8, 116u8, 32u8, 100u8, 101u8, 102u8, 105u8, 110u8, 101u8, 32u8, 97u8, 110u8, 32u8, 96u8, 111u8, 117u8, 116u8, 112u8, 117u8, 116u8, 95u8, 102u8, 105u8, 108u8, 101u8, 110u8, 97u8, 109u8, 101u8, 96u8, 32u8, 105u8, 110u8, 32u8, 116u8, 104u8, 101u8, 105u8, 114u8, 32u8, 102u8, 114u8, 111u8, 110u8, 116u8, 32u8, 109u8, 97u8, 116u8, 116u8, 101u8, 114u8, 32u8, 40u8, 105u8, 102u8, 32u8, 112u8, 114u8, 101u8, 115u8, 101u8, 110u8, 116u8, 41u8, 46u8, 32u8, 84u8, 104u8, 101u8, 121u8, 32u8, 97u8, 114u8, 101u8, 32u8, 111u8, 114u8, 103u8, 97u8, 110u8, 105u8, 122u8, 101u8, 100u8, 32u8, 98u8, 121u8, 32u8, 99u8, 104u8, 97u8, 112u8, 116u8, 101u8, 114u8, 115u8, 32u8, 40u8, 102u8, 111u8, 108u8, 100u8, 101u8, 114u8, 32u8, 110u8, 97u8, 109u8, 101u8, 115u8, 41u8, 46u8, 32u8, 73u8, 102u8, 32u8, 97u8, 32u8, 102u8, 105u8, 108u8, 101u8, 32u8, 97u8, 108u8, 115u8, 111u8, 32u8, 104u8, 97u8, 115u8, 32u8, 97u8, 32u8, 96u8, 98u8, 114u8, 105u8, 101u8, 102u8, 96u8, 32u8, 111u8, 114u8, 32u8, 96u8, 100u8, 101u8, 116u8, 97u8, 105u8, 108u8, 115u8, 96u8, 44u8, 32u8, 121u8, 111u8, 117u8, 39u8, 108u8, 108u8, 32u8, 115u8, 101u8, 101u8, 32u8, 116u8, 104u8, 101u8, 109u8, 32u8, 105u8, 110u8, 32u8, 116u8, 104u8, 101u8, 32u8, 116u8, 97u8, 98u8, 108u8, 101u8, 46u8]
}

/// Executable twin of `spec_index_blurb`.
pub fn tok_index_blurb() -> (r: Vec<u8>)
    ensures
        r@ == spec_index_blurb(),
{
    let r: Vec<u8> = vec![66u8, 101u8, 108u8, 111u8, 119u8, 32u8, 105u8, 115u8, 32u8, 97u8, 32u8, 108u8, 105u8, 115u8, 116u8, 32u8, 111u8, 102u8, 32u8, 97u8, 108u8, 108u8, 32u8, 77u8, 97u8, 114u8, 107u8, 100u8, 111u8, 119u8, 110u8, 32u8, 102u8, 105u8, 108u8, 101u8, 115u8, 32u8, 116u8, 104u8, 97u8, 116u8, 32u8, 100u8, 101u8, 102u8, 105u8, 110u8, 101u8, 32u8, 97u8, 110u8, 32u8, 96u8, 111u8, 117u8, 116u8, 112u8, 117u8, 116u8, 95u8, 102u8, 105u8, 108u8, 101u8, 110u8, 97u8, 109u8, 101u8, 96u8, 32u8, 105u8, 110u8, 32u8, 116u8, 104u8, 101u8, 105u8, 114u8, 32u8, 102u8, 114u8, 111u8, 110u8, 116u8, 32u8, 109u8, 97u8, 116u8, 116u8, 101u8, 114u8, 32u8, 40u8, 105u8, 102u8, 32u8, 112u8, 114u8, 101u8, 115u8, 101u8, 110u8, 116u8, 41u8, 46u8, 32u8, 84u8, 104u8, 101u8, 121u8, 32u8, 97u8, 114u8, 101u8, 32u8, 111u8, 114u8, 103u8, 97u8, 110u8, 105u8, 122u8, 101u8, 100u8, 32u8, 98u8, 121u8, 32u8, 99u8, 104u8, 97u8, 112u8, 116u8, 101u8, 114u8, 115u8, 32u8, 40u8, 102u8, 111u8, 108u8, 100u8, 101u8, 114u8, 32u8, 110u8, 97u8, 109u8, 101u8, 115u8, 41u8, 46u8, 32u8, 73u8, 102u8, 32u8, 97u8, 32u8, 102u8, 105u8, 108u8, 101u8, 32u8, 97u8, 108u8, 115u8, 111u8, 32u8, 104u8, 97u8, 115u8, 32u8, 97u8, 32u8, 96u8, 98u8, 114u8, 105u8, 101u8, 102u8, 96u8, 32u8, 111u8, 114u8, 32u8, 96u8, 100u8, 101u8, 116u8, 97u8, 105u8, 108u8, 115u8, 96u8, 44u8, 32u8, 121u8, 111u8, 117u8, 39u8, 108u8, 108u8, 32u8, 115u8, 101u8, 101u8, 32u8, 116u8, 104u8, 101u8, 109u8, 32u8, 105u8, 110u8, 32u8, 116u8, 104u8, 101u8, 32u8, 116u8, 97u8, 98u8, 108u8, 101u8, 46u8];
    proof {
        assert(r@ =~= spec_index_blurb());
    }
    r
}

/// Bytes of the heading prefix of one chapter section.
pub open spec fn spec_chapter_prefix() -> Seq<u8> {
    seq![35u8, 35u8, 32u8, 67u8, 104u8, 97u8, 112u8, 116u8, 101u8, 114u8, 58u8, 32u8]
}

/// Executable twin of `spec_chapter_prefix`.
pub fn tok_chapter_prefix() -> (r: Vec<u8>)
    ensures
        r@ == spec_chapter_prefix(),
{
    let r: Vec<u8> = vec![35u8, 35u8, 32u8, 67u8, 104u8, 97u8, 112u8, 116u8, 101u8, 114u8, 58u8, 32u8];
    proof {
        assert(r@ =~= spec_chapter_prefix());
    }
    r
}

/// Bytes of the header row of a chapter table.
pub open spec fn spec_table_head1() -> Seq<u8> {
    seq![124u8, 32u8, 42u8, 42u8, 70u8, 105u8, 108u8, 101u8, 32u8, 78u8, 97u8, 109u8, 101u8, 42u8, 42u8, 32u8, 124u8, 32u8, 42u8, 42u8, 80u8, 97u8, 116u8, 104u8, 42u8, 42u8, 32u8, 124u8, 32u8, 42u8, 42u8, 66u8, 114u8, 105u8, 101u8, 102u8, 42u8, 42u8, 32u8, 124u8, 32u8, 42u8, 42u8, 68u8, 101u8, 116u8, 97u8, 105u8, 108u8, 115u8, 42u8, 42u8, 32u8, 124u8]
}

/// Executable twin of `spec_table_head1`.
pub fn tok_table_head1() -> (r: Vec<u8>)
    ensures
        r@ == spec_table_head1(),
{
    let r: Vec<u8> = vec![124u8, 32u8, 42u8, 42u8, 70u8, 105u8, 108u8, 101u8, 32u8, 78u8, 97u8, 109u8, 101u8, 42u8, 42u8, 32u8, 124u8, 32u8, 42u8, 42u8, 80u8, 97u8, 116u8, 104u8, 42u8, 42u8, 32u8, 124u8, 32u8, 42u8, 42u8, 66u8, 114u8, 105u8, 101u8, 102u8, 42u8, 42u8, 32u8, 124u8, 32u8, 42u8, 42u8, 68u8, 101u8, 116u8, 97u8, 105u8, 108u8, 115u8, 42u8, 42u8, 32u8, 124u8];
    proof {
        assert(r@ =~= spec_table_head1());
    }
    r
}

/// Bytes of the separator row of a chapter table.
pub open spec fn spec_table_head2() -> Seq<u8> {
    seq![124u8, 45u8, 45u8, 45u8, 45u8, 45u8, 45u8, 45u8, 45u8, 45u8, 45u8, 45u8, 45u8, 45u8, 45u8, 45u8, 124u8, 45u8, 45u8, 45u8, 45u8, 45u8, 45u8, 45u8, 45u8, 45u8, 45u8, 124u8, 45u8, 45u8, 45u8, 45u8, 45u8, 45u8, 45u8, 45u8, 45u8, 45u8, 45u8, 124u8, 45u8, 45u8, 45u8, 45u8, 45u8, 45u8, 45u8, 45u8, 45u8, 45u8, 45u8, 45u8, 45u8, 124u8]
}

/// Executable twin of `spec_table_head2`.
pub fn tok_table_head2() -> (r: Vec<u8>)
    ensures
        r@ == spec_table_head2(),
{
    let r: Vec<u8> = vec![124u8, 45u8, 45u8, 45u8, 45u8, 45u8, 45u8, 45u8, 45u8, 45u8, 45u8, 45u8, 45u8, 45u8, 45u8, 45u8, 124u8, 45u8, 45u8, 45u8, 45u8, 45u8, 45u8, 45u8, 45u8, 45u8, 45u8, 124u8, 45u8, 45u8, 45u8, 45u8, 45u8, 45u8, 45u8, 45u8, 45u8, 45u8, 45u8, 124u8, 45u8, 45u8, 45u8, 45u8, 45u8, 45u8, 45u8, 45u8, 45u8, 45u8, 45u8, 45u8, 45u8, 124u8];
    proof {
        assert(r@ =~= spec_table_head2());
    }
    r
}

/// Bytes of the opening of a table row.
pub open spec fn spec_cell_open() -> Seq<u8> {
    seq![124u8, 32u8]
}

/// Executable twin of `spec_cell_open`.
pub fn tok_cell_open() -> (r: Vec<u8>)
    ensures
        r@ == spec_cell_open(),
{
    let r: Vec<u8> = vec![124u8, 32u8];
    proof {
        assert(r@ =~= spec_cell_open());
    }
    r
}

/// Bytes of the separator between table cells.
pub open spec fn spec_cell_sep() -> Seq<u8> {
    seq![32u8, 124u8, 32u8]
}

/// Executable twin of `spec_cell_sep`.
pub fn tok_cell_sep() -> (r: Vec<u8>)
    ensures
        r@ == spec_cell_sep(),
{
    let r: Vec<u8> = vec![32u8, 124u8, 32u8];
    proof {
        assert(r@ =~= spec_cell_sep());
    }
    r
}

/// Bytes of the closing of a table row.
pub open spec fn spec_cell_close() -> Seq<u8> {
    seq![32u8, 124u8]
}

/// Executable twin of `spec_cell_close`.
pub fn tok_cell_close() -> (r: Vec<u8>)
    ensures
        r@ == spec_cell_close(),
{
    let r: Vec<u8> = vec![32u8, 124u8];
    proof {
        assert(r@ =~= spec_cell_close());
    }
    r
}

/// Bytes of the middle of a Markdown link.
pub open spec fn spec_link_mid() -> Seq<u8> {
    seq![93u8, 40u8]
}

/// Executable twin of `spec_link_mid`.
pub fn tok_link_mid() -> (r: Vec<u8>)
    ensures
        r@ == spec_link_mid(),
{
    let r: Vec<u8> = vec![93u8, 40u8];
    proof {
        assert(r@ =~= spec_link_mid());
    }
    r
}

/// Bytes of the check mark shown before a brief.
pub open spec fn spec_check_prefix() -> Seq<u8> {
    seq![226u8, 156u8, 133u8, 32u8]
}

/// Executable twin of `spec_check_prefix`.
pub fn tok_check_prefix() -> (r: Vec<u8>)
    ensures
        r@ == spec_check_prefix(),
{
    let r: Vec<u8> = vec![226u8, 156u8, 133u8, 32u8];
    proof {
        assert(r@ =~= spec_check_prefix());
    }
    r
}

/// Bytes of the cross mark shown for a missing field.
pub open spec fn spec_cross_mark() -> Seq<u8> {
    seq![226u8, 157u8, 140u8]
}

/// Executable twin of `spec_cross_mark`.
pub fn tok_cross_mark() -> (r: Vec<u8>)
    ensures
        r@ == spec_cross_mark(),
{
    let r: Vec<u8> = vec![226u8, 157u8, 140u8];
    proof {
        assert(r@ =~= spec_cross_mark());
    }
    r
}

/// Bytes of the opening of a collapsed details cell.
pub open spec fn spec_details_open() -> Seq<u8> {
    seq![60u8, 100u8, 101u8, 116u8, 97u8, 105u8, 108u8, 115u8, 62u8, 60u8, 115u8, 117u8, 109u8, 109u8, 97u8, 114u8, 121u8, 62u8, 86u8, 105u8, 101u8, 119u8, 32u8, 68u8, 101u8, 116u8, 97u8, 105u8, 108u8, 115u8, 60u8, 47u8, 115u8, 117u8, 109u8, 109u8, 97u8, 114u8, 121u8, 62u8]
}

/// Executable twin of `spec_details_open`.
pub fn tok_details_open() -> (r: Vec<u8>)
    ensures
        r@ == spec_details_open(),
{
    let r: Vec<u8> = vec![60u8, 100u8, 101u8, 116u8, 97u8, 105u8, 108u8, 115u8, 62u8, 60u8, 115u8, 117u8, 109u8, 109u8, 97u8, 114u8, 121u8, 62u8, 86u8, 105u8, 101u8, 119u8, 32u8, 68u8, 101u8, 116u8, 97u8, 105u8, 108u8, 115u8, 60u8, 47u8, 115u8, 117u8, 109u8, 109u8, 97u8, 114u8, 121u8, 62u8];
    proof {
        assert(r@ =~= spec_details_open());
    }
    r
}

/// Bytes of the closing of a collapsed details cell.
pub open spec fn spec_details_close() -> Seq<u8> {
    seq![60u8, 47u8, 100u8, 101u8, 116u8, 97u8, 105u8, 108u8, 115u8, 62u8]
}

/// Executable twin of `spec_details_close`.
pub fn tok_details_close() -> (r: Vec<u8>)
    ensures
        r@ == spec_details_close(),
{
    let r: Vec<u8> = vec![60u8, 47u8, 100u8, 101u8, 116u8, 97u8, 105u8, 108u8, 115u8, 62u8];
    proof {
        assert(r@ =~= spec_details_close());
    }
    r
}

/// Bytes of the chapter name used for entries with an empty path.
pub open spec fn spec_uncategorized() -> Seq<u8> {
    seq![85u8, 110u8, 99u8, 97u8, 116u8, 101u8, 103u8, 111u8, 114u8, 105u8, 122u8, 101u8, 100u8]
}

/// Executable twin of `spec_uncategorized`.
pub fn tok_uncategorized() -> (r: Vec<u8>)
    ensures
        r@ == spec_uncategorized(),
{
    let r: Vec<u8> = vec![85u8, 110u8, 99u8, 97u8, 116u8, 101u8, 103u8, 111u8, 114u8, 105u8, 122u8, 101u8, 100u8];
    proof {
        assert(r@ =~= spec_uncategorized());
    }
    r
}

/// Bytes of the file name `README.md`.
pub open spec fn spec_readme_name() -> Seq<u8> {
    seq![82u8, 69u8, 65u8, 68u8, 77u8, 69u8, 46u8, 109u8, 100u8]
}

/// Executable twin of `spec_readme_name`.
pub fn tok_readme_name() -> (r: Vec<u8>)
    ensures
        r@ == spec_readme_name(),
{
    let r: Vec<u8> = vec![82u8, 69u8, 65u8, 68u8, 77u8, 69u8, 46u8, 109u8, 100u8];
    proof {
        assert(r@ =~= spec_readme_name());
    }
    r
}

/// Bytes of the HTML entity for a less-than sign.
pub open spec fn spec_ent_lt() -> Seq<u8> {
    seq![38u8, 108u8, 116u8, 59u8]
}

/// Executable twin of `spec_ent_lt`.
pub fn tok_ent_lt() -> (r: Vec<u8>)
    ensures
        r@ == spec_ent_lt(),
{
    let r: Vec<u8> = vec![38u8, 108u8, 116u8, 59u8];
    proof {
        assert(r@ =~= spec_ent_lt());
    }
    r
}

/// Bytes of the HTML entity for a greater-than sign.
pub open spec fn spec_ent_gt() -> Seq<u8> {
    seq![38u8, 103u8, 116u8, 59u8]
}

/// Executable twin of `spec_ent_gt`.
pub fn tok_ent_gt() -> (r: Vec<u8>)
    ensures
        r@ == spec_ent_gt(),
{
    let r: Vec<u8> = vec![38u8, 103u8, 116u8, 59u8];
    proof {
        assert(r@ =~= spec_ent_gt());
    }
    r
}

/// Bytes of the HTML entity for an ampersand.
pub open spec fn spec_ent_amp() -> Seq<u8> {
    seq![38u8, 97u8, 109u8, 112u8, 59u8]
}

/// Executable twin of `spec_ent_amp`.
pub fn tok_ent_amp() -> (r: Vec<u8>)
    ensures
        r@ == spec_ent_amp(),
{
    let r: Vec<u8> = vec![38u8, 97u8, 109u8, 112u8, 59u8];
    proof {
        assert(r@ =~= spec_ent_amp());
    }
    r
}

/// Bytes of the HTML entity for a double quote.
pub open spec fn spec_ent_quot() -> Seq<u8> {
    seq![38u8, 113u8, 117u8, 111u8, 116u8, 59u8]
}

/// Executable twin of `spec_ent_quot`.
pub fn tok_ent_quot() -> (r: Vec<u8>)
    ensures
        r@ == spec_ent_quot(),
{
    let r: Vec<u8> = vec![38u8, 113u8, 117u8, 111u8, 116u8, 59u8];
    proof {
        assert(r@ =~= spec_ent_quot());
    }
    r
}

/// Bytes of a literal less-than sign.
pub open spec fn spec_rep_lt() -> Seq<u8> {
    seq![60u8]
}

/// Executable twin of `spec_rep_lt`.
pub fn tok_rep_lt() -> (r: Vec<u8>)
    ensures
        r@ == spec_rep_lt(),
{
    let r: Vec<u8> = vec![60u8];
    proof {
        assert(r@ =~= spec_rep_lt());
    }
    r
}

/// Bytes of a literal greater-than sign.
pub open spec fn spec_rep_gt() -> Seq<u8> {
    seq![62u8]
}

/// Executable twin of `spec_rep_gt`.
pub fn tok_rep_gt() -> (r: Vec<u8>)
    ensures
        r@ == spec_rep_gt(),
{
    let r: Vec<u8> = vec![62u8];
    proof {
        assert(r@ =~= spec_rep_gt());
    }
    r
}

/// Bytes of a literal ampersand.
pub open spec fn spec_rep_amp() -> Seq<u8> {
    seq![38u8]
}

/// Executable twin of `spec_rep_amp`.
pub fn tok_rep_amp() -> (r: Vec<u8>)
    ensures
        r@ == spec_rep_amp(),
{
    let r: Vec<u8> = vec![38u8];
    proof {
        assert(r@ =~= spec_rep_amp());
    }
    r
}

/// Bytes of a literal double quote.
pub open spec fn spec_rep_quot() -> Seq<u8> {
    seq![34u8]
}

/// Executable twin of `spec_rep_quot`.
pub fn tok_rep_quot() -> (r: Vec<u8>)
    ensures
        r@ == spec_rep_quot(),
{
    let r: Vec<u8> = vec![34u8];
    proof {
        assert(r@ =~= spec_rep_quot());
    }
    r
}

} // verus!
