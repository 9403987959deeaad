//! The command surface of the tool and the decisions behind it: which
//! subcommand runs with which options, and how the output root of a run is
//! chosen from the command line, the environment, and the default location.
//! Reading the actual command line and environment is the caller's job;
//! this module only decides.

use vstd::prelude::*;

use crate::text::push_all;

verus! {

/// The subcommands of the tool with their options; paths are carried as
/// bytes.
pub enum Commands {
    /// Set up the working environment.
    Init,
    /// Extract source code out of Markdown, from one file or a folder.
    Tangle { file: Option<Vec<u8>>, folder: Option<Vec<u8>>, output: Option<Vec<u8>>, protocol: Option<Vec<u8>> },
    /// Embed source files into Markdown, from one file or a folder.
    Weave { file: Option<Vec<u8>>, folder: Option<Vec<u8>>, output: Option<Vec<u8>> },
    /// Auto-format the code blocks of Markdown files.
    Edit { file: Option<Vec<u8>>, folder: Option<Vec<u8>> },
    /// Persist the woven documents.
    Save { db: Option<Vec<u8>>, input: Option<Vec<u8>> },
    /// Remove generated output.
    Rm { all: bool, output: Option<Vec<u8>> },
    /// Serve the rendered book.
    Server,
    /// Ensure every folder carries a README with file mentions.
    Prepare { folder: Vec<u8> },
}

/// The parsed invocation: one command.
pub struct Args {
    pub command: Commands,
}

/// The output root of a tangle run: the `--output` path when given, else
/// the configured output path from the environment, else the default root.
pub open spec fn spec_tangle_root(
    output: Option<Seq<u8>>,
    env_path: Option<Seq<u8>>,
    default_root: Seq<u8>,
) -> Seq<u8> {
    match output {
        Some(o) => o,
        None => match env_path {
            Some(e) => e,
            None => default_root,
        },
    }
}

/// Chooses the output root of a tangle run; see `spec_tangle_root`.
pub fn tangle_root(
    output: Option<Vec<u8>>,
    env_path: Option<Vec<u8>>,
    default_root: Vec<u8>,
) -> (r: Vec<u8>)
    ensures
        r@ == spec_tangle_root(
            match output {
                Some(o) => Some(o@),
                None => None,
            },
            match env_path {
                Some(e) => Some(e@),
                None => None,
            },
            default_root@,
        ),
{
    match output {
        Some(o) => o,
        None => match env_path {
            Some(e) => e,
            None => default_root,
        },
    }
}

/// The `doc` directory name appended below a root.
pub open spec fn spec_doc_suffix() -> Seq<u8> {
    seq![47u8, 100u8, 111u8, 99u8]
}

/// The output root of a weave run: the `--output` path itself when given;
/// else `doc` below the configured output path from the environment, or
/// below the default root.
pub open spec fn spec_weave_root(
    output: Option<Seq<u8>>,
    env_path: Option<Seq<u8>>,
    default_root: Seq<u8>,
) -> Seq<u8> {
    match output {
        Some(o) => o,
        None => match env_path {
            Some(e) => e + spec_doc_suffix(),
            None => default_root + spec_doc_suffix(),
        },
    }
}

/// Chooses the output root of a weave run; see `spec_weave_root`.
pub fn weave_root(
    output: Option<Vec<u8>>,
    env_path: Option<Vec<u8>>,
    default_root: Vec<u8>,
) -> (r: Vec<u8>)
    ensures
        r@ == spec_weave_root(
            match output {
                Some(o) => Some(o@),
                None => None,
            },
            match env_path {
                Some(e) => Some(e@),
                None => None,
            },
            default_root@,
        ),
{
    let suffix: Vec<u8> = vec![47u8, 100u8, 111u8, 99u8];
    proof {
        assert(suffix@ =~= spec_doc_suffix());
    }
    match output {
        Some(o) => o,
        None => {
            let mut base = match env_path {
                Some(e) => e,
                None => default_root,
            };
            push_all(&mut base, &suffix);
            base
        },
    }
}

} // verus!
