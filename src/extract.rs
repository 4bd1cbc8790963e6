//! What to do with each decoded descriptor found in a binary: skip it,
//! print its name, or write its reconstructed source to a resolved path.

use crate::descriptor::FileDesc;
use crate::proto::ProtoReconstructor;
use crate::registry::{count_variants, opt_view, registered_path, short_hash, ConflictStrategy, ProtoRegistry};
use crate::render::{file_text, syntax_of};
use crate::text::ends_with;
use vstd::prelude::*;
use vstd::string::*;

verus! {

/// What is printed for each descriptor.
#[derive(Debug, Clone, Copy, PartialEq, Eq, Structural)]
pub enum OutputFormat {
    /// The reconstructed `.proto` source, written to a file.
    Proto,
    /// The file name only.
    Filename,
}

/// How descriptors are handled.
#[derive(Debug, Clone, Copy)]
pub struct ExtractOptions {
    /// Only list the names found.
    pub list_only: bool,
    /// Say what would be written without writing.
    pub dry_run: bool,
    /// What is printed.
    pub format: OutputFormat,
    /// How name conflicts are resolved.
    pub strategy: ConflictStrategy,
}

/// The step to take for one descriptor.
#[derive(Debug)]
pub enum Action {
    /// Nothing: not a `.proto` file, or of an unsupported syntax.
    Ignore,
    /// Print the file name.
    PrintName(String),
    /// Nothing: a duplicate or a skipped conflict.
    Skip,
    /// Report that `content` would be written to `path`.
    WouldWrite { path: String, content: String },
    /// Write `content` to `path`.
    Write { path: String, content: String },
}

/// The source written for `fd` with the default configuration, when its
/// syntax is supported.
pub open spec fn source_of(fd: FileDesc) -> Seq<char> {
    file_text(fd, syntax_of(fd.syntax@).unwrap(), "  "@)
}

/// Decides what to do with the decoded descriptor `fd` found in a binary
/// whose file stem is `source_stem`, registering it in `registry` when its
/// source is to be written under `output_dir`.
pub fn plan_descriptor(
    registry: &mut ProtoRegistry,
    fd: FileDesc,
    opts: ExtractOptions,
    output_dir: &str,
    source_stem: Option<&str>,
) -> (r: Action)
    requires
        old(registry).counters_ok(),
        old(registry).stats.total_found < usize::MAX,
    ensures
        final(registry).counters_ok(),
        ({
            let name = fd.name@;
            let content = source_of(fd);
            let hash = short_hash(content);
            if syntax_of(fd.syntax@) is None || !ends_with(name, ".proto"@) {
                r is Ignore && *final(registry) == *old(registry)
            } else if opts.list_only || opts.format == OutputFormat::Filename {
                r matches Action::PrintName(n) && n@ == name && *final(registry) == *old(registry)
            } else {
                let seen = old(registry).spec_seen();
                let stats = old(registry).stats;
                &&& final(registry).stats.total_found == stats.total_found + 1
                &&& final(registry).stats.written == stats.written
                &&& match registered_path(seen, name, hash, output_dir@, opt_view(source_stem), opts.strategy) {
                    None => {
                        &&& r is Skip
                        &&& final(registry).spec_seen() == seen
                        &&& final(registry).stats.duplicates_skipped == stats.duplicates_skipped + 1
                        &&& final(registry).stats.conflicts_renamed == stats.conflicts_renamed
                    },
                    Some(p) => {
                        &&& final(registry).spec_seen().len() == seen.len() + 1
                        &&& final(registry).spec_seen().subrange(0, seen.len() as int) == seen
                        &&& final(registry).spec_seen().last().filename@ == name
                        &&& final(registry).spec_seen().last().hash@ == hash
                        &&& final(registry).spec_seen().last().path@ == p
                        &&& final(registry).stats.duplicates_skipped == stats.duplicates_skipped
                        &&& final(registry).stats.conflicts_renamed == stats.conflicts_renamed + (if count_variants(
                            seen,
                            name,
                            seen.len(),
                        ) == 0 {
                            0int
                        } else {
                            1int
                        })
                        &&& if opts.dry_run {
                            r matches Action::WouldWrite { path, content: c } && path@ == p && c@ == content
                        } else {
                            r matches Action::Write { path, content: c } && path@ == p && c@ == content
                        }
                    },
                }
            }
        }),
{
    let reconstructor = match ProtoReconstructor::from_proto(fd) {
        Ok(x) => x,
        Err(_) => {
            return Action::Ignore;
        },
    };
    let filename = reconstructor.filename();
    let n: usize = filename.unicode_len();
    proof {
        reveal_strlit(".proto");
    }
    if !(n >= 6 && crate::text::str_eq(filename.substring_char(n - 6, n), ".proto")) {
        return Action::Ignore;
    }
    if opts.list_only {
        return Action::PrintName(String::from_str(filename));
    }
    match opts.format {
        OutputFormat::Filename => Action::PrintName(String::from_str(filename)),
        OutputFormat::Proto => {
            let content = reconstructor.reconstruct();
            let hash = ProtoRegistry::content_hash(content.as_str());
            match registry.register(
                filename,
                content.as_str(),
                hash.as_str(),
                output_dir,
                source_stem,
                opts.strategy,
            ) {
                None => Action::Skip,
                Some(path) => {
                    if opts.dry_run {
                        Action::WouldWrite { path, content }
                    } else {
                        Action::Write { path, content }
                    }
                },
            }
        },
    }
}

} // verus!
