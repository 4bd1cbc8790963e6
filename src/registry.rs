//! Deduplication and conflict naming of reconstructed files.
//!
//! Every file registered is one variant `(file name, content hash, output
//! path)`, kept in registration order. The same name with the same hash is
//! a duplicate; the same name with another hash is a conflict, resolved by
//! a strategy.

use crate::text::{ends_with, str_eq};
use vstd::prelude::*;
use vstd::string::*;

verus! {

/// The first 64 characters of the lowercase hex BLAKE3 digest of the UTF-8
/// bytes of `s`.
pub uninterp spec fn blake3_hex_of(s: Seq<char>) -> Seq<char>;

/// Relies on `blake3::hash` and `Hash::to_hex`: the 32-byte digest of the
/// input, written as 64 lowercase hex digits.
#[verifier::external_body]
fn blake3_hex(content: &str) -> (r: String)
    ensures
        r@ == blake3_hex_of(content@),
        r@.len() == 64,
{
    blake3::hash(content.as_bytes()).to_hex().to_string()
}

/// How a file whose name was seen with other content is handled.
#[derive(Debug, Clone, Copy, PartialEq, Eq, Structural)]
pub enum ConflictStrategy {
    /// Append the content hash: `file~a1b2c3d4.proto`.
    HashSuffix,
    /// Append the source binary's stem: `file~from-binary.proto`.
    SourceSuffix,
    /// Keep the first variant only.
    SkipConflicts,
}

/// Counters of a registry.
#[derive(Debug, Default, Clone, Copy)]
pub struct RegistryStats {
    /// Files registered.
    pub total_found: usize,
    /// Files skipped as duplicates or unresolved conflicts.
    pub duplicates_skipped: usize,
    /// Files renamed to resolve a conflict.
    pub conflicts_renamed: usize,
    /// Files written.
    pub written: usize,
}

/// One registered variant of a file.
#[derive(Debug)]
pub struct Variant {
    /// Name in the descriptor.
    pub filename: String,
    /// Hash of the reconstructed content.
    pub hash: String,
    /// Where the variant is written.
    pub path: String,
}

/// The registered variants, in order.
#[derive(Debug)]
pub struct ProtoRegistry {
    /// The registered variants.
    pub seen: Vec<Variant>,
    /// Counters.
    pub stats: RegistryStats,
}

/// Whether `vs` holds a variant of `name` with hash `hash`.
pub open spec fn has_variant(vs: Seq<Variant>, name: Seq<char>, hash: Seq<char>) -> bool {
    exists|k: int| 0 <= k < vs.len() && vs[k].filename@ == name && vs[k].hash@ == hash
}

/// Number of variants of `name` among the first `n` of `vs`.
pub open spec fn count_variants(vs: Seq<Variant>, name: Seq<char>, n: nat) -> nat
    decreases n,
{
    if n == 0 || n > vs.len() {
        0
    } else {
        count_variants(vs, name, (n - 1) as nat) + (if vs[n - 1].filename@ == name {
            1nat
        } else {
            0nat
        })
    }
}

/// `name` with `suffix` put before a trailing `.proto`, or at the end.
pub open spec fn suffixed(name: Seq<char>, suffix: Seq<char>) -> Seq<char> {
    if ends_with(name, ".proto"@) {
        name.subrange(0, name.len() - 6) + suffix + ".proto"@
    } else {
        name + suffix
    }
}

/// `name` placed in directory `dir`.
pub open spec fn joined_path(dir: Seq<char>, name: Seq<char>) -> Seq<char> {
    if dir.len() == 0 || (name.len() > 0 && name[0] == '/') {
        name
    } else if dir.last() == '/' {
        dir + name
    } else {
        dir + "/"@ + name
    }
}

/// The first eight characters of the content hash of `content`.
pub open spec fn short_hash(content: Seq<char>) -> Seq<char> {
    blake3_hex_of(content).subrange(0, 8)
}

/// The output path of a conflicting variant under `strategy`; `None` when
/// the strategy skips it.
pub open spec fn conflict_path(
    dir: Seq<char>,
    name: Seq<char>,
    hash: Seq<char>,
    source_stem: Option<Seq<char>>,
    strategy: ConflictStrategy,
) -> Option<Seq<char>> {
    match strategy {
        ConflictStrategy::SkipConflicts => None,
        ConflictStrategy::HashSuffix => Some(joined_path(dir, suffixed(name, "~"@ + hash))),
        ConflictStrategy::SourceSuffix => Some(
            joined_path(
                dir,
                suffixed(
                    name,
                    "~from-"@ + match source_stem {
                        Some(s) => s,
                        None => "unknown"@,
                    },
                ),
            ),
        ),
    }
}

/// Where registering `name` with `hash` places it, given the variants
/// `seen` so far: `None` for a duplicate or a skipped conflict.
pub open spec fn registered_path(
    seen: Seq<Variant>,
    name: Seq<char>,
    hash: Seq<char>,
    dir: Seq<char>,
    source_stem: Option<Seq<char>>,
    strategy: ConflictStrategy,
) -> Option<Seq<char>> {
    if has_variant(seen, name, hash) {
        None
    } else if count_variants(seen, name, seen.len()) == 0 {
        Some(joined_path(dir, name))
    } else {
        conflict_path(dir, name, hash, source_stem, strategy)
    }
}

/// The view of an optional string.
pub open spec fn opt_view(s: Option<&str>) -> Option<Seq<char>> {
    match s {
        Some(x) => Some(x@),
        None => None,
    }
}

impl ProtoRegistry {
    /// The registered variants.
    pub open spec fn spec_seen(self) -> Seq<Variant> {
        self.seen@
    }

    /// Whether the counters can take one more registration: skips and
    /// renames never outnumber registrations.
    pub open spec fn counters_ok(self) -> bool {
        self.stats.duplicates_skipped + self.stats.conflicts_renamed <= self.stats.total_found
    }

    /// An empty registry.
    pub fn new() -> (r: ProtoRegistry)
        ensures
            r.spec_seen() == Seq::<Variant>::empty(),
            r.stats.total_found == 0 && r.stats.duplicates_skipped == 0 && r.stats.conflicts_renamed == 0
                && r.stats.written == 0,
    {
        ProtoRegistry {
            seen: Vec::new(),
            stats: RegistryStats { total_found: 0, duplicates_skipped: 0, conflicts_renamed: 0, written: 0 },
        }
    }

    /// The first eight hex digits of the BLAKE3 digest of `content`.
    pub fn content_hash(content: &str) -> (r: String)
        ensures
            r@ == short_hash(content@),
    {
        let full = blake3_hex(content);
        String::from_str(full.as_str().substring_char(0, 8))
    }

    /// Whether `filename` was registered with `content_hash` before.
    pub fn is_duplicate(&self, filename: &str, content_hash: &str) -> (r: bool)
        ensures
            r == has_variant(self.spec_seen(), filename@, content_hash@),
    {
        let n: usize = self.seen.len();
        let mut k: usize = 0;
        while k < n
            invariant
                n == self.seen@.len(),
                k <= n,
                forall|j: int|
                    0 <= j < k ==> !(self.seen@[j].filename@ == filename@ && self.seen@[j].hash@
                        == content_hash@),
            decreases n - k,
        {
            let v = &self.seen[k];
            if str_eq(v.filename.as_str(), filename) && str_eq(v.hash.as_str(), content_hash) {
                return true;
            }
            k = k + 1;
        }
        false
    }

    /// Number of variants registered under `filename`.
    pub fn variant_count(&self, filename: &str) -> (r: usize)
        ensures
            r == count_variants(self.spec_seen(), filename@, self.spec_seen().len()),
    {
        let n: usize = self.seen.len();
        let mut k: usize = 0;
        let mut c: usize = 0;
        while k < n
            invariant
                n == self.seen@.len(),
                k <= n,
                c == count_variants(self.seen@, filename@, k as nat),
                c <= k,
            decreases n - k,
        {
            if str_eq(self.seen[k].filename.as_str(), filename) {
                c = c + 1;
            }
            k = k + 1;
        }
        c
    }

    /// `filename` with `suffix` put before a trailing `.proto`.
    pub fn add_suffix(filename: &str, suffix: &str) -> (r: String)
        ensures
            r@ == suffixed(filename@, suffix@),
    {
        let n: usize = filename.unicode_len();
        proof {
            reveal_strlit(".proto");
        }
        let mut r: String;
        if n >= 6 && str_eq(filename.substring_char(n - 6, n), ".proto") {
            r = String::from_str(filename.substring_char(0, n - 6));
            r.append(suffix);
            r.append(".proto");
        } else {
            r = String::from_str(filename);
            r.append(suffix);
        }
        r
    }

    /// Registers a reconstructed file and says where it goes: `None` for a
    /// duplicate or a skipped conflict, the canonical path for a first
    /// variant, a renamed path for a resolved conflict.
    pub fn register(
        &mut self,
        filename: &str,
        _content: &str,
        content_hash: &str,
        output_dir: &str,
        source_stem: Option<&str>,
        strategy: ConflictStrategy,
    ) -> (r: Option<String>)
        requires
            old(self).counters_ok(),
            old(self).stats.total_found < usize::MAX,
        ensures
            final(self).counters_ok(),
            final(self).stats.total_found == old(self).stats.total_found + 1,
            final(self).stats.written == old(self).stats.written,
            ({
                let seen = old(self).spec_seen();
                let stats = old(self).stats;
                let count = count_variants(seen, filename@, seen.len());
                let path = registered_path(
                    seen,
                    filename@,
                    content_hash@,
                    output_dir@,
                    opt_view(source_stem),
                    strategy,
                );
                match path {
                    None => {
                        &&& r is None
                        &&& final(self).spec_seen() == seen
                        &&& final(self).stats.duplicates_skipped == stats.duplicates_skipped + 1
                        &&& final(self).stats.conflicts_renamed == stats.conflicts_renamed
                    },
                    Some(pth) => {
                        &&& r matches Some(p) && p@ == pth
                        &&& final(self).spec_seen().len() == seen.len() + 1
                        &&& final(self).spec_seen().subrange(0, seen.len() as int) == seen
                        &&& final(self).spec_seen().last().filename@ == filename@
                        &&& final(self).spec_seen().last().hash@ == content_hash@
                        &&& final(self).spec_seen().last().path@ == pth
                        &&& final(self).stats.duplicates_skipped == stats.duplicates_skipped
                        &&& final(self).stats.conflicts_renamed == stats.conflicts_renamed + (if count == 0 {
                            0int
                        } else {
                            1int
                        })
                    },
                }
            }),
    {
        self.stats.total_found = self.stats.total_found + 1;
        if self.is_duplicate(filename, content_hash) {
            self.stats.duplicates_skipped = self.stats.duplicates_skipped + 1;
            return None;
        }
        let count = self.variant_count(filename);
        let name: String;
        if count == 0 {
            name = String::from_str(filename);
        } else {
            match strategy {
                ConflictStrategy::SkipConflicts => {
                    self.stats.duplicates_skipped = self.stats.duplicates_skipped + 1;
                    return None;
                },
                ConflictStrategy::HashSuffix => {
                    let mut suffix = String::from_str("~");
                    suffix.append(content_hash);
                    name = ProtoRegistry::add_suffix(filename, suffix.as_str());
                },
                ConflictStrategy::SourceSuffix => {
                    let mut suffix = String::from_str("~from-");
                    match source_stem {
                        Some(s) => suffix.append(s),
                        None => suffix.append("unknown"),
                    }
                    name = ProtoRegistry::add_suffix(filename, suffix.as_str());
                },
            }
            self.stats.conflicts_renamed = self.stats.conflicts_renamed + 1;
        }
        let path = join_path(output_dir, name.as_str());
        let ghost old_seen = self.seen@;
        self.seen.push(
            Variant {
                filename: String::from_str(filename),
                hash: String::from_str(content_hash),
                path: String::from_str(path.as_str()),
            },
        );
        assert(self.seen@.subrange(0, old_seen.len() as int) =~= old_seen);
        Some(path)
    }
}

/// `name` placed in directory `dir`.
fn join_path(dir: &str, name: &str) -> (r: String)
    ensures
        r@ == joined_path(dir@, name@),
{
    let dl: usize = dir.unicode_len();
    let nl: usize = name.unicode_len();
    if dl == 0 || (nl > 0 && name.get_char(0) == '/') {
        return String::from_str(name);
    }
    let mut r = String::from_str(dir);
    if dir.get_char(dl - 1) != '/' {
        r.append("/");
    }
    r.append(name);
    r
}

} // verus!
