//! Whether a file looks like a compiled binary worth scanning, from its
//! extension, its size and its first four bytes.

use crate::text::str_eq;
use vstd::prelude::*;
use vstd::string::*;

verus! {

/// Smallest file size considered, in bytes.
pub const MIN_BINARY_SIZE: u64 = 1024;

/// Largest file size considered, in bytes (500 MiB).
pub const MAX_BINARY_SIZE: u64 = 524_288_000;

/// ASCII lowercase of `c`; other characters are unchanged.
pub open spec fn lower_char(c: char) -> char {
    if 'A' <= c && c <= 'Z' {
        ((c as nat) + 32) as char
    } else {
        c
    }
}

/// ASCII lowercase of `s`.
pub open spec fn lower_text(s: Seq<char>) -> Seq<char> {
    Seq::new(s.len(), |i: int| lower_char(s[i]))
}

/// Whether the lowercase extension `e` names a text, source, image or
/// archive format, which is not scanned.
pub open spec fn skipped_extension(e: Seq<char>) -> bool {
    e == "txt"@ || e == "md"@ || e == "json"@ || e == "yaml"@ || e == "yml"@ || e == "xml"@ || e == "html"@
        || e == "css"@ || e == "js"@ || e == "ts"@ || e == "py"@ || e == "rb"@ || e == "go"@ || e == "rs"@
        || e == "c"@ || e == "h"@ || e == "cpp"@ || e == "hpp"@ || e == "java"@ || e == "proto"@ || e
        == "toml"@ || e == "ini"@ || e == "cfg"@ || e == "conf"@ || e == "log"@ || e == "csv"@ || e == "svg"@
        || e == "png"@ || e == "jpg"@ || e == "jpeg"@ || e == "gif"@ || e == "pdf"@ || e == "zip"@ || e
        == "tar"@ || e == "gz"@ || e == "bz2"@ || e == "xz"@ || e == "7z"@ || e == "rar"@ || e == "sh"@ || e
        == "bash"@ || e == "zsh"@ || e == "fish"@ || e == "ps1"@ || e == "bat"@ || e == "cmd"@
}

/// Whether four leading bytes mark a Mach-O (thin or universal), ELF or PE
/// executable.
pub open spec fn executable_magic(m: Seq<u8>) -> bool {
    m.len() == 4 && (m == seq![0xCFu8, 0xFAu8, 0xEDu8, 0xFEu8] || m == seq![0xCEu8, 0xFAu8, 0xEDu8, 0xFEu8] || m
        == seq![0xFEu8, 0xEDu8, 0xFAu8, 0xCFu8] || m == seq![0xFEu8, 0xEDu8, 0xFAu8, 0xCEu8] || m == seq![0xCAu8, 0xFEu8, 0xBAu8, 0xBEu8] || m == seq![0x7Fu8, 0x45u8, 0x4Cu8, 0x46u8] || (m[0] == 0x4Du8
        && m[1] == 0x5Au8))
}

/// Whether a file is worth scanning: not of a skipped extension, of a size
/// within the window when known, and either of an executable format or
/// without extension. `magic` is the first four bytes, when readable.
pub open spec fn likely_binary(ext: Option<Seq<char>>, size: Option<u64>, magic: Option<Seq<u8>>) -> bool {
    if ext is Some && skipped_extension(lower_text(ext.unwrap())) {
        false
    } else if size is Some && (size.unwrap() < MIN_BINARY_SIZE || size.unwrap() > MAX_BINARY_SIZE) {
        false
    } else if magic is Some && executable_magic(magic.unwrap()) {
        true
    } else {
        ext is None
    }
}

/// ASCII lowercase of `s`.
fn to_ascii_lower(s: &str) -> (r: String)
    ensures
        r@ == lower_text(s@),
{
    let n: usize = s.unicode_len();
    let mut out = String::new();
    let mut i: usize = 0;
    while i < n
        invariant
            n == s@.len(),
            i <= n,
            out@ == lower_text(s@).subrange(0, i as int),
        decreases n - i,
    {
        let c = s.get_char(i);
        let l: char = if 'A' <= c && c <= 'Z' {
            ((c as u8) + 32) as char
        } else {
            c
        };
        crate::text::push_char(&mut out, l);
        assert(out@ =~= lower_text(s@).subrange(0, i + 1));
        i = i + 1;
    }
    assert(lower_text(s@).subrange(0, n as int) =~= lower_text(s@));
    out
}

/// Whether the extension `ext` (any case) is of a skipped format.
pub fn is_skipped_extension(ext: &str) -> (r: bool)
    ensures
        r == skipped_extension(lower_text(ext@)),
{
    let l = to_ascii_lower(ext);
    let e = l.as_str();
    str_eq(e, "txt") || str_eq(e, "md") || str_eq(e, "json") || str_eq(e, "yaml") || str_eq(e, "yml")
        || str_eq(e, "xml") || str_eq(e, "html") || str_eq(e, "css") || str_eq(e, "js") || str_eq(e, "ts")
        || str_eq(e, "py") || str_eq(e, "rb") || str_eq(e, "go") || str_eq(e, "rs") || str_eq(e, "c")
        || str_eq(e, "h") || str_eq(e, "cpp") || str_eq(e, "hpp") || str_eq(e, "java") || str_eq(e, "proto")
        || str_eq(e, "toml") || str_eq(e, "ini") || str_eq(e, "cfg") || str_eq(e, "conf") || str_eq(e, "log")
        || str_eq(e, "csv") || str_eq(e, "svg") || str_eq(e, "png") || str_eq(e, "jpg") || str_eq(e, "jpeg")
        || str_eq(e, "gif") || str_eq(e, "pdf") || str_eq(e, "zip") || str_eq(e, "tar") || str_eq(e, "gz")
        || str_eq(e, "bz2") || str_eq(e, "xz") || str_eq(e, "7z") || str_eq(e, "rar") || str_eq(e, "sh")
        || str_eq(e, "bash") || str_eq(e, "zsh") || str_eq(e, "fish") || str_eq(e, "ps1") || str_eq(e, "bat")
        || str_eq(e, "cmd")
}

/// Whether `m` holds the four leading bytes of an executable.
pub fn is_executable_magic(m: &[u8]) -> (r: bool)
    ensures
        r == executable_magic(m@),
{
    if m.len() != 4 {
        return false;
    }
    let (a, b, c, d) = (m[0], m[1], m[2], m[3]);
    let r = (a == 0xCF && b == 0xFA && c == 0xED && d == 0xFE) || (a == 0xCE && b == 0xFA && c == 0xED && d
        == 0xFE) || (a == 0xFE && b == 0xED && c == 0xFA && d == 0xCF) || (a == 0xFE && b == 0xED && c == 0xFA
        && d == 0xCE) || (a == 0xCA && b == 0xFE && c == 0xBA && d == 0xBE) || (a == 0x7F && b == 0x45 && c
        == 0x4C && d == 0x46) || (a == 0x4D && b == 0x5A);
    proof {
        let s = m@;
        assert(s == seq![a, b, c, d]) by {
            assert(s =~= seq![a, b, c, d]);
        }
    }
    r
}

/// Whether a file is worth scanning; see [`likely_binary`].
pub fn is_likely_binary(ext: Option<&str>, size: Option<u64>, magic: Option<&[u8]>) -> (r: bool)
    ensures
        r == likely_binary(
            match ext {
                Some(e) => Some(e@),
                None => None,
            },
            size,
            match magic {
                Some(m) => Some(m@),
                None => None,
            },
        ),
{
    match ext {
        Some(e) => {
            if is_skipped_extension(e) {
                return false;
            }
        },
        None => {},
    }
    match size {
        Some(s) => {
            if s < MIN_BINARY_SIZE || s > MAX_BINARY_SIZE {
                return false;
            }
        },
        None => {},
    }
    match magic {
        Some(m) => {
            if is_executable_magic(m) {
                return true;
            }
        },
        None => {},
    }
    ext.is_none()
}

} // verus!
