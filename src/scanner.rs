//! Locating serialized `FileDescriptorProto` records inside arbitrary bytes.
//!
//! A descriptor starts with its file name, field 1 of wire type LEN: the tag
//! byte `0x0A`, a length varint and the name, which ends in `.proto`. The
//! scanner finds each `.proto`, walks back to the tag whose length reaches
//! exactly to the end of that suffix, and reads fields forward from there
//! until the wire format breaks or a second field 1 begins the next record.

use crate::error::Error;
use crate::wire::{consume_field_at, decode_varint_at, field_extent, lemma_field_extent_agree,
    lemma_field_extent_bounds, lemma_varint_decoded_agree, lemma_varint_decoded_bounds, varint_bits,
    varint_decoded, varint_end_from};
use std::ops::Range;
use vstd::prelude::*;
use vstd::slice::{slice_subrange, slice_to_vec};

verus! {

/// Tag byte of field 1 with wire type LEN: where a descriptor begins.
pub const MAGIC_BYTE: u8 = 0x0A;

/// Length of the `.proto` suffix.
pub const SUFFIX_LEN: usize = 6;

/// How far before a `.proto` suffix the record start is looked for.
pub const MAX_NAME_SPAN: usize = 256;

/// The bytes of `.proto`.
pub open spec fn proto_suffix() -> Seq<u8> {
    seq![0x2eu8, 0x70u8, 0x72u8, 0x6fu8, 0x74u8, 0x6fu8]
}

/// The first index at or after `i` where `n` occurs in `h`.
pub open spec fn first_occurrence_from(h: Seq<u8>, n: Seq<u8>, i: nat) -> Option<nat>
    decreases h.len() + 1 - i,
{
    if i + n.len() > h.len() {
        None
    } else if h.subrange(i as int, (i + n.len()) as int) == n {
        Some(i)
    } else {
        first_occurrence_from(h, n, i + 1)
    }
}

/// Whether `b[i]` is a name tag whose declared string ends exactly where the
/// `.proto` suffix found at `suffix_at` ends.
pub open spec fn valid_name_tag(b: Seq<u8>, i: nat, suffix_at: nat) -> bool {
    &&& i < b.len()
    &&& b[i as int] == MAGIC_BYTE
    &&& match varint_decoded(b.subrange((i + 1) as int, b.len() as int)) {
        Some((l, v)) => i + 1 + v + l == suffix_at + SUFFIX_LEN,
        None => false,
    }
}

/// The nearest valid name tag below `i` and no lower than `lo`.
pub open spec fn name_tag_below(b: Seq<u8>, suffix_at: nat, lo: nat, i: nat) -> Option<nat>
    decreases i,
{
    if i <= lo {
        None
    } else if valid_name_tag(b, (i - 1) as nat, suffix_at) {
        Some((i - 1) as nat)
    } else {
        name_tag_below(b, suffix_at, lo, (i - 1) as nat)
    }
}

/// Lowest index searched for the record start of the suffix at
/// `suffix_at`, where `pos` is the end of the last record reported: at
/// most 256 bytes back, and never into that record.
pub open spec fn search_floor(suffix_at: nat, pos: nat) -> nat {
    let lo = if suffix_at >= MAX_NAME_SPAN {
        (suffix_at - MAX_NAME_SPAN) as nat
    } else {
        0
    };
    if pos > lo {
        pos
    } else {
        lo
    }
}

/// Start of the record whose name ends with the suffix at `suffix_at`,
/// searched no lower than `pos`, the end of the last record reported.
pub open spec fn record_start(b: Seq<u8>, suffix_at: nat, pos: nat) -> Option<nat> {
    name_tag_below(b, suffix_at, search_floor(suffix_at, pos), suffix_at)
}

/// End of the record read forward from `pos`: fields are read until the
/// bytes end, a field cannot be read, or a second field 1 begins.
pub open spec fn record_end_from(b: Seq<u8>, pos: nat, seen_name: bool) -> nat
    decreases b.len() - pos
        via record_end_from_decreases
{
    if pos >= b.len() {
        pos
    } else {
        match field_extent(b.subrange(pos as int, b.len() as int)) {
            None => pos,
            Some((n, k)) => if n == 1 && seen_name {
                pos
            } else if k == 0 {
                pos
            } else {
                record_end_from(b, pos + k, seen_name || n == 1)
            },
        }
    }
}

#[via_fn]
proof fn record_end_from_decreases(b: Seq<u8>, pos: nat, seen_name: bool) {
    if pos < b.len() {
        lemma_field_extent_bounds(b.subrange(pos as int, b.len() as int));
    }
}

/// An occurrence found from `i` lies at or after `i`, within `h`.
pub proof fn lemma_first_occurrence(h: Seq<u8>, n: Seq<u8>, i: nat)
    ensures
        match first_occurrence_from(h, n, i) {
            Some(j) => i <= j && j + n.len() <= h.len() && h.subrange(j as int, (j + n.len()) as int) == n,
            None => true,
        },
    decreases h.len() + 1 - i,
{
    if i + n.len() <= h.len() && h.subrange(i as int, (i + n.len()) as int) != n {
        lemma_first_occurrence(h, n, i + 1);
    }
}

/// A record read from `pos` ends at or after `pos`, within `b`.
pub proof fn lemma_record_end_bounds(b: Seq<u8>, pos: nat, seen_name: bool)
    requires
        pos <= b.len(),
    ensures
        pos <= record_end_from(b, pos, seen_name) <= b.len(),
    decreases b.len() - pos,
{
    if pos < b.len() {
        let s = b.subrange(pos as int, b.len() as int);
        lemma_field_extent_bounds(s);
        if let Some((n, k)) = field_extent(s) {
            if !(n == 1 && seen_name) && k != 0 {
                lemma_record_end_bounds(b, pos + k, seen_name || n == 1);
            }
        }
    }
}

/// Bounds that the scanner applies.
#[derive(Debug, Clone)]
pub struct ScannerConfig {
    /// Maximum number of descriptors to find (0 = unlimited).
    pub max_results: usize,
    /// Minimum size of a descriptor, in bytes.
    pub min_descriptor_size: usize,
    /// Maximum size of a descriptor, in bytes.
    pub max_descriptor_size: usize,
}

/// Whether a record of `len` bytes passes the size filter of `cfg`.
pub open spec fn size_ok(cfg: ScannerConfig, len: int) -> bool {
    cfg.min_descriptor_size <= len <= cfg.max_descriptor_size
}

/// Whether `found` results exhaust the cap of `cfg`.
pub open spec fn cap_reached(cfg: ScannerConfig, found: nat) -> bool {
    cfg.max_results > 0 && found >= cfg.max_results
}

/// The ranges `(start, end)` that a scan of `b` reports, searching for the
/// next `.proto` from `pos`, with `found` results already reported, the
/// last of them ending at `last_end` (0 before the first).
pub open spec fn scan_ranges(b: Seq<u8>, cfg: ScannerConfig, pos: nat, last_end: nat, found: nat) -> Seq<
    (nat, nat),
>
    decreases b.len() - pos
        via scan_ranges_decreases
{
    if pos >= b.len() {
        Seq::empty()
    } else {
        match first_occurrence_from(b, proto_suffix(), pos) {
            None => Seq::empty(),
            Some(at) => {
                let skip = (at + SUFFIX_LEN) as nat;
                match record_start(b, at, last_end) {
                    None => scan_ranges(b, cfg, skip, last_end, found),
                    Some(st) => {
                        let end = record_end_from(b, st, false);
                        if !size_ok(cfg, end - st) {
                            scan_ranges(b, cfg, skip, last_end, found)
                        } else if cap_reached(cfg, found + 1) {
                            seq![(st, end)]
                        } else {
                            seq![(st, end)] + scan_ranges(b, cfg, end, end, found + 1)
                        }
                    },
                }
            },
        }
    }
}

#[via_fn]
proof fn scan_ranges_decreases(b: Seq<u8>, cfg: ScannerConfig, pos: nat, last_end: nat, found: nat) {
    if pos < b.len() {
        lemma_first_occurrence(b, proto_suffix(), pos);
        if let Some(at) = first_occurrence_from(b, proto_suffix(), pos) {
            if let Some(st) = record_start(b, at, last_end) {
                lemma_record_start(b, at, last_end);
                lemma_record_covers_name(b, at, last_end);
                lemma_record_end_bounds(b, st, false);
            }
        }
    }
}

/// A record start found for the suffix at `suffix_at` is a valid name tag
/// below it.
pub proof fn lemma_record_start(b: Seq<u8>, suffix_at: nat, pos: nat)
    ensures
        match record_start(b, suffix_at, pos) {
            Some(st) => pos <= st < suffix_at && valid_name_tag(b, st, suffix_at),
            None => true,
        },
{
    lemma_name_tag_below(b, suffix_at, search_floor(suffix_at, pos), suffix_at);
}

proof fn lemma_name_tag_below(b: Seq<u8>, suffix_at: nat, lo: nat, i: nat)
    ensures
        match name_tag_below(b, suffix_at, lo, i) {
            Some(st) => lo <= st < i && valid_name_tag(b, st, suffix_at),
            None => true,
        },
    decreases i,
{
    if i > lo && !valid_name_tag(b, (i - 1) as nat, suffix_at) {
        lemma_name_tag_below(b, suffix_at, lo, (i - 1) as nat);
    }
}

/// The ranges that a scan of all of `b` reports.
pub open spec fn scanned(b: Seq<u8>, cfg: ScannerConfig) -> Seq<(nat, nat)> {
    scan_ranges(b, cfg, 0, 0, 0)
}

/// One descriptor found by the scanner.
#[derive(Debug)]
pub struct ScanResult {
    /// The bytes of the record.
    pub data: Vec<u8>,
    /// Where the record lies in the scanned input.
    pub range: Range<usize>,
}

impl ScanResult {
    /// A result holding `data` found at `range`.
    pub fn new(data: Vec<u8>, range: Range<usize>) -> (r: ScanResult)
        ensures
            r.data == data,
            r.range == range,
    {
        ScanResult { data, range }
    }

    /// The bytes of the record.
    pub fn as_bytes(&self) -> (r: &[u8])
        ensures
            r@ == self.data@,
    {
        self.data.as_slice()
    }
}

/// Whether `rs` reports exactly the ranges `ranges` of `b`, each with a copy
/// of the bytes it covers.
pub open spec fn reports(rs: Seq<ScanResult>, b: Seq<u8>, ranges: Seq<(nat, nat)>) -> bool {
    &&& rs.len() == ranges.len()
    &&& forall|k: int|
        0 <= k < rs.len() ==> {
            &&& #[trigger] rs[k].range.start == ranges[k].0
            &&& rs[k].range.end == ranges[k].1
            &&& ranges[k].0 <= ranges[k].1 <= b.len()
            &&& rs[k].data@ == b.subrange(ranges[k].0 as int, ranges[k].1 as int)
        }
}

impl ScannerConfig {
    /// The default bounds: no cap on results, records of 10 bytes to 10 MiB.
    pub fn new() -> (r: ScannerConfig)
        ensures
            r.max_results == 0,
            r.min_descriptor_size == 10,
            r.max_descriptor_size == 10 * 1024 * 1024,
    {
        ScannerConfig { max_results: 0, min_descriptor_size: 10, max_descriptor_size: 10 * 1024 * 1024 }
    }

    /// Sets the maximum number of results (0 = unlimited).
    pub fn max_results(self, max: usize) -> (r: ScannerConfig)
        ensures
            r == (ScannerConfig { max_results: max, ..self }),
    {
        ScannerConfig { max_results: max, ..self }
    }

    /// Sets the minimum descriptor size.
    pub fn min_descriptor_size(self, size: usize) -> (r: ScannerConfig)
        ensures
            r == (ScannerConfig { min_descriptor_size: size, ..self }),
    {
        ScannerConfig { min_descriptor_size: size, ..self }
    }

    /// Sets the maximum descriptor size.
    pub fn max_descriptor_size(self, size: usize) -> (r: ScannerConfig)
        ensures
            r == (ScannerConfig { max_descriptor_size: size, ..self }),
    {
        ScannerConfig { max_descriptor_size: size, ..self }
    }
}

impl Default for ScannerConfig {
    fn default() -> (r: ScannerConfig)
        ensures
            r.max_results == 0,
            r.min_descriptor_size == 10,
            r.max_descriptor_size == 10 * 1024 * 1024,
    {
        ScannerConfig::new()
    }
}

/// Scanning algorithms that find descriptor records in bytes.
pub trait ScanStrategy {
    /// The records found in `data`.
    fn scan(&self, data: &[u8]) -> Result<Vec<ScanResult>, Error>;
}

/// The scanner of this library.
#[derive(Debug, Clone)]
pub struct Scanner {
    config: ScannerConfig,
}

/// The first index at or after `start` where `needle` occurs in `haystack`.
fn find_subsequence_from(haystack: &[u8], needle: &[u8], start: usize) -> (r: Option<usize>)
    requires
        start <= haystack@.len(),
    ensures
        r == (match first_occurrence_from(haystack@, needle@, start as nat) {
            Some(i) => Some(i as usize),
            None => None::<usize>,
        }),
{
    let hl: usize = haystack.len();
    let nl: usize = needle.len();
    let mut i: usize = start;
    while i <= hl && nl <= hl - i
        invariant
            start <= i,
            hl == haystack@.len(),
            nl == needle@.len(),
            first_occurrence_from(haystack@, needle@, start as nat) == first_occurrence_from(
                haystack@,
                needle@,
                i as nat,
            ),
        decreases hl + 1 - i,
    {
        let mut j: usize = 0;
        while j < nl && haystack[i + j] == needle[j]
            invariant
                j <= nl,
                i + nl <= hl,
                hl == haystack@.len(),
                nl == needle@.len(),
                forall|m: int| 0 <= m < j ==> haystack@[i + m] == needle@[m],
            decreases nl - j,
        {
            j = j + 1;
        }
        if j == nl {
            assert(haystack@.subrange(i as int, i + nl) =~= needle@);
            return Some(i);
        }
        assert(haystack@.subrange(i as int, i + nl)[j as int] != needle@[j as int]);
        i = i + 1;
    }
    None
}

/// The first index where `needle` occurs in `haystack`.
pub fn find_subsequence(haystack: &[u8], needle: &[u8]) -> (r: Option<usize>)
    ensures
        r == (match first_occurrence_from(haystack@, needle@, 0) {
            Some(i) => Some(i as usize),
            None => None::<usize>,
        }),
{
    find_subsequence_from(haystack, needle, 0)
}

/// The record that starts at the name tag found for a suffix runs at least
/// to the end of that suffix.
proof fn lemma_record_covers_name(b: Seq<u8>, suffix_at: nat, pos: nat)
    requires
        suffix_at + SUFFIX_LEN <= b.len(),
        record_start(b, suffix_at, pos) is Some,
    ensures
        record_end_from(b, record_start(b, suffix_at, pos).unwrap(), false) >= suffix_at + SUFFIX_LEN,
{
    lemma_record_start(b, suffix_at, pos);
    let st = record_start(b, suffix_at, pos).unwrap();
    let s = b.subrange(st as int, b.len() as int);
    let x = s[0];
    assert(x == 10u8 ==> (0u64 | (((x & 0x7f) as u64) << 0u64)) == 10u64) by (bit_vector);
    assert(10u64 & 7 == 2 && 10u64 >> 3 == 1) by (bit_vector);
    assert(varint_end_from(s, 0) == Some(1nat));
    assert(varint_bits(s, 0) == 0);
    assert(varint_bits(s, 1) == 10);
    let rest = s.subrange(1, s.len() as int);
    assert(rest =~= b.subrange((st + 1) as int, b.len() as int));
    let (l, v) = varint_decoded(rest).unwrap();
    assert(field_extent(s) == Some((1u32, (1 + v + l) as nat)));
    lemma_record_end_bounds(b, (suffix_at + SUFFIX_LEN) as nat, true);
}

impl Scanner {
    /// A scanner with the default bounds.
    pub fn new() -> (r: Scanner)
        ensures
            r.spec_config() == ScannerConfig::default_spec(),
    {
        Scanner { config: ScannerConfig::new() }
    }

    /// A scanner with the bounds `config`.
    pub fn with_config(config: ScannerConfig) -> (r: Scanner)
        ensures
            r.spec_config() == config,
    {
        Scanner { config }
    }

    /// The bounds that this scanner applies.
    pub closed spec fn spec_config(self) -> ScannerConfig {
        self.config
    }

    /// Bytes of the record read forward from `start`.
    fn consume_record(&self, data: &[u8], start: usize) -> (r: usize)
        requires
            start <= data@.len(),
        ensures
            r == record_end_from(data@, start as nat, false) - start,
    {
        let len: usize = data.len();
        let mut position: usize = start;
        let mut seen_name: bool = false;
        loop
            invariant
                len == data@.len(),
                start <= position <= len,
                record_end_from(data@, start as nat, false) == record_end_from(
                    data@,
                    position as nat,
                    seen_name,
                ),
            decreases len - position,
        {
            if position >= len {
                return position - start;
            }
            proof {
                lemma_field_extent_bounds(data@.subrange(position as int, len as int));
            }
            match consume_field_at(data, position) {
                Ok((number, length)) => {
                    if number == 1 {
                        if seen_name {
                            return position - start;
                        }
                        seen_name = true;
                    }
                    position = position + length;
                },
                Err(_) => {
                    return position - start;
                },
            }
        }
    }

    /// Start of the record whose name ends with the `.proto` suffix at
    /// `suffix_at`: the nearest `0x0A` at most 256 bytes before it, and not
    /// before `pos` (the end of the last record reported), whose length
    /// varint reaches exactly to the end of the suffix. A name of length 10
    /// whose tag is preceded by another `0x0A` needs no special case: the
    /// walk checks every candidate, nearest first.
    fn find_record_start(&self, data: &[u8], suffix_at: usize, pos: usize) -> (r: Option<usize>)
        requires
            suffix_at + SUFFIX_LEN <= data@.len(),
        ensures
            r == (match record_start(data@, suffix_at as nat, pos as nat) {
                Some(i) => Some(i as usize),
                None => None::<usize>,
            }),
    {
        let back: usize = if suffix_at >= MAX_NAME_SPAN {
            suffix_at - MAX_NAME_SPAN
        } else {
            0
        };
        let lo: usize = if pos > back {
            pos
        } else {
            back
        };
        let dlen: usize = data.len();
        let target: usize = suffix_at + SUFFIX_LEN;
        let mut i: usize = suffix_at;
        while i > lo
            invariant
                lo == search_floor(suffix_at as nat, pos as nat),
                lo <= i || i == suffix_at,
                i <= suffix_at,
                target == suffix_at + SUFFIX_LEN,
                target <= data@.len(),
                record_start(data@, suffix_at as nat, pos as nat) == name_tag_below(
                    data@,
                    suffix_at as nat,
                    lo as nat,
                    i as nat,
                ),
            decreases i,
        {
            let c: usize = i - 1;
            if data[c] == MAGIC_BYTE {
                proof {
                    lemma_varint_decoded_bounds(data@.subrange(c + 1, data@.len() as int));
                }
                match decode_varint_at(data, c + 1) {
                    Ok((length, vlen)) => {
                        let base: usize = c + 1 + vlen;
                        if base <= target && length == (target - base) as u64 {
                            return Some(c);
                        }
                    },
                    Err(_) => {},
                }
            }
            i = c;
        }
        None
    }

    /// The records found in `data`, in ascending order and without
    /// overlap. Never fails.
    pub fn scan(&self, data: &[u8]) -> (r: Result<Vec<ScanResult>, Error>)
        ensures
            r is Ok,
            r matches Ok(rs) ==> reports(rs@, data@, scanned(data@, self.spec_config())),
            r matches Ok(rs) ==> forall|j: int, k: int|
                0 <= j < k < rs@.len() ==> (#[trigger] rs@[j]).range.end <= (#[trigger] rs@[k]).range.start
                    && rs@[j].range.start < rs@[k].range.start,
    {
        let r = self.scan_all(data);
        proof {
            let ranges = scanned(data@, self.spec_config());
            lemma_scan_disjoint(data@, self.spec_config());
            if let Ok(ref rs) = r {
                lemma_reports_disjoint(rs@, data@, ranges);
            }
        }
        r
    }

    /// The records found in `data`, as [`scanned`] gives them.
    fn scan_all(&self, data: &[u8]) -> (r: Result<Vec<ScanResult>, Error>)
        ensures
            r is Ok,
            r matches Ok(rs) ==> reports(rs@, data@, scanned(data@, self.spec_config())),
    {
        let ghost b = data@;
        let ghost cfg = self.config;
        let len: usize = data.len();
        let needle: Vec<u8> = vec![0x2eu8, 0x70u8, 0x72u8, 0x6fu8, 0x74u8, 0x6fu8];
        assert(needle@ =~= proto_suffix());
        let mut results: Vec<ScanResult> = Vec::new();
        let ghost mut done: Seq<(nat, nat)> = Seq::empty();
        let mut position: usize = 0;
        let mut last_end: usize = 0;
        while position < len
            invariant
                b == data@,
                cfg == self.config,
                len == b.len(),
                needle@ == proto_suffix(),
                position <= len,
                scanned(b, cfg) == done + scan_ranges(b, cfg, position as nat, last_end as nat, done.len()),
                reports(results@, b, done),
            decreases len - position,
        {
            proof {
                lemma_first_occurrence(b, proto_suffix(), position as nat);
            }
            let at = match find_subsequence_from(data, needle.as_slice(), position) {
                Some(at) => at,
                None => {
                    assert(done + Seq::<(nat, nat)>::empty() =~= done);
                    return Ok(results);
                },
            };
            let skip: usize = at + SUFFIX_LEN;
            match self.find_record_start(data, at, last_end) {
                None => {
                    position = skip;
                },
                Some(st) => {
                    proof {
                        lemma_record_start(b, at as nat, last_end as nat);
                        lemma_record_covers_name(b, at as nat, last_end as nat);
                        lemma_record_end_bounds(b, st as nat, false);
                    }
                    let rlen = self.consume_record(data, st);
                    let end: usize = st + rlen;
                    if rlen >= self.config.min_descriptor_size && rlen <= self.config.max_descriptor_size {
                        let bytes = slice_to_vec(slice_subrange(data, st, end));
                        let ghost old_results = results@;
                        results.push(ScanResult::new(bytes, Range { start: st, end: end }));
                        let ghost item = (st as nat, end as nat);
                        let ghost prev = done;
                        proof {
                            lemma_reports_push(old_results, results@, b, prev, item);
                            done = prev.push(item);
                        }
                        if self.config.max_results > 0 && results.len() >= self.config.max_results {
                            proof {
                                assert(cap_reached(cfg, prev.len() + 1));
                                assert(scan_ranges(b, cfg, position as nat, last_end as nat, prev.len()) == seq![item]);
                                assert(prev + seq![item] =~= done);
                            }
                            return Ok(results);
                        }
                        proof {
                            assert(prev + (seq![item] + scan_ranges(b, cfg, end as nat, end as nat, prev.len() + 1))
                                =~= done + scan_ranges(b, cfg, end as nat, end as nat, done.len()));
                        }
                        position = end;
                        last_end = end;
                    } else {
                        position = skip;
                    }
                },
            }
        }
        assert(done + Seq::<(nat, nat)>::empty() =~= done);
        Ok(results)
    }
}

impl ScannerConfig {
    /// The default bounds, as values.
    pub open spec fn default_spec() -> ScannerConfig {
        ScannerConfig { max_results: 0, min_descriptor_size: 10, max_descriptor_size: 10485760 }
    }
}

impl ScanStrategy for Scanner {
    fn scan(&self, data: &[u8]) -> Result<Vec<ScanResult>, Error> {
        Scanner::scan(self, data)
    }
}

proof fn lemma_scan_ranges_shape(b: Seq<u8>, cfg: ScannerConfig, pos: nat, last_end: nat, found: nat)
    ensures
        ({
            let r = scan_ranges(b, cfg, pos, last_end, found);
            &&& forall|k: int|
                0 <= k < r.len() ==> {
                    &&& pos < (#[trigger] r[k]).1 <= b.len()
                    &&& last_end <= r[k].0 < r[k].1
                    &&& size_ok(cfg, r[k].1 - r[k].0)
                }
            &&& forall|k: int| 0 < k < r.len() ==> r[k - 1].1 <= (#[trigger] r[k]).0
            &&& cfg.max_results > 0 && found < cfg.max_results ==> found + r.len() <= cfg.max_results
        }),
    decreases b.len() - pos,
{
    if pos < b.len() {
        lemma_first_occurrence(b, proto_suffix(), pos);
        if let Some(at) = first_occurrence_from(b, proto_suffix(), pos) {
            let skip = (at + SUFFIX_LEN) as nat;
            match record_start(b, at, last_end) {
                None => {
                    lemma_scan_ranges_shape(b, cfg, skip, last_end, found);
                    assert(scan_ranges(b, cfg, pos, last_end, found) == scan_ranges(b, cfg, skip, last_end, found));
                },
                Some(st) => {
                    lemma_record_start(b, at, last_end);
                    lemma_record_covers_name(b, at, last_end);
                    lemma_record_end_bounds(b, st, false);
                    let end = record_end_from(b, st, false);
                    if !size_ok(cfg, end - st) {
                        lemma_scan_ranges_shape(b, cfg, skip, last_end, found);
                        assert(scan_ranges(b, cfg, pos, last_end, found) == scan_ranges(
                            b,
                            cfg,
                            skip,
                            last_end,
                            found,
                        ));
                    } else if cap_reached(cfg, found + 1) {
                        let r = scan_ranges(b, cfg, pos, last_end, found);
                        assert(r == seq![(st, end)]);
                        assert(r[0] == (st, end));
                    } else {
                        lemma_scan_ranges_shape(b, cfg, end, end, found + 1);
                        let rest = scan_ranges(b, cfg, end, end, found + 1);
                        let r = scan_ranges(b, cfg, pos, last_end, found);
                        assert(r == seq![(st, end)] + rest);
                        assert forall|k: int| 0 <= k < r.len() implies {
                            &&& pos < (#[trigger] r[k]).1 <= b.len()
                            &&& last_end <= r[k].0 < r[k].1
                            &&& size_ok(cfg, r[k].1 - r[k].0)
                        } by {
                            if k > 0 {
                                assert(r[k] == rest[k - 1]);
                            }
                        }
                        assert forall|k: int| 0 < k < r.len() implies r[k - 1].1 <= (#[trigger] r[k]).0 by {
                            assert(r[k] == rest[k - 1]);
                            if k > 1 {
                                assert(r[k - 1] == rest[k - 2]);
                            }
                        }
                    }
                },
            }
        }
    }
}

/// Every record that a scan reports passes the size filter and covers a
/// nonempty range within the input.
pub proof fn lemma_scan_sizes(b: Seq<u8>, cfg: ScannerConfig)
    ensures
        forall|k: int|
            0 <= k < scanned(b, cfg).len() ==> {
                let (st, end) = #[trigger] scanned(b, cfg)[k];
                &&& st < end <= b.len()
                &&& cfg.min_descriptor_size <= end - st <= cfg.max_descriptor_size
            },
{
    lemma_scan_ranges_shape(b, cfg, 0, 0, 0);
}

/// A scan with a positive cap on results reports at most that many.
pub proof fn lemma_scan_capped(b: Seq<u8>, cfg: ScannerConfig)
    requires
        cfg.max_results > 0,
    ensures
        scanned(b, cfg).len() <= cfg.max_results,
{
    lemma_scan_ranges_shape(b, cfg, 0, 0, 0);
}

proof fn lemma_reports_push(
    rs: Seq<ScanResult>,
    rs2: Seq<ScanResult>,
    b: Seq<u8>,
    ranges: Seq<(nat, nat)>,
    item: (nat, nat),
)
    requires
        reports(rs, b, ranges),
        rs2.len() == rs.len() + 1,
        forall|k: int| 0 <= k < rs.len() ==> rs2[k] == rs[k],
        rs2.last().range.start == item.0,
        rs2.last().range.end == item.1,
        item.0 <= item.1 <= b.len(),
        rs2.last().data@ == b.subrange(item.0 as int, item.1 as int),
    ensures
        reports(rs2, b, ranges.push(item)),
{
    let r2 = ranges.push(item);
    assert forall|k: int| 0 <= k < rs2.len() implies {
        &&& #[trigger] rs2[k].range.start == r2[k].0
        &&& rs2[k].range.end == r2[k].1
        &&& r2[k].0 <= r2[k].1 <= b.len()
        &&& rs2[k].data@ == b.subrange(r2[k].0 as int, r2[k].1 as int)
    } by {
        if k < rs.len() {
            assert(rs2[k] == rs[k]);
            assert(r2[k] == ranges[k]);
        }
    }
}

proof fn lemma_reports_disjoint(rs: Seq<ScanResult>, b: Seq<u8>, ranges: Seq<(nat, nat)>)
    requires
        reports(rs, b, ranges),
        forall|j: int, k: int|
            0 <= j < k < ranges.len() ==> (#[trigger] ranges[j]).1 <= (#[trigger] ranges[k]).0 && ranges[j].0
                < ranges[k].0,
    ensures
        forall|j: int, k: int|
            0 <= j < k < rs.len() ==> (#[trigger] rs[j]).range.end <= (#[trigger] rs[k]).range.start
                && rs[j].range.start < rs[k].range.start,
{
    assert forall|j: int, k: int| 0 <= j < k < rs.len() implies (#[trigger] rs[j]).range.end <= (
    #[trigger] rs[k]).range.start && rs[j].range.start < rs[k].range.start by {
        assert(rs[j].range.start == ranges[j].0);
        assert(rs[k].range.start == ranges[k].0);
        assert(ranges[j].1 <= ranges[k].0);
    }
}

/// The records that a scan reports come in order and do not overlap: each
/// ends at or before the start of every later one, so starts strictly
/// increase.
pub proof fn lemma_scan_disjoint(b: Seq<u8>, cfg: ScannerConfig)
    ensures
        forall|j: int, k: int|
            0 <= j < k < scanned(b, cfg).len() ==> (#[trigger] scanned(b, cfg)[j]).1 <= (
            #[trigger] scanned(b, cfg)[k]).0 && scanned(b, cfg)[j].0 < scanned(b, cfg)[k].0,
{
    lemma_scan_ranges_shape(b, cfg, 0, 0, 0);
    let r = scanned(b, cfg);
    assert forall|j: int, k: int| 0 <= j < k < r.len() implies (#[trigger] r[j]).1 <= (#[trigger] r[k]).0
        && r[j].0 < r[k].0 by {
        lemma_disjoint_chain(r, j, k);
    }
}

proof fn lemma_disjoint_chain(r: Seq<(nat, nat)>, j: int, k: int)
    requires
        0 <= j < k < r.len(),
        forall|i: int| 0 <= i < r.len() ==> (#[trigger] r[i]).0 < r[i].1,
        forall|i: int| 0 < i < r.len() ==> r[i - 1].1 <= (#[trigger] r[i]).0,
    ensures
        r[j].1 <= r[k].0,
    decreases k - j,
{
    assert(r[k - 1].1 <= r[k].0);
    if j < k - 1 {
        lemma_disjoint_chain(r, j, k - 1);
        assert(r[k - 1].0 < r[k - 1].1);
    }
}

/// Two result lists that both report the scan of `b` under `cfg` agree
/// record for record: scanning the same bytes twice gives the same ranges
/// and the same bytes.
pub proof fn lemma_scan_deterministic(b: Seq<u8>, cfg: ScannerConfig, rs1: Seq<ScanResult>, rs2: Seq<ScanResult>)
    requires
        reports(rs1, b, scanned(b, cfg)),
        reports(rs2, b, scanned(b, cfg)),
    ensures
        rs1.len() == rs2.len(),
        forall|k: int|
            0 <= k < rs1.len() ==> (#[trigger] rs1[k]).range == rs2[k].range && rs1[k].data@ == rs2[k].data@,
{
    assert forall|k: int| 0 <= k < rs1.len() implies (#[trigger] rs1[k]).range == rs2[k].range && rs1[k].data@
        == rs2[k].data@ by {
        assert(rs1[k].range.start == scanned(b, cfg)[k].0);
        assert(rs2[k].range.start == scanned(b, cfg)[k].0);
    }
}

/// The name field `0x0A 0x07 c ".proto"` of a descriptor whose file name
/// is the one character `c` followed by `.proto`.
pub open spec fn name_field(c: u8) -> Seq<u8> {
    seq![0x0Au8, 0x07u8, c, 0x2eu8, 0x70u8, 0x72u8, 0x6fu8, 0x74u8, 0x6fu8]
}

/// Whether `s` is, from end to end, a sequence of well-formed fields none
/// of which is field 1.
pub open spec fn fields_without_name(s: Seq<u8>) -> bool
    decreases s.len(),
{
    if s.len() == 0 {
        true
    } else {
        match field_extent(s) {
            Some((n, k)) => n != 1 && 0 < k <= s.len() && fields_without_name(s.subrange(k as int, s.len() as int)),
            None => false,
        }
    }
}

proof fn lemma_small_varint(s: Seq<u8>, x: u8)
    requires
        s.len() >= 1,
        s[0] == x,
        x < 0x80,
    ensures
        varint_decoded(s) == Some((x as u64, 1nat)),
{
    assert(varint_end_from(s, 0) == Some(1nat));
    assert(varint_bits(s, 0) == 0);
    assert(x < 0x80 ==> (0u64 | (((x & 0x7f) as u64) << 0u64)) == x as u64) by (bit_vector);
}

/// A byte sequence starting with a name field reads it as field 1 of nine
/// bytes.
proof fn lemma_name_field_extent(c: u8, s: Seq<u8>)
    requires
        s.len() >= 9,
        s.subrange(0, 9) == name_field(c),
    ensures
        field_extent(s) == Some((1u32, 9nat)),
{
    let f = name_field(c);
    lemma_small_varint(f, 0x0Au8);
    assert(10u64 & 7 == 2 && 10u64 >> 3 == 1) by (bit_vector);
    let rest = f.subrange(1, 9);
    lemma_small_varint(rest, 0x07u8);
    assert(field_extent(f) == Some((1u32, 9nat)));
    assert forall|j: int| 0 <= j < 9 implies s[j] == f[j] by {
        assert(s.subrange(0, 9)[j] == s[j]);
    }
    lemma_field_extent_agree(f, s);
}

proof fn lemma_rest_fields(buf: Seq<u8>, pos: nat, s: Seq<u8>)
    requires
        pos + s.len() <= buf.len(),
        buf.subrange(pos as int, (pos + s.len()) as int) == s,
        fields_without_name(s),
    ensures
        record_end_from(buf, pos, true) == record_end_from(buf, (pos + s.len()) as nat, true),
    decreases s.len(),
{
    if s.len() > 0 {
        let (n, k) = field_extent(s).unwrap();
        let t = buf.subrange(pos as int, buf.len() as int);
        assert forall|j: int| 0 <= j < k implies t[j] == s[j] by {
            assert(buf.subrange(pos as int, (pos + s.len()) as int)[j] == buf[pos + j]);
        }
        lemma_field_extent_agree(s, t);
        let s2 = s.subrange(k as int, s.len() as int);
        assert(buf.subrange((pos + k) as int, (pos + k + s2.len()) as int) =~= s2);
        lemma_rest_fields(buf, pos + k, s2);
    }
}

/// The record starting at `pos` with the name field of `c` and then the
/// fields `r` ends right after them, when the bytes end there or a next
/// name field follows.
proof fn lemma_record_whole(buf: Seq<u8>, pos: nat, c: u8, r: Seq<u8>)
    requires
        pos + 9 + r.len() <= buf.len(),
        buf.subrange(pos as int, (pos + 9 + r.len()) as int) == name_field(c) + r,
        fields_without_name(r),
        pos + 9 + r.len() == buf.len() || field_extent(buf.subrange((pos + 9 + r.len()) as int, buf.len() as int))
            == Some((1u32, 9nat)),
    ensures
        record_end_from(buf, pos, false) == pos + 9 + r.len(),
{
    let t = buf.subrange(pos as int, buf.len() as int);
    assert(t.subrange(0, 9) =~= name_field(c)) by {
        assert forall|j: int| 0 <= j < 9 implies t[j] == name_field(c)[j] by {
            assert(buf.subrange(pos as int, (pos + 9 + r.len()) as int)[j] == buf[pos + j]);
            assert((name_field(c) + r)[j] == name_field(c)[j]);
        }
    }
    lemma_name_field_extent(c, t);
    assert(buf.subrange((pos + 9) as int, (pos + 9 + r.len()) as int) =~= r) by {
        assert forall|j: int| 0 <= j < r.len() implies buf.subrange((pos + 9) as int, (pos + 9 + r.len()) as int)[j] == r[j] by {
            assert(buf.subrange(pos as int, (pos + 9 + r.len()) as int)[9 + j] == buf[pos + 9 + j]);
            assert((name_field(c) + r)[9 + j] == r[j]);
        }
    }
    lemma_rest_fields(buf, pos + 9, r);
}

/// The scan standing at `pos`, where a record with the name field of `c`
/// and the fields `r` begins, reports that record and goes on after it.
proof fn lemma_scan_step(buf: Seq<u8>, cfg: ScannerConfig, pos: nat, found: nat, c: u8, r: Seq<u8>)
    requires
        c != 0x0A && c != 0x2e,
        pos + 9 + r.len() <= buf.len(),
        buf.subrange(pos as int, (pos + 9 + r.len()) as int) == name_field(c) + r,
        fields_without_name(r),
        pos + 9 + r.len() == buf.len() || field_extent(buf.subrange((pos + 9 + r.len()) as int, buf.len() as int))
            == Some((1u32, 9nat)),
        size_ok(cfg, (9 + r.len()) as int),
    ensures
        ({
            let e = (pos + 9 + r.len()) as nat;
            scan_ranges(buf, cfg, pos, pos, found) == if cap_reached(cfg, found + 1) {
                seq![(pos, e)]
            } else {
                seq![(pos, e)] + scan_ranges(buf, cfg, e, e, found + 1)
            }
        }),
{
    let e = (pos + 9 + r.len()) as nat;
    let w = buf.subrange(pos as int, (pos + 9 + r.len()) as int);
    assert forall|j: int| 0 <= j < 9 implies buf[pos + j] == name_field(c)[j] by {
        assert(w[j] == buf[pos + j]);
        assert((name_field(c) + r)[j] == name_field(c)[j]);
    }
    let sfx = proto_suffix();
    assert(buf.subrange(pos as int, (pos + 6) as int)[0] != sfx[0]);
    assert(buf.subrange((pos + 1) as int, (pos + 7) as int)[0] != sfx[0]);
    assert(buf.subrange((pos + 2) as int, (pos + 8) as int)[0] != sfx[0]);
    assert(buf.subrange((pos + 3) as int, (pos + 9) as int) =~= sfx);
    assert(first_occurrence_from(buf, sfx, pos + 3) == Some((pos + 3) as nat));
    assert(first_occurrence_from(buf, sfx, pos + 2) == Some((pos + 3) as nat));
    assert(first_occurrence_from(buf, sfx, pos + 1) == Some((pos + 3) as nat));
    assert(first_occurrence_from(buf, sfx, pos) == Some((pos + 3) as nat));
    let at = (pos + 3) as nat;
    assert(search_floor(at, pos) == pos);
    let v = buf.subrange((pos + 1) as int, buf.len() as int);
    lemma_small_varint(seq![0x07u8], 0x07u8);
    lemma_varint_decoded_agree(seq![0x07u8], v);
    assert(valid_name_tag(buf, pos, at));
    assert(!valid_name_tag(buf, pos + 1, at));
    assert(!valid_name_tag(buf, pos + 2, at));
    assert(name_tag_below(buf, at, pos, pos + 1) == Some(pos));
    assert(name_tag_below(buf, at, pos, pos + 2) == Some(pos));
    assert(record_start(buf, at, pos) == Some(pos));
    lemma_record_whole(buf, pos, c, r);
}

/// Two descriptors stored back to back, each a one-character name ending
/// in `.proto` followed by well-formed fields other than field 1, are
/// reported as two records that abut, each exactly one descriptor.
pub proof fn lemma_back_to_back(ca: u8, ra: Seq<u8>, cb: u8, rb: Seq<u8>, cfg: ScannerConfig)
    requires
        ca != 0x0A && ca != 0x2e,
        cb != 0x0A && cb != 0x2e,
        fields_without_name(ra),
        fields_without_name(rb),
        size_ok(cfg, (9 + ra.len()) as int),
        size_ok(cfg, (9 + rb.len()) as int),
        cfg.max_results != 1,
    ensures
        ({
            let a = name_field(ca) + ra;
            let b = name_field(cb) + rb;
            scanned(a + b, cfg) == seq![(0nat, a.len()), (a.len(), a.len() + b.len())]
        }),
{
    let a = name_field(ca) + ra;
    let b = name_field(cb) + rb;
    let buf = a + b;
    let al = a.len();
    let total = (al + b.len()) as nat;
    assert(buf.subrange(0, al as int) =~= a);
    assert(buf.subrange(al as int, total as int) =~= b);
    assert(buf.subrange(al as int, buf.len() as int) =~= b);
    assert(b.subrange(0, 9) =~= name_field(cb));
    lemma_name_field_extent(cb, b);
    lemma_scan_step(buf, cfg, 0, 0, ca, ra);
    lemma_scan_step(buf, cfg, al, 1, cb, rb);
    assert(scan_ranges(buf, cfg, total, total, 2) == Seq::<(nat, nat)>::empty());
    assert(scanned(buf, cfg) =~= seq![(0nat, al), (al, total)]);
}

} // verus!
