//! Primitive reads on the protobuf wire format.
//!
//! A field is a varint tag, whose low three bits give the wire type and whose
//! upper bits give the field number, followed by a value whose extent the
//! wire type determines.

use crate::error::Error;
use vstd::prelude::*;

verus! {

/// Largest valid protobuf field number, `2^29 - 1`.
pub const MAX_VALID_NUMBER: u32 = 536_870_911;

/// Protobuf wire types.
#[derive(Debug, Clone, Copy, PartialEq, Eq, Structural)]
pub enum WireType {
    /// Variable-length integer.
    Varint,
    /// 64-bit fixed width.
    I64,
    /// Length-delimited (strings, bytes, embedded messages).
    Len,
    /// Start of a group (deprecated).
    StartGroup,
    /// End of a group (deprecated).
    EndGroup,
    /// 32-bit fixed width.
    I32,
}

/// The wire type that the three-bit code `v` names, if any.
pub open spec fn wire_type_of(v: u64) -> Option<WireType> {
    if v == 0 {
        Some(WireType::Varint)
    } else if v == 1 {
        Some(WireType::I64)
    } else if v == 2 {
        Some(WireType::Len)
    } else if v == 3 {
        Some(WireType::StartGroup)
    } else if v == 4 {
        Some(WireType::EndGroup)
    } else if v == 5 {
        Some(WireType::I32)
    } else {
        None
    }
}

impl WireType {
    /// The wire type with code `value`; codes 6 and 7 (and above) name none.
    pub fn try_from(value: u8) -> (r: Result<WireType, Error>)
        ensures
            match wire_type_of(value as u64) {
                Some(w) => r == Ok::<WireType, Error>(w),
                None => r is Err,
            },
    {
        match value {
            0 => Ok(WireType::Varint),
            1 => Ok(WireType::I64),
            2 => Ok(WireType::Len),
            3 => Ok(WireType::StartGroup),
            4 => Ok(WireType::EndGroup),
            5 => Ok(WireType::I32),
            _ => Err(Error::InvalidWireFormat { offset: 0, details: String::from_str("unknown wire type") }),
        }
    }
}

/// Index one past the byte that ends the varint starting at the front of
/// `s`, looking from byte `i` on; `None` when no byte among the first ten
/// clears the continuation bit `0x80`.
pub open spec fn varint_end_from(s: Seq<u8>, i: nat) -> Option<nat>
    decreases 10 - i,
{
    if i >= 10 || i >= s.len() {
        None
    } else if s[i as int] < 0x80 {
        Some(i + 1)
    } else {
        varint_end_from(s, i + 1)
    }
}

/// The value held by the first `n` bytes of `s` read as little-endian
/// base-128 groups: byte `j` contributes its low seven bits at bit `7 * j`.
pub open spec fn varint_bits(s: Seq<u8>, n: nat) -> u64
    decreases n,
{
    if n == 0 {
        0
    } else {
        varint_bits(s, (n - 1) as nat) | (((s[n - 1] & 0x7f) as u64) << ((7 * (n - 1)) as u64))
    }
}

/// The varint at the front of `s`: its value and its length in bytes.
pub open spec fn varint_decoded(s: Seq<u8>) -> Option<(u64, nat)> {
    match varint_end_from(s, 0) {
        Some(n) => Some((varint_bits(s, n), n)),
        None => None,
    }
}

/// Number of bytes in the varint encoding of `v`, looking from `n` groups on.
pub open spec fn varint_size_from(v: u64, n: nat) -> nat
    decreases 10 - n,
{
    if n >= 10 {
        10
    } else if v >> ((7 * n) as u64) == 0 {
        n
    } else {
        varint_size_from(v, n + 1)
    }
}

/// Number of bytes in the varint encoding of `v`: one per started group of
/// seven bits, at least one.
pub open spec fn varint_size(v: u64) -> nat {
    varint_size_from(v, 1)
}

/// Byte `j` of the varint encoding of `v`: seven bits of `v`, with the
/// continuation bit on every byte but the last.
pub open spec fn varint_byte(v: u64, j: nat) -> u8 {
    let low = ((v >> ((7 * j) as u64)) & 0x7f) as u8;
    if j + 1 < varint_size(v) {
        low | 0x80
    } else {
        low
    }
}

/// The varint encoding of `v`.
pub open spec fn varint_encoding(v: u64) -> Seq<u8> {
    Seq::new(varint_size(v), |j: int| varint_byte(v, j as nat))
}

/// Bytes needed by the value of a field of wire type `wt` whose value
/// starts at the front of `rest`; `None` when `rest` cannot hold it.
pub open spec fn value_extent(wt: WireType, rest: Seq<u8>) -> Option<nat> {
    match wt {
        WireType::Varint => match varint_decoded(rest) {
            Some((_, k)) => Some(k),
            None => None,
        },
        WireType::I64 => if rest.len() >= 8 { Some(8) } else { None },
        WireType::Len => match varint_decoded(rest) {
            Some((l, k)) => if k + l <= rest.len() { Some((k + l) as nat) } else { None },
            None => None,
        },
        WireType::StartGroup | WireType::EndGroup => Some(0),
        WireType::I32 => if rest.len() >= 4 { Some(4) } else { None },
    }
}

/// Whether `tag` carries a field number within `1..=MAX_VALID_NUMBER`.
pub open spec fn valid_field_number(tag: u64) -> bool {
    1 <= tag >> 3 <= MAX_VALID_NUMBER
}

/// The field at the front of `s`: its number and its length in bytes, tag
/// included; `None` when the bytes there do not form a field.
pub open spec fn field_extent(s: Seq<u8>) -> Option<(u32, nat)> {
    match varint_decoded(s) {
        None => None,
        Some((tag, t)) => match wire_type_of(tag & 7) {
            None => None,
            Some(wt) => if !valid_field_number(tag) {
                None
            } else {
                match value_extent(wt, s.subrange(t as int, s.len() as int)) {
                    Some(k) => Some(((tag >> 3) as u32, (t + k) as nat)),
                    None => None,
                }
            },
        },
    }
}

/// Whether the front of `s` is a tag with a valid wire type and a field
/// number outside the valid range.
pub open spec fn bad_field_number(s: Seq<u8>) -> bool {
    match varint_decoded(s) {
        Some((tag, _)) => wire_type_of(tag & 7) is Some && !valid_field_number(tag),
        None => false,
    }
}

/// Bytes covered by the run of fields at the front of `s`, up to the end
/// or to the first position where no field can be read.
pub open spec fn fields_extent(s: Seq<u8>) -> nat
    decreases s.len(),
{
    if s.len() == 0 {
        0
    } else {
        match field_extent(s) {
            Some((_, k)) => if 0 < k <= s.len() {
                (k + fields_extent(s.subrange(k as int, s.len() as int))) as nat
            } else {
                0
            },
            None => 0,
        }
    }
}

/// Whether `s` is, from end to end, a sequence of well-formed fields: the
/// bytes of a serialized message.
pub open spec fn is_message(s: Seq<u8>) -> bool
    decreases s.len(),
{
    if s.len() == 0 {
        true
    } else {
        match field_extent(s) {
            Some((_, k)) => 0 < k <= s.len() && is_message(s.subrange(k as int, s.len() as int)),
            None => false,
        }
    }
}

proof fn lemma_varint_end_bounds(s: Seq<u8>, i: nat)
    ensures
        match varint_end_from(s, i) {
            Some(n) => i < n <= 10 && n <= s.len() && s[n - 1] < 0x80,
            None => true,
        },
    decreases 10 - i,
{
    if i < 10 && i < s.len() && s[i as int] >= 0x80 {
        lemma_varint_end_bounds(s, i + 1);
    }
}

/// The varint at the front of `s` spans one to ten bytes, all within `s`.
pub proof fn lemma_varint_decoded_bounds(s: Seq<u8>)
    ensures
        match varint_decoded(s) {
            Some((_, n)) => 1 <= n <= 10 && n <= s.len(),
            None => true,
        },
{
    lemma_varint_end_bounds(s, 0);
}

/// Whatever the bytes, a field that can be read lies within them and takes
/// at least its tag byte.
pub proof fn lemma_field_extent_bounds(s: Seq<u8>)
    ensures
        match field_extent(s) {
            Some((_, k)) => 1 <= k <= s.len(),
            None => true,
        },
{
    lemma_varint_decoded_bounds(s);
    if let Some((tag, t)) = varint_decoded(s) {
        let rest = s.subrange(t as int, s.len() as int);
        lemma_varint_decoded_bounds(rest);
    }
}

/// Decodes the varint that starts at `data[pos]`.
pub(crate) fn decode_varint_at(data: &[u8], pos: usize) -> (r: Result<(u64, usize), Error>)
    requires
        pos <= data@.len(),
    ensures
        ({
            let s = data@.subrange(pos as int, data@.len() as int);
            match varint_decoded(s) {
                Some((v, n)) => r == Ok::<(u64, usize), Error>((v, n as usize)),
                None => r == Err::<(u64, usize), Error>(
                    Error::VarintDecode { offset: if s.len() < 10 { s.len() as usize } else { 10 } },
                ),
            }
        }),
{
    let ghost s = data@.subrange(pos as int, data@.len() as int);
    let len: usize = data.len() - pos;
    let mut result: u64 = 0;
    let mut shift: u64 = 0;
    let mut i: usize = 0;
    while i < len
        invariant
            len == s.len(),
            pos + len == data@.len(),
            data@.len() <= usize::MAX,
            s == data@.subrange(pos as int, data@.len() as int),
            pos <= data@.len(),
            i <= len,
            i <= 10,
            shift == 7 * i,
            result == varint_bits(s, i as nat),
            varint_end_from(s, 0) == varint_end_from(s, i as nat),
        decreases len - i,
    {
        if i >= 10 {
            return Err(Error::VarintDecode { offset: i });
        }
        let byte = data[pos + i];
        assert(byte == s[i as int]);
        result = result | (((byte & 0x7f) as u64) << shift);
        shift = shift + 7;
        if byte < 0x80 {
            return Ok((result, i + 1));
        }
        i = i + 1;
    }
    Err(Error::VarintDecode { offset: len })
}

/// Decodes the varint at the front of `data`: its value and the number of
/// bytes it takes (one to ten).
pub fn decode_varint(data: &[u8]) -> (r: Result<(u64, usize), Error>)
    ensures
        match varint_decoded(data@) {
            Some((v, n)) => r == Ok::<(u64, usize), Error>((v, n as usize)),
            None => r == Err::<(u64, usize), Error>(
                Error::VarintDecode { offset: if data@.len() < 10 { data@.len() as usize } else { 10 } },
            ),
        },
{
    assert(data@.subrange(0, data@.len() as int) =~= data@);
    decode_varint_at(data, 0)
}

/// Reads the field that starts at `data[pos]`: its number and the bytes it
/// takes, tag included.
pub(crate) fn consume_field_at(data: &[u8], pos: usize) -> (r: Result<(u32, usize), Error>)
    requires
        pos <= data@.len(),
    ensures
        ({
            let s = data@.subrange(pos as int, data@.len() as int);
            match field_extent(s) {
                Some((n, k)) => r == Ok::<(u32, usize), Error>((n, k as usize)),
                None => if bad_field_number(s) {
                    r matches Err(Error::InvalidFieldNumber { .. })
                } else {
                    r matches Err(Error::InvalidWireFormat { .. })
                },
            }
        }),
{
    let ghost s = data@.subrange(pos as int, data@.len() as int);
    if pos >= data.len() {
        return Err(Error::InvalidWireFormat { offset: 0, details: String::from_str("empty data") });
    }
    let (tag, tag_len) = match decode_varint_at(data, pos) {
        Ok(x) => x,
        Err(_) => {
            return Err(
                Error::InvalidWireFormat { offset: 0, details: String::from_str("failed to decode field tag") },
            );
        },
    };
    proof {
        lemma_varint_decoded_bounds(s);
    }
    let code = tag & 7;
    assert(code <= 7) by (bit_vector)
        requires
            code == tag & 7,
    ;
    let wire_type = match WireType::try_from(code as u8) {
        Ok(w) => w,
        Err(_) => {
            return Err(
                Error::InvalidWireFormat { offset: 0, details: String::from_str("unknown wire type") },
            );
        },
    };
    let number: u64 = tag >> 3;
    if number == 0 || number > MAX_VALID_NUMBER as u64 {
        return Err(
            Error::InvalidFieldNumber { number: #[verifier::truncate] (number as u32), max: MAX_VALID_NUMBER },
        );
    }
    let vpos: usize = pos + tag_len;
    let avail: usize = data.len() - vpos;
    let ghost rest = s.subrange(tag_len as int, s.len() as int);
    assert(rest =~= data@.subrange(vpos as int, data@.len() as int));
    proof {
        lemma_varint_decoded_bounds(rest);
    }
    let value_len: usize = match wire_type {
        WireType::Varint => match decode_varint_at(data, vpos) {
            Ok((_, n)) => n,
            Err(_) => {
                return Err(
                    Error::InvalidWireFormat {
                        offset: tag_len,
                        details: String::from_str("failed to decode varint value"),
                    },
                );
            },
        },
        WireType::I64 => {
            if avail < 8 {
                return Err(
                    Error::InvalidWireFormat { offset: tag_len, details: String::from_str("not enough bytes for I64") },
                );
            }
            8
        },
        WireType::Len => {
            let (length, lvl) = match decode_varint_at(data, vpos) {
                Ok(x) => x,
                Err(_) => {
                    return Err(
                        Error::InvalidWireFormat {
                            offset: tag_len,
                            details: String::from_str("failed to decode length prefix"),
                        },
                    );
                },
            };
            if length > (avail - lvl) as u64 {
                return Err(
                    Error::InvalidWireFormat {
                        offset: tag_len,
                        details: String::from_str("not enough bytes for LEN field"),
                    },
                );
            }
            lvl + length as usize
        },
        WireType::StartGroup | WireType::EndGroup => 0,
        WireType::I32 => {
            if avail < 4 {
                return Err(
                    Error::InvalidWireFormat { offset: tag_len, details: String::from_str("not enough bytes for I32") },
                );
            }
            4
        },
    };
    Ok((number as u32, tag_len + value_len))
}

/// Reads the field at the front of `data`: its number and the bytes it
/// takes, tag included. A field that is read lies within `data`.
pub fn consume_field(data: &[u8]) -> (r: Result<(u32, usize), Error>)
    ensures
        match field_extent(data@) {
            Some((n, k)) => r == Ok::<(u32, usize), Error>((n, k as usize)),
            None => if bad_field_number(data@) {
                r matches Err(Error::InvalidFieldNumber { .. })
            } else {
                r matches Err(Error::InvalidWireFormat { .. })
            },
        },
        r matches Ok((_, k)) ==> 1 <= k <= data@.len(),
{
    assert(data@.subrange(0, data@.len() as int) =~= data@);
    let n: usize = data.len();
    let r = consume_field_at(data, 0);
    proof {
        lemma_field_extent_bounds(data@);
        assert(n == data@.len());
    }
    r
}

/// Reads fields from the front of `data` until the end or the first
/// position where no field can be read; returns the bytes covered.
pub fn consume_fields(data: &[u8]) -> (r: usize)
    ensures
        r == fields_extent(data@),
{
    let mut position: usize = 0;
    assert(data@.subrange(0, data@.len() as int) =~= data@);
    while position < data.len()
        invariant
            position <= data@.len(),
            fields_extent(data@) == position + fields_extent(
                data@.subrange(position as int, data@.len() as int),
            ),
        decreases data@.len() - position,
    {
        let ghost s = data@.subrange(position as int, data@.len() as int);
        proof {
            lemma_field_extent_bounds(s);
        }
        match consume_field_at(data, position) {
            Ok((_, len)) => {
                assert(s.subrange(len as int, s.len() as int) =~= data@.subrange(
                    position + len,
                    data@.len() as int,
                ));
                position = position + len;
            },
            Err(_) => {
                return position;
            },
        }
    }
    assert(data@.subrange(position as int, data@.len() as int).len() == 0);
    position
}

/// The bytes of a serialized message are read by `consume_fields` from end
/// to end.
pub proof fn lemma_message_consumed_whole(s: Seq<u8>)
    requires
        is_message(s),
    ensures
        fields_extent(s) == s.len(),
    decreases s.len(),
{
    if s.len() > 0 {
        let (_, k) = field_extent(s).unwrap();
        lemma_message_consumed_whole(s.subrange(k as int, s.len() as int));
    }
}

proof fn lemma_size_from(v: u64, n: nat)
    requires
        1 <= n <= 10,
    ensures
        n <= varint_size_from(v, n) <= 10,
        varint_size_from(v, n) < 10 ==> v >> ((7 * varint_size_from(v, n)) as u64) == 0,
    decreases 10 - n,
{
    if n < 10 && v >> ((7 * n) as u64) != 0 {
        lemma_size_from(v, n + 1);
    }
}

proof fn lemma_group_step(v: u64, acc: u64, s: u64, t: u64)
    by (bit_vector)
    requires
        s <= 56,
        t == s + 7,
        acc >> s == 0,
        acc | ((v >> s) << s) == v,
    ensures
        (acc | (((v >> s) & 0x7f) << s)) >> t == 0,
        (acc | (((v >> s) & 0x7f) << s)) | ((v >> t) << t) == v,
{
}

proof fn lemma_group_last(v: u64, acc: u64)
    by (bit_vector)
    requires
        acc >> 63 == 0,
        acc | ((v >> 63) << 63) == v,
    ensures
        (acc | (((v >> 63) & 0x7f) << 63)) == v,
{
}

proof fn lemma_group_done(v: u64, acc: u64, s: u64)
    by (bit_vector)
    requires
        v >> s == 0,
        acc | ((v >> s) << s) == v,
    ensures
        acc == v,
{
}

proof fn lemma_byte_bits(x: u64)
    by (bit_vector)
    ensures
        ((x & 0x7f) as u8) < 0x80,
        (((x & 0x7f) as u8) | 0x80) >= 0x80,
        ((((x & 0x7f) as u8) & 0x7f) as u64) == x & 0x7f,
        (((((x & 0x7f) as u8) | 0x80) & 0x7f) as u64) == x & 0x7f,
{
}

proof fn lemma_encoding_end(v: u64, e: Seq<u8>, j: nat)
    requires
        j < varint_size(v) <= 10,
        varint_size(v) <= e.len(),
        forall|i: int| 0 <= i < varint_size(v) ==> e[i] == varint_byte(v, i as nat),
    ensures
        varint_end_from(e, j) == Some(varint_size(v)),
    decreases varint_size(v) - j,
{
    lemma_byte_bits(v >> ((7 * j) as u64));
    if j + 1 < varint_size(v) {
        lemma_encoding_end(v, e, j + 1);
    }
}

proof fn lemma_encoding_bits(v: u64, e: Seq<u8>, j: nat)
    requires
        j <= varint_size(v) <= 10,
        j <= 9,
        varint_size(v) <= e.len(),
        forall|i: int| 0 <= i < varint_size(v) ==> e[i] == varint_byte(v, i as nat),
    ensures
        varint_bits(e, j) >> ((7 * j) as u64) == 0,
        varint_bits(e, j) | ((v >> ((7 * j) as u64)) << ((7 * j) as u64)) == v,
    decreases j,
{
    if j == 0 {
        let z: u64 = 0;
        assert(z >> 0u64 == 0 && (z | ((v >> 0u64) << 0u64)) == v) by (bit_vector)
            requires
                z == 0,
        ;
    } else {
        let p = (j - 1) as nat;
        lemma_encoding_bits(v, e, p);
        let s = (7 * p) as u64;
        lemma_byte_bits(v >> s);
        lemma_group_step(v, varint_bits(e, p), s, (7 * j) as u64);
    }
}

/// Decoding the varint encoding of any `v`, whatever bytes follow it, gives
/// back `v` and the encoding's length, which is one to ten bytes.
pub proof fn lemma_varint_round_trip(v: u64, rest: Seq<u8>)
    ensures
        1 <= varint_size(v) <= 10,
        varint_encoding(v).len() == varint_size(v),
        varint_decoded(varint_encoding(v) + rest) == Some((v, varint_size(v))),
{
    lemma_size_from(v, 1);
    let k = varint_size(v);
    let e = varint_encoding(v) + rest;
    assert forall|i: int| 0 <= i < k implies e[i] == varint_byte(v, i as nat) by {}
    lemma_encoding_end(v, e, 0);
    if k < 10 {
        lemma_encoding_bits(v, e, k);
        lemma_group_done(v, varint_bits(e, k), (7 * k) as u64);
    } else {
        lemma_encoding_bits(v, e, 9);
        lemma_byte_bits(v >> 63u64);
        lemma_group_last(v, varint_bits(e, 9));
    }
}

proof fn lemma_varint_end_agree(s: Seq<u8>, s2: Seq<u8>, i: nat)
    requires
        varint_end_from(s, i) is Some,
        varint_end_from(s, i).unwrap() <= s2.len(),
        forall|j: int| 0 <= j < varint_end_from(s, i).unwrap() ==> s2[j] == s[j],
    ensures
        varint_end_from(s2, i) == varint_end_from(s, i),
    decreases 10 - i,
{
    lemma_varint_end_bounds(s, i);
    assert(s2[i as int] == s[i as int]);
    if s[i as int] >= 0x80 {
        lemma_varint_end_agree(s, s2, i + 1);
    }
}

proof fn lemma_varint_bits_agree(s: Seq<u8>, s2: Seq<u8>, n: nat)
    requires
        n <= s.len(),
        n <= s2.len(),
        forall|j: int| 0 <= j < n ==> s2[j] == s[j],
    ensures
        varint_bits(s2, n) == varint_bits(s, n),
    decreases n,
{
    if n > 0 {
        lemma_varint_bits_agree(s, s2, (n - 1) as nat);
    }
}

pub(crate) proof fn lemma_varint_decoded_agree(s: Seq<u8>, s2: Seq<u8>)
    requires
        varint_decoded(s) is Some,
        varint_decoded(s).unwrap().1 <= s2.len(),
        forall|j: int| 0 <= j < varint_decoded(s).unwrap().1 ==> s2[j] == s[j],
    ensures
        varint_decoded(s2) == varint_decoded(s),
{
    lemma_varint_end_bounds(s, 0);
    lemma_varint_end_agree(s, s2, 0);
    let n = varint_decoded(s).unwrap().1;
    lemma_varint_bits_agree(s, s2, n);
}

/// A field is read from its own bytes alone: any bytes that agree with `s`
/// on the field's extent, whatever follows, hold the same field.
pub proof fn lemma_field_extent_agree(s: Seq<u8>, s2: Seq<u8>)
    requires
        field_extent(s) is Some,
        field_extent(s).unwrap().1 <= s2.len(),
        forall|j: int| 0 <= j < field_extent(s).unwrap().1 ==> s2[j] == s[j],
    ensures
        field_extent(s2) == field_extent(s),
{
    let k = field_extent(s).unwrap().1;
    lemma_field_extent_bounds(s);
    lemma_varint_decoded_bounds(s);
    let (tag, t) = varint_decoded(s).unwrap();
    lemma_varint_decoded_agree(s, s2);
    let rest = s.subrange(t as int, s.len() as int);
    let rest2 = s2.subrange(t as int, s2.len() as int);
    let wt = wire_type_of(tag & 7).unwrap();
    let vk = (k - t) as nat;
    assert forall|j: int| 0 <= j < vk implies rest2[j] == rest[j] by {
        assert(s2[t + j] == s[t + j]);
    }
    match wt {
        WireType::Varint => {
            lemma_varint_decoded_agree(rest, rest2);
        },
        WireType::Len => {
            lemma_varint_decoded_bounds(rest);
            lemma_varint_decoded_agree(rest, rest2);
        },
        _ => {},
    }
}

/// A field read from `data` reads the same from its own bytes followed by
/// anything: only the bytes it covers are looked at.
pub proof fn lemma_field_prefix_only(data: Seq<u8>, tail: Seq<u8>)
    requires
        field_extent(data) is Some,
    ensures
        field_extent(data.subrange(0, field_extent(data).unwrap().1 as int) + tail) == field_extent(data),
{
    lemma_field_extent_bounds(data);
    let k = field_extent(data).unwrap().1;
    let s2 = data.subrange(0, k as int) + tail;
    assert forall|j: int| 0 <= j < k implies s2[j] == data[j] by {}
    lemma_field_extent_agree(data, s2);
}

} // verus!
