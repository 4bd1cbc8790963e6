//! Error type of the library.

use crate::text::{nat_text, push_nat};
use vstd::prelude::*;
use vstd::string::*;

verus! {

/// Failures reported by the library.
#[derive(Debug, Clone, PartialEq, Eq)]
pub enum Error {
    /// A path would escape the output directory.
    PathTraversal { path: String },
    /// Malformed protobuf wire data at `offset`.
    InvalidWireFormat { offset: usize, details: String },
    /// A varint ran off the end of its buffer or past ten bytes.
    VarintDecode { offset: usize },
    /// A serialized descriptor could not be decoded.
    DescriptorParse(String),
    /// A resolved descriptor could not be built.
    DescriptorBuild(String),
    /// No descriptor was found in the input.
    NoDescriptorsFound,
    /// A field number outside `1..=max`.
    InvalidFieldNumber { number: u32, max: u32 },
    /// A `syntax` string other than `""`, `"proto2"` and `"proto3"`.
    UnsupportedSyntax { syntax: String },
    /// Anything else.
    Internal(String),
}

/// The message that describes `e`.
pub open spec fn error_text(e: Error) -> Seq<char> {
    match e {
        Error::PathTraversal { path } => "path traversal detected: '"@ + path@ + "' would escape output directory"@,
        Error::InvalidWireFormat { offset, details } => "invalid protobuf wire format at offset "@ + nat_text(
            offset as nat,
        ) + ": "@ + details@,
        Error::VarintDecode { offset } => "failed to decode varint at offset "@ + nat_text(offset as nat)
            + ": buffer too small or invalid encoding"@,
        Error::DescriptorParse(m) => "failed to parse FileDescriptorProto: "@ + m@,
        Error::DescriptorBuild(m) => "failed to build file descriptor: "@ + m@,
        Error::NoDescriptorsFound => "no protobuf descriptors found in input"@,
        Error::InvalidFieldNumber { number, max } => "invalid field number "@ + nat_text(number as nat)
            + ": must be between 1 and "@ + nat_text(max as nat),
        Error::UnsupportedSyntax { syntax } => "unsupported proto syntax: '"@ + syntax@ + "'"@,
        Error::Internal(m) => "internal error: "@ + m@,
    }
}

impl Error {
    /// A path traversal error for `path`.
    pub fn path_traversal(path: &str) -> (r: Error)
        ensures
            r matches Error::PathTraversal { path: p } && p@ == path@,
    {
        Error::PathTraversal { path: String::from_str(path) }
    }

    /// A wire format error at `offset`.
    pub fn invalid_wire_format(offset: usize, details: &str) -> (r: Error)
        ensures
            r matches Error::InvalidWireFormat { offset: o, details: d } && o == offset && d@ == details@,
    {
        Error::InvalidWireFormat { offset, details: String::from_str(details) }
    }

    /// A varint error at `offset`.
    pub fn varint_decode(offset: usize) -> (r: Error)
        ensures
            r == (Error::VarintDecode { offset }),
    {
        Error::VarintDecode { offset }
    }

    /// A descriptor build error.
    pub fn descriptor_build(msg: &str) -> (r: Error)
        ensures
            r matches Error::DescriptorBuild(m) && m@ == msg@,
    {
        Error::DescriptorBuild(String::from_str(msg))
    }

    /// An internal error.
    pub fn internal(msg: &str) -> (r: Error)
        ensures
            r matches Error::Internal(m) && m@ == msg@,
    {
        Error::Internal(String::from_str(msg))
    }

    /// Whether the error concerns one record only, so that processing can
    /// go on with the next: a parse, build or wire format failure.
    pub fn is_recoverable(&self) -> (r: bool)
        ensures
            r == (self is DescriptorParse || self is DescriptorBuild || self is InvalidWireFormat),
    {
        match self {
            Error::DescriptorParse(_) | Error::DescriptorBuild(_) | Error::InvalidWireFormat { .. } => true,
            _ => false,
        }
    }

    /// The message that describes this error.
    pub fn message(&self) -> (r: String)
        ensures
            r@ == error_text(*self),
    {
        let mut out = String::new();
        match self {
            Error::PathTraversal { path } => {
                out.append("path traversal detected: '");
                out.append(path.as_str());
                out.append("' would escape output directory");
            },
            Error::InvalidWireFormat { offset, details } => {
                out.append("invalid protobuf wire format at offset ");
                push_nat(&mut out, *offset as u64);
                out.append(": ");
                out.append(details.as_str());
            },
            Error::VarintDecode { offset } => {
                out.append("failed to decode varint at offset ");
                push_nat(&mut out, *offset as u64);
                out.append(": buffer too small or invalid encoding");
            },
            Error::DescriptorParse(m) => {
                out.append("failed to parse FileDescriptorProto: ");
                out.append(m.as_str());
            },
            Error::DescriptorBuild(m) => {
                out.append("failed to build file descriptor: ");
                out.append(m.as_str());
            },
            Error::NoDescriptorsFound => {
                out.append("no protobuf descriptors found in input");
            },
            Error::InvalidFieldNumber { number, max } => {
                out.append("invalid field number ");
                push_nat(&mut out, *number as u64);
                out.append(": must be between 1 and ");
                push_nat(&mut out, *max as u64);
            },
            Error::UnsupportedSyntax { syntax } => {
                out.append("unsupported proto syntax: '");
                out.append(syntax.as_str());
                out.append("'");
            },
            Error::Internal(m) => {
                out.append("internal error: ");
                out.append(m.as_str());
            },
        }
        assert(out@ =~= error_text(*self));
        out
    }
}

} // verus!
