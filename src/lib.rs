//! Recovery of Protocol Buffer schemas embedded in compiled binaries.
//!
//! - [`wire`]: primitive reads on the protobuf wire format, with their
//!   meaning as spec functions over bytes.
//! - [`scanner`]: locating serialized `FileDescriptorProto` records inside
//!   arbitrary bytes.
//! - [`descriptor`]: the parts of a file descriptor that the writer reads.
//! - [`text`]: decimal numbers, escaping, lowerCamelCase, comparisons.
//! - [`render`]: what the source writer emits, as spec functions.
//! - [`writer`]: the source writer itself.
//! - [`proto`]: the public reconstruction API.
//! - [`registry`]: deduplication and conflict naming of output files.
//! - [`binary`]: which files look like binaries worth scanning.
//! - [`extract`]: what to do with each descriptor found.
//! - [`error`]: the library's error type.

pub mod binary;
pub mod descriptor;
pub mod error;
pub mod extract;
pub mod proto;
pub mod registry;
pub mod render;
pub mod scanner;
pub mod text;
pub mod wire;
pub mod writer;
