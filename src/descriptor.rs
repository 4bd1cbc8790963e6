//! The parts of a `FileDescriptorProto` that the source writer reads, as
//! plain values.
//!
//! Names follow `google/protobuf/descriptor.proto`. An absent optional
//! string is an empty string where the writer treats both alike, and an
//! absent flag is `false` where only `true` matters.

use vstd::prelude::*;

verus! {

/// Field cardinality.
#[derive(Debug, Clone, Copy, PartialEq, Eq, Structural, Default)]
pub enum Label {
    /// `optional` (the default).
    #[default]
    Optional,
    /// `required`.
    Required,
    /// `repeated`.
    Repeated,
}

/// Field type.
#[derive(Debug, Clone, Copy, PartialEq, Eq, Structural, Default)]
pub enum FieldType {
    /// `double` (the default).
    #[default]
    Double,
    /// `float`.
    Float,
    /// `int64`.
    Int64,
    /// `uint64`.
    Uint64,
    /// `int32`.
    Int32,
    /// `fixed64`.
    Fixed64,
    /// `fixed32`.
    Fixed32,
    /// `bool`.
    Bool,
    /// `string`.
    String,
    /// `group` (deprecated).
    Group,
    /// A message type, named by `type_ref`.
    Message,
    /// `bytes`.
    Bytes,
    /// `uint32`.
    Uint32,
    /// An enum type, named by `type_ref`.
    Enum,
    /// `sfixed32`.
    Sfixed32,
    /// `sfixed64`.
    Sfixed64,
    /// `sint32`.
    Sint32,
    /// `sint64`.
    Sint64,
}

/// A field or an extension.
#[derive(Debug, Clone, Default)]
pub struct FieldDesc {
    pub name: String,
    pub number: i32,
    pub label: Label,
    pub field_type: FieldType,
    /// Fully qualified name of the type of a message or enum field.
    pub type_ref: String,
    /// The extended message, for an extension.
    pub extendee: String,
    pub default_value: Option<String>,
    pub json_name: Option<String>,
    pub oneof_index: Option<i32>,
    pub packed: Option<bool>,
    pub deprecated: Option<bool>,
}

/// A range of field numbers: `start` inclusive, `end` as the descriptor
/// stores it.
#[derive(Debug, Clone, Copy, PartialEq, Eq, Structural, Default)]
pub struct NumberRange {
    pub start: i32,
    pub end: i32,
}

/// A message type.
#[derive(Debug, Default)]
pub struct MessageDesc {
    pub name: String,
    pub field: Vec<FieldDesc>,
    pub nested_type: Vec<MessageDesc>,
    pub enum_type: Vec<EnumDesc>,
    /// Names of the oneofs, in declaration order.
    pub oneof_decl: Vec<String>,
    pub extension: Vec<FieldDesc>,
    /// Extension ranges, `end` exclusive.
    pub extension_range: Vec<NumberRange>,
    /// Reserved ranges, `end` exclusive.
    pub reserved_range: Vec<NumberRange>,
    pub reserved_name: Vec<String>,
    /// `options.map_entry`: a synthetic entry type of a map field.
    pub map_entry: bool,
}

/// A value of an enum type.
#[derive(Debug, Clone, Default)]
pub struct EnumValueDesc {
    pub name: String,
    pub number: i32,
    pub deprecated: bool,
}

/// An enum type.
#[derive(Debug, Clone, Default)]
pub struct EnumDesc {
    pub name: String,
    pub value: Vec<EnumValueDesc>,
    /// `options.allow_alias`.
    pub allow_alias: bool,
    /// Reserved ranges, `end` inclusive.
    pub reserved_range: Vec<NumberRange>,
    pub reserved_name: Vec<String>,
}

/// A method of a service.
#[derive(Debug, Clone, Default)]
pub struct MethodDesc {
    pub name: String,
    pub input_type: String,
    pub output_type: String,
    pub client_streaming: bool,
    pub server_streaming: bool,
}

/// A service.
#[derive(Debug, Clone, Default)]
pub struct ServiceDesc {
    pub name: String,
    pub method: Vec<MethodDesc>,
}

/// File-level options that the writer renders.
#[derive(Debug, Clone, Default)]
pub struct FileOptionsDesc {
    pub java_package: Option<String>,
    pub java_outer_classname: Option<String>,
    pub java_multiple_files: Option<bool>,
    pub java_string_check_utf8: Option<bool>,
    pub go_package: Option<String>,
    pub cc_enable_arenas: Option<bool>,
    pub objc_class_prefix: Option<String>,
    pub csharp_namespace: Option<String>,
    pub swift_prefix: Option<String>,
    pub php_class_prefix: Option<String>,
    pub php_namespace: Option<String>,
    pub php_metadata_namespace: Option<String>,
    pub ruby_package: Option<String>,
}

/// A `.proto` file.
#[derive(Debug, Default)]
pub struct FileDesc {
    pub name: String,
    pub package: String,
    /// `""`, `"proto2"` or `"proto3"`.
    pub syntax: String,
    pub dependency: Vec<String>,
    /// Indices into `dependency`.
    pub public_dependency: Vec<i32>,
    /// Indices into `dependency`.
    pub weak_dependency: Vec<i32>,
    pub message_type: Vec<MessageDesc>,
    pub enum_type: Vec<EnumDesc>,
    pub service: Vec<ServiceDesc>,
    pub extension: Vec<FieldDesc>,
    pub options: Option<FileOptionsDesc>,
}

} // verus!
