//! What the source writer emits for each descriptor construct, as spec
//! functions over `Seq<char>`.
//!
//! `u` is the indentation unit and `ind` the indentation of the construct
//! at hand; a nested construct is indented by `ind + u`.

use crate::descriptor::{EnumDesc, EnumValueDesc, FieldDesc, FieldType, FileDesc, FileOptionsDesc, Label,
    MessageDesc, MethodDesc, NumberRange, ServiceDesc};
use crate::text::{bool_text, camel, ends_with, escaped, int_text};
use vstd::prelude::*;

verus! {

/// Largest valid protobuf field number, `2^29 - 1`.
pub const MAX_FIELD_NUMBER: i32 = 536_870_911;

/// Proto syntax version.
#[derive(Debug, Clone, Copy, PartialEq, Eq, Structural)]
pub enum ProtoSyntax {
    /// `proto2`.
    Proto2,
    /// `proto3`.
    Proto3,
}

/// The syntax that a descriptor's `syntax` string names: the empty string
/// and `proto2` name proto2, `proto3` names proto3, anything else none.
pub open spec fn syntax_of(s: Seq<char>) -> Option<ProtoSyntax> {
    if s == ""@ || s == "proto2"@ {
        Some(ProtoSyntax::Proto2)
    } else if s == "proto3"@ {
        Some(ProtoSyntax::Proto3)
    } else {
        None
    }
}

/// The keyword of a syntax version.
pub open spec fn syntax_text(syn: ProtoSyntax) -> Seq<char> {
    match syn {
        ProtoSyntax::Proto2 => "proto2"@,
        ProtoSyntax::Proto3 => "proto3"@,
    }
}

/// `"s"`, quoted as written.
pub open spec fn quoted(s: Seq<char>) -> Seq<char> {
    "\""@ + s + "\""@
}

/// The first `n` names of `ns`, quoted and separated by `, `.
pub open spec fn quoted_names(ns: Seq<String>, n: nat) -> Seq<char>
    decreases n,
{
    if n == 0 {
        Seq::empty()
    } else if n == 1 {
        quoted(ns[0]@)
    } else {
        quoted_names(ns, (n - 1) as nat) + ", "@ + quoted(ns[n - 1]@)
    }
}

/// A `reserved` line of names; nothing when there are none.
pub open spec fn reserved_names_line(ns: Seq<String>, ind: Seq<char>) -> Seq<char> {
    if ns.len() == 0 {
        Seq::empty()
    } else {
        ind + "reserved "@ + quoted_names(ns, ns.len()) + ";\n"@
    }
}

/// The upper bound of an exclusive message range as written: `max` for
/// the end of the number space, else `end - 1`.
pub open spec fn exclusive_end_text(end: i32) -> Seq<char> {
    if end == MAX_FIELD_NUMBER + 1 {
        "max"@
    } else {
        int_text(end - 1)
    }
}

/// One reserved range of a message (`end` exclusive).
pub open spec fn message_range_text(r: NumberRange) -> Seq<char> {
    if r.start == r.end - 1 {
        int_text(r.start as int)
    } else {
        int_text(r.start as int) + " to "@ + exclusive_end_text(r.end)
    }
}

/// The first `n` reserved ranges of a message, separated by `, `.
pub open spec fn message_ranges(rs: Seq<NumberRange>, n: nat) -> Seq<char>
    decreases n,
{
    if n == 0 {
        Seq::empty()
    } else if n == 1 {
        message_range_text(rs[0])
    } else {
        message_ranges(rs, (n - 1) as nat) + ", "@ + message_range_text(rs[n - 1])
    }
}

/// The `reserved` line of a message's ranges; nothing when there are none.
pub open spec fn message_ranges_line(rs: Seq<NumberRange>, ind: Seq<char>) -> Seq<char> {
    if rs.len() == 0 {
        Seq::empty()
    } else {
        ind + "reserved "@ + message_ranges(rs, rs.len()) + ";\n"@
    }
}

/// One reserved range of an enum (`end` inclusive; `i32::MAX` is `max`).
pub open spec fn enum_range_text(r: NumberRange) -> Seq<char> {
    if r.start == r.end {
        int_text(r.start as int)
    } else {
        int_text(r.start as int) + " to "@ + (if r.end == i32::MAX {
            "max"@
        } else {
            int_text(r.end as int)
        })
    }
}

/// The first `n` reserved ranges of an enum, separated by `, `.
pub open spec fn enum_ranges(rs: Seq<NumberRange>, n: nat) -> Seq<char>
    decreases n,
{
    if n == 0 {
        Seq::empty()
    } else if n == 1 {
        enum_range_text(rs[0])
    } else {
        enum_ranges(rs, (n - 1) as nat) + ", "@ + enum_range_text(rs[n - 1])
    }
}

/// The `reserved` line of an enum's ranges; nothing when there are none.
pub open spec fn enum_ranges_line(rs: Seq<NumberRange>, ind: Seq<char>) -> Seq<char> {
    if rs.len() == 0 {
        Seq::empty()
    } else {
        ind + "reserved "@ + enum_ranges(rs, rs.len()) + ";\n"@
    }
}

/// The line of an enum value.
pub open spec fn enum_value_line(v: EnumValueDesc, ind: Seq<char>) -> Seq<char> {
    ind + v.name@ + " = "@ + int_text(v.number as int) + (if v.deprecated {
        " [deprecated = true]"@
    } else {
        Seq::empty()
    }) + ";\n"@
}

/// The lines of the first `n` values of an enum.
pub open spec fn enum_values(vs: Seq<EnumValueDesc>, n: nat, ind: Seq<char>) -> Seq<char>
    decreases n,
{
    if n == 0 {
        Seq::empty()
    } else {
        enum_values(vs, (n - 1) as nat, ind) + enum_value_line(vs[n - 1], ind)
    }
}

/// An enum block, followed by a blank line.
#[verifier::opaque]
pub open spec fn enum_text(e: EnumDesc, u: Seq<char>, ind: Seq<char>) -> Seq<char> {
    let inner = ind + u;
    ind + "enum "@ + e.name@ + " {\n"@ + (if e.allow_alias {
        inner + "option allow_alias = true;\n"@
    } else {
        Seq::empty()
    }) + enum_ranges_line(e.reserved_range@, inner) + reserved_names_line(e.reserved_name@, inner)
        + enum_values(e.value@, e.value@.len(), inner) + ind + "}\n"@ + "\n"@
}

/// The enum blocks of the first `n` enums of `es`.
pub open spec fn enums_text(es: Seq<EnumDesc>, n: nat, u: Seq<char>, ind: Seq<char>) -> Seq<char>
    decreases n,
{
    if n == 0 {
        Seq::empty()
    } else {
        enums_text(es, (n - 1) as nat, u, ind) + enum_text(es[n - 1], u, ind)
    }
}

/// The keyword of a scalar type, or the type's name for message and enum
/// fields.
pub open spec fn type_text(f: FieldDesc) -> Seq<char> {
    match f.field_type {
        FieldType::Double => "double"@,
        FieldType::Float => "float"@,
        FieldType::Int64 => "int64"@,
        FieldType::Uint64 => "uint64"@,
        FieldType::Int32 => "int32"@,
        FieldType::Fixed64 => "fixed64"@,
        FieldType::Fixed32 => "fixed32"@,
        FieldType::Bool => "bool"@,
        FieldType::String => "string"@,
        FieldType::Group => "group"@,
        FieldType::Message => f.type_ref@,
        FieldType::Bytes => "bytes"@,
        FieldType::Uint32 => "uint32"@,
        FieldType::Enum => f.type_ref@,
        FieldType::Sfixed32 => "sfixed32"@,
        FieldType::Sfixed64 => "sfixed64"@,
        FieldType::Sint32 => "sint32"@,
        FieldType::Sint64 => "sint64"@,
    }
}

/// Whether `f` belongs to a synthetic oneof of `m`, one whose name starts
/// with `_`: a proto3 `optional` field.
pub open spec fn in_synthetic_oneof(f: FieldDesc, m: MessageDesc) -> bool {
    match f.oneof_index {
        Some(k) => 0 <= k < m.oneof_decl@.len() && m.oneof_decl@[k as int]@.len() > 0
            && m.oneof_decl@[k as int]@[0] == '_',
        None => false,
    }
}

/// Whether the nested type `n` is the one that `f` names, by the suffix
/// `.name` or by the bare name.
pub open spec fn names_nested(f: FieldDesc, n: MessageDesc) -> bool {
    ends_with(f.type_ref@, seq!['.'] + n.name@) || f.type_ref@ == n.name@
}

/// The first nested type of `m` from index `i` on that `f` names.
pub open spec fn named_nested_from(f: FieldDesc, m: MessageDesc, i: nat) -> Option<nat>
    decreases m.nested_type@.len() - i,
{
    if i >= m.nested_type@.len() {
        None
    } else if names_nested(f, m.nested_type@[i as int]) {
        Some(i)
    } else {
        named_nested_from(f, m, i + 1)
    }
}

/// Whether `f` is a map field of `m`: repeated, of message type, and the
/// first nested type that it names is a map entry.
pub open spec fn is_map_field(f: FieldDesc, m: MessageDesc) -> bool {
    &&& f.label == Label::Repeated
    &&& f.field_type == FieldType::Message
    &&& match named_nested_from(f, m, 0) {
        Some(j) => m.nested_type@[j as int].map_entry,
        None => false,
    }
}

/// The first field of `fs` from index `i` on whose number is `num`.
pub open spec fn numbered_from(fs: Seq<FieldDesc>, num: i32, i: nat) -> Option<FieldDesc>
    decreases fs.len() - i,
{
    if i >= fs.len() {
        None
    } else if fs[i as int].number == num {
        Some(fs[i as int])
    } else {
        numbered_from(fs, num, i + 1)
    }
}

/// Whether the nested type `n` is a map entry for `f` with both a key
/// (field 1) and a value (field 2).
pub open spec fn usable_entry(f: FieldDesc, n: MessageDesc) -> bool {
    names_nested(f, n) && n.map_entry && numbered_from(n.field@, 1, 0) is Some && numbered_from(
        n.field@,
        2,
        0,
    ) is Some
}

/// The key and value fields of the first usable map entry for `f` among
/// the nested types of `m` from index `i` on.
pub open spec fn entry_fields_from(f: FieldDesc, m: MessageDesc, i: nat) -> Option<(FieldDesc, FieldDesc)>
    decreases m.nested_type@.len() - i,
{
    if i >= m.nested_type@.len() {
        None
    } else if usable_entry(f, m.nested_type@[i as int]) {
        Some(
            (
                numbered_from(m.nested_type@[i as int].field@, 1, 0).unwrap(),
                numbered_from(m.nested_type@[i as int].field@, 2, 0).unwrap(),
            ),
        )
    } else {
        entry_fields_from(f, m, i + 1)
    }
}

/// The label keyword of a field of `m`; empty for a map field and for a
/// proto3 field without explicit `optional`.
pub open spec fn label_text(f: FieldDesc, syn: ProtoSyntax, m: MessageDesc) -> Seq<char> {
    match f.label {
        Label::Repeated => if is_map_field(f, m) {
            Seq::empty()
        } else {
            "repeated"@
        },
        Label::Required => "required"@,
        Label::Optional => match syn {
            ProtoSyntax::Proto2 => "optional"@,
            ProtoSyntax::Proto3 => if in_synthetic_oneof(f, m) {
                "optional"@
            } else {
                Seq::empty()
            },
        },
    }
}

/// The `default = ...` option: proto2 only, quoted and escaped for string
/// and bytes fields, verbatim otherwise.
pub open spec fn default_option(f: FieldDesc, syn: ProtoSyntax) -> Seq<Seq<char>> {
    match f.default_value {
        Some(d) => if syn == ProtoSyntax::Proto2 {
            seq![
                "default = "@ + (if f.field_type == FieldType::String || f.field_type == FieldType::Bytes {
                    quoted(escaped(d@))
                } else {
                    d@
                }),
            ]
        } else {
            Seq::empty()
        },
        None => Seq::empty(),
    }
}

/// The `json_name = "..."` option, when it differs from the lowerCamelCase
/// of the field's name.
pub open spec fn json_option(f: FieldDesc) -> Seq<Seq<char>> {
    match f.json_name {
        Some(j) => if j@ != camel(f.name@) {
            seq!["json_name = "@ + quoted(j@)]
        } else {
            Seq::empty()
        },
        None => Seq::empty(),
    }
}

/// The `packed` option, when set.
pub open spec fn packed_option(f: FieldDesc) -> Seq<Seq<char>> {
    match f.packed {
        Some(p) => seq!["packed = "@ + bool_text(p)],
        None => Seq::empty(),
    }
}

/// The `deprecated = true` option, when set to true.
pub open spec fn deprecated_option(f: FieldDesc) -> Seq<Seq<char>> {
    if f.deprecated == Some(true) {
        seq!["deprecated = true"@]
    } else {
        Seq::empty()
    }
}

/// The options of a field, in the order written.
pub open spec fn field_options(f: FieldDesc, syn: ProtoSyntax) -> Seq<Seq<char>> {
    default_option(f, syn) + json_option(f) + packed_option(f) + deprecated_option(f)
}

/// The first `n` items of `xs`, separated by `, `.
pub open spec fn joined(xs: Seq<Seq<char>>, n: nat) -> Seq<char>
    decreases n,
{
    if n == 0 {
        Seq::empty()
    } else if n == 1 {
        xs[0]
    } else {
        joined(xs, (n - 1) as nat) + ", "@ + xs[n - 1]
    }
}

/// The characters of each string of `v`.
pub open spec fn views(v: Seq<String>) -> Seq<Seq<char>> {
    v.map_values(|s: String| s@)
}

/// ` [a, b]` for a nonempty option list, else nothing.
pub open spec fn options_suffix(xs: Seq<Seq<char>>) -> Seq<char> {
    if xs.len() == 0 {
        Seq::empty()
    } else {
        " ["@ + joined(xs, xs.len()) + "]"@
    }
}

/// `TYPE NAME = N` of a field.
pub open spec fn field_decl(f: FieldDesc) -> Seq<char> {
    type_text(f) + " "@ + f.name@ + " = "@ + int_text(f.number as int)
}

/// What follows the label of a field line of `m`, newline included.
pub open spec fn field_body(f: FieldDesc, syn: ProtoSyntax, m: MessageDesc) -> Seq<char> {
    if is_map_field(f, m) {
        match entry_fields_from(f, m, 0) {
            Some((k, v)) => "map<"@ + type_text(k) + ", "@ + type_text(v) + "> "@ + f.name@ + " = "@
                + int_text(f.number as int) + ";\n"@,
            None => field_decl(f) + ";\n"@,
        }
    } else {
        field_decl(f) + options_suffix(field_options(f, syn)) + ";\n"@
    }
}

/// The line of a regular field of `m`.
#[verifier::opaque]
pub open spec fn field_line(f: FieldDesc, syn: ProtoSyntax, m: MessageDesc, ind: Seq<char>) -> Seq<char> {
    let label = label_text(f, syn, m);
    ind + (if label.len() > 0 {
        label + " "@
    } else {
        Seq::empty()
    }) + field_body(f, syn, m)
}

/// Whether `f` is written among the regular fields of `m`: it is in no
/// oneof, or only in a synthetic one.
pub open spec fn is_regular(f: FieldDesc, m: MessageDesc) -> bool {
    f.oneof_index is None || in_synthetic_oneof(f, m)
}

/// The regular field lines among the first `n` fields of `m`.
pub open spec fn regular_fields(m: MessageDesc, n: nat, syn: ProtoSyntax, ind: Seq<char>) -> Seq<char>
    decreases n,
{
    if n == 0 {
        Seq::empty()
    } else {
        regular_fields(m, (n - 1) as nat, syn, ind) + (if is_regular(m.field@[n - 1], m) {
            field_line(m.field@[n - 1], syn, m, ind)
        } else {
            Seq::empty()
        })
    }
}

/// Whether `f` is a member of the real oneof `i` of `m`.
pub open spec fn in_oneof(f: FieldDesc, m: MessageDesc, i: int) -> bool {
    &&& match f.oneof_index {
        Some(k) => k as int == i,
        None => false,
    }
    &&& !in_synthetic_oneof(f, m)
}

/// The member lines of oneof `i` among the first `n` fields of `m`.
pub open spec fn oneof_members(m: MessageDesc, i: int, n: nat, ind: Seq<char>) -> Seq<char>
    decreases n,
{
    if n == 0 {
        Seq::empty()
    } else {
        oneof_members(m, i, (n - 1) as nat, ind) + (if in_oneof(m.field@[n - 1], m, i) {
            ind + field_decl(m.field@[n - 1]) + ";\n"@
        } else {
            Seq::empty()
        })
    }
}

/// The block of oneof `i` of `m`; nothing when no field is a member.
#[verifier::opaque]
pub open spec fn oneof_block(m: MessageDesc, i: int, u: Seq<char>, ind: Seq<char>) -> Seq<char> {
    let body = oneof_members(m, i, m.field@.len(), ind + u);
    if body.len() == 0 {
        Seq::empty()
    } else {
        ind + "oneof "@ + m.oneof_decl@[i]@ + " {\n"@ + body + ind + "}\n"@
    }
}

/// The blocks of the first `n` oneofs of `m`.
pub open spec fn oneof_blocks(m: MessageDesc, n: nat, u: Seq<char>, ind: Seq<char>) -> Seq<char>
    decreases n,
{
    if n == 0 {
        Seq::empty()
    } else {
        oneof_blocks(m, (n - 1) as nat, u, ind) + oneof_block(m, n - 1, u, ind)
    }
}

/// The label of an extension: proto3 leaves `optional` out.
pub open spec fn extension_label(x: FieldDesc, syn: ProtoSyntax) -> Seq<char> {
    match x.label {
        Label::Repeated => "repeated "@,
        Label::Required => "required "@,
        Label::Optional => if syn == ProtoSyntax::Proto2 {
            "optional "@
        } else {
            Seq::empty()
        },
    }
}

/// An `extend` block, followed by a blank line.
#[verifier::opaque]
pub open spec fn extension_text(x: FieldDesc, syn: ProtoSyntax, u: Seq<char>, ind: Seq<char>) -> Seq<char> {
    ind + "extend "@ + x.extendee@ + " {\n"@ + (ind + u) + extension_label(x, syn) + field_decl(x) + ";\n"@
        + ind + "}\n"@ + "\n"@
}

/// The `extend` blocks of the first `n` extensions of `xs`.
pub open spec fn extensions_text(
    xs: Seq<FieldDesc>,
    n: nat,
    syn: ProtoSyntax,
    u: Seq<char>,
    ind: Seq<char>,
) -> Seq<char>
    decreases n,
{
    if n == 0 {
        Seq::empty()
    } else {
        extensions_text(xs, (n - 1) as nat, syn, u, ind) + extension_text(xs[n - 1], syn, u, ind)
    }
}

/// An `extensions` line.
pub open spec fn extension_range_line(r: NumberRange, ind: Seq<char>) -> Seq<char> {
    ind + "extensions "@ + int_text(r.start as int) + " to "@ + exclusive_end_text(r.end) + ";\n"@
}

/// The `extensions` lines of the first `n` ranges of `rs`.
pub open spec fn extension_ranges(rs: Seq<NumberRange>, n: nat, ind: Seq<char>) -> Seq<char>
    decreases n,
{
    if n == 0 {
        Seq::empty()
    } else {
        extension_ranges(rs, (n - 1) as nat, ind) + extension_range_line(rs[n - 1], ind)
    }
}

/// A message block, followed by a blank line. Its opening line is not
/// indented; what it holds is indented by `ind + u`.
pub open spec fn message_text(m: MessageDesc, syn: ProtoSyntax, u: Seq<char>, ind: Seq<char>) -> Seq<char>
    decreases m, m.nested_type@.len() + 1,
{
    let inner = ind + u;
    "message "@ + m.name@ + " {\n"@ + reserved_names_line(m.reserved_name@, inner) + message_ranges_line(
        m.reserved_range@,
        inner,
    ) + nested_messages(m, m.nested_type@.len(), syn, u, inner) + enums_text(
        m.enum_type@,
        m.enum_type@.len(),
        u,
        inner,
    ) + oneof_blocks(m, m.oneof_decl@.len(), u, inner) + regular_fields(m, m.field@.len(), syn, inner)
        + extensions_text(m.extension@, m.extension@.len(), syn, u, inner) + extension_ranges(
        m.extension_range@,
        m.extension_range@.len(),
        inner,
    ) + ind + "}\n"@ + "\n"@
}

/// The blocks of the first `n` nested types of `m`, map entries left out.
pub open spec fn nested_messages(m: MessageDesc, n: nat, syn: ProtoSyntax, u: Seq<char>, ind: Seq<char>) -> Seq<
    char,
>
    decreases m, n,
{
    if n == 0 || n > m.nested_type@.len() {
        Seq::empty()
    } else {
        nested_messages(m, (n - 1) as nat, syn, u, ind) + (if m.nested_type[n - 1].map_entry {
            Seq::empty()
        } else {
            message_text(m.nested_type[n - 1], syn, u, ind)
        })
    }
}

/// One unfolding of [`message_text`].
pub proof fn lemma_message_text(m: MessageDesc, syn: ProtoSyntax, u: Seq<char>, ind: Seq<char>)
    ensures
        message_text(m, syn, u, ind) == "message "@ + m.name@ + " {\n"@ + (reserved_names_line(
            m.reserved_name@,
            ind + u,
        ) + message_ranges_line(m.reserved_range@, ind + u)) + nested_messages(
            m,
            m.nested_type@.len(),
            syn,
            u,
            ind + u,
        ) + enums_text(m.enum_type@, m.enum_type@.len(), u, ind + u) + oneof_blocks(
            m,
            m.oneof_decl@.len(),
            u,
            ind + u,
        ) + regular_fields(m, m.field@.len(), syn, ind + u) + extensions_text(
            m.extension@,
            m.extension@.len(),
            syn,
            u,
            ind + u,
        ) + extension_ranges(m.extension_range@, m.extension_range@.len(), ind + u) + (ind + "}\n"@
            + "\n"@),
{
    let inner = ind + u;
    assert(message_text(m, syn, u, ind) =~= "message "@ + m.name@ + " {\n"@ + (reserved_names_line(
        m.reserved_name@,
        inner,
    ) + message_ranges_line(m.reserved_range@, inner)) + nested_messages(
        m,
        m.nested_type@.len(),
        syn,
        u,
        inner,
    ) + enums_text(m.enum_type@, m.enum_type@.len(), u, inner) + oneof_blocks(
        m,
        m.oneof_decl@.len(),
        u,
        inner,
    ) + regular_fields(m, m.field@.len(), syn, inner) + extensions_text(
        m.extension@,
        m.extension@.len(),
        syn,
        u,
        inner,
    ) + extension_ranges(m.extension_range@, m.extension_range@.len(), inner) + (ind + "}\n"@ + "\n"@));
}

/// The message blocks of the first `n` messages of `ms`.
pub open spec fn messages_text(ms: Seq<MessageDesc>, n: nat, syn: ProtoSyntax, u: Seq<char>) -> Seq<char>
    decreases n,
{
    if n == 0 {
        Seq::empty()
    } else {
        messages_text(ms, (n - 1) as nat, syn, u) + message_text(ms[n - 1], syn, u, Seq::empty())
    }
}

/// The blocks of all the top-level messages `ms`.
#[verifier::opaque]
pub open spec fn top_messages(ms: Seq<MessageDesc>, syn: ProtoSyntax, u: Seq<char>) -> Seq<char> {
    messages_text(ms, ms.len(), syn, u)
}

/// The line of a method.
pub open spec fn method_line(md: MethodDesc, u: Seq<char>) -> Seq<char> {
    u + "rpc "@ + md.name@ + "("@ + (if md.client_streaming {
        "stream "@
    } else {
        Seq::empty()
    }) + md.input_type@ + ") returns ("@ + (if md.server_streaming {
        "stream "@
    } else {
        Seq::empty()
    }) + md.output_type@ + ");\n"@
}

/// The lines of the first `n` methods of `ms`.
pub open spec fn methods_text(ms: Seq<MethodDesc>, n: nat, u: Seq<char>) -> Seq<char>
    decreases n,
{
    if n == 0 {
        Seq::empty()
    } else {
        methods_text(ms, (n - 1) as nat, u) + method_line(ms[n - 1], u)
    }
}

/// A service block, followed by a blank line.
#[verifier::opaque]
pub open spec fn service_text(s: ServiceDesc, u: Seq<char>) -> Seq<char> {
    "service "@ + s.name@ + " {\n"@ + methods_text(s.method@, s.method@.len(), u) + "}\n"@ + "\n"@
}

/// The blocks of the first `n` services of `ss`.
pub open spec fn services_text(ss: Seq<ServiceDesc>, n: nat, u: Seq<char>) -> Seq<char>
    decreases n,
{
    if n == 0 {
        Seq::empty()
    } else {
        services_text(ss, (n - 1) as nat, u) + service_text(ss[n - 1], u)
    }
}

/// A string file option; nothing when absent or empty.
pub open spec fn string_option_line(name: Seq<char>, v: Option<String>) -> Seq<char> {
    match v {
        Some(s) => if s@.len() > 0 {
            "option "@ + name + " = "@ + quoted(escaped(s@)) + ";\n"@
        } else {
            Seq::empty()
        },
        None => Seq::empty(),
    }
}

/// A flag file option; nothing when absent.
pub open spec fn bool_option_line(name: Seq<char>, v: Option<bool>) -> Seq<char> {
    match v {
        Some(b) => "option "@ + name + " = "@ + bool_text(b) + ";\n"@,
        None => Seq::empty(),
    }
}

/// The file option lines, in their fixed order.
pub open spec fn file_option_lines(o: FileOptionsDesc) -> Seq<char> {
    string_option_line("java_package"@, o.java_package) + string_option_line(
        "java_outer_classname"@,
        o.java_outer_classname,
    ) + bool_option_line("java_multiple_files"@, o.java_multiple_files) + bool_option_line(
        "java_string_check_utf8"@,
        o.java_string_check_utf8,
    ) + string_option_line("go_package"@, o.go_package) + bool_option_line(
        "cc_enable_arenas"@,
        o.cc_enable_arenas,
    ) + string_option_line("objc_class_prefix"@, o.objc_class_prefix) + string_option_line(
        "csharp_namespace"@,
        o.csharp_namespace,
    ) + string_option_line("swift_prefix"@, o.swift_prefix) + string_option_line(
        "php_class_prefix"@,
        o.php_class_prefix,
    ) + string_option_line("php_namespace"@, o.php_namespace) + string_option_line(
        "php_metadata_namespace"@,
        o.php_metadata_namespace,
    ) + string_option_line("ruby_package"@, o.ruby_package)
}

/// The file options block: the option lines and a blank line when any.
#[verifier::opaque]
pub open spec fn file_options_text(opts: Option<FileOptionsDesc>) -> Seq<char> {
    match opts {
        Some(o) => {
            let lines = file_option_lines(o);
            if lines.len() > 0 {
                lines + "\n"@
            } else {
                lines
            }
        },
        None => Seq::empty(),
    }
}

/// Whether index `i` is listed in `idx`.
pub open spec fn lists_index(idx: Seq<i32>, i: int) -> bool {
    exists|j: int| 0 <= j < idx.len() && idx[j] as int == i
}

/// The modifier of import `i`: `public ` before `weak `.
pub open spec fn import_modifier(fd: FileDesc, i: int) -> Seq<char> {
    if lists_index(fd.public_dependency@, i) {
        "public "@
    } else if lists_index(fd.weak_dependency@, i) {
        "weak "@
    } else {
        Seq::empty()
    }
}

/// The `import` lines of the first `n` dependencies.
pub open spec fn import_lines(fd: FileDesc, n: nat) -> Seq<char>
    decreases n,
{
    if n == 0 {
        Seq::empty()
    } else {
        import_lines(fd, (n - 1) as nat) + "import "@ + import_modifier(fd, n - 1) + quoted(
            fd.dependency@[n - 1]@,
        ) + ";\n"@
    }
}

/// The imports block: the import lines and a blank line when any.
#[verifier::opaque]
pub open spec fn imports_text(fd: FileDesc) -> Seq<char> {
    if fd.dependency@.len() == 0 {
        Seq::empty()
    } else {
        import_lines(fd, fd.dependency@.len()) + "\n"@
    }
}

/// The `package` line and a blank line, when the package is not empty.
pub open spec fn package_text(fd: FileDesc) -> Seq<char> {
    if fd.package@.len() > 0 {
        "package "@ + fd.package@ + ";\n"@ + "\n"@
    } else {
        Seq::empty()
    }
}

/// The proto source of `fd` under syntax `syn` with indentation unit `u`.
#[verifier::opaque]
pub open spec fn file_text(fd: FileDesc, syn: ProtoSyntax, u: Seq<char>) -> Seq<char> {
    "syntax = \""@ + syntax_text(syn) + "\";\n"@ + "\n"@ + package_text(fd) + file_options_text(fd.options)
        + imports_text(fd) + services_text(fd.service@, fd.service@.len(), u) + top_messages(
        fd.message_type@,
        syn,
        u,
    ) + enums_text(fd.enum_type@, fd.enum_type@.len(), u, Seq::empty()) + extensions_text(
        fd.extension@,
        fd.extension@.len(),
        syn,
        u,
        Seq::empty(),
    )
}

/// One unfolding of [`file_text`].
pub proof fn lemma_file_text(fd: FileDesc, syn: ProtoSyntax, u: Seq<char>)
    ensures
        file_text(fd, syn, u) == ("syntax = \""@ + syntax_text(syn) + "\";\n"@ + "\n"@) + package_text(fd)
            + file_options_text(fd.options) + imports_text(fd) + services_text(fd.service@, fd.service@.len(), u)
            + top_messages(fd.message_type@, syn, u) + enums_text(
            fd.enum_type@,
            fd.enum_type@.len(),
            u,
            Seq::empty(),
        ) + extensions_text(fd.extension@, fd.extension@.len(), syn, u, Seq::empty()),
{
    reveal(file_text);
    assert(file_text(fd, syn, u) =~= ("syntax = \""@ + syntax_text(syn) + "\";\n"@ + "\n"@) + package_text(fd)
        + file_options_text(fd.options) + imports_text(fd) + services_text(fd.service@, fd.service@.len(), u)
        + top_messages(fd.message_type@, syn, u) + enums_text(
        fd.enum_type@,
        fd.enum_type@.len(),
        u,
        Seq::empty(),
    ) + extensions_text(fd.extension@, fd.extension@.len(), syn, u, Seq::empty()));
}

} // verus!
