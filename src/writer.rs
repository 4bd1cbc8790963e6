//! The proto source writer: appends to a `String` exactly what the spec
//! functions of [`crate::render`] describe.

use crate::descriptor::{EnumDesc, FieldDesc, FieldType, FileDesc, FileOptionsDesc, Label, MessageDesc,
    MethodDesc, NumberRange, ServiceDesc};
use crate::render::{
    bool_option_line, default_option, entry_fields_from, enum_range_text, enum_ranges,
    enum_ranges_line, enum_text, enum_value_line, enum_values, enums_text, exclusive_end_text, extension_label,
    extension_ranges, extension_text, extensions_text, field_body, field_decl,
    field_line, field_options, file_option_lines, file_options_text, file_text, lemma_file_text, import_lines,
    imports_text, in_oneof, in_synthetic_oneof, is_map_field, joined,
    json_option, label_text, lists_index, message_range_text, message_ranges, message_ranges_line,
    lemma_message_text, message_text, messages_text, method_line, methods_text, named_nested_from, names_nested,
    nested_messages, numbered_from, oneof_block, oneof_blocks, oneof_members, options_suffix,
    package_text, packed_option, views, quoted, quoted_names, regular_fields, reserved_names_line, service_text,
    services_text, string_option_line, top_messages, syntax_text, type_text, ProtoSyntax, MAX_FIELD_NUMBER,
};
use crate::text::{
    ends_with_dot_name, escape_string, int_text, push_bool, push_int,
    starts_with_underscore, str_eq, to_lower_camel_case,
};
use vstd::prelude::*;
use vstd::string::*;

verus! {

/// Appends `"s"`.
fn push_quoted(out: &mut String, s: &str)
    ensures
        final(out)@ == old(out)@ + quoted(s@),
{
    out.append("\"");
    out.append(s);
    out.append("\"");
    assert(final(out)@ =~= old(out)@ + quoted(s@));
}

/// Appends the `reserved` line of `names`, if any.
fn write_reserved_names(out: &mut String, names: &Vec<String>, ind: &str)
    ensures
        final(out)@ == old(out)@ + reserved_names_line(names@, ind@),
{
    let n: usize = names.len();
    if n == 0 {
        assert(final(out)@ =~= old(out)@ + reserved_names_line(names@, ind@));
        return;
    }
    out.append(ind);
    out.append("reserved ");
    let ghost start = out@;
    let mut i: usize = 0;
    while i < n
        invariant
            n == names@.len(),
            i <= n,
            out@ == start + quoted_names(names@, i as nat),
        decreases n - i,
    {
        if i > 0 {
            out.append(", ");
        }
        push_quoted(out, names[i].as_str());
        assert(out@ =~= start + quoted_names(names@, (i + 1) as nat)) by {
            if i > 0 {
                assert(start + quoted_names(names@, (i + 1) as nat) =~= start + quoted_names(names@, i as nat)
                    + ", "@ + quoted(names@[i as int]@));
            }
        }
        i = i + 1;
    }
    out.append(";\n");
    assert(final(out)@ =~= old(out)@ + reserved_names_line(names@, ind@));
}

/// Appends the upper bound of an exclusive range.
fn push_exclusive_end(out: &mut String, end: i32)
    ensures
        final(out)@ == old(out)@ + exclusive_end_text(end),
{
    if end == MAX_FIELD_NUMBER + 1 {
        out.append("max");
    } else {
        push_int(out, end as i64 - 1);
    }
}

/// Appends one reserved range of a message.
fn push_message_range(out: &mut String, r: &NumberRange)
    ensures
        final(out)@ == old(out)@ + message_range_text(*r),
{
    push_int(out, r.start as i64);
    if r.start as i64 != r.end as i64 - 1 {
        out.append(" to ");
        push_exclusive_end(out, r.end);
        assert(final(out)@ =~= old(out)@ + message_range_text(*r));
    }
}

/// Appends one reserved range of an enum.
fn push_enum_range(out: &mut String, r: &NumberRange)
    ensures
        final(out)@ == old(out)@ + enum_range_text(*r),
{
    push_int(out, r.start as i64);
    if r.start != r.end {
        out.append(" to ");
        if r.end == i32::MAX {
            out.append("max");
        } else {
            push_int(out, r.end as i64);
        }
        assert(final(out)@ =~= old(out)@ + enum_range_text(*r));
    }
}

/// Appends the `reserved` line of the ranges of a message, if any.
fn write_message_ranges(out: &mut String, rs: &Vec<NumberRange>, ind: &str)
    ensures
        final(out)@ == old(out)@ + message_ranges_line(rs@, ind@),
{
    let n: usize = rs.len();
    if n == 0 {
        assert(final(out)@ =~= old(out)@ + message_ranges_line(rs@, ind@));
        return;
    }
    out.append(ind);
    out.append("reserved ");
    let ghost start = out@;
    let mut i: usize = 0;
    while i < n
        invariant
            n == rs@.len(),
            i <= n,
            out@ == start + message_ranges(rs@, i as nat),
        decreases n - i,
    {
        if i > 0 {
            out.append(", ");
        }
        push_message_range(out, &rs[i]);
        assert(out@ =~= start + message_ranges(rs@, (i + 1) as nat)) by {
            if i > 0 {
                assert(start + message_ranges(rs@, (i + 1) as nat) =~= start + message_ranges(rs@, i as nat)
                    + ", "@ + message_range_text(rs@[i as int]));
            }
        }
        i = i + 1;
    }
    out.append(";\n");
    assert(final(out)@ =~= old(out)@ + message_ranges_line(rs@, ind@));
}

/// Appends the `reserved` line of the ranges of an enum, if any.
fn write_enum_ranges(out: &mut String, rs: &Vec<NumberRange>, ind: &str)
    ensures
        final(out)@ == old(out)@ + enum_ranges_line(rs@, ind@),
{
    let n: usize = rs.len();
    if n == 0 {
        assert(final(out)@ =~= old(out)@ + enum_ranges_line(rs@, ind@));
        return;
    }
    out.append(ind);
    out.append("reserved ");
    let ghost start = out@;
    let mut i: usize = 0;
    while i < n
        invariant
            n == rs@.len(),
            i <= n,
            out@ == start + enum_ranges(rs@, i as nat),
        decreases n - i,
    {
        if i > 0 {
            out.append(", ");
        }
        push_enum_range(out, &rs[i]);
        assert(out@ =~= start + enum_ranges(rs@, (i + 1) as nat)) by {
            if i > 0 {
                assert(start + enum_ranges(rs@, (i + 1) as nat) =~= start + enum_ranges(rs@, i as nat) + ", "@
                    + enum_range_text(rs@[i as int]));
            }
        }
        i = i + 1;
    }
    out.append(";\n");
    assert(final(out)@ =~= old(out)@ + enum_ranges_line(rs@, ind@));
}

/// `ind + u` as a new string.
fn deeper(ind: &str, u: &str) -> (r: String)
    ensures
        r@ == ind@ + u@,
{
    let mut s = String::from_str(ind);
    s.append(u);
    s
}

/// Appends an enum block.
pub(crate) fn write_enum(out: &mut String, e: &EnumDesc, u: &str, ind: &str)
    ensures
        final(out)@ == old(out)@ + enum_text(*e, u@, ind@),
{
    let inner = deeper(ind, u);
    out.append(ind);
    out.append("enum ");
    out.append(e.name.as_str());
    out.append(" {\n");
    let ghost a = out@;
    if e.allow_alias {
        out.append(inner.as_str());
        out.append("option allow_alias = true;\n");
    }
    let ghost b = out@;
    write_enum_ranges(out, &e.reserved_range, inner.as_str());
    write_reserved_names(out, &e.reserved_name, inner.as_str());
    let ghost start = out@;
    let n: usize = e.value.len();
    let mut i: usize = 0;
    while i < n
        invariant
            n == e.value@.len(),
            i <= n,
            out@ == start + enum_values(e.value@, i as nat, inner@),
        decreases n - i,
    {
        let v = &e.value[i];
        let ghost before = out@;
        out.append(inner.as_str());
        out.append(v.name.as_str());
        out.append(" = ");
        push_int(out, v.number as i64);
        if v.deprecated {
            out.append(" [deprecated = true]");
        }
        out.append(";\n");
        assert(out@ =~= before + enum_value_line(*v, inner@));
        assert(out@ =~= start + enum_values(e.value@, (i + 1) as nat, inner@));
        i = i + 1;
    }
    out.append(ind);
    out.append("}\n");
    out.append("\n");
    assert(b =~= a + (if e.allow_alias {
        inner@ + "option allow_alias = true;\n"@
    } else {
        Seq::empty()
    }));
    proof {
        reveal(enum_text);
    }
    assert(final(out)@ =~= old(out)@ + enum_text(*e, u@, ind@));
}

/// Appends the type keyword or type name of a field.
fn push_type(out: &mut String, f: &FieldDesc)
    ensures
        final(out)@ == old(out)@ + type_text(*f),
{
    match f.field_type {
        FieldType::Double => out.append("double"),
        FieldType::Float => out.append("float"),
        FieldType::Int64 => out.append("int64"),
        FieldType::Uint64 => out.append("uint64"),
        FieldType::Int32 => out.append("int32"),
        FieldType::Fixed64 => out.append("fixed64"),
        FieldType::Fixed32 => out.append("fixed32"),
        FieldType::Bool => out.append("bool"),
        FieldType::String => out.append("string"),
        FieldType::Group => out.append("group"),
        FieldType::Message => out.append(f.type_ref.as_str()),
        FieldType::Bytes => out.append("bytes"),
        FieldType::Uint32 => out.append("uint32"),
        FieldType::Enum => out.append(f.type_ref.as_str()),
        FieldType::Sfixed32 => out.append("sfixed32"),
        FieldType::Sfixed64 => out.append("sfixed64"),
        FieldType::Sint32 => out.append("sint32"),
        FieldType::Sint64 => out.append("sint64"),
    }
}

/// Appends `TYPE NAME = N`.
fn push_decl(out: &mut String, f: &FieldDesc)
    ensures
        final(out)@ == old(out)@ + field_decl(*f),
{
    push_type(out, f);
    out.append(" ");
    out.append(f.name.as_str());
    out.append(" = ");
    push_int(out, f.number as i64);
    assert(final(out)@ =~= old(out)@ + field_decl(*f));
}

/// Whether `f` belongs to a synthetic oneof of `m` (a proto3 `optional`).
fn is_proto3_optional(f: &FieldDesc, m: &MessageDesc) -> (r: bool)
    ensures
        r == in_synthetic_oneof(*f, *m),
{
    match f.oneof_index {
        Some(k) => {
            if k < 0 || k as usize >= m.oneof_decl.len() {
                return false;
            }
            starts_with_underscore(m.oneof_decl[k as usize].as_str())
        },
        None => false,
    }
}

/// Whether `n` is the nested type that `f` names.
fn names_nested_type(f: &FieldDesc, n: &MessageDesc) -> (r: bool)
    ensures
        r == names_nested(*f, *n),
{
    ends_with_dot_name(f.type_ref.as_str(), n.name.as_str()) || str_eq(f.type_ref.as_str(), n.name.as_str())
}

/// Whether `f` is a map field of `m`.
fn is_map(f: &FieldDesc, m: &MessageDesc) -> (r: bool)
    ensures
        r == is_map_field(*f, *m),
{
    if !(f.label == Label::Repeated && f.field_type == FieldType::Message) {
        return false;
    }
    let n: usize = m.nested_type.len();
    let mut i: usize = 0;
    while i < n
        invariant
            n == m.nested_type@.len(),
            i <= n,
            named_nested_from(*f, *m, 0) == named_nested_from(*f, *m, i as nat),
            f.label == Label::Repeated && f.field_type == FieldType::Message,
        decreases n - i,
    {
        if names_nested_type(f, &m.nested_type[i]) {
            assert(named_nested_from(*f, *m, i as nat) == Some(i as nat));
            return m.nested_type[i].map_entry;
        }
        i = i + 1;
    }
    false
}

/// The first field of `fs` numbered `num`.
fn find_numbered<'a>(fs: &'a Vec<FieldDesc>, num: i32) -> (r: Option<&'a FieldDesc>)
    ensures
        match r {
            Some(f) => numbered_from(fs@, num, 0) == Some(*f),
            None => numbered_from(fs@, num, 0) is None,
        },
{
    let n: usize = fs.len();
    let mut i: usize = 0;
    while i < n
        invariant
            n == fs@.len(),
            i <= n,
            numbered_from(fs@, num, 0) == numbered_from(fs@, num, i as nat),
        decreases n - i,
    {
        if fs[i].number == num {
            return Some(&fs[i]);
        }
        i = i + 1;
    }
    None
}

/// Appends what follows the label of a map field: `map<K, V> name = N;`,
/// or the plain declaration when no usable entry type is found.
fn write_map_body(out: &mut String, f: &FieldDesc, m: &MessageDesc)
    ensures
        final(out)@ == old(out)@ + (match entry_fields_from(*f, *m, 0) {
            Some((k, v)) => "map<"@ + type_text(k) + ", "@ + type_text(v) + "> "@ + f.name@ + " = "@
                + int_text(f.number as int) + ";\n"@,
            None => field_decl(*f) + ";\n"@,
        }),
{
    let n: usize = m.nested_type.len();
    let mut i: usize = 0;
    while i < n
        invariant
            n == m.nested_type@.len(),
            i <= n,
            entry_fields_from(*f, *m, 0) == entry_fields_from(*f, *m, i as nat),
            out@ == old(out)@,
        decreases n - i,
    {
        let nested = &m.nested_type[i];
        if names_nested_type(f, nested) && nested.map_entry {
            let key = find_numbered(&nested.field, 1);
            let value = find_numbered(&nested.field, 2);
            match (key, value) {
                (Some(k), Some(v)) => {
                    out.append("map<");
                    push_type(out, k);
                    out.append(", ");
                    push_type(out, v);
                    out.append("> ");
                    out.append(f.name.as_str());
                    out.append(" = ");
                    push_int(out, f.number as i64);
                    out.append(";\n");
                    assert(entry_fields_from(*f, *m, i as nat) == Some((*k, *v)));
                    assert(final(out)@ =~= old(out)@ + ("map<"@ + type_text(*k) + ", "@ + type_text(*v) + "> "@
                        + f.name@ + " = "@ + int_text(f.number as int) + ";\n"@));
                    return;
                },
                _ => {},
            }
        }
        i = i + 1;
    }
    push_decl(out, f);
    out.append(";\n");
    assert(final(out)@ =~= old(out)@ + (field_decl(*f) + ";\n"@));
}

/// The options of a field, in the order written.
fn field_option_list(f: &FieldDesc, syn: ProtoSyntax) -> (r: Vec<String>)
    ensures
        views(r@) == field_options(*f, syn),
{
    let mut opts: Vec<String> = Vec::new();
    assert(views(opts@) =~= Seq::<Seq<char>>::empty());
    if syn == ProtoSyntax::Proto2 {
        match &f.default_value {
            Some(d) => {
                let mut s = String::from_str("default = ");
                if f.field_type == FieldType::String || f.field_type == FieldType::Bytes {
                    let e = escape_string(d.as_str());
                    push_quoted(&mut s, e.as_str());
                } else {
                    s.append(d.as_str());
                }
                let ghost before = opts@;
                opts.push(s);
                assert(views(opts@) =~= views(before).push(s@));
            },
            None => {},
        }
    }
    assert(views(opts@) =~= default_option(*f, syn));
    let ghost after_default = opts@;
    match &f.json_name {
        Some(j) => {
            let c = to_lower_camel_case(f.name.as_str());
            if !str_eq(j.as_str(), c.as_str()) {
                let mut s = String::from_str("json_name = ");
                push_quoted(&mut s, j.as_str());
                opts.push(s);
                assert(views(opts@) =~= views(after_default).push(s@));
            }
        },
        None => {},
    }
    assert(views(opts@) =~= default_option(*f, syn) + json_option(*f));
    let ghost after_json = opts@;
    match f.packed {
        Some(p) => {
            let mut s = String::from_str("packed = ");
            push_bool(&mut s, p);
            opts.push(s);
            assert(views(opts@) =~= views(after_json).push(s@));
        },
        None => {},
    }
    assert(views(opts@) =~= default_option(*f, syn) + json_option(*f) + packed_option(*f));
    let ghost after_packed = opts@;
    match f.deprecated {
        Some(true) => {
            let s = String::from_str("deprecated = true");
            opts.push(s);
            assert(views(opts@) =~= views(after_packed).push(s@));
        },
        _ => {},
    }
    assert(views(opts@) =~= field_options(*f, syn));
    opts
}

/// Appends ` [a, b]` for a nonempty list of options.
fn push_options_suffix(out: &mut String, xs: &Vec<String>)
    ensures
        final(out)@ == old(out)@ + options_suffix(views(xs@)),
{
    let n: usize = xs.len();
    if n == 0 {
        assert(final(out)@ =~= old(out)@ + options_suffix(views(xs@)));
        return;
    }
    out.append(" [");
    let ghost start = out@;
    let mut i: usize = 0;
    while i < n
        invariant
            n == xs@.len(),
            i <= n,
            out@ == start + joined(views(xs@), i as nat),
        decreases n - i,
    {
        if i > 0 {
            out.append(", ");
        }
        out.append(xs[i].as_str());
        assert(views(xs@)[i as int] == xs@[i as int]@);
        assert(out@ =~= start + joined(views(xs@), (i + 1) as nat)) by {
            if i > 0 {
                assert(start + joined(views(xs@), (i + 1) as nat) =~= start + joined(views(xs@), i as nat)
                    + ", "@ + views(xs@)[i as int]);
            }
        }
        i = i + 1;
    }
    out.append("]");
    assert(final(out)@ =~= old(out)@ + options_suffix(views(xs@)));
}

/// Appends the label of a field of `m` and a space, if it has one.
fn write_label(out: &mut String, f: &FieldDesc, syn: ProtoSyntax, m: &MessageDesc)
    ensures
        final(out)@ == old(out)@ + (if label_text(*f, syn, *m).len() > 0 {
            label_text(*f, syn, *m) + " "@
        } else {
            Seq::empty()
        }),
{
    proof {
        reveal_strlit("repeated");
        reveal_strlit("required");
        reveal_strlit("optional");
    }
    match f.label {
        Label::Repeated => {
            if !is_map(f, m) {
                out.append("repeated");
                out.append(" ");
            }
        },
        Label::Required => {
            out.append("required");
            out.append(" ");
        },
        Label::Optional => {
            if syn == ProtoSyntax::Proto2 || is_proto3_optional(f, m) {
                out.append("optional");
                out.append(" ");
            }
        },
    }
    assert(final(out)@ =~= old(out)@ + (if label_text(*f, syn, *m).len() > 0 {
        label_text(*f, syn, *m) + " "@
    } else {
        Seq::empty()
    }));
}

/// Appends the line of a regular field of `m`.
fn write_field(out: &mut String, f: &FieldDesc, syn: ProtoSyntax, m: &MessageDesc, ind: &str)
    ensures
        final(out)@ == old(out)@ + field_line(*f, syn, *m, ind@),
{
    out.append(ind);
    write_label(out, f, syn, m);
    let ghost mid = out@;
    if is_map(f, m) {
        write_map_body(out, f, m);
    } else {
        push_decl(out, f);
        let opts = field_option_list(f, syn);
        push_options_suffix(out, &opts);
        out.append(";\n");
    }
    assert(out@ =~= mid + field_body(*f, syn, *m));
    proof {
        reveal(field_line);
    }
    assert(final(out)@ =~= old(out)@ + field_line(*f, syn, *m, ind@));
}

/// Whether `f` is a member of the real oneof `i` of `m`.
fn is_in_oneof(f: &FieldDesc, m: &MessageDesc, i: usize) -> (r: bool)
    ensures
        r == in_oneof(*f, *m, i as int),
{
    match f.oneof_index {
        Some(k) => k >= 0 && k as usize == i && !is_proto3_optional(f, m),
        None => false,
    }
}

/// Appends the block of oneof `i` of `m`, if any field is a member.
fn write_oneof(out: &mut String, m: &MessageDesc, i: usize, u: &str, ind: &str)
    requires
        i < m.oneof_decl@.len(),
    ensures
        final(out)@ == old(out)@ + oneof_block(*m, i as int, u@, ind@),
{
    let inner = deeper(ind, u);
    let mut body = String::new();
    let n: usize = m.field.len();
    let mut j: usize = 0;
    while j < n
        invariant
            n == m.field@.len(),
            j <= n,
            body@ == oneof_members(*m, i as int, j as nat, inner@),
        decreases n - j,
    {
        let f = &m.field[j];
        if is_in_oneof(f, m, i) {
            body.append(inner.as_str());
            push_decl(&mut body, f);
            body.append(";\n");
        }
        assert(body@ =~= oneof_members(*m, i as int, (j + 1) as nat, inner@));
        j = j + 1;
    }
    if body.as_str().unicode_len() > 0 {
        out.append(ind);
        out.append("oneof ");
        out.append(m.oneof_decl[i].as_str());
        out.append(" {\n");
        out.append(body.as_str());
        out.append(ind);
        out.append("}\n");
    }
    proof {
        reveal(oneof_block);
    }
    assert(final(out)@ =~= old(out)@ + oneof_block(*m, i as int, u@, ind@));
}

/// Appends an `extend` block.
fn write_extension(out: &mut String, x: &FieldDesc, syn: ProtoSyntax, u: &str, ind: &str)
    ensures
        final(out)@ == old(out)@ + extension_text(*x, syn, u@, ind@),
{
    out.append(ind);
    out.append("extend ");
    out.append(x.extendee.as_str());
    out.append(" {\n");
    out.append(ind);
    out.append(u);
    let ghost before_label = out@;
    match x.label {
        Label::Repeated => out.append("repeated "),
        Label::Required => out.append("required "),
        Label::Optional => {
            if syn == ProtoSyntax::Proto2 {
                out.append("optional ");
            }
        },
    }
    assert(out@ =~= before_label + extension_label(*x, syn));
    push_decl(out, x);
    out.append(";\n");
    out.append(ind);
    out.append("}\n");
    out.append("\n");
    proof {
        reveal(extension_text);
    }
    assert(final(out)@ =~= old(out)@ + extension_text(*x, syn, u@, ind@));
}

/// Appends a message block, nested types included.
#[verifier::rlimit(100)]
pub(crate) fn write_message(out: &mut String, m: &MessageDesc, syn: ProtoSyntax, u: &str, ind: &str)
    ensures
        final(out)@ == old(out)@ + message_text(*m, syn, u@, ind@),
    decreases m, 1nat,
{
    let inner = deeper(ind, u);
    out.append("message ");
    out.append(m.name.as_str());
    out.append(" {\n");
    let ghost g0 = out@;
    write_reserved_names(out, &m.reserved_name, inner.as_str());
    write_message_ranges(out, &m.reserved_range, inner.as_str());
    let ghost g1 = out@;
    write_nested(out, m, syn, u, inner.as_str());
    write_enums(out, &m.enum_type, u, inner.as_str());
    write_oneofs(out, m, u, inner.as_str());
    write_regular_fields(out, m, syn, inner.as_str());
    write_extensions(out, &m.extension, syn, u, inner.as_str());
    write_extension_ranges(out, &m.extension_range, inner.as_str());
    let ghost g7 = out@;
    out.append(ind);
    out.append("}\n");
    out.append("\n");
    proof {
        lemma_message_text(*m, syn, u@, ind@);
        assert(g0 =~= old(out)@ + ("message "@ + m.name@ + " {\n"@));
        assert(g1 =~= g0 + (reserved_names_line(m.reserved_name@, inner@) + message_ranges_line(
            m.reserved_range@,
            inner@,
        )));
        assert(out@ =~= g7 + (ind@ + "}\n"@ + "\n"@));
        assert(out@ =~= old(out)@ + message_text(*m, syn, u@, ind@));
    }
}

/// Appends the blocks of the nested types of `m`, map entries left out.
fn write_nested(out: &mut String, m: &MessageDesc, syn: ProtoSyntax, u: &str, inner: &str)
    ensures
        final(out)@ == old(out)@ + nested_messages(*m, m.nested_type@.len(), syn, u@, inner@),
    decreases m, 0nat,
{
    let nn: usize = m.nested_type.len();
    let mut i: usize = 0;
    proof {
        assert(nested_messages(*m, 0, syn, u@, inner@) == Seq::<char>::empty());
        assert(old(out)@ + nested_messages(*m, 0, syn, u@, inner@) =~= old(out)@);
    }
    while i < nn
        invariant
            nn == m.nested_type@.len(),
            i <= nn,
            out@ == old(out)@ + nested_messages(*m, i as nat, syn, u@, inner@),
        decreases nn - i,
    {
        let nested = &m.nested_type[i];
        let ghost before = out@;
        if !nested.map_entry {
            write_message(out, nested, syn, u, inner);
        }
        proof {
                let piece = if m.nested_type[i as int].map_entry {
                Seq::<char>::empty()
            } else {
                message_text(m.nested_type[i as int], syn, u@, inner@)
            };
            assert(out@ =~= before + piece);
            assert(nested_messages(*m, (i + 1) as nat, syn, u@, inner@) == nested_messages(
                *m,
                i as nat,
                syn,
                u@,
                inner@,
            ) + piece);
            assert(out@ =~= old(out)@ + nested_messages(*m, (i + 1) as nat, syn, u@, inner@));
        }
        i = i + 1;
    }
}

/// Appends the blocks of the enums `es`.
fn write_enums(out: &mut String, es: &Vec<EnumDesc>, u: &str, ind: &str)
    ensures
        final(out)@ == old(out)@ + enums_text(es@, es@.len(), u@, ind@),
{
    let ne: usize = es.len();
    let mut i: usize = 0;
    while i < ne
        invariant
            ne == es@.len(),
            i <= ne,
            out@ == old(out)@ + enums_text(es@, i as nat, u@, ind@),
        decreases ne - i,
    {
        write_enum(out, &es[i], u, ind);
        assert(out@ =~= old(out)@ + enums_text(es@, (i + 1) as nat, u@, ind@));
        i = i + 1;
    }
}

/// Appends the oneof blocks of `m`.
fn write_oneofs(out: &mut String, m: &MessageDesc, u: &str, inner: &str)
    ensures
        final(out)@ == old(out)@ + oneof_blocks(*m, m.oneof_decl@.len(), u@, inner@),
{
    let no: usize = m.oneof_decl.len();
    let mut i: usize = 0;
    while i < no
        invariant
            no == m.oneof_decl@.len(),
            i <= no,
            out@ == old(out)@ + oneof_blocks(*m, i as nat, u@, inner@),
        decreases no - i,
    {
        write_oneof(out, m, i, u, inner);
        assert(out@ =~= old(out)@ + oneof_blocks(*m, (i + 1) as nat, u@, inner@));
        i = i + 1;
    }
}

/// Appends the regular field lines of `m`.
fn write_regular_fields(out: &mut String, m: &MessageDesc, syn: ProtoSyntax, inner: &str)
    ensures
        final(out)@ == old(out)@ + regular_fields(*m, m.field@.len(), syn, inner@),
{
    let nf: usize = m.field.len();
    let mut i: usize = 0;
    while i < nf
        invariant
            nf == m.field@.len(),
            i <= nf,
            out@ == old(out)@ + regular_fields(*m, i as nat, syn, inner@),
        decreases nf - i,
    {
        let f = &m.field[i];
        if f.oneof_index.is_none() || is_proto3_optional(f, m) {
            write_field(out, f, syn, m, inner);
        }
        assert(out@ =~= old(out)@ + regular_fields(*m, (i + 1) as nat, syn, inner@));
        i = i + 1;
    }
}

/// Appends the `extend` blocks of `xs`.
fn write_extensions(out: &mut String, xs: &Vec<FieldDesc>, syn: ProtoSyntax, u: &str, ind: &str)
    ensures
        final(out)@ == old(out)@ + extensions_text(xs@, xs@.len(), syn, u@, ind@),
{
    let nx: usize = xs.len();
    let mut i: usize = 0;
    while i < nx
        invariant
            nx == xs@.len(),
            i <= nx,
            out@ == old(out)@ + extensions_text(xs@, i as nat, syn, u@, ind@),
        decreases nx - i,
    {
        write_extension(out, &xs[i], syn, u, ind);
        assert(out@ =~= old(out)@ + extensions_text(xs@, (i + 1) as nat, syn, u@, ind@));
        i = i + 1;
    }
}

/// Appends the `extensions` lines of `rs`.
fn write_extension_ranges(out: &mut String, rs: &Vec<NumberRange>, inner: &str)
    ensures
        final(out)@ == old(out)@ + extension_ranges(rs@, rs@.len(), inner@),
{
    let nr: usize = rs.len();
    let mut i: usize = 0;
    while i < nr
        invariant
            nr == rs@.len(),
            i <= nr,
            out@ == old(out)@ + extension_ranges(rs@, i as nat, inner@),
        decreases nr - i,
    {
        let r = &rs[i];
        out.append(inner);
        out.append("extensions ");
        push_int(out, r.start as i64);
        out.append(" to ");
        push_exclusive_end(out, r.end);
        out.append(";\n");
        assert(out@ =~= old(out)@ + extension_ranges(rs@, (i + 1) as nat, inner@));
        i = i + 1;
    }
}

/// Appends the line of a method.
fn write_method(out: &mut String, md: &MethodDesc, u: &str)
    ensures
        final(out)@ == old(out)@ + method_line(*md, u@),
{
    out.append(u);
    out.append("rpc ");
    out.append(md.name.as_str());
    out.append("(");
    let ghost a = out@;
    if md.client_streaming {
        out.append("stream ");
    }
    out.append(md.input_type.as_str());
    out.append(") returns (");
    if md.server_streaming {
        out.append("stream ");
    }
    out.append(md.output_type.as_str());
    out.append(");\n");
    assert(final(out)@ =~= old(out)@ + method_line(*md, u@));
}

/// Appends a service block.
fn write_service(out: &mut String, s: &ServiceDesc, u: &str)
    ensures
        final(out)@ == old(out)@ + service_text(*s, u@),
{
    out.append("service ");
    out.append(s.name.as_str());
    out.append(" {\n");
    let ghost start = out@;
    let n: usize = s.method.len();
    let mut i: usize = 0;
    while i < n
        invariant
            n == s.method@.len(),
            i <= n,
            out@ == start + methods_text(s.method@, i as nat, u@),
        decreases n - i,
    {
        write_method(out, &s.method[i], u);
        assert(out@ =~= start + methods_text(s.method@, (i + 1) as nat, u@));
        i = i + 1;
    }
    out.append("}\n");
    out.append("\n");
    proof {
        reveal(service_text);
    }
    assert(final(out)@ =~= old(out)@ + service_text(*s, u@));
}

/// Appends a string file option, when present and not empty.
fn write_string_option(out: &mut String, name: &str, v: &Option<String>)
    ensures
        final(out)@ == old(out)@ + string_option_line(name@, *v),
{
    match v {
        Some(s) => {
            if s.as_str().unicode_len() > 0 {
                out.append("option ");
                out.append(name);
                out.append(" = ");
                let e = escape_string(s.as_str());
                push_quoted(out, e.as_str());
                out.append(";\n");
            }
        },
        None => {},
    }
    assert(final(out)@ =~= old(out)@ + string_option_line(name@, *v));
}

/// Appends a flag file option, when present.
fn write_bool_option(out: &mut String, name: &str, v: Option<bool>)
    ensures
        final(out)@ == old(out)@ + bool_option_line(name@, v),
{
    match v {
        Some(b) => {
            out.append("option ");
            out.append(name);
            out.append(" = ");
            push_bool(out, b);
            out.append(";\n");
        },
        None => {},
    }
    assert(final(out)@ =~= old(out)@ + bool_option_line(name@, v));
}

/// Appends the file options block.
fn write_file_options(out: &mut String, opts: &Option<FileOptionsDesc>)
    ensures
        final(out)@ == old(out)@ + file_options_text(*opts),
{
    match opts {
        Some(o) => {
            let mut t = String::new();
            write_string_option(&mut t, "java_package", &o.java_package);
            write_string_option(&mut t, "java_outer_classname", &o.java_outer_classname);
            write_bool_option(&mut t, "java_multiple_files", o.java_multiple_files);
            write_bool_option(&mut t, "java_string_check_utf8", o.java_string_check_utf8);
            write_string_option(&mut t, "go_package", &o.go_package);
            write_bool_option(&mut t, "cc_enable_arenas", o.cc_enable_arenas);
            write_string_option(&mut t, "objc_class_prefix", &o.objc_class_prefix);
            write_string_option(&mut t, "csharp_namespace", &o.csharp_namespace);
            write_string_option(&mut t, "swift_prefix", &o.swift_prefix);
            write_string_option(&mut t, "php_class_prefix", &o.php_class_prefix);
            write_string_option(&mut t, "php_namespace", &o.php_namespace);
            write_string_option(&mut t, "php_metadata_namespace", &o.php_metadata_namespace);
            write_string_option(&mut t, "ruby_package", &o.ruby_package);
            assert(t@ =~= file_option_lines(*o));
            out.append(t.as_str());
            if t.as_str().unicode_len() > 0 {
                out.append("\n");
            }
        },
        None => {},
    }
    proof {
        reveal(file_options_text);
    }
    assert(final(out)@ =~= old(out)@ + file_options_text(*opts));
}

/// Whether index `i` is listed in `idx`.
fn lists(idx: &Vec<i32>, i: usize) -> (r: bool)
    ensures
        r == lists_index(idx@, i as int),
{
    let n: usize = idx.len();
    let mut j: usize = 0;
    while j < n
        invariant
            n == idx@.len(),
            j <= n,
            forall|k: int| 0 <= k < j ==> idx@[k] as int != i as int,
        decreases n - j,
    {
        if idx[j] >= 0 && idx[j] as usize == i {
            return true;
        }
        j = j + 1;
    }
    false
}

/// Appends the imports block.
fn write_imports(out: &mut String, fd: &FileDesc)
    ensures
        final(out)@ == old(out)@ + imports_text(*fd),
{
    let n: usize = fd.dependency.len();
    if n == 0 {
        proof {
            reveal(imports_text);
        }
        assert(final(out)@ =~= old(out)@ + imports_text(*fd));
        return;
    }
    let ghost start = out@;
    let mut i: usize = 0;
    while i < n
        invariant
            n == fd.dependency@.len(),
            i <= n,
            out@ == start + import_lines(*fd, i as nat),
        decreases n - i,
    {
        out.append("import ");
        if lists(&fd.public_dependency, i) {
            out.append("public ");
        } else if lists(&fd.weak_dependency, i) {
            out.append("weak ");
        }
        push_quoted(out, fd.dependency[i].as_str());
        out.append(";\n");
        assert(out@ =~= start + import_lines(*fd, (i + 1) as nat));
        i = i + 1;
    }
    out.append("\n");
    proof {
        reveal(imports_text);
    }
    assert(final(out)@ =~= old(out)@ + imports_text(*fd));
}

/// Appends the service blocks of `ss`.
fn write_services(out: &mut String, ss: &Vec<ServiceDesc>, u: &str)
    ensures
        final(out)@ == old(out)@ + services_text(ss@, ss@.len(), u@),
{
    let ns: usize = ss.len();
    let mut i: usize = 0;
    while i < ns
        invariant
            ns == ss@.len(),
            i <= ns,
            out@ == old(out)@ + services_text(ss@, i as nat, u@),
        decreases ns - i,
    {
        write_service(out, &ss[i], u);
        assert(out@ =~= old(out)@ + services_text(ss@, (i + 1) as nat, u@));
        i = i + 1;
    }
}

/// Appends the top-level message blocks of `ms`.
fn write_messages(out: &mut String, ms: &Vec<MessageDesc>, syn: ProtoSyntax, u: &str)
    ensures
        final(out)@ == old(out)@ + top_messages(ms@, syn, u@),
{
    proof {
        reveal(top_messages);
    }
    let top = String::new();
    let nm: usize = ms.len();
    let mut i: usize = 0;
    while i < nm
        invariant
            nm == ms@.len(),
            i <= nm,
            top@ == Seq::<char>::empty(),
            out@ == old(out)@ + messages_text(ms@, i as nat, syn, u@),
        decreases nm - i,
    {
        write_message(out, &ms[i], syn, u, top.as_str());
        assert(out@ =~= old(out)@ + messages_text(ms@, (i + 1) as nat, syn, u@));
        i = i + 1;
    }
}

/// Appends the proto source of `fd` under syntax `syn`.
pub(crate) fn write_file(out: &mut String, fd: &FileDesc, syn: ProtoSyntax, u: &str)
    ensures
        final(out)@ == old(out)@ + file_text(*fd, syn, u@),
{
    out.append("syntax = \"");
    match syn {
        ProtoSyntax::Proto2 => out.append("proto2"),
        ProtoSyntax::Proto3 => out.append("proto3"),
    }
    out.append("\";\n");
    out.append("\n");
    let ghost g0 = out@;
    if fd.package.as_str().unicode_len() > 0 {
        out.append("package ");
        out.append(fd.package.as_str());
        out.append(";\n");
        out.append("\n");
    }
    let ghost g1 = out@;
    write_file_options(out, &fd.options);
    let ghost g2 = out@;
    write_imports(out, fd);
    let ghost g3 = out@;
    write_services(out, &fd.service, u);
    let ghost g4 = out@;
    write_messages(out, &fd.message_type, syn, u);
    let ghost g5 = out@;
    let top = String::new();
    write_enums(out, &fd.enum_type, u, top.as_str());
    let ghost g6 = out@;
    write_extensions(out, &fd.extension, syn, u, top.as_str());
    proof {
        lemma_file_text(*fd, syn, u@);
        assert(g0 =~= old(out)@ + ("syntax = \""@ + syntax_text(syn) + "\";\n"@ + "\n"@));
        assert(g1 =~= g0 + package_text(*fd));
        assert(out@ =~= old(out)@ + file_text(*fd, syn, u@));
    }
}

} // verus!
