use zarja::descriptor::{
    EnumDesc, EnumValueDesc, FieldDesc, FieldType, FileDesc, FileOptionsDesc, Label, MessageDesc, MethodDesc,
    NumberRange, ServiceDesc,
};
use zarja::proto::{NullWriter, ProtoReconstructor, ProtoWriter, ReconstructorConfig, StatsWriter};
use zarja::render::ProtoSyntax;
use zarja::error::Error;
use zarja::text::{escape_string, to_lower_camel_case};

#[test]
fn test_escape_string() {
    assert_eq!(escape_string("hello"), "hello");
    assert_eq!(escape_string("hello\\world"), "hello\\\\world");
    assert_eq!(escape_string("hello\"world"), "hello\\\"world");
    assert_eq!(escape_string("hello\nworld"), "hello\\nworld");
}

#[test]
fn escape_string_controls() {
    assert_eq!(escape_string("a\tb\rc"), "a\\tb\\rc");
    assert_eq!(escape_string("\u{1}\u{1f}\u{7f}"), "\\x01\\x1f\\x7f");
    assert_eq!(escape_string("é✓"), "é✓");
    assert_eq!(escape_string(""), "");
}

#[test]
fn test_to_lower_camel_case() {
    assert_eq!(to_lower_camel_case("hello_world"), "helloWorld");
    assert_eq!(to_lower_camel_case("my_field_name"), "myFieldName");
    assert_eq!(to_lower_camel_case("simple"), "simple");
}

#[test]
fn lower_camel_case_edges() {
    assert_eq!(to_lower_camel_case("a__b"), "aB");
    assert_eq!(to_lower_camel_case("trailing_"), "trailing");
    assert_eq!(to_lower_camel_case("x_1y"), "x1y");
    assert_eq!(to_lower_camel_case(""), "");
}

#[test]
fn test_proto_syntax() {
    assert_eq!(ProtoSyntax::try_from("").unwrap(), ProtoSyntax::Proto2);
    assert_eq!(ProtoSyntax::try_from("proto2").unwrap(), ProtoSyntax::Proto2);
    assert_eq!(ProtoSyntax::try_from("proto3").unwrap(), ProtoSyntax::Proto3);
    assert!(ProtoSyntax::try_from("proto4").is_err());
}

#[test]
fn syntax_keywords() {
    assert_eq!(ProtoSyntax::Proto2.as_str(), "proto2");
    assert_eq!(ProtoSyntax::Proto3.as_str(), "proto3");
}

#[test]
fn test_null_writer() {
    let mut writer = NullWriter;
    assert!(writer.write_file(&FileDesc::default()).is_ok());
}

#[test]
fn test_stats_writer() {
    let mut writer = StatsWriter::default();
    writer.write_message(&MessageDesc::default()).unwrap();
    writer.write_message(&MessageDesc::default()).unwrap();
    writer.write_field(&FieldDesc::default()).unwrap();

    assert_eq!(writer.message_count, 2);
    assert_eq!(writer.field_count, 1);
}

fn s(x: &str) -> String {
    x.to_string()
}

fn field(name: &str, number: i32, label: Label, field_type: FieldType) -> FieldDesc {
    FieldDesc { name: s(name), number, label, field_type, ..Default::default() }
}

fn file(syntax: &str, messages: Vec<MessageDesc>) -> FileDesc {
    FileDesc { name: s("a.proto"), syntax: s(syntax), message_type: messages, ..Default::default() }
}

fn render(fd: FileDesc) -> String {
    ProtoReconstructor::from_proto(fd).unwrap().reconstruct()
}

#[test]
fn scalar_field_proto3() {
    let m = MessageDesc {
        name: s("M"),
        field: vec![field("s", 1, Label::Optional, FieldType::String)],
        ..Default::default()
    };
    assert_eq!(render(file("proto3", vec![m])), "syntax = \"proto3\";\n\nmessage M {\n  string s = 1;\n}\n\n");
}

#[test]
fn proto2_default_and_json_name() {
    let mut f = field("s", 1, Label::Optional, FieldType::String);
    f.default_value = Some(s("x\"y"));
    f.json_name = Some(s("sJson"));
    let m = MessageDesc { name: s("M"), field: vec![f], ..Default::default() };
    let out = render(file("proto2", vec![m]));
    assert!(out.starts_with("syntax = \"proto2\";\n\n"));
    assert!(out.contains("  optional string s = 1 [default = \"x\\\"y\", json_name = \"sJson\"];\n"));
}

#[test]
fn json_name_matching_default_is_omitted() {
    let mut f = field("my_field", 3, Label::Optional, FieldType::Int64);
    f.json_name = Some(s("myField"));
    f.packed = Some(false);
    f.deprecated = Some(true);
    let m = MessageDesc { name: s("M"), field: vec![f], ..Default::default() };
    let out = render(file("proto3", vec![m]));
    assert!(out.contains("  int64 my_field = 3 [packed = false, deprecated = true];\n"));
}

#[test]
fn proto3_explicit_optional() {
    let mut f = field("x", 1, Label::Optional, FieldType::Int32);
    f.oneof_index = Some(0);
    let m = MessageDesc { name: s("M"), field: vec![f], oneof_decl: vec![s("_x")], ..Default::default() };
    let out = render(file("proto3", vec![m]));
    assert!(out.contains("  optional int32 x = 1;\n"));
    assert!(!out.contains("oneof"));
}

#[test]
fn real_oneof_block() {
    let mut a = field("a", 1, Label::Optional, FieldType::String);
    a.oneof_index = Some(0);
    let mut b = field("b", 2, Label::Optional, FieldType::Int32);
    b.oneof_index = Some(0);
    let c = field("c", 3, Label::Repeated, FieldType::Bool);
    let m = MessageDesc {
        name: s("M"),
        field: vec![a, b, c],
        oneof_decl: vec![s("choice"), s("unused")],
        ..Default::default()
    };
    let out = render(file("proto3", vec![m]));
    assert_eq!(
        out,
        "syntax = \"proto3\";\n\nmessage M {\n  oneof choice {\n    string a = 1;\n    int32 b = 2;\n  }\n  repeated bool c = 3;\n}\n\n"
    );
}

#[test]
fn map_field() {
    let entry = MessageDesc {
        name: s("MEntry"),
        field: vec![field("key", 1, Label::Optional, FieldType::String), field("value", 2, Label::Optional, FieldType::Int32)],
        map_entry: true,
        ..Default::default()
    };
    let mut f = field("m", 5, Label::Repeated, FieldType::Message);
    f.type_ref = s(".M.MEntry");
    let m = MessageDesc { name: s("M"), field: vec![f], nested_type: vec![entry], ..Default::default() };
    let out = render(file("proto3", vec![m]));
    assert!(out.contains("  map<string, int32> m = 5;\n"));
    assert!(!out.contains("message MEntry"));
}

#[test]
fn reserved_ranges_with_max() {
    let m = MessageDesc {
        name: s("M"),
        reserved_range: vec![NumberRange { start: 100, end: 200 }, NumberRange { start: 1000, end: 536_870_912 }],
        reserved_name: vec![s("foo"), s("bar")],
        ..Default::default()
    };
    let out = render(file("proto2", vec![m]));
    assert!(out.contains("  reserved \"foo\", \"bar\";\n  reserved 100 to 199, 1000 to max;\n"));
}

#[test]
fn single_reserved_number_and_extensions() {
    let m = MessageDesc {
        name: s("M"),
        reserved_range: vec![NumberRange { start: 7, end: 8 }],
        extension_range: vec![NumberRange { start: 100, end: 200 }, NumberRange { start: 1000, end: 536_870_912 }],
        ..Default::default()
    };
    let out = render(file("proto2", vec![m]));
    assert!(out.contains("  reserved 7;\n  extensions 100 to 199;\n  extensions 1000 to max;\n"));
}

#[test]
fn enum_block() {
    let e = EnumDesc {
        name: s("E"),
        value: vec![
            EnumValueDesc { name: s("A"), number: 0, deprecated: false },
            EnumValueDesc { name: s("B"), number: -1, deprecated: true },
        ],
        allow_alias: true,
        reserved_range: vec![NumberRange { start: 5, end: 5 }, NumberRange { start: 10, end: i32::MAX }],
        reserved_name: vec![s("OLD")],
    };
    let fd = FileDesc { syntax: s("proto3"), enum_type: vec![e], ..Default::default() };
    assert_eq!(
        render(fd),
        "syntax = \"proto3\";\n\nenum E {\n  option allow_alias = true;\n  reserved 5, 10 to max;\n  reserved \"OLD\";\n  A = 0;\n  B = -1 [deprecated = true];\n}\n\n"
    );
}

#[test]
fn file_header_options_imports_services() {
    let opts = FileOptionsDesc {
        java_package: Some(s("com.example")),
        java_multiple_files: Some(true),
        go_package: Some(s("example.com/p;p")),
        objc_class_prefix: Some(s("")),
        ..Default::default()
    };
    let svc = ServiceDesc {
        name: s("S"),
        method: vec![MethodDesc {
            name: s("Call"),
            input_type: s(".p.Req"),
            output_type: s(".p.Resp"),
            client_streaming: true,
            server_streaming: false,
        }],
    };
    let fd = FileDesc {
        name: s("dir/a.proto"),
        package: s("p"),
        syntax: s("proto3"),
        dependency: vec![s("x.proto"), s("y.proto"), s("z.proto")],
        public_dependency: vec![1],
        weak_dependency: vec![2],
        service: vec![svc],
        options: Some(opts),
        ..Default::default()
    };
    let r = ProtoReconstructor::from_proto(fd).unwrap();
    assert_eq!(
        r.reconstruct(),
        "syntax = \"proto3\";\n\npackage p;\n\noption java_package = \"com.example\";\noption java_multiple_files = true;\noption go_package = \"example.com/p;p\";\n\nimport \"x.proto\";\nimport public \"y.proto\";\nimport weak \"z.proto\";\n\nservice S {\n  rpc Call(stream .p.Req) returns (.p.Resp);\n}\n\n"
    );
    assert_eq!(r.filename(), "dir/a.proto");
    assert_eq!(r.output_filename(), "example.com/p/a.proto");
    assert_eq!(r.syntax(), ProtoSyntax::Proto3);
}

#[test]
fn extensions_and_nested_messages() {
    let mut x = field("ext", 100, Label::Optional, FieldType::Message);
    x.type_ref = s(".p.V");
    x.extendee = s(".p.Base");
    let inner = MessageDesc {
        name: s("Inner"),
        field: vec![field("g", 1, Label::Required, FieldType::Group)],
        ..Default::default()
    };
    let outer = MessageDesc { name: s("Outer"), nested_type: vec![inner], ..Default::default() };
    let fd = FileDesc { syntax: s("proto2"), message_type: vec![outer], extension: vec![x], ..Default::default() };
    assert_eq!(
        render(fd),
        "syntax = \"proto2\";\n\nmessage Outer {\nmessage Inner {\n    required group g = 1;\n  }\n\n}\n\nextend .p.Base {\n  optional .p.V ext = 100;\n}\n\n"
    );
}

#[test]
fn custom_indent() {
    let m = MessageDesc {
        name: s("M"),
        field: vec![field("s", 1, Label::Optional, FieldType::Bytes)],
        ..Default::default()
    };
    let r = ProtoReconstructor::from_proto(file("", vec![m]))
        .unwrap()
        .with_config(ReconstructorConfig::new().indent_str("\t"));
    assert_eq!(r.syntax(), ProtoSyntax::Proto2);
    assert_eq!(r.reconstruct(), "syntax = \"proto2\";\n\nmessage M {\n\toptional bytes s = 1;\n}\n\n");
    assert_eq!(r.output_filename(), "a.proto");
}

#[test]
fn unsupported_syntax_fails() {
    match ProtoReconstructor::from_proto(file("proto4", vec![])) {
        Err(Error::UnsupportedSyntax { syntax }) => assert_eq!(syntax, "proto4"),
        other => panic!("unexpected {:?}", other.map(|r| r.reconstruct())),
    }
    assert!(ProtoReconstructor::from_proto(file("weird", vec![])).is_err());
}

#[test]
fn output_filename_uses_last_path_component() {
    let with = |name: &str, go: &str| {
        let fd = FileDesc {
            name: s(name),
            syntax: s("proto3"),
            options: Some(FileOptionsDesc { go_package: Some(s(go)), ..Default::default() }),
            ..Default::default()
        };
        ProtoReconstructor::from_proto(fd).unwrap().output_filename()
    };
    assert_eq!(with("a/b/c.proto", "example.com/x/y;y"), "example.com/x/y/c.proto");
    assert_eq!(with("c.proto", "example.com/x;x"), "example.com/x/c.proto");
    assert_eq!(with("a/b/", "example.com/x;x"), "example.com/x/b");
    assert_eq!(with("a/b/.", "example.com/x;x"), "example.com/x/b");
    assert_eq!(with("a/b/./", "example.com/x;x"), "example.com/x/b");
    assert_eq!(with(".", "example.com/x;x"), "example.com/x/.");
    assert_eq!(with("a/..", "example.com/x;x"), "example.com/x/a/..");
    assert_eq!(with("a/b.proto", "example.com/x"), "a/b.proto");
}

#[test]
fn reconstruct_is_deterministic() {
    let m = MessageDesc {
        name: s("M"),
        field: vec![field("s", 1, Label::Optional, FieldType::String)],
        ..Default::default()
    };
    let r = ProtoReconstructor::from_proto(file("proto3", vec![m])).unwrap();
    assert_eq!(r.reconstruct(), r.reconstruct());
    let mut out = String::from("// header\n");
    r.write_to(&mut out);
    assert_eq!(out, format!("// header\n{}", r.reconstruct()));
}

#[test]
fn config_defaults_and_builders() {
    let c = ReconstructorConfig::new();
    assert_eq!(c.indent_str, "  ");
    assert!(c.include_comments);
    assert!(!c.sort_fields);
    let c = c.include_comments(false).sort_fields(true).indent_str("    ");
    assert_eq!(c.indent_str, "    ");
    assert!(!c.include_comments);
    assert!(c.sort_fields);
}
