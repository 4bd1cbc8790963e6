use zarja::registry::{ConflictStrategy, ProtoRegistry};

const OUT_DIR: &str = "/tmp/registry-out";

#[test]
fn test_proto_registry_deduplication() {
    let mut registry = ProtoRegistry::new();

    let content = "syntax = \"proto3\";\npackage test;";
    let hash = ProtoRegistry::content_hash(content);

    let path1 = registry.register("test.proto", content, &hash, OUT_DIR, None, ConflictStrategy::HashSuffix);
    assert!(path1.is_some());
    assert!(path1.unwrap().ends_with("test.proto"));

    let path2 = registry.register("test.proto", content, &hash, OUT_DIR, None, ConflictStrategy::HashSuffix);
    assert!(path2.is_none());

    assert_eq!(registry.stats.duplicates_skipped, 1);
}

#[test]
fn test_proto_registry_conflict_hash_suffix() {
    let mut registry = ProtoRegistry::new();

    let content1 = "syntax = \"proto3\";\npackage test1;";
    let content2 = "syntax = \"proto3\";\npackage test2;";
    let hash1 = ProtoRegistry::content_hash(content1);
    let hash2 = ProtoRegistry::content_hash(content2);

    let path1 = registry.register("test.proto", content1, &hash1, OUT_DIR, None, ConflictStrategy::HashSuffix);
    assert!(path1.is_some());
    assert!(path1.unwrap().ends_with("test.proto"));

    let path2 = registry.register("test.proto", content2, &hash2, OUT_DIR, None, ConflictStrategy::HashSuffix);
    assert!(path2.is_some());
    let path2_str = path2.unwrap();
    assert!(path2_str.contains("test~"));
    assert!(path2_str.ends_with(".proto"));

    assert_eq!(registry.stats.conflicts_renamed, 1);
}

#[test]
fn test_add_suffix() {
    assert_eq!(ProtoRegistry::add_suffix("test.proto", "~abc123"), "test~abc123.proto");
    assert_eq!(ProtoRegistry::add_suffix("path/to/test.proto", "~abc123"), "path/to/test~abc123.proto");
}

#[test]
fn add_suffix_without_proto_extension() {
    assert_eq!(ProtoRegistry::add_suffix("notes.txt", "~x"), "notes.txt~x");
    assert_eq!(ProtoRegistry::add_suffix("", "~x"), "~x");
}

#[test]
fn test_content_hash() {
    let hash1 = ProtoRegistry::content_hash("hello");
    let hash2 = ProtoRegistry::content_hash("hello");
    let hash3 = ProtoRegistry::content_hash("world");

    assert_eq!(hash1, hash2);
    assert_ne!(hash1, hash3);
    assert_eq!(hash1.len(), 8);
}

#[test]
fn content_hash_is_blake3_prefix() {
    let full = blake3::hash(b"hello").to_hex().to_string();
    assert_eq!(ProtoRegistry::content_hash("hello"), full[..8]);
}

#[test]
fn conflict_strategies() {
    let mut registry = ProtoRegistry::new();
    assert_eq!(
        registry.register("a.proto", "x", "11111111", "out", None, ConflictStrategy::SkipConflicts),
        Some("out/a.proto".to_string())
    );
    assert_eq!(registry.register("a.proto", "y", "22222222", "out", None, ConflictStrategy::SkipConflicts), None);
    assert_eq!(
        registry.register("a.proto", "z", "33333333", "out/", Some("server"), ConflictStrategy::SourceSuffix),
        Some("out/a~from-server.proto".to_string())
    );
    assert_eq!(
        registry.register("a.proto", "w", "44444444", "", None, ConflictStrategy::SourceSuffix),
        Some("a~from-unknown.proto".to_string())
    );
    assert_eq!(registry.variant_count("a.proto"), 3);
    assert_eq!(registry.variant_count("b.proto"), 0);
    assert!(registry.is_duplicate("a.proto", "33333333"));
    assert!(!registry.is_duplicate("a.proto", "22222222"));
    assert_eq!(registry.stats.total_found, 4);
    assert_eq!(registry.stats.duplicates_skipped, 1);
    assert_eq!(registry.stats.conflicts_renamed, 2);
}

use zarja::descriptor::{FieldDesc, FieldType, FileDesc, Label, MessageDesc};
use zarja::extract::{plan_descriptor, Action, ExtractOptions, OutputFormat};

fn descriptor(name: &str, package: &str) -> FileDesc {
    FileDesc {
        name: name.to_string(),
        package: package.to_string(),
        syntax: "proto3".to_string(),
        message_type: vec![MessageDesc {
            name: "M".to_string(),
            field: vec![FieldDesc {
                name: "s".to_string(),
                number: 1,
                label: Label::Optional,
                field_type: FieldType::String,
                ..Default::default()
            }],
            ..Default::default()
        }],
        ..Default::default()
    }
}

fn options(list_only: bool, dry_run: bool, format: OutputFormat) -> ExtractOptions {
    ExtractOptions { list_only, dry_run, format, strategy: ConflictStrategy::HashSuffix }
}

#[test]
fn plan_writes_first_variant_and_renames_conflicts() {
    let mut registry = ProtoRegistry::new();
    let opts = options(false, false, OutputFormat::Proto);
    match plan_descriptor(&mut registry, descriptor("a.proto", "one"), opts, "out", None) {
        Action::Write { path, content } => {
            assert_eq!(path, "out/a.proto");
            assert_eq!(content, "syntax = \"proto3\";\n\npackage one;\n\nmessage M {\n  string s = 1;\n}\n\n");
        }
        other => panic!("unexpected {:?}", other),
    }
    assert!(matches!(plan_descriptor(&mut registry, descriptor("a.proto", "one"), opts, "out", None), Action::Skip));
    match plan_descriptor(&mut registry, descriptor("a.proto", "two"), opts, "out", None) {
        Action::Write { path, content } => {
            let hash = ProtoRegistry::content_hash(&content);
            assert_eq!(path, format!("out/a~{}.proto", hash));
        }
        other => panic!("unexpected {:?}", other),
    }
    assert_eq!(registry.stats.total_found, 3);
    assert_eq!(registry.stats.duplicates_skipped, 1);
    assert_eq!(registry.stats.conflicts_renamed, 1);
}

#[test]
fn plan_lists_names_and_ignores_other_files() {
    let mut registry = ProtoRegistry::new();
    let listed = plan_descriptor(&mut registry, descriptor("a.proto", "p"), options(true, false, OutputFormat::Proto), "out", None);
    assert!(matches!(listed, Action::PrintName(ref n) if n == "a.proto"));
    let named = plan_descriptor(&mut registry, descriptor("b.proto", "p"), options(false, false, OutputFormat::Filename), "out", None);
    assert!(matches!(named, Action::PrintName(ref n) if n == "b.proto"));
    let other = plan_descriptor(&mut registry, descriptor("c.txt", "p"), options(false, false, OutputFormat::Proto), "out", None);
    assert!(matches!(other, Action::Ignore));
    assert_eq!(registry.stats.total_found, 0);
    let dry = plan_descriptor(&mut registry, descriptor("d.proto", "p"), options(false, true, OutputFormat::Proto), "out", Some("bin"));
    assert!(matches!(dry, Action::WouldWrite { ref path, .. } if path == "out/d.proto"));
}

#[test]
fn plan_ignores_unsupported_syntax() {
    let mut registry = ProtoRegistry::new();
    let mut fd = descriptor("a.proto", "p");
    fd.syntax = "proto4".to_string();
    let action = plan_descriptor(&mut registry, fd, options(false, false, OutputFormat::Proto), "out", None);
    assert!(matches!(action, Action::Ignore));
    assert_eq!(registry.stats.total_found, 0);
}
