use zarja::binary::{is_executable_magic, is_likely_binary, is_skipped_extension};

#[test]
fn test_is_likely_binary() {
    assert!(!is_likely_binary(Some("txt"), None, None));
    assert!(!is_likely_binary(Some("json"), None, None));
    assert!(!is_likely_binary(Some("proto"), None, None));
}

#[test]
fn extension_case_is_ignored() {
    assert!(is_skipped_extension("TXT"));
    assert!(is_skipped_extension("Json"));
    assert!(!is_skipped_extension("so"));
    assert!(!is_skipped_extension("exe"));
}

#[test]
fn magic_bytes() {
    assert!(is_executable_magic(&[0x7F, b'E', b'L', b'F']));
    assert!(is_executable_magic(&[0xCF, 0xFA, 0xED, 0xFE]));
    assert!(is_executable_magic(&[0xCA, 0xFE, 0xBA, 0xBE]));
    assert!(is_executable_magic(&[b'M', b'Z', 0x90, 0x00]));
    assert!(!is_executable_magic(&[0x00, 0x01, 0x02, 0x03]));
    assert!(!is_executable_magic(&[0x7F, b'E', b'L']));
}

#[test]
fn size_window_and_fallback() {
    let elf: &[u8] = &[0x7F, b'E', b'L', b'F'];
    assert!(is_likely_binary(Some("so"), Some(4096), Some(elf)));
    assert!(!is_likely_binary(Some("so"), Some(1023), Some(elf)));
    assert!(!is_likely_binary(None, Some(500 * 1024 * 1024 + 1), Some(elf)));
    assert!(is_likely_binary(None, Some(2048), Some(&[0, 0, 0, 0])));
    assert!(!is_likely_binary(Some("dat"), Some(2048), Some(&[0, 0, 0, 0])));
}
