use zarja::error::Error;

#[test]
fn test_error_display() {
    let err = Error::path_traversal("/etc/passwd");
    assert!(err.message().contains("path traversal"));
    assert!(err.message().contains("/etc/passwd"));
}

#[test]
fn test_is_recoverable() {
    assert!(Error::descriptor_build("test").is_recoverable());
    assert!(!Error::path_traversal("/test").is_recoverable());
}

#[test]
fn error_messages() {
    assert_eq!(
        Error::invalid_wire_format(3, "bad").message(),
        "invalid protobuf wire format at offset 3: bad"
    );
    assert_eq!(
        Error::varint_decode(10).message(),
        "failed to decode varint at offset 10: buffer too small or invalid encoding"
    );
    assert_eq!(
        Error::InvalidFieldNumber { number: 0, max: 536_870_911 }.message(),
        "invalid field number 0: must be between 1 and 536870911"
    );
    assert_eq!(Error::internal("x").message(), "internal error: x");
    assert!(Error::invalid_wire_format(0, "").is_recoverable());
    assert!(!Error::varint_decode(0).is_recoverable());
}
