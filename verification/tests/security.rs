use jev_ops::engine::input::{accept_input, input_open_failed, missing_input_file};
use jev_ops::error::JevOpsError;
use jev_ops::packs::loader::{cannot_read, check_embedded_size, check_manifest_size, manifest_text, read_failed};
use jev_ops::security::limits::{MAX_MANIFEST_BYTES, MAX_PACK_NAME_LEN};
use jev_ops::security::validation::{detect_binary, validate_pack_name, validate_text_input};

#[test]
fn test_valid_text() {
    let text = b"Sep 19 12:00:00 server systemd: Started Service.";
    assert!(validate_text_input(text).is_ok());
}

#[test]
fn test_null_byte_detected() {
    let text = b"hello\x00world";
    assert!(validate_text_input(text).is_err());
}

#[test]
fn test_pack_name_rules() {
    assert!(validate_pack_name("linux").is_ok());
    assert!(validate_pack_name("k8s-core").is_ok());
    assert!(validate_pack_name("my_custom_pack").is_ok());
    assert!(validate_pack_name("Invalid-Case").is_err());
    assert!(validate_pack_name("-invalid").is_err());
    assert!(validate_pack_name("").is_err());
}

#[test]
fn test_security_invalid_utf8_detected() {
    let bad_bytes = [0xFF, 0xFE, 0xFD];
    assert!(validate_text_input(&bad_bytes).is_err());
}

#[test]
fn test_security_binary_detection_null_byte() {
    let data = b"Valid looking log line with embedded \x00 null byte";
    assert!(detect_binary(data));
}

#[test]
fn test_security_oversized_manifest_rejected() {
    let huge_content = format!(
        "api_version: \"jev-ops/v1\"\nkind: \"DiagnosticPack\"\n# {}\n",
        "A".repeat(MAX_MANIFEST_BYTES + 1024)
    );
    let res = check_manifest_size("pack.yaml", huge_content.len() as u64);
    assert!(res.is_err());
    assert!(res.unwrap_err().message().contains("exceeds limit of"));
}

#[test]
fn pack_name_messages() {
    let e = validate_pack_name("").unwrap_err();
    assert_eq!(e.message(), "Pack error: Pack name cannot be empty");
    let e = validate_pack_name("../packs/linux").unwrap_err();
    assert_eq!(
        e.message(),
        "Pack error: Pack name '../packs/linux' contains invalid characters. Use only lowercase alphanumeric and '-' or '_'"
    );
    let e = validate_pack_name("linux_").unwrap_err();
    assert_eq!(e.message(), "Pack error: Pack name 'linux_' cannot start or end with a hyphen or underscore");
    let long = "a".repeat(MAX_PACK_NAME_LEN + 1);
    let e = validate_pack_name(&long).unwrap_err();
    assert_eq!(
        e.message(),
        format!("Pack error: Pack name '{}' exceeds maximum allowed length of 64 characters", long)
    );
    assert!(validate_pack_name(&"a".repeat(MAX_PACK_NAME_LEN)).is_ok());
    assert_eq!(e.exit_code(), 3);
}

#[test]
fn pack_name_length_counts_bytes() {
    // 32 two-byte characters are 64 bytes: within the limit as length, refused as characters.
    let name = "\u{e9}".repeat(32);
    let e = validate_pack_name(&name).unwrap_err();
    assert!(e.message().contains("contains invalid characters"));
    let name = "\u{e9}".repeat(33);
    let e = validate_pack_name(&name).unwrap_err();
    assert!(e.message().contains("exceeds maximum allowed length"));
}

#[test]
fn binary_detection_threshold() {
    assert!(!detect_binary(b""));
    assert!(!detect_binary(b"plain text\nwith\ttabs\r\n"));
    // One control byte in a hundred is tolerated; more than five in a hundred are not.
    let mut mostly_text = vec![b'a'; 100];
    mostly_text[10] = 0x01;
    assert!(!detect_binary(&mostly_text));
    let mut noisy = vec![b'a'; 100];
    for i in 0..5 {
        noisy[i * 7] = 0x02;
    }
    assert!(!detect_binary(&noisy));
    noisy[99] = 0x1b;
    assert!(detect_binary(&noisy));
}

#[test]
fn text_input_errors() {
    let e = validate_text_input(&[0xC3]).unwrap_err();
    assert!(matches!(e, JevOpsError::InvalidUtf8(_)));
    assert!(e.message().starts_with("Invalid UTF-8 in input: "));
    let e = validate_text_input(b"a\x00b").unwrap_err();
    assert!(matches!(e, JevOpsError::BinaryContentDetected));
    assert_eq!(e.message(), "Binary or non-text data detected in input");
    assert_eq!(validate_text_input("caf\u{e9}".as_bytes()).unwrap(), "caf\u{e9}");
}

#[test]
fn input_acceptance() {
    let e = accept_input(b"", 10).err().unwrap();
    assert!(matches!(e, JevOpsError::EmptyInput));
    assert_eq!(e.message(), "Input is empty. Provide diagnostic data via stdin or --input");
    assert_eq!(e.exit_code(), 4);
    let e = accept_input(b"0123456789A", 10).err().unwrap();
    assert!(matches!(e, JevOpsError::InputTooLarge { bytes: 11, max_bytes: 10 }));
    assert_eq!(e.message(), "Input too large (11 bytes exceeds limit of 10 bytes)");
    let e = accept_input(b"\x00\x01\x02", 10).err().unwrap();
    assert!(matches!(e, JevOpsError::BinaryContentDetected));
    let d = accept_input(b"kernel: ok", 10).ok().unwrap();
    assert_eq!(d.text, "kernel: ok");
    assert_eq!(d.context.bytes, 10);
    assert!(!d.context.truncated);
}

#[test]
fn manifest_size_and_text_checks() {
    assert!(check_manifest_size("p.yaml", MAX_MANIFEST_BYTES as u64).is_ok());
    let e = check_manifest_size("p.yaml", MAX_MANIFEST_BYTES as u64 + 1).unwrap_err();
    assert_eq!(
        e.message(),
        "Pack error: Pack manifest 'p.yaml' size (262145 bytes) exceeds limit of 262144 bytes (256 KiB)"
    );
    assert!(check_embedded_size("<embedded:x>", MAX_MANIFEST_BYTES).is_ok());
    let e = check_embedded_size("<embedded:x>", MAX_MANIFEST_BYTES + 1).unwrap_err();
    assert_eq!(e.message(), "Pack error: Pack manifest '<embedded:x>' size exceeds limit of 262144 bytes");
    assert_eq!(manifest_text("p.yaml", b"kind: x").unwrap(), "kind: x");
    let e = manifest_text("p.yaml", b"a\x00b").unwrap_err();
    assert_eq!(
        e.message(),
        "Pack error: Pack manifest 'p.yaml' is not valid UTF-8: Binary or non-text data detected in input"
    );
}

#[test]
fn file_error_messages() {
    assert_eq!(missing_input_file("x.log").message(), "Input error: Input file 'x.log' does not exist");
    assert_eq!(
        input_open_failed("x.log", "denied").message(),
        "Input error: Failed to open input file 'x.log': denied"
    );
    assert_eq!(missing_input_file("x.log").exit_code(), 4);
    assert_eq!(cannot_read("p.yaml", "gone").message(), "Pack error: Cannot read 'p.yaml': gone");
    assert_eq!(read_failed("p.yaml", "io").message(), "Pack error: Failed to read 'p.yaml': io");
}
