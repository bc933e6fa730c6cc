use jev_ops::cli::{version_line, PacksCommands, VERSION_STRING};
use jev_ops::error::JevOpsError;

#[test]
fn exit_codes_follow_the_documented_table() {
    let cases: Vec<(JevOpsError, i32)> = vec![
        (JevOpsError::Cli("x".to_string()), 2),
        (JevOpsError::PackNotFound { name: "n".to_string(), searched: "s".to_string() }, 3),
        (JevOpsError::PackValidation { path: "p".to_string(), details: "d".to_string() }, 3),
        (JevOpsError::InvalidPack("x".to_string()), 3),
        (JevOpsError::Yaml("x".to_string()), 3),
        (JevOpsError::Input("x".to_string()), 4),
        (JevOpsError::InputTooLarge { bytes: 2, max_bytes: 1 }, 4),
        (JevOpsError::EmptyInput, 4),
        (JevOpsError::InvalidUtf8("x".to_string()), 4),
        (JevOpsError::BinaryContentDetected, 4),
        (JevOpsError::ProviderError { provider: "p".to_string(), details: "d".to_string() }, 5),
        (JevOpsError::InvalidProviderResponse("x".to_string()), 6),
        (JevOpsError::Io("x".to_string()), 1),
        (JevOpsError::Json("x".to_string()), 1),
        (JevOpsError::General("x".to_string()), 1),
    ];
    for (e, code) in cases {
        assert_eq!(e.exit_code(), code, "{:?}", e);
    }
}

#[test]
fn error_messages() {
    assert_eq!(JevOpsError::Cli("bad".to_string()).message(), "Invalid CLI argument or option: bad");
    assert_eq!(
        JevOpsError::PackValidation { path: "p.yaml".to_string(), details: "d".to_string() }.message(),
        "Invalid pack 'p.yaml':\nd"
    );
    assert_eq!(
        JevOpsError::ProviderError { provider: "mock".to_string(), details: "down".to_string() }.message(),
        "Inference provider 'mock' failure: down"
    );
    assert_eq!(JevOpsError::Io("gone".to_string()).message(), "I/O error: gone");
    assert_eq!(JevOpsError::Yaml("bad".to_string()).message(), "YAML error: bad");
    assert_eq!(JevOpsError::Json("bad".to_string()).message(), "JSON error: bad");
    assert_eq!(JevOpsError::General("plain".to_string()).message(), "plain");
    assert_eq!(JevOpsError::Input("x".to_string()).message(), "Input error: x");
    assert_eq!(JevOpsError::InvalidUtf8("x".to_string()).message(), "Invalid UTF-8 in input: x");
}

#[test]
fn version() {
    assert_eq!(VERSION_STRING, "v2026.09.19");
    assert_eq!(version_line(), "jev-ops v2026.09.19");
    let cmd = PacksCommands::New { name: "x".to_string(), dir: None };
    assert!(matches!(cmd, PacksCommands::New { .. }));
}
