use jev_ops::error::JevOpsError;
use jev_ops::packs::manifest::{
    default_input_type, DecisionSpec, InputSpec, PackManifest, PackMetadata, PackSpec, CURRENT_API_VERSION,
    CURRENT_KIND,
};
use jev_ops::packs::validation::{validate_manifest, version_problem};
use jev_ops::named::NamedMap;


fn valid_manifest() -> PackManifest {
    let mut decisions = NamedMap::new();
    decisions.insert("health".to_string(),
        DecisionSpec::Choice { values: vec!["healthy".to_string(), "unhealthy".to_string()] },
    );
    decisions.insert("severity".to_string(), DecisionSpec::Score { min: 0, max: 5, levels: vec![] });
    decisions.insert("needs_attention".to_string(), DecisionSpec::Boolean);

    PackManifest {
        api_version: CURRENT_API_VERSION.to_string(),
        kind: CURRENT_KIND.to_string(),
        metadata: PackMetadata {
            name: "test-pack".to_string(),
            version: "1.0.0".to_string(),
            description: "A valid test pack".to_string(),
            author: "Validator".to_string(),
        },
        spec: PackSpec {
            input: InputSpec::default(),
            decisions,
            instructions: "Valid test instructions".to_string(),
        },
    }
}

fn make_valid_manifest() -> PackManifest {
    let mut decisions = NamedMap::new();
    decisions.insert("health".to_string(),
        DecisionSpec::Choice { values: vec!["healthy".to_string(), "unhealthy".to_string()] },
    );
    decisions.insert("severity".to_string(), DecisionSpec::Score { min: 0, max: 5, levels: vec![] });
    decisions.insert("needs_attention".to_string(), DecisionSpec::Boolean);

    PackManifest {
        api_version: CURRENT_API_VERSION.to_string(),
        kind: CURRENT_KIND.to_string(),
        metadata: PackMetadata {
            name: "linux".to_string(),
            version: "0.1.0".to_string(),
            description: "Linux diagnostics".to_string(),
            author: "team".to_string(),
        },
        spec: PackSpec {
            input: InputSpec::default(),
            decisions,
            instructions: "Analyze Linux logs.".to_string(),
        },
    }
}

fn error_text(m: &PackManifest) -> String {
    validate_manifest(m).unwrap_err().message()
}

#[test]
fn test_valid_manifest() {
    let m = make_valid_manifest();
    assert!(validate_manifest(&m).is_ok());
}

#[test]
fn validation_test_invalid_score_range() {
    let mut m = make_valid_manifest();
    m.spec.decisions.insert("severity".to_string(), DecisionSpec::Score { min: 5, max: 3, levels: vec![] });
    let res = validate_manifest(&m);
    assert!(res.is_err());
    assert!(res.unwrap_err().message().contains("score minimum (5) must be lower than maximum (3)"));
}

#[test]
fn validation_test_duplicate_choice_values() {
    let mut m = make_valid_manifest();
    m.spec.decisions.insert("health".to_string(),
        DecisionSpec::Choice { values: vec!["ok".to_string(), "ok".to_string()] },
    );
    let res = validate_manifest(&m);
    assert!(res.is_err());
    assert!(res.unwrap_err().message().contains("duplicate choice value"));
}

#[test]
fn test_valid_pack_passes() {
    assert!(validate_manifest(&valid_manifest()).is_ok());
}

#[test]
fn test_invalid_api_version() {
    let mut m = valid_manifest();
    m.api_version = "jev-ops/v2-invalid".to_string();
    let err = error_text(&m);
    assert!(err.contains("unsupported api_version"));
}

#[test]
fn test_invalid_kind() {
    let mut m = valid_manifest();
    m.kind = "BadKind".to_string();
    let err = error_text(&m);
    assert!(err.contains("unsupported kind"));
}

#[test]
fn test_invalid_semver() {
    let mut m = valid_manifest();
    m.metadata.version = "1.0-bad".to_string();
    let err = error_text(&m);
    assert!(err.contains("not valid semantic version"));
}

#[test]
fn test_invalid_pack_name() {
    let mut m = valid_manifest();
    m.metadata.name = "My Invalid Name!".to_string();
    let err = error_text(&m);
    assert!(err.contains("metadata.name:"));
}

#[test]
fn pack_validation_test_invalid_score_range() {
    let mut m = valid_manifest();
    m.spec.decisions.insert("severity".to_string(), DecisionSpec::Score { min: 5, max: 2, levels: vec![] });
    let err = error_text(&m);
    assert!(err.contains("score minimum (5) must be lower than maximum (2)"));
}

#[test]
fn pack_validation_test_duplicate_choice_values() {
    let mut m = valid_manifest();
    m.spec.decisions.insert("health".to_string(),
        DecisionSpec::Choice { values: vec!["ok".to_string(), "degraded".to_string(), "ok".to_string()] },
    );
    let err = error_text(&m);
    assert!(err.contains("duplicate choice value 'ok'"));
}

#[test]
fn test_empty_choice_values() {
    let mut m = valid_manifest();
    m.spec.decisions.insert("health".to_string(), DecisionSpec::Choice { values: vec![] });
    let err = error_text(&m);
    assert!(err.contains("must define at least one value"));
}

#[test]
fn test_empty_instructions() {
    let mut m = valid_manifest();
    m.spec.instructions = "   ".to_string();
    let err = error_text(&m);
    assert!(err.contains("instructions cannot be empty"));
}

#[test]
fn all_problems_are_reported_together() {
    let mut m = valid_manifest();
    m.api_version = "v0".to_string();
    m.kind = "Other".to_string();
    m.spec.instructions = String::new();
    let e = validate_manifest(&m).unwrap_err();
    assert!(matches!(e, JevOpsError::InvalidPack(_)));
    let text = e.message();
    let lines: Vec<&str> = text.lines().collect();
    assert_eq!(lines.len(), 3);
    assert!(lines[0].contains("unsupported api_version"));
    assert!(lines[1].contains("unsupported kind"));
    assert!(lines[2].contains("instructions cannot be empty"));
    assert_eq!(e.exit_code(), 3);
}

#[test]
fn score_span_and_levels_rules() {
    let mut m = valid_manifest();
    m.spec.decisions.insert("severity".to_string(), DecisionSpec::Score { min: 0, max: 9, levels: vec![] });
    assert!(validate_manifest(&m).is_ok());
    m.spec.decisions.insert("severity".to_string(), DecisionSpec::Score { min: 0, max: 10, levels: vec![] });
    assert!(validate_manifest(&m).is_err());
    let levels: Vec<String> = (0..3).map(|i| format!("level {}", i)).collect();
    m.spec.decisions.insert("severity".to_string(), DecisionSpec::Score { min: 1, max: 3, levels: levels.clone() });
    assert!(validate_manifest(&m).is_ok());
    m.spec.decisions.insert("severity".to_string(), DecisionSpec::Score { min: 1, max: 4, levels });
    assert!(validate_manifest(&m).is_err());
}

#[test]
fn input_type_defaults_to_text() {
    assert_eq!(default_input_type(), "text");
    let spec = InputSpec::default();
    assert_eq!(spec.input_type, "text");
    assert_eq!(spec.max_bytes, None);
}

#[test]
fn decision_kind_names() {
    assert_eq!(DecisionSpec::Choice { values: vec![] }.kind_name(), "choice");
    assert_eq!(DecisionSpec::Score { min: 0, max: 1, levels: vec![] }.kind_name(), "score");
    assert_eq!(DecisionSpec::Boolean.kind_name(), "boolean");
}

#[test]
fn version_problem_quotes_the_parser() {
    assert_eq!(version_problem("1.0.0", None), None);
    assert_eq!(
        version_problem("1.0-bad", Some("unexpected character '-' while parsing minor version number".to_string())),
        Some(
            "metadata.version: '1.0-bad' is not valid semantic version (unexpected character '-' while parsing minor version number)"
                .to_string()
        )
    );
    let mut m = valid_manifest();
    m.metadata.version = "1.0-bad".to_string();
    assert!(error_text(&m).starts_with("Pack error: metadata.version: '1.0-bad' is not valid semantic version ("));
    for good in ["0.1.0", "1.2.3-alpha.1", "10.0.0+build.5"] {
        m.metadata.version = good.to_string();
        assert!(validate_manifest(&m).is_ok(), "{}", good);
    }
    for bad in ["1", "1.2", "01.2.3", "v1.2.3", ""] {
        m.metadata.version = bad.to_string();
        assert!(validate_manifest(&m).is_err(), "{}", bad);
    }
}

#[test]
fn plain_versions_parse() {
    let mut m = valid_manifest();
    for good in ["0.0.0", "0.1.0", "10.20.30", "9999999999999999999.0.1"] {
        m.metadata.version = good.to_string();
        assert!(validate_manifest(&m).is_ok(), "{}", good);
    }
    for bad in ["00.1.0", "1.02.3", "1.2.03", "1..3", "1.2.3.", "99999999999999999999.0.0"] {
        m.metadata.version = bad.to_string();
        assert!(validate_manifest(&m).is_err(), "{}", bad);
    }
}
