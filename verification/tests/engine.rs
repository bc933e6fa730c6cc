use jev_ops::engine::pipeline::{
    analyze_offline, build_request, check_min_confidence, choice_problem, finish_pipeline, input_limit,
    validate_provider_response,
};
use jev_ops::error::JevOpsError;
use jev_ops::inference::mock::MockInferenceProvider;
use jev_ops::inference::types::{hundredths, Confidence, InferenceRequest, InferenceResponse, ProviderDecision};
use jev_ops::packs::manifest::{DecisionSpec, InputSpec, PackManifest, PackMetadata, PackSpec};
use jev_ops::named::NamedMap;
/// A map holding the given entries, put in one by one.
fn named<T>(entries: Vec<(String, T)>) -> NamedMap<T> {
    let mut map = NamedMap::new();
    for (name, value) in entries {
        map.insert(name, value);
    }
    map
}


fn conf(x: f64) -> Confidence {
    Confidence { bits: x.to_bits(), text: x.to_string(), percent: format!("{:.0}%", x * 100.0) }
}

fn choice(values: &[&str]) -> DecisionSpec {
    DecisionSpec::Choice { values: values.iter().map(|v| v.to_string()).collect() }
}

fn linux_manifest() -> PackManifest {
    PackManifest {
        api_version: "jev-ops/v1".to_string(),
        kind: "DiagnosticPack".to_string(),
        metadata: PackMetadata {
            name: "linux".to_string(),
            version: "0.1.0".to_string(),
            description: "Linux diagnostics".to_string(),
            author: "team".to_string(),
        },
        spec: PackSpec {
            input: InputSpec { input_type: "text".to_string(), max_bytes: Some(64) },
            decisions: named(vec![
                ("category".to_string(), choice(&["normal", "memory", "filesystem", "network", "security", "unknown"])),
                ("health".to_string(), choice(&["healthy", "degraded", "unhealthy", "unknown"])),
                ("needs_attention".to_string(), DecisionSpec::Boolean),
                ("severity".to_string(), DecisionSpec::Score { min: 0, max: 5, levels: vec![] }),
            ]),
            instructions: "Analyze Linux logs.".to_string(),
        },
    }
}

fn answer<'a>(ds: &'a NamedMap<ProviderDecision>, name: &str) -> &'a ProviderDecision {
    &ds.entries().iter().find(|(n, _)| n == name).unwrap().1
}

fn chosen(ds: &NamedMap<ProviderDecision>, name: &str) -> String {
    match answer(ds, name) {
        ProviderDecision::Choice { value, .. } => value.clone(),
        _ => panic!("Expected choice for {}", name),
    }
}

#[test]
fn test_validate_response_mismatch_choice() {
    let expected = vec![("health".to_string(), choice(&["healthy", "unhealthy"]))];
    let actual = vec![(
        "health".to_string(),
        ProviderDecision::Choice { value: "catastrophic".to_string(), confidence: conf(0.95), probabilities: None },
    )];
    let res = validate_provider_response(&named(expected), &named(actual));
    assert!(res.is_err());
    assert!(res.unwrap_err().message().contains("not in allowed pack values"));
}

#[test]
fn test_validate_response_score_out_of_range() {
    let expected = vec![("severity".to_string(), DecisionSpec::Score { min: 0, max: 5, levels: vec![] })];
    let actual = vec![(
        "severity".to_string(),
        ProviderDecision::Score { value: 8, confidence: conf(0.95), probabilities: None },
    )];
    let res = validate_provider_response(&named(expected), &named(actual));
    assert!(res.is_err());
    assert!(res.unwrap_err().message().contains("score 8 is outside allowed range"));
}

#[test]
fn test_provider_schema_enforcement_bad_choice() {
    let expected = vec![("health".to_string(), choice(&["healthy", "unhealthy"]))];
    let actual = vec![(
        "health".to_string(),
        ProviderDecision::Choice { value: "exploded".to_string(), confidence: conf(0.99), probabilities: None },
    )];
    let err = validate_provider_response(&named(expected), &named(actual)).unwrap_err();
    assert!(err.message().contains("is not in allowed pack values"));
}

#[test]
fn test_provider_schema_enforcement_bad_score() {
    let expected = vec![("severity".to_string(), DecisionSpec::Score { min: 0, max: 5, levels: vec![] })];
    let actual = vec![(
        "severity".to_string(),
        ProviderDecision::Score { value: 99, confidence: conf(0.99), probabilities: None },
    )];
    let err = validate_provider_response(&named(expected), &named(actual)).unwrap_err();
    assert!(err.message().contains("is outside allowed range"));
}

#[test]
fn test_provider_schema_enforcement_bad_confidence() {
    let expected = vec![("needs_attention".to_string(), DecisionSpec::Boolean)];
    let actual = vec![(
        "needs_attention".to_string(),
        ProviderDecision::Boolean { value: true, confidence: conf(1.5) },
    )];
    let err = validate_provider_response(&named(expected), &named(actual)).unwrap_err();
    assert!(err.message().contains("outside the valid [0.0, 1.0] range"));
}

#[test]
fn response_problem_messages() {
    let expected = named(vec![
        ("health".to_string(), choice(&["healthy", "unhealthy"])),
        ("needs_attention".to_string(), DecisionSpec::Boolean),
    ]);
    let ok = ProviderDecision::Choice { value: "healthy".to_string(), confidence: conf(0.5), probabilities: None };
    let missing = vec![("health".to_string(), ok)];
    let e = validate_provider_response(&expected, &named(missing)).unwrap_err();
    assert_eq!(
        e.message(),
        "Invalid provider response against pack schema: Provider failed to return declared decision 'needs_attention'"
    );
    assert_eq!(e.exit_code(), 6);

    let mismatch = vec![
        ("health".to_string(), ProviderDecision::Boolean { value: true, confidence: conf(0.5) }),
        ("needs_attention".to_string(), ProviderDecision::Boolean { value: true, confidence: conf(0.5) }),
    ];
    let e = validate_provider_response(&expected, &named(mismatch)).unwrap_err();
    assert!(e.message().ends_with("Decision 'health': type mismatch. Pack expects 'choice', but provider returned 'boolean'"));

    let extra = vec![
        ("health".to_string(), ProviderDecision::Choice { value: "unhealthy".to_string(), confidence: conf(0.0), probabilities: None }),
        ("needs_attention".to_string(), ProviderDecision::Boolean { value: false, confidence: conf(1.0) }),
        ("mood".to_string(), ProviderDecision::Boolean { value: false, confidence: conf(1.0) }),
    ];
    let e = validate_provider_response(&expected, &named(extra)).unwrap_err();
    assert!(e.message().ends_with("Provider returned undeclared decision 'mood' not defined in pack schema"));

    let bad_choice = vec![
        ("health".to_string(), ProviderDecision::Choice { value: "x".to_string(), confidence: conf(0.5), probabilities: None }),
        ("needs_attention".to_string(), ProviderDecision::Boolean { value: false, confidence: conf(0.5) }),
    ];
    let e = validate_provider_response(&expected, &named(bad_choice)).unwrap_err();
    assert!(e.message().ends_with("Decision 'health': choice value 'x' is not in allowed pack values: [\"healthy\", \"unhealthy\"]"));

    let nan = vec![
        ("health".to_string(), ProviderDecision::Choice { value: "healthy".to_string(), confidence: conf(f64::NAN), probabilities: None }),
        ("needs_attention".to_string(), ProviderDecision::Boolean { value: false, confidence: conf(0.5) }),
    ];
    assert!(validate_provider_response(&expected, &named(nan)).is_err());
    let negative = vec![
        ("health".to_string(), ProviderDecision::Choice { value: "healthy".to_string(), confidence: conf(-0.0), probabilities: None }),
        ("needs_attention".to_string(), ProviderDecision::Boolean { value: false, confidence: conf(-0.01) }),
    ];
    let e = validate_provider_response(&expected, &named(negative)).unwrap_err();
    assert!(e.message().ends_with("Decision 'needs_attention' confidence -0.01 is outside the valid [0.0, 1.0] range"));
}

#[test]
fn min_confidence_range() {
    assert!(check_min_confidence(&None).is_ok());
    assert!(check_min_confidence(&Some(conf(0.0))).is_ok());
    assert!(check_min_confidence(&Some(conf(1.0))).is_ok());
    let e = check_min_confidence(&Some(conf(1.5))).unwrap_err();
    assert_eq!(e.message(), "Invalid CLI argument or option: --min-confidence 1.5 is outside the valid range [0.0, 1.0]");
    assert_eq!(e.exit_code(), 2);
    assert!(check_min_confidence(&Some(conf(-0.1))).is_err());
    assert!(check_min_confidence(&Some(conf(f64::NAN))).is_err());
}

#[test]
fn input_limit_of_packs() {
    let mut m = linux_manifest();
    assert_eq!(input_limit(&m), 64);
    m.spec.input.max_bytes = None;
    assert_eq!(input_limit(&m), 1048576);
    m.spec.input.max_bytes = Some(usize::MAX);
    assert_eq!(input_limit(&m), 10485760);
}

#[test]
fn offline_analysis_of_an_ext4_error() {
    let text = b"EXT4-fs error (device sda1): ext4_lookup: deleted inode referenced";
    let res = analyze_offline(linux_manifest(), &text[..60], None).ok().unwrap();
    assert_eq!(res.provider, "mock");
    assert_eq!(res.pack.name, "linux");
    assert_eq!(res.input.bytes, 60);
    assert_eq!(chosen(&res.decisions, "category"), "filesystem");
    assert_eq!(chosen(&res.decisions, "health"), "unhealthy");
    match answer(&res.decisions, "severity") {
        ProviderDecision::Score { value, confidence, .. } => {
            assert_eq!(*value, 5);
            assert_eq!(confidence.bits, 0.91f64.to_bits());
        }
        _ => panic!("Expected score for severity"),
    }
    match answer(&res.decisions, "needs_attention") {
        ProviderDecision::Boolean { value, .. } => assert!(*value),
        _ => panic!("Expected boolean for needs_attention"),
    }
}

#[test]
fn offline_analysis_errors() {
    let e = analyze_offline(linux_manifest(), &[b'a'; 65], None).err().unwrap();
    assert!(matches!(e, JevOpsError::InputTooLarge { bytes: 65, max_bytes: 64 }));
    let e = analyze_offline(linux_manifest(), b"", None).err().unwrap();
    assert!(matches!(e, JevOpsError::EmptyInput));
    let e = analyze_offline(linux_manifest(), b"ok", Some(conf(2.0))).err().unwrap();
    assert!(matches!(e, JevOpsError::Cli(_)));
}

#[test]
fn mock_scenarios() {
    let cases = [
        ("kernel: Out of memory: Killed process 42 (java)", "memory", "unhealthy", 4, true),
        ("sshd[99]: Failed password for root from 10.0.0.1", "security", "degraded", 3, true),
        ("systemd[1]: Started Service. pid 502", "normal", "healthy", 0, false),
        ("nothing to see", "unknown", "unknown", 0, false),
    ];
    for (text, category, health, severity, attention) in cases {
        let res = analyze_offline(linux_manifest(), text.as_bytes(), None).ok().unwrap();
        assert_eq!(chosen(&res.decisions, "category"), category, "{}", text);
        assert_eq!(chosen(&res.decisions, "health"), health, "{}", text);
        match answer(&res.decisions, "severity") {
            ProviderDecision::Score { value, .. } => assert_eq!(*value, severity, "{}", text),
            _ => panic!("Expected score for severity"),
        }
        match answer(&res.decisions, "needs_attention") {
            ProviderDecision::Boolean { value, .. } => assert_eq!(*value, attention, "{}", text),
            _ => panic!("Expected boolean for needs_attention"),
        }
    }
}

#[test]
fn mock_kubernetes_root_causes() {
    let decisions = vec![
        ("health".to_string(), choice(&["healthy", "degraded", "unhealthy", "unknown"])),
        ("root_cause".to_string(), choice(&["scheduling", "crashloop", "resources", "unknown"])),
    ];
    let request = |text: &str| InferenceRequest {
        pack_name: "kubernetes".to_string(),
        pack_version: "0.1.0".to_string(),
        instructions: "Analyze.".to_string(),
        decisions: named(decisions.iter().map(|(n, d)| (n.clone(), d.clone())).collect()),
        input_text: text.to_string(),
    };
    let mock = MockInferenceProvider::new();
    let r = mock.infer(&request("web-1  0/1  CrashLoopBackOff  5  3m")).ok().unwrap();
    assert_eq!(chosen(&r.decisions, "root_cause"), "crashloop");
    assert_eq!(chosen(&r.decisions, "health"), "unhealthy");
    let r = mock.infer(&request("Last State: Terminated  Reason: OOMKilled")).ok().unwrap();
    assert_eq!(chosen(&r.decisions, "root_cause"), "resources");
    assert_eq!(r.provider, "mock");
    assert_eq!(mock.name(), "mock");
}

#[test]
fn offline_confidences_render_like_floats() {
    for p in [70u8, 75, 80, 88, 89, 91, 92, 93, 94, 95, 96, 97, 98, 99] {
        let c = hundredths(p);
        let x = p as f64 / 100.0;
        assert_eq!(c.bits, x.to_bits(), "{}", p);
        assert_eq!(c.text, x.to_string(), "{}", p);
        assert_eq!(c.percent, format!("{:.0}%", x * 100.0), "{}", p);
    }
}

#[test]
fn confidence_order_follows_floats() {
    let values = [-1.0, -0.0, 0.0, 0.25, 0.5, 0.97, 1.0, 2.0, f64::NAN];
    for a in values {
        for b in values {
            assert_eq!(conf(a).less_than(&conf(b)), a < b, "{} < {}", a, b);
        }
        assert_eq!(conf(a).in_unit_interval(), (0.0..=1.0).contains(&a), "{}", a);
    }
}

#[test]
fn finish_builds_the_result() {
    let m = linux_manifest();
    let request = build_request(&m, "input".to_string());
    assert_eq!(request.pack_name, "linux");
    assert_eq!(request.decisions.len(), 4);
    let response = InferenceResponse { provider: "x".to_string(), decisions: NamedMap::new() };
    let ctx = jev_ops::engine::context::InputContext { bytes: 5, truncated: false };
    let e = finish_pipeline(m, ctx, response, None).err().unwrap();
    assert!(e.message().ends_with("Provider failed to return declared decision 'category'"));
}

#[test]
fn choice_problem_text() {
    assert_eq!(
        choice_problem("health", "x", "[\"a\", \"b\"]"),
        "Decision 'health': choice value 'x' is not in allowed pack values: [\"a\", \"b\"]"
    );
}
