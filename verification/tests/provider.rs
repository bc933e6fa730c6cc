use jev_ops::error::JevOpsError;
use jev_ops::inference::mock::MockInferenceProvider;
use jev_ops::inference::select::{select_provider, ProviderChoice};
use jev_ops::inference::types::{Confidence, ProviderDecision};
use jev_ops::inference::typesafe::{
    after_failed_call, answer_type_mismatch, build_question, collect_answers, invalid, missing_answer, score_from_level,
    ApiQuestion,
    CallFailure, RetryStep, TypeSafeJevProvider, DEFAULT_TYPESAFE_API_URL, DEFAULT_TYPESAFE_MODEL,
};
use jev_ops::packs::manifest::DecisionSpec;
use jev_ops::named::NamedMap;
/// A map holding the given entries, put in one by one.
fn named<T>(entries: Vec<(String, T)>) -> NamedMap<T> {
    let mut map = NamedMap::new();
    for (name, value) in entries {
        map.insert(name, value);
    }
    map
}


fn conf(x: f64) -> Confidence {
    Confidence { bits: x.to_bits(), text: x.to_string(), percent: format!("{:.0}%", x * 100.0) }
}

#[test]
fn test_resolve_mock_provider() {
    let choice = select_provider(Some("mock"), None, None).ok().unwrap();
    assert!(matches!(choice, ProviderChoice::Mock));
    assert_eq!(MockInferenceProvider::new().name(), "mock");
}

#[test]
fn test_resolve_typesafe_provider_with_explicit_key() {
    let choice = select_provider(Some("typesafe"), Some("ts_test_12345"), None).ok().unwrap();
    match choice {
        ProviderChoice::TypeSafe { api_key } => {
            let provider = TypeSafeJevProvider::with_custom(api_key, None, None);
            assert_eq!(provider.name(), "typesafe-jev");
        }
        ProviderChoice::Mock => panic!("expected the live provider"),
    }
}

#[test]
fn test_resolve_typesafe_provider_missing_key() {
    // The environment's key is handed in by the caller; here there is none.
    let res = select_provider(Some("typesafe"), None, None);
    assert!(res.is_err());
    let err = res.err().unwrap().message();
    assert!(err.contains("Missing API key"));
    assert!(err.contains("TYPESAFE_API_KEY"));
}

#[test]
fn test_resolve_unknown_provider() {
    let res = select_provider(Some("non-existent-provider"), None, None);
    assert!(res.is_err());
    let err = res.err().unwrap().message();
    assert!(err.contains("Unknown inference provider"));
}

#[test]
fn provider_selection_rules() {
    // The command-line key wins over the environment's.
    match select_provider(Some("typesafe-jev"), Some("cli"), Some("env".to_string())).ok().unwrap() {
        ProviderChoice::TypeSafe { api_key } => assert_eq!(api_key, "cli"),
        ProviderChoice::Mock => panic!("expected the live provider"),
    }
    // Without a provider name, a key selects the live API.
    match select_provider(None, None, Some("env".to_string())).ok().unwrap() {
        ProviderChoice::TypeSafe { api_key } => assert_eq!(api_key, "env"),
        ProviderChoice::Mock => panic!("expected the live provider"),
    }
    // Without a provider name and without a key, there is no silent fall-back.
    let e = select_provider(None, None, None).err().unwrap();
    assert!(matches!(e, JevOpsError::ProviderError { .. }));
    assert_eq!(e.exit_code(), 5);
    assert!(e.message().contains("--provider mock"));
    // A blank key counts as none.
    assert!(select_provider(Some("typesafe"), Some("   "), None).is_err());
    let e = select_provider(Some("gpt"), None, None).err().unwrap();
    assert_eq!(e.exit_code(), 2);
    assert_eq!(
        e.message(),
        "Invalid CLI argument or option: Unknown inference provider 'gpt'. Supported providers: 'mock', 'typesafe'"
    );
}

#[test]
fn provider_settings() {
    let p = TypeSafeJevProvider::with_custom("k1".to_string(), None, None);
    assert_eq!(p.endpoint(), format!("{}/systemone", DEFAULT_TYPESAFE_API_URL));
    assert_eq!(p.model(), DEFAULT_TYPESAFE_MODEL);
    assert_eq!(p.api_key(), "k1");
    assert_eq!(p.max_retries(), 3);
    assert_eq!(p.authorization(), "Bearer k1");
    assert_eq!(p.provider_label(), "typesafe-jev (jev-latest)");
    let p = TypeSafeJevProvider::with_custom(
        "k2".to_string(),
        Some("http://localhost:8080/v1//".to_string()),
        Some("jev-small".to_string()),
    );
    assert_eq!(p.endpoint(), "http://localhost:8080/v1/systemone");
    assert_eq!(p.provider_label(), "typesafe-jev (jev-small)");
}

#[test]
fn questions_for_each_decision_kind() {
    let q = build_question(
        "root_cause",
        &DecisionSpec::Choice { values: vec!["oom".to_string(), "disk".to_string()] },
    );
    match q {
        ApiQuestion::Choice { instructions, criteria } => {
            assert_eq!(
                instructions,
                "Following `analysis_guidance`, which 'root cause' classification best describes `diagnostic_input`?"
            );
            assert_eq!(criteria, vec![("oom".to_string(), None), ("disk".to_string(), None)]);
        }
        _ => panic!("expected a choice question"),
    }
    let q = build_question("risk-score", &DecisionSpec::Score { min: 1, max: 3, levels: vec![] });
    match q {
        ApiQuestion::Score { instructions, criteria } => {
            assert_eq!(instructions, "Following `analysis_guidance`, rate the 'risk score' of `diagnostic_input`.");
            assert_eq!(
                criteria,
                vec![
                    "'risk score' is 1 on the 1 to 3 scale defined in `analysis_guidance`".to_string(),
                    "'risk score' is 2 on the 1 to 3 scale defined in `analysis_guidance`".to_string(),
                    "'risk score' is 3 on the 1 to 3 scale defined in `analysis_guidance`".to_string(),
                ]
            );
        }
        _ => panic!("expected a score question"),
    }
    let levels = vec!["calm".to_string(), "storm".to_string()];
    match build_question("sea", &DecisionSpec::Score { min: 0, max: 1, levels: levels.clone() }) {
        ApiQuestion::Score { criteria, .. } => assert_eq!(criteria, levels),
        _ => panic!("expected a score question"),
    }
    match build_question("needs_attention", &DecisionSpec::Boolean) {
        ApiQuestion::Noul { instructions } => assert_eq!(
            instructions,
            "Following `analysis_guidance`, does `diagnostic_input` indicate 'needs attention'?"
        ),
        _ => panic!("expected a noul question"),
    }
}

#[test]
fn retry_decisions() {
    let status = |s: u16| CallFailure::HttpStatus { status: s, body: "busy".to_string() };
    assert!(matches!(after_failed_call(1, 3, "typesafe-jev", status(429)), RetryStep::RetryAfter { secs: 2 }));
    assert!(matches!(after_failed_call(2, 3, "typesafe-jev", status(529)), RetryStep::RetryAfter { secs: 4 }));
    assert!(matches!(after_failed_call(3, 3, "typesafe-jev", status(429)), RetryStep::RetryAfter { secs: 8 }));
    match after_failed_call(4, 3, "typesafe-jev", status(429)) {
        RetryStep::GiveUp(e) => {
            assert_eq!(e.message(), "Inference provider 'typesafe-jev' failure: HTTP 429 from TypeSafe API: busy");
            assert_eq!(e.exit_code(), 5);
        }
        _ => panic!("expected to give up"),
    }
    match after_failed_call(1, 3, "typesafe-jev", status(401)) {
        RetryStep::GiveUp(e) => assert!(e.message().ends_with("HTTP 401 from TypeSafe API: busy")),
        _ => panic!("expected to give up"),
    }
    let transport = || CallFailure::Transport { message: "refused".to_string() };
    assert!(matches!(after_failed_call(1, 3, "p", transport()), RetryStep::RetryAfter { secs: 1 }));
    match after_failed_call(4, 3, "p", transport()) {
        RetryStep::GiveUp(e) => assert_eq!(e.message(), "Inference provider 'p' failure: Connection failed: refused"),
        _ => panic!("expected to give up"),
    }
    match after_failed_call(1, 3, "p", CallFailure::BadBody { message: "eof".to_string() }) {
        RetryStep::GiveUp(e) => {
            assert_eq!(e.message(), "Inference provider 'p' failure: Failed to parse TypeSafe API response JSON: eof")
        }
        _ => panic!("expected to give up"),
    }
}

#[test]
fn score_levels_map_to_pack_values() {
    let d = score_from_level("severity", 1, 5, 2, conf(0.8), None).ok().unwrap();
    match d {
        ProviderDecision::Score { value, confidence, probabilities } => {
            assert_eq!(value, 3);
            assert_eq!(confidence.bits, 0.8f64.to_bits());
            assert!(probabilities.is_none());
        }
        _ => panic!("expected a score"),
    }
    let probs = vec![("0".to_string(), conf(0.1)), ("+4".to_string(), conf(0.9))];
    let d = score_from_level("severity", 1, 5, 4, conf(0.9), Some(probs)).ok().unwrap();
    match d {
        ProviderDecision::Score { value, probabilities: Some(p), .. } => {
            assert_eq!(value, 5);
            assert_eq!(p[0].0, "1");
            assert_eq!(p[1].0, "5");
            assert_eq!(p[1].1.bits, 0.9f64.to_bits());
        }
        _ => panic!("expected a score with probabilities"),
    }
    let probs = vec![("1".to_string(), conf(0.5)), ("5".to_string(), conf(0.5))];
    let e = score_from_level("severity", 1, 5, 0, conf(0.5), Some(probs)).err().unwrap();
    assert_eq!(
        e.message(),
        "Invalid provider response against pack schema: Decision 'severity': unknown score level key '5'"
    );
    let probs = vec![("-0".to_string(), conf(0.5)), ("x".to_string(), conf(0.5))];
    let e = score_from_level("s", -3, 3, 0, conf(0.5), Some(probs)).err().unwrap();
    assert!(e.message().ends_with("unknown score level key 'x'"));
    let d = score_from_level("s", -3, 3, 0, conf(0.5), Some(vec![("-0".to_string(), conf(1.0))])).ok().unwrap();
    match d {
        ProviderDecision::Score { value, probabilities: Some(p), .. } => {
            assert_eq!(value, -3);
            assert_eq!(p[0].0, "-3");
        }
        _ => panic!("expected a score with probabilities"),
    }
}

#[test]
fn answer_errors() {
    assert_eq!(
        answer_type_mismatch("health").message(),
        "Invalid provider response against pack schema: Decision 'health': TypeSafe API answer type does not match pack specification"
    );
    assert_eq!(
        missing_answer("health").message(),
        "Invalid provider response against pack schema: TypeSafe Jev API response did not contain answer for 'health'"
    );
    let e = invalid("x", "noul 1.5 is outside the valid [0.0, 1.0] range".to_string());
    assert_eq!(e.exit_code(), 6);
}

#[test]
fn answers_are_collected_in_pack_order() {
    let decisions = named(vec![
        ("health".to_string(), DecisionSpec::Choice { values: vec!["ok".to_string()] }),
        ("needs_attention".to_string(), DecisionSpec::Boolean),
    ]);
    let ok = vec![
        Some(Ok(ProviderDecision::Choice { value: "ok".to_string(), confidence: conf(0.7), probabilities: None })),
        Some(Ok(ProviderDecision::Boolean { value: true, confidence: conf(0.6) })),
    ];
    let v = collect_answers(&decisions, ok).ok().unwrap().into_entries();
    assert_eq!(v.len(), 2);
    assert_eq!(v[0].0, "health");
    assert_eq!(v[1].0, "needs_attention");
    let missing = vec![
        Some(Ok(ProviderDecision::Choice { value: "ok".to_string(), confidence: conf(0.7), probabilities: None })),
        None,
    ];
    let e = collect_answers(&decisions, missing).err().unwrap();
    assert!(e.message().ends_with("TypeSafe Jev API response did not contain answer for 'needs_attention'"));
    let first_error_wins = vec![Some(Err(answer_type_mismatch("health"))), None];
    let e = collect_answers(&decisions, first_error_wins).err().unwrap();
    assert!(e.message().contains("Decision 'health': TypeSafe API answer type does not match"));
}
