use jev_ops::engine::context::{InputContext, PackIdentity};
use jev_ops::engine::pipeline::{analyze_offline, PipelineResult};
use jev_ops::inference::types::{Confidence, ProviderDecision};
use jev_ops::output::human::{format_bytes, format_label, render_human};
use jev_ops::output::listing::{render_pack_details, render_pack_list, scaffolded_message, validated_message};
use jev_ops::output::report::{low_confidence_names, OUTPUT_SCHEMA_VERSION};
use jev_ops::packs::discovery::DiscoveredPack;
use jev_ops::packs::manifest::{DecisionSpec, InputSpec, PackManifest, PackMetadata, PackSpec};
use jev_ops::named::NamedMap;
/// A map holding the given entries, put in one by one.
fn named<T>(entries: Vec<(String, T)>) -> NamedMap<T> {
    let mut map = NamedMap::new();
    for (name, value) in entries {
        map.insert(name, value);
    }
    map
}


fn conf(x: f64) -> Confidence {
    Confidence { bits: x.to_bits(), text: x.to_string(), percent: format!("{:.0}%", x * 100.0) }
}

fn manifest(name: &str, description: &str, decisions: Vec<(String, DecisionSpec)>) -> PackManifest {
    PackManifest {
        api_version: "jev-ops/v1".to_string(),
        kind: "DiagnosticPack".to_string(),
        metadata: PackMetadata {
            name: name.to_string(),
            version: "0.1.0".to_string(),
            description: description.to_string(),
            author: "test".to_string(),
        },
        spec: PackSpec {
            input: InputSpec { input_type: "text".to_string(), max_bytes: None },
            decisions: named(decisions),
            instructions: "  Look closely.\n".to_string(),
        },
    }
}

fn result(decisions: Vec<(String, ProviderDecision)>, min_confidence: Option<f64>) -> PipelineResult {
    PipelineResult {
        pack: PackIdentity { name: "linux".to_string(), version: "0.1.0".to_string() },
        provider: "mock".to_string(),
        input: InputContext { bytes: 512, truncated: false },
        decisions: named(decisions),
        min_confidence: min_confidence.map(conf),
        schema: named(vec![("severity".to_string(), DecisionSpec::Score { min: 0, max: 5, levels: vec![] })]),
    }
}

#[test]
fn byte_counts_match_float_formatting() {
    for b in [0usize, 1, 512, 1023, 1024, 1075, 1076, 1536, 10240, 1048575, 1048576, 1572864, 5 * 1048576 + 52429, 123456789] {
        let expected = if b < 1024 {
            format!("{} B", b)
        } else if b < 1024 * 1024 {
            format!("{:.1} KB", b as f64 / 1024.0)
        } else {
            format!("{:.1} MB", b as f64 / (1024.0 * 1024.0))
        };
        assert_eq!(format_bytes(b), expected, "{}", b);
    }
}

#[test]
fn labels() {
    assert_eq!(format_label("needs_attention"), "Attention:");
    assert_eq!(format_label("root_cause"), "Root cause:");
    assert_eq!(format_label("health"), "Health:");
    assert_eq!(format_label(""), ":");
    assert_eq!(format_label("\u{e9}tat"), "\u{e9}tat:");
}

#[test]
fn human_summary() {
    let r = result(
        vec![
            ("health".to_string(), ProviderDecision::Choice { value: "unhealthy".to_string(), confidence: conf(0.96), probabilities: None }),
            ("severity".to_string(), ProviderDecision::Score { value: 5, confidence: conf(0.91), probabilities: None }),
            ("needs_attention".to_string(), ProviderDecision::Boolean { value: true, confidence: conf(0.99) }),
        ],
        Some(0.95),
    );
    let text = render_human(&r);
    let mut expected = String::from("jev-ops analysis\n\n");
    expected.push_str(&format!("{:<12}{:<14} {}\n", "Pack:", "linux 0.1.0", ""));
    expected.push_str(&format!("{:<12}{:<14}\n", "Provider:", "mock"));
    expected.push_str(&format!("{:<12}{:<14}\n\n", "Input:", "512 B"));
    expected.push_str(&format!("{:<12}{:<14} {:>4}\n", "Health:", "unhealthy", "96%"));
    expected.push_str(&format!("{:<12}{:<14} {:>4}\n", "Attention:", "yes", "99%"));
    expected.push_str(&format!("{:<12}{:<14} {:>4}  [LOW CONFIDENCE]\n", "Severity:", "5/5", "91%"));
    assert_eq!(text, expected);
}

#[test]
fn test_cli_human_score_uses_pack_max() {
    let m = manifest(
        "tiny",
        "small scale",
        vec![("severity".to_string(), DecisionSpec::Score { min: 0, max: 3, levels: vec![] })],
    );
    let r = analyze_offline(m, b"Out of memory: Killed process 42", None).ok().unwrap();
    let text = render_human(&r);
    assert!(text.contains("3/3"));
    assert!(!text.contains("/5"));
}

#[test]
fn low_confidence_report() {
    let r = result(
        vec![
            ("category".to_string(), ProviderDecision::Choice { value: "memory".to_string(), confidence: conf(0.97), probabilities: None }),
            ("health".to_string(), ProviderDecision::Choice { value: "unhealthy".to_string(), confidence: conf(0.96), probabilities: None }),
            ("severity".to_string(), ProviderDecision::Score { value: 4, confidence: conf(0.94), probabilities: None }),
        ],
        Some(0.97),
    );
    assert_eq!(low_confidence_names(&r), Some(vec!["health".to_string(), "severity".to_string()]));
    let r = result(vec![], None);
    assert_eq!(low_confidence_names(&r), None);
    assert_eq!(OUTPUT_SCHEMA_VERSION, "1");
}

#[test]
fn test_cli_packs_list_multibyte_description_does_not_panic() {
    let packs = vec![DiscoveredPack {
        name: "utf".to_string(),
        path: "/tmp/p/utf/pack.yaml".to_string(),
        manifest: manifest(
            "utf",
            "PostgreSQL replication lag monito \u{2014} primary and replica",
            vec![("ok".to_string(), DecisionSpec::Boolean)],
        ),
    }];
    let text = render_pack_list(&packs);
    assert!(text.contains("PostgreSQL replication lag monito \u{2014}..."));
    let lines: Vec<&str> = text.lines().collect();
    assert_eq!(lines[0], "AVAILABLE DIAGNOSTIC PACKS:");
    assert_eq!(lines[1], format!("{:<18} {:<10} {:<40} PATH", "NAME", "VERSION", "DESCRIPTION"));
    assert_eq!(lines[2], "\u{2500}".repeat(80));
    assert_eq!(
        lines[3],
        format!("{:<18} {:<10} {:<40} {}", "utf", "0.1.0", "PostgreSQL replication lag monito \u{2014}...", "/tmp/p/utf/pack.yaml")
    );
    assert_eq!(render_pack_list(&vec![]), "No diagnostic packs found.\n");
}

#[test]
fn pack_details() {
    let m = manifest(
        "kubernetes",
        "Kubernetes pod, event, and cluster diagnostics",
        vec![
            ("health".to_string(), DecisionSpec::Choice { values: vec!["healthy".to_string(), "unhealthy".to_string()] }),
            ("needs_attention".to_string(), DecisionSpec::Boolean),
            (
                "severity".to_string(),
                DecisionSpec::Score { min: 0, max: 2, levels: vec!["calm".to_string(), "busy".to_string(), "down".to_string()] },
            ),
        ],
    );
    let text = render_pack_details("./packs/kubernetes/pack.yaml", &m);
    let expected = "Diagnostic Pack: kubernetes\n\
        Version:         0.1.0\n\
        Author:          test\n\
        Path:            ./packs/kubernetes/pack.yaml\n\
        Description:     Kubernetes pod, event, and cluster diagnostics\n\
        \nSpec Input:\n\
        \x20 Type:          text\n\
        \nDecisions (3 defined):\n\
        \x20 - health: choice (options: healthy, unhealthy)\n\
        \x20 - needs_attention: boolean (yes/no)\n\
        \x20 - severity: score (range: 0 to 2)\n\
        \x20     0: calm\n\
        \x20     1: busy\n\
        \x20     2: down\n\
        \nInstructions:\nLook closely.\n";
    assert_eq!(text, expected);
    let mut m2 = m;
    m2.spec.input.max_bytes = Some(2097152);
    assert!(render_pack_details("p", &m2).contains("  Max Bytes:     2097152\n"));
}

#[test]
fn confirmations() {
    assert_eq!(
        validated_message("linux", "0.1.0", "./packs/linux/pack.yaml"),
        "\u{2713} Pack 'linux' (0.1.0) at './packs/linux/pack.yaml' is valid."
    );
    assert_eq!(
        scaffolded_message("./packs/my-service/pack.yaml"),
        "\u{2713} Scaffolded diagnostic pack template at './packs/my-service/pack.yaml'"
    );
}
