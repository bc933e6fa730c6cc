use jev_ops::cli::version_line;
use jev_ops::engine::input::accept_input;
use jev_ops::engine::pipeline::{analyze_offline, PipelineResult};
use jev_ops::error::JevOpsError;
use jev_ops::inference::select::select_provider;
use jev_ops::inference::types::{Confidence, ProviderDecision};
use jev_ops::output::human::render_human;
use jev_ops::output::listing::{render_pack_details, render_pack_list, scaffolded_message, validated_message};
use jev_ops::output::report::low_confidence_names;
use jev_ops::packs::builtin::{builtin_packs, get_builtin_pack};
use jev_ops::packs::discovery::{embedded_path, merge_listing, PackSearch, SearchEnd};
use jev_ops::packs::loader::{accept_manifest, resolve_manifest_path, PathProbe};
use jev_ops::packs::manifest::{DecisionSpec, InputSpec, PackManifest, PackMetadata, PackSpec};
use jev_ops::packs::scaffold::{scaffold_location, scaffold_template, starter_manifest};
use jev_ops::security::validation::validate_pack_name;
use jev_ops::text::path_join;
use serde_yaml::Value;
use jev_ops::named::NamedMap;
/// A map holding the given entries, put in one by one.
fn named<T>(entries: Vec<(String, T)>) -> NamedMap<T> {
    let mut map = NamedMap::new();
    for (name, value) in entries {
        map.insert(name, value);
    }
    map
}


fn conf(x: f64) -> Confidence {
    Confidence { bits: x.to_bits(), text: x.to_string(), percent: format!("{:.0}%", x * 100.0) }
}

fn text_of(v: &Value, key: &str) -> String {
    v.get(key).and_then(|x| x.as_str()).unwrap_or_default().to_string()
}

/// Reads a manifest from YAML text without serde derives.
fn manifest_from_yaml(yaml: &str) -> PackManifest {
    let root: Value = serde_yaml::from_str(yaml).unwrap();
    let metadata = root.get("metadata").unwrap();
    let spec = root.get("spec").unwrap();
    let mut decisions = Vec::new();
    for (name, d) in spec.get("decisions").unwrap().as_mapping().unwrap() {
        let strings = |key: &str| -> Vec<String> {
            d.get(key)
                .and_then(|x| x.as_sequence())
                .map(|s| s.iter().map(|e| e.as_str().unwrap().to_string()).collect())
                .unwrap_or_default()
        };
        let spec = match text_of(d, "type").as_str() {
            "choice" => DecisionSpec::Choice { values: strings("values") },
            "score" => DecisionSpec::Score {
                min: d.get("min").unwrap().as_i64().unwrap(),
                max: d.get("max").unwrap().as_i64().unwrap(),
                levels: strings("levels"),
            },
            _ => DecisionSpec::Boolean,
        };
        decisions.push((name.as_str().unwrap().to_string(), spec));
    }
    let input = spec.get("input");
    PackManifest {
        api_version: text_of(&root, "api_version"),
        kind: text_of(&root, "kind"),
        metadata: PackMetadata {
            name: text_of(metadata, "name"),
            version: text_of(metadata, "version"),
            description: text_of(metadata, "description"),
            author: text_of(metadata, "author"),
        },
        spec: PackSpec {
            input: match input {
                Some(i) => InputSpec {
                    input_type: text_of(i, "type"),
                    max_bytes: i.get("max_bytes").and_then(|x| x.as_u64()).map(|x| x as usize),
                },
                None => InputSpec::default(),
            },
            decisions: named(decisions),
            instructions: text_of(spec, "instructions"),
        },
    }
}

fn builtin(name: &str) -> PackManifest {
    let pack = get_builtin_pack(name).unwrap();
    accept_manifest(manifest_from_yaml(pack.yaml_content), &embedded_path(name)).ok().unwrap()
}

fn analyze(pack: &str, input: &str) -> PipelineResult {
    analyze_offline(builtin(pack), input.as_bytes(), None).ok().unwrap()
}

fn decision<'a>(res: &'a PipelineResult, name: &str) -> &'a ProviderDecision {
    &res.decisions.entries().iter().find(|(n, _)| n == name).unwrap().1
}

const EXT4: &str = "[12345.678] EXT4-fs error (device sda1): ext4_lookup:1602: inode #2: comm ls: deleted inode referenced: 3426\n";
const OOM: &str = "[5432.1] Out of memory: Killed process 4242 (java) total-vm:8123456kB, anon-rss:4023456kB\n";

#[test]
fn test_cli_version() {
    assert!(version_line().contains("jev-ops v2026.09.19"));
}

#[test]
fn test_cli_packs_list() {
    let builtins: Vec<(String, PackManifest)> =
        builtin_packs().iter().map(|b| (embedded_path(b.name), builtin(b.name))).collect();
    let text = render_pack_list(&merge_listing(builtins, vec![]));
    assert!(text.contains("linux"));
    assert!(text.contains("kubernetes"));
}

#[test]
fn test_cli_packs_show() {
    let text = render_pack_details(&embedded_path("linux"), &builtin("linux"));
    assert!(text.contains("Diagnostic Pack: linux"));
    assert!(text.contains("- health: choice"));
    assert!(text.contains("Decisions"));
}

#[test]
fn test_cli_packs_validate() {
    let m = builtin("linux");
    let text = validated_message(&m.metadata.name, &m.metadata.version, "./packs/linux/pack.yaml");
    assert!(text.contains("is valid"));
}

#[test]
fn test_cli_packs_new() {
    let dir = scaffold_location("my-service", Some("/tmp/scaffold")).ok().unwrap();
    let path = path_join(&dir, "pack.yaml");
    assert_eq!(path, "/tmp/scaffold/my-service/pack.yaml");
    assert!(scaffolded_message(&path).contains("Scaffolded diagnostic pack"));
    let m = manifest_from_yaml(&scaffold_template("my-service"));
    assert!(accept_manifest(m, &path).is_ok());
    let starter = starter_manifest("my-service").ok().unwrap();
    assert_eq!(starter.metadata.name, "my-service");
    assert_eq!(starter.metadata.version, "0.1.0");
    let names: Vec<&str> = starter.spec.decisions.entries().iter().map(|(n, _)| n.as_str()).collect();
    assert_eq!(names, vec!["health", "needs_attention", "severity"]);
}

#[test]
fn test_cli_analyze_file_input_ext4() {
    let text = render_human(&analyze("linux", EXT4));
    assert!(text.contains("Pack:       linux"));
    assert!(text.contains("filesystem"));
    assert!(text.contains("unhealthy"));
}

#[test]
fn test_cli_invalid_pack_exit_code() {
    let search = PackSearch::new("non-existent-pack-name-12345", vec!["./packs".to_string()], vec![]);
    match search.finish() {
        SearchEnd::NotFound(e) => {
            assert_eq!(e.exit_code(), 3);
            assert!(e.message().contains("not found"));
        }
        other => panic!("unexpected {:?}", other),
    }
}

#[test]
fn test_cli_min_confidence_out_of_range_rejected() {
    let e = analyze_offline(builtin("linux"), b"x", Some(conf(42.0))).err().unwrap();
    assert_eq!(e.exit_code(), 2);
    assert!(e.message().contains("outside the valid range"));
}

#[test]
fn test_cli_min_confidence_reported_in_json() {
    let res = analyze_offline(builtin("linux"), OOM.as_bytes(), Some(conf(0.97))).ok().unwrap();
    assert_eq!(res.min_confidence.as_ref().unwrap().bits, 0.97f64.to_bits());
    let low = low_confidence_names(&res).unwrap();
    // Mock OOM scenario: health 0.96 and severity 0.94 fall below 0.97; category 0.97 does not.
    assert!(low.contains(&"health".to_string()));
    assert!(low.contains(&"severity".to_string()));
    assert!(!low.contains(&"category".to_string()));
}

#[test]
fn test_cli_mock_does_not_flag_healthy_log_with_502_in_pid() {
    let res = analyze("linux", "Sep 19 12:00:01 web01 systemd[1502]: Started Service nginx. Active: active (running)");
    match decision(&res, "health") {
        ProviderDecision::Choice { value, .. } => assert_eq!(value, "healthy"),
        _ => panic!("Expected choice for health"),
    }
    match decision(&res, "needs_attention") {
        ProviderDecision::Boolean { value, .. } => assert!(!value),
        _ => panic!("Expected boolean for needs_attention"),
    }
}

#[test]
fn test_cli_pack_name_path_traversal_rejected() {
    let e = validate_pack_name("../packs/linux").unwrap_err();
    assert_eq!(e.exit_code(), 3);
    assert!(e.message().contains("invalid characters"));
}

#[test]
fn test_cli_typesafe_missing_api_key_exit_code() {
    let e = select_provider(Some("typesafe"), None, None).err().unwrap();
    assert_eq!(e.exit_code(), 5);
    assert!(e.message().contains("Missing API key"));
}

#[test]
fn test_cli_explicit_mock_provider() {
    let res = analyze("linux", EXT4);
    assert_eq!(res.provider, "mock");
    match decision(&res, "category") {
        ProviderDecision::Choice { value, .. } => assert_eq!(value, "filesystem"),
        _ => panic!("Expected choice for category"),
    }
}

#[test]
fn test_decision_linux_oom() {
    let res = analyze("linux", OOM);
    match decision(&res, "category") {
        ProviderDecision::Choice { value, .. } => assert_eq!(value, "memory"),
        _ => panic!("Expected choice for category"),
    }
    match decision(&res, "health") {
        ProviderDecision::Choice { value, .. } => assert_eq!(value, "unhealthy"),
        _ => panic!("Expected choice for health"),
    }
    match decision(&res, "severity") {
        ProviderDecision::Score { value, .. } => assert!(*value >= 4),
        _ => panic!("Expected score for severity"),
    }
    match decision(&res, "needs_attention") {
        ProviderDecision::Boolean { value, .. } => assert!(value),
        _ => panic!("Expected boolean for needs_attention"),
    }
}

#[test]
fn test_decision_linux_ext4() {
    let res = analyze("linux", EXT4);
    match decision(&res, "category") {
        ProviderDecision::Choice { value, .. } => assert_eq!(value, "filesystem"),
        _ => panic!("Expected choice for category"),
    }
    match decision(&res, "severity") {
        ProviderDecision::Score { value, .. } => assert_eq!(*value, 5),
        _ => panic!("Expected score for severity"),
    }
}

#[test]
fn test_decision_linux_ssh_bruteforce() {
    let res = analyze(
        "linux",
        "Sep 19 03:12:44 bastion sshd[2211]: Failed password for invalid user admin from 203.0.113.7 port 52211 ssh2\n",
    );
    match decision(&res, "category") {
        ProviderDecision::Choice { value, .. } => assert_eq!(value, "security"),
        _ => panic!("Expected choice for category"),
    }
}

#[test]
fn test_decision_kubernetes_crashloop() {
    let res = analyze("kubernetes", "payments-7d9f  0/1  CrashLoopBackOff  12  40m\nBack-off restarting failed container\n");
    match decision(&res, "root_cause") {
        ProviderDecision::Choice { value, .. } => assert_eq!(value, "crashloop"),
        _ => panic!("Expected choice for root_cause"),
    }
}

#[test]
fn test_decision_kubernetes_oomkilled() {
    let res = analyze("kubernetes", "    Last State:  Terminated\n      Reason:    OOMKilled\n      Exit Code: 137\n");
    match decision(&res, "root_cause") {
        ProviderDecision::Choice { value, .. } => assert_eq!(value, "resources"),
        _ => panic!("Expected choice for root_cause"),
    }
}

#[test]
fn test_decision_healthy() {
    let res = analyze("linux", "Sep 19 12:00:00 server systemd[1]: Started Service.\nActive: active (running)\n");
    match decision(&res, "health") {
        ProviderDecision::Choice { value, .. } => assert_eq!(value, "healthy"),
        _ => panic!("Expected choice for health"),
    }
    match decision(&res, "severity") {
        ProviderDecision::Score { value, .. } => assert_eq!(*value, 0),
        _ => panic!("Expected score for severity"),
    }
    match decision(&res, "needs_attention") {
        ProviderDecision::Boolean { value, .. } => assert!(!value),
        _ => panic!("Expected boolean for needs_attention"),
    }
}

#[test]
fn test_security_huge_input_rejected() {
    let m = builtin("linux");
    let limit = jev_ops::engine::pipeline::input_limit(&m);
    let huge = vec![b'A'; limit + 1];
    let e = analyze_offline(m, &huge, None).err().unwrap();
    assert_eq!(e.exit_code(), 4);
    assert!(e.message().contains("Input too large"));
}

#[test]
fn test_security_binary_input_rejected() {
    let e = accept_input(&[0x7f, 0x45, 0x4c, 0x46, 0x02, 0x01, 0x01, 0x00, 0x00], 1024).err().unwrap();
    assert_eq!(e.exit_code(), 4);
    assert!(e.message().contains("Binary or non-text data"));
}

#[test]
fn test_security_empty_input_rejected() {
    let e = accept_input(b"", 1024).err().unwrap();
    assert_eq!(e.exit_code(), 4);
    assert!(e.message().contains("Input is empty"));
}

#[test]
fn test_load_standard_packs() {
    let linux = builtin("linux");
    assert_eq!(linux.metadata.name, "linux");
    assert_eq!(linux.metadata.version, "0.1.0");
    let k8s = builtin("kubernetes");
    assert_eq!(k8s.metadata.name, "kubernetes");
    let example = builtin("example");
    assert_eq!(example.metadata.name, "example");
}

#[test]
fn test_load_from_directory() {
    let probe = PathProbe { is_file: false, is_dir: true, yaml_is_file: true, yml_is_file: false };
    let path = resolve_manifest_path("packs/linux", &probe).ok().unwrap();
    assert_eq!(path, "packs/linux/pack.yaml");
    let linux = builtin("linux");
    assert_eq!(linux.metadata.name, "linux");
}

#[test]
fn decisions_of_every_builtin_pack_are_answered_offline() {
    for b in builtin_packs() {
        let res = analyze_offline(builtin(b.name), b"plain log line", None);
        assert!(res.is_ok(), "{}", b.name);
        let res = res.ok().unwrap();
        assert_eq!(res.decisions.len(), builtin(b.name).spec.decisions.len());
    }
    let e = analyze_offline(builtin("linux"), b"", None).err().unwrap();
    assert!(matches!(e, JevOpsError::EmptyInput));
}
