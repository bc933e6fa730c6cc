use jev_ops::config::{toml_simple_parse, Config};
use jev_ops::packs::builtin::{builtin_packs, get_builtin_pack};
use jev_ops::error::JevOpsError;
use jev_ops::packs::discovery::{
    embedded_path, entry_manifest_path, manifest_matches, merge_listing, pack_candidates, pack_not_found,
    search_candidates, search_directories, search_directories_from, text_less, EntryProbe, PackIndex, PackSearch,
    SearchEnd, SearchStep,
};
use jev_ops::packs::loader::{accept_manifest, resolve_manifest_path, yaml_parse_failure, PathProbe};
use jev_ops::packs::manifest::{DecisionSpec, InputSpec, PackManifest, PackMetadata, PackSpec};
use jev_ops::packs::scaffold::{
    create_failed, scaffold_location, scaffold_template, starter_manifest, target_exists, write_failed,
};
use jev_ops::packs::validation::validate_manifest;
use jev_ops::text::{contains_text, path_join, trim_text, truncate_chars};
use serde_yaml::Value;
use jev_ops::named::NamedMap;
/// A map holding the given entries, put in one by one.
fn named<T>(entries: Vec<(String, T)>) -> NamedMap<T> {
    let mut map = NamedMap::new();
    for (name, value) in entries {
        map.insert(name, value);
    }
    map
}


fn text_of(v: &Value, key: &str) -> String {
    v.get(key).and_then(|x| x.as_str()).unwrap_or_default().to_string()
}

/// Reads a manifest from YAML text without serde derives, for checking manifest texts.
fn manifest_from_yaml(yaml: &str) -> PackManifest {
    let root: Value = serde_yaml::from_str(yaml).unwrap();
    let metadata = root.get("metadata").unwrap();
    let spec = root.get("spec").unwrap();
    let input = spec.get("input").unwrap();
    let mut decisions = Vec::new();
    for (name, d) in spec.get("decisions").unwrap().as_mapping().unwrap() {
        let kind = text_of(d, "type");
        let strings = |key: &str| -> Vec<String> {
            d.get(key)
                .and_then(|x| x.as_sequence())
                .map(|s| s.iter().map(|e| e.as_str().unwrap().to_string()).collect())
                .unwrap_or_default()
        };
        let spec = match kind.as_str() {
            "choice" => DecisionSpec::Choice { values: strings("values") },
            "score" => DecisionSpec::Score {
                min: d.get("min").unwrap().as_i64().unwrap(),
                max: d.get("max").unwrap().as_i64().unwrap(),
                levels: strings("levels"),
            },
            "boolean" => DecisionSpec::Boolean,
            other => panic!("unknown decision type {}", other),
        };
        decisions.push((name.as_str().unwrap().to_string(), spec));
    }
    PackManifest {
        api_version: text_of(&root, "api_version"),
        kind: text_of(&root, "kind"),
        metadata: PackMetadata {
            name: text_of(metadata, "name"),
            version: text_of(metadata, "version"),
            description: text_of(metadata, "description"),
            author: text_of(metadata, "author"),
        },
        spec: PackSpec {
            input: InputSpec {
                input_type: text_of(input, "type"),
                max_bytes: input.get("max_bytes").and_then(|x| x.as_u64()).map(|x| x as usize),
            },
            decisions: named(decisions),
            instructions: text_of(spec, "instructions"),
        },
    }
}

fn small_manifest(name: &str, version: &str) -> PackManifest {
    PackManifest {
        api_version: "jev-ops/v1".to_string(),
        kind: "DiagnosticPack".to_string(),
        metadata: PackMetadata {
            name: name.to_string(),
            version: version.to_string(),
            description: "d".to_string(),
            author: "a".to_string(),
        },
        spec: PackSpec {
            input: InputSpec::default(),
            decisions: named(vec![("ok".to_string(), DecisionSpec::Boolean)]),
            instructions: "Check.".to_string(),
        },
    }
}

#[test]
fn test_search_directories_precedence() {
    let custom = "/custom/packs";
    let dirs = search_directories(Some(custom));
    assert_eq!(dirs[0], custom);
    assert_eq!(dirs[1], "./packs");
}

#[test]
fn search_order_with_user_directories() {
    let dirs = search_directories_from(
        Some("/opt/p"),
        Some("/home/u/.config".to_string()),
        Some("/home/u/.local/share/".to_string()),
    );
    assert_eq!(
        dirs,
        vec![
            "/opt/p",
            "./packs",
            "/home/u/.config/jev-ops/packs",
            "/home/u/.local/share/jev-ops/packs",
            "/usr/share/jev-ops/packs",
        ]
    );
    let dirs = search_directories_from(None, None, None);
    assert_eq!(dirs, vec!["./packs", "/usr/share/jev-ops/packs"]);
    let dirs = search_directories(None);
    assert_eq!(dirs.first().unwrap(), "./packs");
    assert_eq!(dirs.last().unwrap(), "/usr/share/jev-ops/packs");
}

#[test]
fn candidates_and_their_order() {
    assert_eq!(
        pack_candidates("./packs", "linux"),
        vec!["./packs/linux/pack.yaml", "./packs/linux/pack.yml", "./packs/linux.yaml", "./packs/linux.yml"]
    );
    let dirs = vec!["/a".to_string(), "/b/".to_string(), "/c".to_string()];
    let present = vec![true, false, true];
    let files = vec![vec![false, true, false, true], vec![true, true, true, true], vec![true, false, false, false]];
    assert_eq!(
        search_candidates(&dirs, "x", &present, &files),
        vec!["/a/x/pack.yml", "/a/x.yml", "/c/x/pack.yaml"]
    );
}

#[test]
fn found_manifest_must_carry_the_name() {
    let m = small_manifest("linux", "9.9.9");
    assert!(manifest_matches(&m, "linux"));
    assert!(!manifest_matches(&m, "linux2"));
    assert_eq!(embedded_path("linux"), "<embedded:linux>");
    let e = pack_not_found("nope", &vec!["./packs".to_string(), "/usr/share/jev-ops/packs".to_string()]);
    assert_eq!(
        e.message(),
        "Diagnostic pack 'nope' not found. Searched in: ./packs, /usr/share/jev-ops/packs"
    );
    assert_eq!(e.exit_code(), 3);
}

#[test]
fn index_keeps_names_in_order_and_later_packs_win() {
    let mut index = PackIndex::new();
    index.insert("<embedded:linux>".to_string(), small_manifest("linux", "0.1.0"));
    index.insert("<embedded:example>".to_string(), small_manifest("example", "0.1.0"));
    index.insert("<embedded:kubernetes>".to_string(), small_manifest("kubernetes", "0.1.0"));
    index.insert("./packs/linux/pack.yaml".to_string(), small_manifest("linux", "9.9.9"));
    index.insert("./packs/a.yaml".to_string(), small_manifest("a-first", "1.0.0"));
    let packs = index.into_packs();
    let names: Vec<&str> = packs.iter().map(|p| p.name.as_str()).collect();
    assert_eq!(names, vec!["a-first", "example", "kubernetes", "linux"]);
    let linux = &packs[3];
    assert_eq!(linux.path, "./packs/linux/pack.yaml");
    assert_eq!(linux.manifest.metadata.version, "9.9.9");
}

#[test]
fn text_order_is_string_order() {
    let words = ["", "a", "b", "ab", "a-b", "a_b", "Z", "\u{e9}", "\u{2014}", "abc", "abd", "k8s", "linux"];
    for a in words {
        for b in words {
            assert_eq!(text_less(a, b), a < b, "{:?} < {:?}", a, b);
        }
    }
}

#[test]
fn directory_entries() {
    let dir = EntryProbe { is_dir: true, is_file: false, yaml_is_file: false, yml_is_file: true };
    assert_eq!(entry_manifest_path("./packs/x", &dir, None), Some("./packs/x/pack.yml".to_string()));
    let dir = EntryProbe { is_dir: true, is_file: false, yaml_is_file: true, yml_is_file: true };
    assert_eq!(entry_manifest_path("./packs/x", &dir, None), Some("./packs/x/pack.yaml".to_string()));
    let file = EntryProbe { is_dir: false, is_file: true, yaml_is_file: false, yml_is_file: false };
    assert_eq!(entry_manifest_path("./packs/x.yml", &file, Some("yml")), Some("./packs/x.yml".to_string()));
    assert_eq!(entry_manifest_path("./packs/x.txt", &file, Some("txt")), None);
    assert_eq!(entry_manifest_path("./packs/README", &file, None), None);
}

#[test]
fn manifest_locations() {
    let file = PathProbe { is_file: true, is_dir: false, yaml_is_file: false, yml_is_file: false };
    assert_eq!(resolve_manifest_path("p.yaml", &file).ok().unwrap(), "p.yaml");
    let dir = PathProbe { is_file: false, is_dir: true, yaml_is_file: false, yml_is_file: true };
    assert_eq!(resolve_manifest_path("packs/linux", &dir).ok().unwrap(), "packs/linux/pack.yml");
    let empty = PathProbe { is_file: false, is_dir: true, yaml_is_file: false, yml_is_file: false };
    let e = resolve_manifest_path("packs/none", &empty).err().unwrap();
    assert_eq!(
        e.message(),
        "Diagnostic pack 'packs/none' not found. Searched in: packs/none/pack.yaml, packs/none/pack.yml"
    );
    let missing = PathProbe { is_file: false, is_dir: false, yaml_is_file: false, yml_is_file: false };
    let e = resolve_manifest_path("nowhere", &missing).err().unwrap();
    assert_eq!(e.message(), "Pack error: Path 'nowhere' does not exist or is not accessible");
}

#[test]
fn manifest_acceptance() {
    let m = accept_manifest(small_manifest("ok", "1.0.0"), "ok.yaml").ok().unwrap();
    assert_eq!(m.metadata.name, "ok");
    let e = accept_manifest(small_manifest("ok", "1.0"), "ok.yaml").err().unwrap();
    assert!(e.message().starts_with("Invalid pack 'ok.yaml':\nPack error: "));
    let e = yaml_parse_failure("typo.yaml", "unknown field `levles`");
    assert_eq!(e.message(), "Invalid pack 'typo.yaml':\nYAML parsing error: unknown field `levles`");
}

#[test]
fn builtin_packs_are_valid_and_named() {
    let packs = builtin_packs();
    assert_eq!(packs.len(), 12);
    for p in &packs {
        let m = manifest_from_yaml(p.yaml_content);
        assert_eq!(m.metadata.name, p.name);
        if let Err(e) = validate_manifest(&m) {
            panic!("{}: {}", p.name, e.message());
        }
    }
    for name in ["linux", "kubernetes", "example"] {
        assert!(packs.iter().any(|p| p.name == name));
    }
}

#[test]
fn builtin_lookup() {
    let p = get_builtin_pack("linux").unwrap();
    assert_eq!(p.name, "linux");
    assert!(p.yaml_content.contains("name: \"linux\""));
    assert!(get_builtin_pack("queue-service").is_none());
    assert!(get_builtin_pack("").is_none());
    let k = manifest_from_yaml(get_builtin_pack("kubernetes").unwrap().yaml_content);
    assert_eq!(k.spec.decisions.len(), 4);
    assert_eq!(k.spec.input.max_bytes, Some(2097152));
}

#[test]
fn scaffolding() {
    assert_eq!(scaffold_location("my-service", None).ok().unwrap(), "./packs/my-service");
    assert_eq!(scaffold_location("my-service", Some("/tmp/x/")).ok().unwrap(), "/tmp/x/my-service");
    let e = scaffold_location("../evil", None).err().unwrap();
    assert!(e.message().contains("contains invalid characters"));
    let t = scaffold_template("my-service");
    assert!(t.contains("  name: \"my-service\"\n"));
    assert!(t.contains("description: \"Diagnostic pack for my-service\""));
    assert!(t.contains("Analyze the supplied diagnostic signals for my-service.\n"));
    let m = manifest_from_yaml(&t);
    assert!(validate_manifest(&m).is_ok());
    assert_eq!(m.spec.decisions.len(), 3);
    assert_eq!(target_exists("./packs/x").message(), "Pack error: Target directory './packs/x' already exists");
    assert_eq!(
        create_failed("./p", "denied").message(),
        "Pack error: Failed to create directory './p': denied"
    );
    assert_eq!(
        write_failed("./p/pack.yaml", "full").message(),
        "Pack error: Failed to write template manifest './p/pack.yaml': full"
    );
}

#[test]
fn starter_pack_is_what_its_template_reads_as() {
    for name in ["my-service", "a", "db_9", "x1-y2_z3"] {
        let read_back = manifest_from_yaml(&scaffold_template(name));
        let starter = starter_manifest(name).ok().unwrap();
        assert_eq!(read_back.api_version, starter.api_version);
        assert_eq!(read_back.kind, starter.kind);
        assert_eq!(read_back.metadata.name, name);
        assert_eq!(starter.metadata.name, name);
        assert_eq!(read_back.metadata.version, "0.1.0");
        assert_eq!(starter.metadata.version, "0.1.0");
        assert_eq!(read_back.metadata.description, starter.metadata.description);
        assert_eq!(read_back.metadata.author, starter.metadata.author);
        assert_eq!(read_back.spec.input.input_type, starter.spec.input.input_type);
        assert_eq!(read_back.spec.input.max_bytes, starter.spec.input.max_bytes);
        assert_eq!(read_back.spec.instructions, starter.spec.instructions);
        assert_eq!(
            format!("{:?}", read_back.spec.decisions.entries()),
            format!("{:?}", starter.spec.decisions.entries())
        );
        let names: Vec<&str> = starter.spec.decisions.entries().iter().map(|(n, _)| n.as_str()).collect();
        assert_eq!(names, vec!["health", "needs_attention", "severity"]);
        assert!(validate_manifest(&starter).is_ok());
        assert!(validate_manifest(&read_back).is_ok());
    }
}

#[test]
fn starter_pack_refuses_bad_names() {
    let e = starter_manifest("Bad Name").err().unwrap();
    assert_eq!(
        e.message(),
        "Pack error: Pack name 'Bad Name' contains invalid characters. Use only lowercase alphanumeric and '-' or '_'"
    );
    let e = starter_manifest("").err().unwrap();
    assert_eq!(e.message(), "Pack error: Pack name cannot be empty");
    let e = starter_manifest("-edge").err().unwrap();
    assert!(e.message().contains("cannot start or end with a hyphen or underscore"));
}

#[test]
fn configuration() {
    let c = toml_simple_parse("pack_dirs = [\"/x\"]").unwrap();
    assert!(c.pack_dirs.is_empty());
    assert!(c.default_provider.is_none());
    let c = Config::from_file_text(None);
    assert!(c.pack_dirs.is_empty());
    assert_eq!(Config::file_path("/home/u/.config"), "/home/u/.config/jev-ops/config.toml");
}

#[test]
fn text_helpers() {
    assert_eq!(truncate_chars("short", 38), "short");
    assert_eq!(truncate_chars("abcdefgh", 5), "ab...");
    assert_eq!(truncate_chars("abcdefgh", 2), "...");
    let long = "PostgreSQL replication lag monito \u{2014} primary and replica";
    assert_eq!(truncate_chars(long, 38), "PostgreSQL replication lag monito \u{2014}...");
    assert_eq!(trim_text("  \t a b \n"), "a b");
    assert_eq!(trim_text("   "), "");
    assert_eq!(trim_text("\u{3000}x\u{a0}"), "x");
    assert_eq!(path_join("", "a"), "a");
    assert_eq!(path_join("/", "a"), "/a");
    assert_eq!(path_join("b", "a"), "b/a");
}

fn custom_manifest(name: &str, version: &str, author: &str) -> PackManifest {
    let mut m = small_manifest(name, version);
    m.metadata.author = author.to_string();
    m
}

#[test]
fn test_custom_pack_dir_precedence() {
    let dirs = search_directories_from(Some("/tmp/custom"), None, None);
    let present = vec![true, true, false];
    let files = vec![vec![true, false, false, false], vec![true, false, false, false], vec![false; 4]];
    let candidates = search_candidates(&dirs, "linux", &present, &files);
    assert_eq!(candidates, vec!["/tmp/custom/linux/pack.yaml", "./packs/linux/pack.yaml"]);
    let mut search = PackSearch::new("linux", dirs, candidates);
    let first = search.next_candidate().unwrap();
    assert_eq!(first, "/tmp/custom/linux/pack.yaml");
    match search.record(Ok(custom_manifest("linux", "9.9.9", "custom"))) {
        SearchStep::Found { path, manifest } => {
            assert_eq!(path, first);
            assert_eq!(manifest.metadata.version, "9.9.9");
            assert_eq!(manifest.metadata.author, "custom");
        }
        other => panic!("expected the custom pack, got {:?}", other),
    }
}

#[test]
fn search_skips_other_packs_and_stops_at_errors() {
    let dirs = vec!["/a".to_string()];
    let candidates = vec!["/a/x.yaml".to_string(), "/a/x.yml".to_string()];
    let mut search = PackSearch::new("x", dirs.clone(), candidates.clone());
    assert!(matches!(search.record(Ok(small_manifest("y", "1.0.0"))), SearchStep::Continue));
    assert_eq!(search.next_candidate().unwrap(), "/a/x.yml");
    let step = search.record(Err(JevOpsError::InvalidPack("broken".to_string())));
    assert!(matches!(step, SearchStep::Failed(JevOpsError::InvalidPack(_))));
    assert!(search.next_candidate().is_none());
}

#[test]
fn search_falls_back_to_compiled_in_packs() {
    let dirs = vec!["./packs".to_string(), "/usr/share/jev-ops/packs".to_string()];
    let search = PackSearch::new("linux", dirs.clone(), vec![]);
    assert!(search.next_candidate().is_none());
    match search.finish() {
        SearchEnd::Builtin { path, pack } => {
            assert_eq!(path, "<embedded:linux>");
            assert_eq!(pack.name, "linux");
        }
        other => panic!("expected the compiled-in pack, got {:?}", other),
    }
    let search = PackSearch::new("non-existent-pack-name-12345", dirs, vec![]);
    match search.finish() {
        SearchEnd::NotFound(e) => {
            assert!(e.message().contains("not found"));
            assert_eq!(e.exit_code(), 3);
        }
        other => panic!("expected no pack, got {:?}", other),
    }
}

#[test]
fn listing_prefers_higher_precedence() {
    let builtins = vec![
        ("<embedded:linux>".to_string(), small_manifest("linux", "0.1.0")),
        ("<embedded:example>".to_string(), small_manifest("example", "0.1.0")),
    ];
    let by_dir = vec![
        vec![("/custom/linux.yaml".to_string(), custom_manifest("linux", "9.9.9", "custom"))],
        vec![
            ("./packs/linux/pack.yaml".to_string(), small_manifest("linux", "1.0.0")),
            ("./packs/kubernetes/pack.yaml".to_string(), small_manifest("kubernetes", "2.0.0")),
        ],
        vec![],
    ];
    let packs = merge_listing(builtins, by_dir);
    let names: Vec<&str> = packs.iter().map(|p| p.name.as_str()).collect();
    assert_eq!(names, vec!["example", "kubernetes", "linux"]);
    assert_eq!(packs[0].path, "<embedded:example>");
    assert_eq!(packs[1].path, "./packs/kubernetes/pack.yaml");
    assert_eq!(packs[2].path, "/custom/linux.yaml");
    assert_eq!(packs[2].manifest.metadata.version, "9.9.9");
}

#[test]
fn test_list_available_packs() {
    let builtins: Vec<(String, PackManifest)> = builtin_packs()
        .iter()
        .map(|b| (embedded_path(b.name), manifest_from_yaml(b.yaml_content)))
        .collect();
    let packs = merge_listing(builtins, vec![]);
    let names: Vec<String> = packs.into_iter().map(|p| p.name).collect();
    assert!(names.contains(&"linux".to_string()));
    assert!(names.contains(&"kubernetes".to_string()));
    assert!(names.contains(&"example".to_string()));
}

#[test]
fn substring_search() {
    assert!(contains_text("abc", ""));
    assert!(contains_text("", ""));
    assert!(!contains_text("", "a"));
    assert!(contains_text("kernel: Out of memory", "Out of memory"));
    assert!(contains_text("abcabd", "abd"));
    assert!(!contains_text("abcab", "abd"));
    assert!(contains_text("caf\u{e9} au lait", "\u{e9} a"));
    assert!(!contains_text("ab", "abc"));
}

#[test]
fn named_maps_keep_each_name_once_in_order() {
    let mut m = NamedMap::new();
    m.insert("severity".to_string(), 1);
    m.insert("health".to_string(), 2);
    m.insert("needs_attention".to_string(), 3);
    m.insert("health".to_string(), 4);
    let entries: Vec<(&str, i32)> = m.entries().iter().map(|(n, v)| (n.as_str(), *v)).collect();
    assert_eq!(entries, vec![("health", 4), ("needs_attention", 3), ("severity", 1)]);
    assert_eq!(m.len(), 3);
    let mut later = NamedMap::new();
    later.push_last("a".to_string(), 1);
    later.push_last("b".to_string(), 2);
    assert_eq!(later.into_entries(), vec![("a".to_string(), 1), ("b".to_string(), 2)]);
}
