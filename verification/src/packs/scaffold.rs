//! A starter pack: where it goes, what its manifest says, and how its creation fails.

use vstd::prelude::*;
use vstd::string::*;
use vstd::utf8::encode_utf8;
use crate::error::JevOpsError;
use crate::named::NamedMap;
use crate::packs::manifest::{
    decisions_model, DecisionModel, DecisionSpec, InputSpec, PackManifest, PackMetadata, PackSpec,
    CURRENT_API_VERSION, CURRENT_KIND,
};
use crate::packs::validation::{
    is_plain_version, is_version_number, manifest_is_valid, semver_parse_error, validate_manifest,
};
use crate::security::limits::MAX_PACK_NAME_LEN;
use crate::security::validation::{pack_name_problem, validate_pack_name};
use crate::text::{is_blank_text, is_white_space, joined_path, path_join, texts};

verus! {

/// Where new packs go when no directory is given.
pub const DEFAULT_SCAFFOLD_DIR: &'static str = "./packs";

/// The starter manifest up to the pack's name.
pub const TEMPLATE_HEAD: &'static str = r#"api_version: "jev-ops/v1"
kind: "DiagnosticPack"

metadata:
  name: ""#;

/// The starter manifest from after the name up to the description's subject.
pub const TEMPLATE_DESCRIPTION: &'static str = r#""
  version: "0.1.0"
  description: "Diagnostic pack for "#;

/// The starter manifest from after the description up to the instructions' subject.
pub const TEMPLATE_BODY: &'static str = r#""
  author: "Community"

spec:
  input:
    type: "text"
    max_bytes: 1048576

  # TypeSafe System One atomic decisions
  decisions:
    health:
      type: "choice"
      values:
        - healthy
        - degraded
        - unhealthy
        - unknown

    severity:
      type: "score"
      min: 0
      max: 5
      # One description per level, from min to max (optional but recommended)
      levels:
        - "Normal: no errors or anomalies in the signals"
        - "Informational: notable events with no impact on service"
        - "Minor: isolated errors or warnings with no user-visible impact"
        - "Degraded: partial impairment affecting some users or requests"
        - "Serious: a major component is failing; urgent action needed"
        - "Critical: outage, data loss risk, or security compromise"

    needs_attention:
      type: "boolean"

  instructions: |
    Analyze the supplied diagnostic signals for "#;

/// The end of the starter manifest.
pub const TEMPLATE_TAIL: &'static str = r#".
    Classify the operational health, severity level, and whether immediate
    operator intervention is needed.
"#;

/// The starter manifest of a pack called `name`.
pub open spec fn template_text(name: Seq<char>) -> Seq<char> {
    TEMPLATE_HEAD@ + name + TEMPLATE_DESCRIPTION@ + name + TEMPLATE_BODY@ + name + TEMPLATE_TAIL@
}

/// Writes the starter manifest of a pack called `name`.
pub fn scaffold_template(name: &str) -> (s: String)
    ensures
        s@ == template_text(name@),
{
    let mut s = String::from_str(TEMPLATE_HEAD);
    s.append(name);
    s.append(TEMPLATE_DESCRIPTION);
    s.append(name);
    s.append(TEMPLATE_BODY);
    s.append(name);
    s.append(TEMPLATE_TAIL);
    s
}

/// The directory of a new pack called `name`: `<target_dir>/<name>`, with `./packs` when no
/// directory is given. A name that the naming rules refuse is an error.
pub fn scaffold_location(name: &str, target_dir: Option<&str>) -> (r: Result<String, JevOpsError>)
    ensures
        match pack_name_problem(name@) {
            None => r matches Ok(d) && d@ == joined_path(
                match target_dir { Some(t) => t@, None => DEFAULT_SCAFFOLD_DIR@ },
                name@,
            ),
            Some(m) => r matches Err(JevOpsError::InvalidPack(e)) && e@ == m,
        },
{
    match validate_pack_name(name) {
        Err(e) => Err(e),
        Ok(()) => {
            let base = match target_dir {
                Some(t) => t,
                None => DEFAULT_SCAFFOLD_DIR,
            };
            Ok(path_join(base, name))
        },
    }
}

/// The refusal to scaffold into a directory that is already there.
pub fn target_exists(dir: &str) -> (e: JevOpsError)
    ensures
        e matches JevOpsError::InvalidPack(m) && m@ == "Target directory '"@ + dir@ + "' already exists"@,
{
    let mut m = String::from_str("Target directory '");
    m.append(dir);
    m.append("' already exists");
    JevOpsError::InvalidPack(m)
}

/// The failure to create the pack directory, with the system's reason.
pub fn create_failed(dir: &str, cause: &str) -> (e: JevOpsError)
    ensures
        e matches JevOpsError::InvalidPack(m) && m@ == "Failed to create directory '"@ + dir@ + "': "@ + cause@,
{
    let mut m = String::from_str("Failed to create directory '");
    m.append(dir);
    m.append("': ");
    m.append(cause);
    JevOpsError::InvalidPack(m)
}

/// The failure to write the starter manifest, with the system's reason.
pub fn write_failed(path: &str, cause: &str) -> (e: JevOpsError)
    ensures
        e matches JevOpsError::InvalidPack(m) && m@ == "Failed to write template manifest '"@ + path@ + "': "@ + cause@,
{
    let mut m = String::from_str("Failed to write template manifest '");
    m.append(path);
    m.append("': ");
    m.append(cause);
    JevOpsError::InvalidPack(m)
}

/// The version a starter pack begins with.
pub const STARTER_VERSION: &'static str = "0.1.0";
/// The author a starter pack names.
pub const STARTER_AUTHOR: &'static str = "Community";
/// The input limit a starter pack sets, in bytes.
pub const STARTER_MAX_BYTES: usize = 1048576;
/// A starter pack's description up to the pack's name.
pub const STARTER_DESCRIPTION_HEAD: &'static str = "Diagnostic pack for ";
/// A starter pack's instructions up to the pack's name.
pub const STARTER_INSTRUCTIONS_HEAD: &'static str = "Analyze the supplied diagnostic signals for ";
/// A starter pack's instructions after the pack's name.
pub const STARTER_INSTRUCTIONS_TAIL: &'static str =
    ".\nClassify the operational health, severity level, and whether immediate\noperator intervention is needed.\n";

/// The values the starter `health` decision offers.
pub open spec fn starter_health_values() -> Seq<Seq<char>> {
    seq!["healthy"@, "degraded"@, "unhealthy"@, "unknown"@]
}

/// The descriptions of the starter `severity` levels, from 0 to 5.
pub open spec fn starter_severity_levels() -> Seq<Seq<char>> {
    seq![
        "Normal: no errors or anomalies in the signals"@,
        "Informational: notable events with no impact on service"@,
        "Minor: isolated errors or warnings with no user-visible impact"@,
        "Degraded: partial impairment affecting some users or requests"@,
        "Serious: a major component is failing; urgent action needed"@,
        "Critical: outage, data loss risk, or security compromise"@,
    ]
}

/// The decisions of a starter pack, in name order: `health`, `needs_attention`, `severity`.
pub open spec fn starter_decisions() -> Seq<(Seq<char>, DecisionModel)> {
    seq![
        ("health"@, DecisionModel::Choice { values: starter_health_values() }),
        ("needs_attention"@, DecisionModel::Boolean),
        ("severity"@, DecisionModel::Score { min: 0, max: 5, levels: starter_severity_levels() }),
    ]
}

/// The instructions of a starter pack called `name`.
pub open spec fn starter_instructions(name: Seq<char>) -> Seq<char> {
    STARTER_INSTRUCTIONS_HEAD@ + name + STARTER_INSTRUCTIONS_TAIL@
}

/// The manifest that the starter template describes for a pack called `name`.
pub open spec fn is_starter_manifest(m: PackManifest, name: Seq<char>) -> bool {
    &&& m.api_version@ == CURRENT_API_VERSION@
    &&& m.kind@ == CURRENT_KIND@
    &&& m.metadata.name@ == name
    &&& m.metadata.version@ == STARTER_VERSION@
    &&& m.metadata.description@ == STARTER_DESCRIPTION_HEAD@ + name
    &&& m.metadata.author@ == STARTER_AUTHOR@
    &&& m.spec.input.input_type@ == "text"@
    &&& m.spec.input.max_bytes == Some(STARTER_MAX_BYTES)
    &&& decisions_model(m.spec.decisions@) == starter_decisions()
    &&& m.spec.instructions@ == starter_instructions(name)
}

/// A text's UTF-8 encoding has at least one and at most four bytes per character.
proof fn lemma_utf8_len_bounds(s: Seq<char>)
    ensures
        s.len() <= encode_utf8(s).len() <= 4 * s.len(),
    decreases s.len(),
{
    if s.len() > 0 {
        lemma_utf8_len_bounds(s.drop_first());
    }
}

/// A text whose first character is not white space is not blank.
proof fn lemma_not_blank(s: Seq<char>)
    requires
        s.len() > 0,
        !is_white_space(s[0]),
    ensures
        !is_blank_text(s),
{
}

/// The starter pack of a name that the naming rules accept passes the manifest rules, given
/// that its version parses.
proof fn lemma_starter_valid(m: PackManifest, name: Seq<char>)
    requires
        is_starter_manifest(m, name),
        pack_name_problem(name) is None,
        semver_parse_error(STARTER_VERSION@) is None,
    ensures
        manifest_is_valid(m),
{
    reveal_strlit("Diagnostic pack for ");
    reveal_strlit("Community");
    reveal_strlit("Analyze the supplied diagnostic signals for ");
    reveal_strlit(".\nClassify the operational health, severity level, and whether immediate\noperator intervention is needed.\n");
    reveal_strlit("health");
    reveal_strlit("needs_attention");
    reveal_strlit("severity");
    reveal_strlit("healthy");
    reveal_strlit("degraded");
    reveal_strlit("unhealthy");
    reveal_strlit("unknown");
    lemma_not_blank(m.metadata.description@);
    lemma_not_blank(m.metadata.author@);
    lemma_not_blank(m.spec.instructions@);
    lemma_utf8_len_bounds(name);
    lemma_utf8_len_bounds(m.spec.instructions@);
    assert(name.len() <= MAX_PACK_NAME_LEN);
    let ds = decisions_model(m.spec.decisions@);
    assert(ds.len() == 3);
    let vals = starter_health_values();
    assert forall|i: int| 0 <= i < vals.len() implies !is_blank_text(#[trigger] vals[i]) by {
        lemma_not_blank(vals[i]);
    }
    assert(vals[0][0] == 'h' && vals[1][0] == 'd' && vals[2][0] == 'u' && vals[3][0] == 'u');
    assert(vals[2][1] == 'n' && vals[3][1] == 'n' && vals[2][2] == 'h' && vals[3][2] == 'k');
    assert forall|i: int, j: int| 0 <= i < j < vals.len() implies vals[i] != vals[j] by {
        if i == 2 && j == 3 {
            assert(vals[i][2] != vals[j][2]);
        } else {
            assert(vals[i][0] != vals[j][0]);
        }
    }
    assert forall|i: int| 0 <= i < ds.len() implies
        crate::packs::validation::decision_is_valid(#[trigger] ds[i].0, ds[i].1) by {
        lemma_not_blank(ds[i].0);
    }
}

/// The starter pack of a pack called `name`, as a loaded pack is: the manifest that the
/// starter template describes, checked by the manifest rules. A name that the naming rules
/// refuse is an error; every other name gives a starter pack that the rules accept.
pub fn starter_manifest(name: &str) -> (r: Result<PackManifest, JevOpsError>)
    ensures
        match pack_name_problem(name@) {
            None => r matches Ok(m) && is_starter_manifest(m, name@) && manifest_is_valid(m),
            Some(p) => r matches Err(JevOpsError::InvalidPack(e)) && e@ == p,
        },
{
    if let Err(e) = validate_pack_name(name) {
        return Err(e);
    }
    let mut values: Vec<String> = Vec::new();
    values.push(String::from_str("healthy"));
    values.push(String::from_str("degraded"));
    values.push(String::from_str("unhealthy"));
    values.push(String::from_str("unknown"));
    assert(texts(values@) =~= starter_health_values());
    let mut levels: Vec<String> = Vec::new();
    levels.push(String::from_str("Normal: no errors or anomalies in the signals"));
    levels.push(String::from_str("Informational: notable events with no impact on service"));
    levels.push(String::from_str("Minor: isolated errors or warnings with no user-visible impact"));
    levels.push(String::from_str("Degraded: partial impairment affecting some users or requests"));
    levels.push(String::from_str("Serious: a major component is failing; urgent action needed"));
    levels.push(String::from_str("Critical: outage, data loss risk, or security compromise"));
    assert(texts(levels@) =~= starter_severity_levels());
    proof {
        reveal_strlit("health");
        reveal_strlit("needs_attention");
        reveal_strlit("severity");
    }
    let mut decisions: NamedMap<DecisionSpec> = NamedMap::new();
    decisions.push_last(String::from_str("health"), DecisionSpec::Choice { values });
    assert(crate::packs::discovery::text_lt("health"@, "needs_attention"@));
    decisions.push_last(String::from_str("needs_attention"), DecisionSpec::Boolean);
    assert(crate::packs::discovery::text_lt("health"@, "severity"@));
    assert(crate::packs::discovery::text_lt("needs_attention"@, "severity"@));
    decisions.push_last(String::from_str("severity"), DecisionSpec::Score { min: 0, max: 5, levels });
    assert(decisions_model(decisions@) =~= starter_decisions());
    let mut description = String::from_str(STARTER_DESCRIPTION_HEAD);
    description.append(name);
    let mut instructions = String::from_str(STARTER_INSTRUCTIONS_HEAD);
    instructions.append(name);
    instructions.append(STARTER_INSTRUCTIONS_TAIL);
    let manifest = PackManifest {
        api_version: String::from_str(CURRENT_API_VERSION),
        kind: String::from_str(CURRENT_KIND),
        metadata: PackMetadata {
            name: String::from_str(name),
            version: String::from_str(STARTER_VERSION),
            description,
            author: String::from_str(STARTER_AUTHOR),
        },
        spec: PackSpec {
            input: InputSpec { input_type: String::from_str("text"), max_bytes: Some(STARTER_MAX_BYTES) },
            decisions,
            instructions,
        },
    };
    proof {
        reveal_strlit("0.1.0");
        reveal_strlit("0");
        reveal_strlit("1");
        reveal_strlit(".");
        assert(is_version_number("0"@));
        assert(is_version_number("1"@));
        assert(STARTER_VERSION@ =~= "0"@ + "."@ + "1"@ + "."@ + "0"@);
        assert(is_plain_version(STARTER_VERSION@));
    }
    let checked = validate_manifest(&manifest);
    proof {
        lemma_starter_valid(manifest, name@);
    }
    match checked {
        Ok(()) => Ok(manifest),
        Err(e) => Err(e),
    }
}

} // verus!
