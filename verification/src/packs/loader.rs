//! Locating a manifest file and turning its bytes into a checked manifest.

use vstd::prelude::*;
use vstd::string::*;
use vstd::utf8::valid_utf8;
use crate::error::JevOpsError;
use crate::packs::manifest::PackManifest;
use crate::packs::validation::{manifest_is_valid, manifest_issues, validate_manifest};
use crate::security::limits::MAX_MANIFEST_BYTES;
use crate::security::validation::{looks_binary, utf8_error_text, validate_text_input};
use crate::text::{int_text, joined, joined_path, path_join, u128_text, usize_text};

verus! {

/// What the filesystem says about a path given as a pack location, and about the two
/// manifest names inside it.
#[derive(Debug, Clone, Copy)]
pub struct PathProbe {
    pub is_file: bool,
    pub is_dir: bool,
    pub yaml_is_file: bool,
    pub yml_is_file: bool,
}

/// Resolves a pack location to its manifest file: a file is the manifest itself; a
/// directory holds `pack.yaml` or else `pack.yml`; anything else is an error. The probe
/// describes `path`, `path/pack.yaml` and `path/pack.yml`.
pub fn resolve_manifest_path(path: &str, probe: &PathProbe) -> (r: Result<String, JevOpsError>)
    ensures
        probe.is_file ==> (r matches Ok(p) && p@ == path@),
        !probe.is_file && probe.is_dir && probe.yaml_is_file ==> (r matches Ok(p) && p@ == joined_path(path@, "pack.yaml"@)),
        !probe.is_file && probe.is_dir && !probe.yaml_is_file && probe.yml_is_file ==> (r matches Ok(p)
            && p@ == joined_path(path@, "pack.yml"@)),
        !probe.is_file && probe.is_dir && !probe.yaml_is_file && !probe.yml_is_file ==> (r matches Err(
            JevOpsError::PackNotFound { name, searched },
        ) && name@ == path@ && searched@ == path@ + "/pack.yaml, "@ + path@ + "/pack.yml"@),
        !probe.is_file && !probe.is_dir ==> (r matches Err(JevOpsError::InvalidPack(m))
            && m@ == "Path '"@ + path@ + "' does not exist or is not accessible"@),
{
    if probe.is_file {
        return Ok(String::from_str(path));
    }
    if probe.is_dir {
        if probe.yaml_is_file {
            return Ok(path_join(path, "pack.yaml"));
        }
        if probe.yml_is_file {
            return Ok(path_join(path, "pack.yml"));
        }
        let mut searched = String::from_str(path);
        searched.append("/pack.yaml, ");
        searched.append(path);
        searched.append("/pack.yml");
        return Err(JevOpsError::PackNotFound { name: String::from_str(path), searched });
    }
    let mut m = String::from_str("Path '");
    m.append(path);
    m.append("' does not exist or is not accessible");
    Err(JevOpsError::InvalidPack(m))
}

/// Refuses a manifest file larger than `MAX_MANIFEST_BYTES` before it is read.
pub fn check_manifest_size(path: &str, len: u64) -> (r: Result<(), JevOpsError>)
    ensures
        len <= MAX_MANIFEST_BYTES ==> r is Ok,
        len > MAX_MANIFEST_BYTES ==> (r matches Err(JevOpsError::InvalidPack(m))
            && m@ == "Pack manifest '"@ + path@ + "' size ("@ + int_text(len as int) + " bytes) exceeds limit of "@
                + int_text(MAX_MANIFEST_BYTES as int) + " bytes (256 KiB)"@),
{
    if len > MAX_MANIFEST_BYTES as u64 {
        let mut m = String::from_str("Pack manifest '");
        m.append(path);
        m.append("' size (");
        m.append(u128_text(len as u128).as_str());
        m.append(" bytes) exceeds limit of ");
        m.append(usize_text(MAX_MANIFEST_BYTES).as_str());
        m.append(" bytes (256 KiB)");
        return Err(JevOpsError::InvalidPack(m));
    }
    Ok(())
}

/// The text of a manifest file: its bytes must be UTF-8 text that does not look binary.
pub fn manifest_text<'a>(path: &str, bytes: &'a [u8]) -> (r: Result<&'a str, JevOpsError>)
    ensures
        valid_utf8(bytes@) && !looks_binary(bytes@) ==> (r matches Ok(s) && s.spec_bytes() == bytes@),
        !valid_utf8(bytes@) ==> (r matches Err(JevOpsError::InvalidPack(m))
            && m@ == "Pack manifest '"@ + path@ + "' is not valid UTF-8: "@ + ("Invalid UTF-8 in input: "@
                + utf8_error_text(bytes@))),
        valid_utf8(bytes@) && looks_binary(bytes@) ==> (r matches Err(JevOpsError::InvalidPack(m))
            && m@ == "Pack manifest '"@ + path@ + "' is not valid UTF-8: "@ + "Binary or non-text data detected in input"@),
{
    match validate_text_input(bytes) {
        Ok(s) => Ok(s),
        Err(e) => {
            let mut m = String::from_str("Pack manifest '");
            m.append(path);
            m.append("' is not valid UTF-8: ");
            m.append(e.message().as_str());
            Err(JevOpsError::InvalidPack(m))
        },
    }
}

/// The failure to look at a manifest file, with the system's reason.
pub fn cannot_read(path: &str, cause: &str) -> (e: JevOpsError)
    ensures
        e matches JevOpsError::InvalidPack(m) && m@ == "Cannot read '"@ + path@ + "': "@ + cause@,
{
    let mut m = String::from_str("Cannot read '");
    m.append(path);
    m.append("': ");
    m.append(cause);
    JevOpsError::InvalidPack(m)
}

/// The failure to read a manifest file's bytes, with the system's reason.
pub fn read_failed(path: &str, cause: &str) -> (e: JevOpsError)
    ensures
        e matches JevOpsError::InvalidPack(m) && m@ == "Failed to read '"@ + path@ + "': "@ + cause@,
{
    let mut m = String::from_str("Failed to read '");
    m.append(path);
    m.append("': ");
    m.append(cause);
    JevOpsError::InvalidPack(m)
}

/// The error for a manifest whose YAML cannot be read into a manifest.
pub fn yaml_parse_failure(path: &str, message: &str) -> (e: JevOpsError)
    ensures
        e matches JevOpsError::PackValidation { path: p, details } && p@ == path@
            && details@ == "YAML parsing error: "@ + message@,
{
    let mut details = String::from_str("YAML parsing error: ");
    details.append(message);
    JevOpsError::PackValidation { path: String::from_str(path), details }
}

/// Accepts a parsed manifest that passes every rule; otherwise reports the problems as a
/// validation failure of the manifest at `path`.
pub fn accept_manifest(manifest: PackManifest, path: &str) -> (r: Result<PackManifest, JevOpsError>)
    ensures
        r is Ok <==> manifest_is_valid(manifest),
        r matches Ok(m) ==> m == manifest,
        r matches Err(e) ==> (e matches JevOpsError::PackValidation { path: p, details } && p@ == path@
            && details@ == "Pack error: "@ + joined(manifest_issues(manifest), "\n"@)),
{
    match validate_manifest(&manifest) {
        Ok(()) => Ok(manifest),
        Err(e) => {
            let details = e.message();
            Err(JevOpsError::PackValidation { path: String::from_str(path), details })
        },
    }
}

/// Refuses embedded manifest text larger than `MAX_MANIFEST_BYTES`.
pub fn check_embedded_size(virtual_name: &str, len: usize) -> (r: Result<(), JevOpsError>)
    ensures
        len <= MAX_MANIFEST_BYTES ==> r is Ok,
        len > MAX_MANIFEST_BYTES ==> (r matches Err(JevOpsError::InvalidPack(m))
            && m@ == "Pack manifest '"@ + virtual_name@ + "' size exceeds limit of "@
                + int_text(MAX_MANIFEST_BYTES as int) + " bytes"@),
{
    if len > MAX_MANIFEST_BYTES {
        let mut m = String::from_str("Pack manifest '");
        m.append(virtual_name);
        m.append("' size exceeds limit of ");
        m.append(usize_text(MAX_MANIFEST_BYTES).as_str());
        m.append(" bytes");
        return Err(JevOpsError::InvalidPack(m));
    }
    Ok(())
}

} // verus!
