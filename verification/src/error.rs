//! The library's error type, the process exit code of each error, and its message.

use vstd::prelude::*;
use vstd::string::*;
use crate::text::{int_text, usize_text};

verus! {

/// Exit status of a successful run.
pub const EXIT_SUCCESS: i32 = 0;
/// Exit status of an internal runtime or I/O error.
pub const EXIT_GENERAL_ERROR: i32 = 1;
/// Exit status of invalid command-line usage.
pub const EXIT_INVALID_CLI_USAGE: i32 = 2;
/// Exit status of a missing or invalid pack.
pub const EXIT_INVALID_PACK: i32 = 3;
/// Exit status of rejected input data.
pub const EXIT_INVALID_INPUT: i32 = 4;
/// Exit status of a failing inference provider.
pub const EXIT_PROVIDER_FAILURE: i32 = 5;
/// Exit status of a provider answer that breaks the pack schema.
pub const EXIT_INVALID_PROVIDER_RESPONSE: i32 = 6;

/// Every failure the tool reports. Paths and the texts of I/O, YAML and JSON
/// errors are held as plain text.
#[derive(Debug)]
pub enum JevOpsError {
    Cli(String),
    PackNotFound { name: String, searched: String },
    PackValidation { path: String, details: String },
    InvalidPack(String),
    Input(String),
    InputTooLarge { bytes: usize, max_bytes: usize },
    EmptyInput,
    InvalidUtf8(String),
    BinaryContentDetected,
    ProviderError { provider: String, details: String },
    InvalidProviderResponse(String),
    Io(String),
    Yaml(String),
    Json(String),
    General(String),
}

/// The exit status that belongs to each error.
pub open spec fn exit_code_of(e: JevOpsError) -> i32 {
    match e {
        JevOpsError::Cli(_) => EXIT_INVALID_CLI_USAGE,
        JevOpsError::PackNotFound { .. } | JevOpsError::PackValidation { .. }
        | JevOpsError::InvalidPack(_) | JevOpsError::Yaml(_) => EXIT_INVALID_PACK,
        JevOpsError::Input(_) | JevOpsError::InputTooLarge { .. } | JevOpsError::EmptyInput
        | JevOpsError::InvalidUtf8(_) | JevOpsError::BinaryContentDetected => EXIT_INVALID_INPUT,
        JevOpsError::ProviderError { .. } => EXIT_PROVIDER_FAILURE,
        JevOpsError::InvalidProviderResponse(_) => EXIT_INVALID_PROVIDER_RESPONSE,
        JevOpsError::Io(_) | JevOpsError::Json(_) | JevOpsError::General(_) => EXIT_GENERAL_ERROR,
    }
}

/// The message printed for each error.
pub open spec fn error_text(e: JevOpsError) -> Seq<char> {
    match e {
        JevOpsError::Cli(m) => "Invalid CLI argument or option: "@ + m@,
        JevOpsError::PackNotFound { name, searched } =>
            "Diagnostic pack '"@ + name@ + "' not found. Searched in: "@ + searched@,
        JevOpsError::PackValidation { path, details } =>
            "Invalid pack '"@ + path@ + "':\n"@ + details@,
        JevOpsError::InvalidPack(m) => "Pack error: "@ + m@,
        JevOpsError::Input(m) => "Input error: "@ + m@,
        JevOpsError::InputTooLarge { bytes, max_bytes } =>
            "Input too large ("@ + int_text(bytes as int) + " bytes exceeds limit of "@
                + int_text(max_bytes as int) + " bytes)"@,
        JevOpsError::EmptyInput => "Input is empty. Provide diagnostic data via stdin or --input"@,
        JevOpsError::InvalidUtf8(m) => "Invalid UTF-8 in input: "@ + m@,
        JevOpsError::BinaryContentDetected => "Binary or non-text data detected in input"@,
        JevOpsError::ProviderError { provider, details } =>
            "Inference provider '"@ + provider@ + "' failure: "@ + details@,
        JevOpsError::InvalidProviderResponse(m) =>
            "Invalid provider response against pack schema: "@ + m@,
        JevOpsError::Io(m) => "I/O error: "@ + m@,
        JevOpsError::Yaml(m) => "YAML error: "@ + m@,
        JevOpsError::Json(m) => "JSON error: "@ + m@,
        JevOpsError::General(m) => m@,
    }
}

impl JevOpsError {
    /// The process exit status for this error.
    pub fn exit_code(&self) -> (code: i32)
        ensures
            code == exit_code_of(*self),
    {
        match self {
            JevOpsError::Cli(_) => EXIT_INVALID_CLI_USAGE,
            JevOpsError::PackNotFound { .. } | JevOpsError::PackValidation { .. }
            | JevOpsError::InvalidPack(_) | JevOpsError::Yaml(_) => EXIT_INVALID_PACK,
            JevOpsError::Input(_) | JevOpsError::InputTooLarge { .. } | JevOpsError::EmptyInput
            | JevOpsError::InvalidUtf8(_) | JevOpsError::BinaryContentDetected => EXIT_INVALID_INPUT,
            JevOpsError::ProviderError { .. } => EXIT_PROVIDER_FAILURE,
            JevOpsError::InvalidProviderResponse(_) => EXIT_INVALID_PROVIDER_RESPONSE,
            JevOpsError::Io(_) | JevOpsError::Json(_) | JevOpsError::General(_) => EXIT_GENERAL_ERROR,
        }
    }

    /// The human-readable message for this error.
    pub fn message(&self) -> (m: String)
        ensures
            m@ == error_text(*self),
    {
        match self {
            JevOpsError::Cli(m) => {
                let mut s = String::from_str("Invalid CLI argument or option: ");
                s.append(m.as_str());
                s
            },
            JevOpsError::PackNotFound { name, searched } => {
                let mut s = String::from_str("Diagnostic pack '");
                s.append(name.as_str());
                s.append("' not found. Searched in: ");
                s.append(searched.as_str());
                s
            },
            JevOpsError::PackValidation { path, details } => {
                let mut s = String::from_str("Invalid pack '");
                s.append(path.as_str());
                s.append("':\n");
                s.append(details.as_str());
                s
            },
            JevOpsError::InvalidPack(m) => {
                let mut s = String::from_str("Pack error: ");
                s.append(m.as_str());
                s
            },
            JevOpsError::Input(m) => {
                let mut s = String::from_str("Input error: ");
                s.append(m.as_str());
                s
            },
            JevOpsError::InputTooLarge { bytes, max_bytes } => {
                let mut s = String::from_str("Input too large (");
                s.append(usize_text(*bytes).as_str());
                s.append(" bytes exceeds limit of ");
                s.append(usize_text(*max_bytes).as_str());
                s.append(" bytes)");
                s
            },
            JevOpsError::EmptyInput => String::from_str(
                "Input is empty. Provide diagnostic data via stdin or --input",
            ),
            JevOpsError::InvalidUtf8(m) => {
                let mut s = String::from_str("Invalid UTF-8 in input: ");
                s.append(m.as_str());
                s
            },
            JevOpsError::BinaryContentDetected => String::from_str(
                "Binary or non-text data detected in input",
            ),
            JevOpsError::ProviderError { provider, details } => {
                let mut s = String::from_str("Inference provider '");
                s.append(provider.as_str());
                s.append("' failure: ");
                s.append(details.as_str());
                s
            },
            JevOpsError::InvalidProviderResponse(m) => {
                let mut s = String::from_str("Invalid provider response against pack schema: ");
                s.append(m.as_str());
                s
            },
            JevOpsError::Io(m) => {
                let mut s = String::from_str("I/O error: ");
                s.append(m.as_str());
                s
            },
            JevOpsError::Yaml(m) => {
                let mut s = String::from_str("YAML error: ");
                s.append(m.as_str());
                s
            },
            JevOpsError::Json(m) => {
                let mut s = String::from_str("JSON error: ");
                s.append(m.as_str());
                s
            },
            JevOpsError::General(m) => m.clone(),
        }
    }
}

} // verus!
