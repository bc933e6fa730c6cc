//! Choosing the inference provider from the command line and the environment.

use vstd::prelude::*;
use vstd::string::*;
use crate::error::JevOpsError;
use crate::text::{is_blank, is_blank_text};

verus! {

/// The provider an analysis uses.
#[derive(Debug)]
pub enum ProviderChoice {
    /// The offline keyword heuristics.
    Mock,
    /// The TypeSafe System One API with this key.
    TypeSafe { api_key: String },
}

/// The key in use: the one given on the command line, else the one from the environment.
pub open spec fn chosen_key(api_key: Option<Seq<char>>, env_key: Option<Seq<char>>) -> Option<Seq<char>> {
    match api_key {
        Some(k) => Some(k),
        None => env_key,
    }
}

/// The key to use, if there is one that is not blank.
pub open spec fn usable_key(api_key: Option<Seq<char>>, env_key: Option<Seq<char>>) -> Option<Seq<char>> {
    match chosen_key(api_key, env_key) {
        Some(k) => if is_blank_text(k) { None } else { Some(k) },
        None => None,
    }
}

/// The message when `--provider typesafe` is asked for without a key.
pub open spec fn missing_key_text() -> Seq<char> {
    "Missing API key. Provide --api-key or set the TYPESAFE_API_KEY environment variable."@
}

/// The message when no provider is named and no key is found.
pub open spec fn no_key_text() -> Seq<char> {
    "No API key found. Provide --api-key or set TYPESAFE_API_KEY, or pass --provider mock for offline heuristic output."@
}

fn opt_view(o: Option<&str>) -> (r: Option<String>)
    ensures
        match o {
            Some(s) => (r matches Some(t) && t@ == s@),
            None => r is None,
        },
{
    match o {
        Some(s) => Some(String::from_str(s)),
        None => None,
    }
}

fn key_for(api_key: Option<&str>, env_key: Option<String>, details: &str) -> (r: Result<ProviderChoice, JevOpsError>)
    ensures
        match usable_key(match api_key { Some(k) => Some(k@), None => None }, match env_key { Some(k) => Some(k@), None => None }) {
            Some(k) => (r matches Ok(ProviderChoice::TypeSafe { api_key }) && api_key@ == k),
            None => (r matches Err(JevOpsError::ProviderError { provider, details: d })
                && provider@ == "typesafe-jev"@ && d@ == details@),
        },
{
    let key = match opt_view(api_key) {
        Some(k) => Some(k),
        None => env_key,
    };
    match key {
        Some(k) => {
            if is_blank(k.as_str()) {
                Err(JevOpsError::ProviderError {
                    provider: String::from_str("typesafe-jev"),
                    details: String::from_str(details),
                })
            } else {
                Ok(ProviderChoice::TypeSafe { api_key: k })
            }
        },
        None => Err(JevOpsError::ProviderError {
            provider: String::from_str("typesafe-jev"),
            details: String::from_str(details),
        }),
    }
}

/// Chooses the provider: "mock" is the offline provider; "typesafe" or "typesafe-jev" is
/// the live API and needs a non-blank key (the `--api-key` value if given, else the
/// environment's); any other name is invalid usage; with no name the live API is used when
/// a key is found, and it is an error otherwise, never a silent fall-back to the mock.
pub fn select_provider(
    requested: Option<&str>,
    api_key: Option<&str>,
    env_key: Option<String>,
) -> (r: Result<ProviderChoice, JevOpsError>)
    ensures
        ({
            let key = usable_key(match api_key { Some(k) => Some(k@), None => None }, match env_key { Some(k) => Some(k@), None => None });
            match requested {
                Some(p) => if p@ == "mock"@ {
                    r matches Ok(ProviderChoice::Mock)
                } else if p@ == "typesafe"@ || p@ == "typesafe-jev"@ {
                    match key {
                        Some(k) => (r matches Ok(ProviderChoice::TypeSafe { api_key }) && api_key@ == k),
                        None => (r matches Err(JevOpsError::ProviderError { provider, details })
                            && provider@ == "typesafe-jev"@ && details@ == missing_key_text()),
                    }
                } else {
                    (r matches Err(JevOpsError::Cli(m)) && m@ == "Unknown inference provider '"@ + p@
                        + "'. Supported providers: 'mock', 'typesafe'"@)
                },
                None => match key {
                    Some(k) => (r matches Ok(ProviderChoice::TypeSafe { api_key }) && api_key@ == k),
                    None => (r matches Err(JevOpsError::ProviderError { provider, details })
                        && provider@ == "typesafe-jev"@ && details@ == no_key_text()),
                },
            }
        }),
{
    match requested {
        Some(p) => {
            let name = String::from_str(p);
            if name == String::from_str("mock") {
                Ok(ProviderChoice::Mock)
            } else if name == String::from_str("typesafe") || name == String::from_str("typesafe-jev") {
                key_for(api_key, env_key,
                    "Missing API key. Provide --api-key or set the TYPESAFE_API_KEY environment variable.")
            } else {
                let mut m = String::from_str("Unknown inference provider '");
                m.append(p);
                m.append("'. Supported providers: 'mock', 'typesafe'");
                Err(JevOpsError::Cli(m))
            }
        },
        None => key_for(api_key, env_key,
            "No API key found. Provide --api-key or set TYPESAFE_API_KEY, or pass --provider mock for offline heuristic output."),
    }
}

} // verus!
