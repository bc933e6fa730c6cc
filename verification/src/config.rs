//! User settings read from `<config dir>/jev-ops/config.toml`.

use vstd::prelude::*;
use vstd::string::*;
use crate::text::{joined_path, path_join};

verus! {

/// Extra pack directories and the provider to use when none is named.
#[derive(Debug)]
pub struct Config {
    pub pack_dirs: Vec<String>,
    pub default_provider: Option<String>,
}

/// Whether a configuration holds no settings.
pub open spec fn is_empty_config(c: Config) -> bool {
    c.pack_dirs@.len() == 0 && c.default_provider is None
}

impl Default for Config {
    fn default() -> (r: Config)
        ensures
            is_empty_config(r),
    {
        Config { pack_dirs: Vec::new(), default_provider: None }
    }
}

/// Reads the settings file. No setting is read from it yet: every file gives the empty
/// configuration.
pub fn toml_simple_parse(content: &str) -> (r: Result<Config, ()>)
    ensures
        r matches Ok(c) && is_empty_config(c),
{
    Ok(Config::default())
}

impl Config {
    /// The settings file below the user configuration directory.
    pub fn file_path(config_dir: &str) -> (p: String)
        ensures
            p@ == joined_path(joined_path(config_dir@, "jev-ops"@), "config.toml"@),
    {
        path_join(path_join(config_dir, "jev-ops").as_str(), "config.toml")
    }

    /// The configuration from the settings file's text, or the empty configuration when
    /// there is no readable file or its text does not parse.
    pub fn from_file_text(content: Option<&str>) -> (c: Config)
        ensures
            is_empty_config(c),
    {
        if let Some(text) = content {
            if let Ok(parsed) = toml_simple_parse(text) {
                return parsed;
            }
        }
        Config::default()
    }
}

} // verus!
