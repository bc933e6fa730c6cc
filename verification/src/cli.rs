//! The command-line surface that the library knows of: the tool's version and the pack
//! subcommands.

use vstd::prelude::*;
use vstd::string::*;

verus! {

/// The release of this tool.
pub const VERSION_STRING: &'static str = "v2026.09.19";

/// The pack subcommands and their arguments.
#[derive(Debug)]
pub enum PacksCommands {
    /// List all discovered packs.
    List { pack_dir: Option<String>, json: bool },
    /// Show the metadata and decisions of a pack.
    Show { pack: String, pack_dir: Option<String>, json: bool },
    /// Validate a pack manifest file or directory.
    Validate { path: String },
    /// Scaffold a new starter pack.
    New { name: String, dir: Option<String> },
}

/// The line the `version` command prints.
pub fn version_line() -> (s: String)
    ensures
        s@ == "jev-ops "@ + VERSION_STRING@,
{
    let mut s = String::from_str("jev-ops ");
    s.append(VERSION_STRING);
    s
}

} // verus!
