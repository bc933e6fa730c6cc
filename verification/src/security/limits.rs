//! Security limits for input, manifests, and pack specifications.

use vstd::prelude::*;

verus! {

/// Default maximum input size for analysis (1 MiB).
pub const DEFAULT_MAX_INPUT_BYTES: usize = 1048576;

/// Absolute maximum input size any pack can configure (10 MiB).
pub const ABSOLUTE_MAX_INPUT_BYTES: usize = 10485760;

/// Maximum allowable size for a pack manifest file (256 KiB).
pub const MAX_MANIFEST_BYTES: usize = 262144;

/// Maximum allowable size for pack instructions (32 KiB).
pub const MAX_INSTRUCTIONS_BYTES: usize = 32768;

/// Maximum number of decisions in a single pack.
pub const MAX_DECISION_COUNT: usize = 64;

/// Maximum number of values in a choice decision.
pub const MAX_CHOICE_VALUES_COUNT: usize = 128;

/// Maximum number of levels in a score decision (`max - min + 1`), as the TypeSafe API accepts.
pub const MAX_SCORE_LEVELS: i64 = 10;

/// Maximum length of a pack name in bytes.
pub const MAX_PACK_NAME_LEN: usize = 64;

} // verus!
