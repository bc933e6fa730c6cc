//! Limits and text checks on the raw input bytes of an analysis.

use vstd::prelude::*;
use vstd::string::*;
use vstd::utf8::{encode_utf8, valid_utf8};
use crate::engine::context::InputContext;
use crate::error::JevOpsError;
use crate::security::validation::{looks_binary, utf8_error_text, validate_text_input};

verus! {

/// Input accepted for analysis.
#[derive(Debug)]
pub struct InputData {
    pub text: String,
    pub context: InputContext,
}

/// Checks the bytes read for an analysis: more than `max_bytes` is too large, nothing is
/// empty, and otherwise the bytes must be UTF-8 text that does not look binary. The reader
/// reads at most `max_bytes + 1` bytes, so `bytes` reports what was read.
pub fn accept_input(buffer: &[u8], max_bytes: usize) -> (r: Result<InputData, JevOpsError>)
    ensures
        buffer@.len() > max_bytes ==> (r matches Err(JevOpsError::InputTooLarge { bytes, max_bytes: m })
            && bytes == buffer@.len() && m == max_bytes),
        buffer@.len() <= max_bytes && buffer@.len() == 0 ==> r matches Err(JevOpsError::EmptyInput),
        0 < buffer@.len() <= max_bytes && !valid_utf8(buffer@) ==> (r matches Err(JevOpsError::InvalidUtf8(e))
            && e@ == utf8_error_text(buffer@)),
        0 < buffer@.len() <= max_bytes && valid_utf8(buffer@) && looks_binary(buffer@)
            ==> r matches Err(JevOpsError::BinaryContentDetected),
        0 < buffer@.len() <= max_bytes && valid_utf8(buffer@) && !looks_binary(buffer@) ==> (r matches Ok(d)
            && d.text@.len() > 0 && encode_utf8(d.text@) == buffer@ && d.context == (InputContext {
                bytes: buffer@.len() as usize,
                truncated: false,
            })),
{
    if buffer.len() > max_bytes {
        return Err(JevOpsError::InputTooLarge { bytes: buffer.len(), max_bytes });
    }
    if buffer.len() == 0 {
        return Err(JevOpsError::EmptyInput);
    }
    let text = validate_text_input(buffer)?;
    let owned = text.to_owned();
    proof {
        if owned@.len() == 0 {
            assert(encode_utf8(owned@) =~= Seq::<u8>::empty());
        }
    }
    Ok(InputData { text: owned, context: InputContext { bytes: buffer.len(), truncated: false } })
}

/// The error for an input file that is not there.
pub fn missing_input_file(path: &str) -> (e: JevOpsError)
    ensures
        e matches JevOpsError::Input(m) && m@ == "Input file '"@ + path@ + "' does not exist"@,
{
    let mut m = String::from_str("Input file '");
    m.append(path);
    m.append("' does not exist");
    JevOpsError::Input(m)
}

/// The failure to open an input file, with the system's reason.
pub fn input_open_failed(path: &str, cause: &str) -> (e: JevOpsError)
    ensures
        e matches JevOpsError::Input(m) && m@ == "Failed to open input file '"@ + path@ + "': "@ + cause@,
{
    let mut m = String::from_str("Failed to open input file '");
    m.append(path);
    m.append("': ");
    m.append(cause);
    JevOpsError::Input(m)
}

} // verus!
