//! Input text and pack-name checks.

use vstd::prelude::*;
use vstd::string::*;
use vstd::utf8::{encode_utf8, valid_utf8};
use crate::error::JevOpsError;
use crate::security::limits::MAX_PACK_NAME_LEN;
use crate::text::{int_text, usize_text};

verus! {

/// The text that `std::str::Utf8Error` displays for the given bytes.
pub uninterp spec fn utf8_error_text(bytes: Seq<u8>) -> Seq<char>;

/// Calls `std::str::from_utf8`. Claimed: the call succeeds exactly on valid UTF-8
/// (as vstd's `valid_utf8` defines it), the string then has the given bytes as its
/// encoding, and on failure the error's displayed text is `utf8_error_text(bytes)`.
#[verifier::external_body]
fn str_from_utf8(bytes: &[u8]) -> (r: Result<&str, String>)
    ensures
        r is Ok <==> valid_utf8(bytes@),
        r matches Ok(s) ==> s.spec_bytes() == bytes@,
        r matches Err(m) ==> m@ == utf8_error_text(bytes@),
{
    std::str::from_utf8(bytes).map_err(|e| e.to_string())
}

/// A control byte other than tab, newline and carriage return.
pub open spec fn is_control_byte(b: u8) -> bool {
    b < 32 && b != 9 && b != 10 && b != 13
}

/// Number of control bytes in `s`.
pub open spec fn control_count(s: Seq<u8>) -> nat
    decreases s.len(),
{
    if s.len() == 0 {
        0
    } else {
        control_count(s.drop_last()) + if is_control_byte(s.last()) { 1nat } else { 0nat }
    }
}

/// Length of the prefix inspected for control bytes.
pub open spec fn sample_len(len: nat) -> nat {
    if len < 1024 { len } else { 1024 }
}

/// Binary data: a null byte anywhere, or more than 5% control bytes among the first 1024.
pub open spec fn looks_binary(s: Seq<u8>) -> bool {
    &&& s.len() > 0
    &&& (s.contains(0u8) || 20 * control_count(s.take(sample_len(s.len()) as int)) > sample_len(s.len()))
}

/// A text holding no control byte other than tab, newline and carriage return has none to
/// count.
proof fn lemma_no_control_bytes(s: Seq<u8>)
    requires
        forall|i: int| 0 <= i < s.len() && s[i] < 32 ==> s[i] == 9 || s[i] == 10 || s[i] == 13,
    ensures
        control_count(s) == 0,
    decreases s.len(),
{
    if s.len() > 0 {
        assert forall|i: int| 0 <= i < s.drop_last().len() && s.drop_last()[i] < 32 implies
            s.drop_last()[i] == 9 || s.drop_last()[i] == 10 || s.drop_last()[i] == 13 by {
            assert(s.drop_last()[i] == s[i]);
        }
        lemma_no_control_bytes(s.drop_last());
        assert(s.last() == s[s.len() - 1]);
    }
}

/// Text is never taken for binary data: bytes with no NUL whose only bytes below 32 are tab,
/// newline and carriage return do not look binary, however many tabs they hold.
pub proof fn lemma_text_is_not_binary(s: Seq<u8>)
    requires
        !s.contains(0u8),
        forall|i: int| 0 <= i < s.len() && s[i] < 32 ==> s[i] == 9 || s[i] == 10 || s[i] == 13,
    ensures
        !looks_binary(s),
{
    let t = s.take(sample_len(s.len()) as int);
    assert forall|i: int| 0 <= i < t.len() && t[i] < 32 implies t[i] == 9 || t[i] == 10 || t[i] == 13 by {
        assert(t[i] == s[i]);
    }
    lemma_no_control_bytes(t);
}

/// Every byte of a text made of control bytes counts.
proof fn lemma_all_control_bytes(s: Seq<u8>)
    requires
        forall|i: int| 0 <= i < s.len() ==> is_control_byte(#[trigger] s[i]),
    ensures
        control_count(s) == s.len(),
    decreases s.len(),
{
    if s.len() > 0 {
        assert forall|i: int| 0 <= i < s.drop_last().len() implies is_control_byte(#[trigger] s.drop_last()[i]) by {
            assert(s.drop_last()[i] == s[i]);
        }
        lemma_all_control_bytes(s.drop_last());
        assert(s.last() == s[s.len() - 1]);
    }
}

/// Data made only of control bytes other than NUL, tab, newline and carriage return is
/// binary.
pub proof fn lemma_control_bytes_are_binary(s: Seq<u8>)
    requires
        s.len() > 0,
        forall|i: int| 0 <= i < s.len() ==> 0 < #[trigger] s[i] < 32 && s[i] != 9 && s[i] != 10 && s[i] != 13,
    ensures
        looks_binary(s),
{
    let t = s.take(sample_len(s.len()) as int);
    assert forall|i: int| 0 <= i < t.len() implies is_control_byte(#[trigger] t[i]) by {
        assert(t[i] == s[i]);
    }
    lemma_all_control_bytes(t);
}

/// Only the first 1024 bytes are sampled for control bytes: two NUL-free inputs of at least
/// 1024 bytes that agree on those bytes are judged alike.
pub proof fn lemma_binary_sample_prefix(a: Seq<u8>, b: Seq<u8>)
    requires
        a.len() >= 1024,
        b.len() >= 1024,
        !a.contains(0u8),
        !b.contains(0u8),
        a.take(1024) == b.take(1024),
    ensures
        looks_binary(a) == looks_binary(b),
{
}

/// A NUL byte anywhere makes data binary.
pub proof fn lemma_nul_is_binary(s: Seq<u8>, i: int)
    requires
        0 <= i < s.len(),
        s[i] == 0u8,
    ensures
        looks_binary(s),
{
    assert(s.contains(0u8));
}

/// Detects binary/non-text garbage: a null byte, or a high concentration of control
/// characters (other than tab, newline, carriage return) among the first 1024 bytes.
pub fn detect_binary(bytes: &[u8]) -> (r: bool)
    ensures
        r == looks_binary(bytes@),
{
    let n = bytes.len();
    if n == 0 {
        return false;
    }
    let mut i: usize = 0;
    while i < n
        invariant
            n == bytes@.len(),
            i <= n,
            forall|j: int| 0 <= j < i ==> bytes@[j] != 0u8,
        decreases n - i,
    {
        if bytes[i] == 0 {
            assert(bytes@[i as int] == 0u8);
            return true;
        }
        i = i + 1;
    }
    assert(!bytes@.contains(0u8));
    let sample: usize = if n < 1024 { n } else { 1024 };
    let mut count: usize = 0;
    let mut k: usize = 0;
    while k < sample
        invariant
            sample <= n,
            n == bytes@.len(),
            k <= sample,
            count == control_count(bytes@.take(k as int)),
            count <= k,
        decreases sample - k,
    {
        let b = bytes[k];
        assert(bytes@.take(k + 1).drop_last() == bytes@.take(k as int));
        if b < 32 && b != 9 && b != 10 && b != 13 {
            count = count + 1;
        }
        k = k + 1;
    }
    count * 20 > sample
}

/// Why a pack name is refused, or `None` for an acceptable name. `name_bytes` is the
/// name's UTF-8 length.
pub open spec fn pack_name_problem(name: Seq<char>) -> Option<Seq<char>> {
    if name.len() == 0 {
        Some("Pack name cannot be empty"@)
    } else if encode_utf8(name).len() > MAX_PACK_NAME_LEN {
        Some("Pack name '"@ + name + "' exceeds maximum allowed length of "@
            + int_text(MAX_PACK_NAME_LEN as int) + " characters"@)
    } else if !(forall|i: int| 0 <= i < name.len() ==> is_pack_name_char(#[trigger] name[i])) {
        Some("Pack name '"@ + name
            + "' contains invalid characters. Use only lowercase alphanumeric and '-' or '_'"@)
    } else if is_edge_char(name[0]) || is_edge_char(name.last()) {
        Some("Pack name '"@ + name + "' cannot start or end with a hyphen or underscore"@)
    } else {
        None
    }
}

/// Lowercase ASCII letters, digits, '-' and '_'.
pub open spec fn is_pack_name_char(c: char) -> bool {
    ('a' <= c && c <= 'z') || ('0' <= c && c <= '9') || c == '-' || c == '_'
}

/// The characters a pack name may not start or end with.
pub open spec fn is_edge_char(c: char) -> bool {
    c == '-' || c == '_'
}

/// A name the naming rules accept is a single, non-empty path component: it holds no path
/// separator and no dot, so joining it onto a search directory cannot leave that directory.
pub proof fn lemma_valid_name_is_one_component(name: Seq<char>)
    requires
        pack_name_problem(name) is None,
    ensures
        name.len() > 0,
        forall|i: int| 0 <= i < name.len() ==> #[trigger] name[i] != '/' && name[i] != '\\' && name[i] != '.',
{
    assert forall|i: int| 0 <= i < name.len() implies #[trigger] name[i] != '/' && name[i] != '\\' && name[i] != '.' by {
        assert(is_pack_name_char(name[i]));
    }
}

/// Validates that a pack name is non-empty, at most `MAX_PACK_NAME_LEN` bytes, made of
/// lowercase ASCII alphanumerics, '-' and '_', and neither starts nor ends with '-' or '_'.
pub fn validate_pack_name(name: &str) -> (r: Result<(), JevOpsError>)
    ensures
        match pack_name_problem(name@) {
            None => r is Ok,
            Some(m) => (r matches Err(JevOpsError::InvalidPack(e)) && e@ == m),
        },
{
    if name.is_empty() {
        return Err(JevOpsError::InvalidPack(String::from_str("Pack name cannot be empty")));
    }
    if name.as_bytes().len() > MAX_PACK_NAME_LEN {
        let mut m = String::from_str("Pack name '");
        m.append(name);
        m.append("' exceeds maximum allowed length of ");
        m.append(usize_text(MAX_PACK_NAME_LEN).as_str());
        m.append(" characters");
        return Err(JevOpsError::InvalidPack(m));
    }
    let n = name.unicode_len();
    let mut i: usize = 0;
    while i < n
        invariant
            n == name@.len(),
            n > 0,
            encode_utf8(name@).len() <= MAX_PACK_NAME_LEN,
            i <= n,
            forall|j: int| 0 <= j < i ==> is_pack_name_char(#[trigger] name@[j]),
        decreases n - i,
    {
        let c = name.get_char(i);
        if !(('a' <= c && c <= 'z') || ('0' <= c && c <= '9') || c == '-' || c == '_') {
            assert(!is_pack_name_char(name@[i as int]));
            let mut m = String::from_str("Pack name '");
            m.append(name);
            m.append(
                "' contains invalid characters. Use only lowercase alphanumeric and '-' or '_'",
            );
            return Err(JevOpsError::InvalidPack(m));
        }
        i = i + 1;
    }
    let first = name.get_char(0);
    let last = name.get_char(n - 1);
    assert(name@.last() == last);
    if first == '-' || first == '_' || last == '-' || last == '_' {
        let mut m = String::from_str("Pack name '");
        m.append(name);
        m.append("' cannot start or end with a hyphen or underscore");
        return Err(JevOpsError::InvalidPack(m));
    }
    Ok(())
}

/// Validates that raw bytes are valid UTF-8 and do not look like binary data.
pub fn validate_text_input(bytes: &[u8]) -> (r: Result<&str, JevOpsError>)
    ensures
        !valid_utf8(bytes@) ==> (r matches Err(JevOpsError::InvalidUtf8(m)) && m@ == utf8_error_text(bytes@)),
        valid_utf8(bytes@) && looks_binary(bytes@) ==> r matches Err(JevOpsError::BinaryContentDetected),
        valid_utf8(bytes@) && !looks_binary(bytes@) ==> (r matches Ok(s) && s.spec_bytes() == bytes@),
{
    let s = match str_from_utf8(bytes) {
        Ok(s) => s,
        Err(m) => return Err(JevOpsError::InvalidUtf8(m)),
    };
    if detect_binary(bytes) {
        return Err(JevOpsError::BinaryContentDetected);
    }
    Ok(s)
}

} // verus!
