//! Requests to inference providers, their typed decisions, and confidence values.

use vstd::prelude::*;
use crate::named::NamedMap;
use vstd::string::*;
use crate::packs::manifest::DecisionSpec;
use crate::text::{i64_text, int_text, nat_text, u128_text};

verus! {

/// Bit pattern of the binary64 value 1.0.
pub const ONE_BITS: u64 = 0x3ff0000000000000;

/// `2^63`, the sign bit of a binary64 pattern.
pub open spec fn sign_bit() -> int {
    0x8000000000000000
}

/// The binary64 pattern is a NaN: all exponent bits set and a non-zero fraction.
pub open spec fn bits_is_nan(bits: u64) -> bool {
    (bits as int / 0x10000000000000) % 0x800 == 0x7ff && bits as int % 0x10000000000000 != 0
}

/// An integer that orders non-NaN binary64 values as their numeric values are ordered:
/// the magnitude bits, negated when the sign bit is set (so -0.0 and +0.0 both map to 0).
pub open spec fn bits_order_key(bits: u64) -> int {
    if bits as int >= sign_bit() {
        -(bits as int - sign_bit())
    } else {
        bits as int
    }
}

/// `a < b` on the binary64 values with these bit patterns (false when either is NaN).
pub open spec fn bits_less(a: u64, b: u64) -> bool {
    !bits_is_nan(a) && !bits_is_nan(b) && bits_order_key(a) < bits_order_key(b)
}

/// `0.0 <= x && x <= 1.0` for the binary64 value `x` with this bit pattern.
pub open spec fn bits_in_unit_interval(bits: u64) -> bool {
    !bits_is_nan(bits) && 0 <= bits_order_key(bits) <= ONE_BITS
}

/// A probability reported with a decision. The value is a binary64 number held as its bit
/// pattern; `text` is its `Display` rendering and `percent` the rendering of `100 * value`
/// rounded to a whole number followed by '%'.
#[derive(Debug)]
pub struct Confidence {
    pub bits: u64,
    pub text: String,
    pub percent: String,
}

fn is_nan_bits(bits: u64) -> (r: bool)
    ensures
        r == bits_is_nan(bits),
{
    (bits / 0x10000000000000) % 0x800 == 0x7ff && bits % 0x10000000000000 != 0
}

fn order_key(bits: u64) -> (k: i128)
    ensures
        k == bits_order_key(bits),
{
    if bits >= 0x8000000000000000 {
        -((bits - 0x8000000000000000) as i128)
    } else {
        bits as i128
    }
}

impl Confidence {
    /// Whether the value lies in `[0.0, 1.0]`.
    pub fn in_unit_interval(&self) -> (r: bool)
        ensures
            r == bits_in_unit_interval(self.bits),
    {
        if is_nan_bits(self.bits) {
            return false;
        }
        let k = order_key(self.bits);
        0 <= k && k <= ONE_BITS as i128
    }

    /// Whether this value is smaller than `other`.
    pub fn less_than(&self, other: &Confidence) -> (r: bool)
        ensures
            r == bits_less(self.bits, other.bits),
    {
        !is_nan_bits(self.bits) && !is_nan_bits(other.bits) && order_key(self.bits) < order_key(
            other.bits,
        )
    }

    /// A copy with the same value and renderings.
    pub fn duplicate(&self) -> (r: Confidence)
        ensures
            r.bits == self.bits,
            r.text@ == self.text@,
            r.percent@ == self.percent@,
    {
        Confidence { bits: self.bits, text: self.text.clone(), percent: self.percent.clone() }
    }
}

/// Bit pattern of the binary64 number nearest to `p / 100`, for the confidences the offline
/// provider reports.
pub open spec fn hundredths_bits(p: nat) -> u64 {
    if p == 70 { 0x3fe6666666666666 }
    else if p == 75 { 0x3fe8000000000000 }
    else if p == 80 { 0x3fe999999999999a }
    else if p == 88 { 0x3fec28f5c28f5c29 }
    else if p == 89 { 0x3fec7ae147ae147b }
    else if p == 91 { 0x3fed1eb851eb851f }
    else if p == 92 { 0x3fed70a3d70a3d71 }
    else if p == 93 { 0x3fedc28f5c28f5c3 }
    else if p == 94 { 0x3fee147ae147ae14 }
    else if p == 95 { 0x3fee666666666666 }
    else if p == 96 { 0x3feeb851eb851eb8 }
    else if p == 97 { 0x3fef0a3d70a3d70a }
    else if p == 98 { 0x3fef5c28f5c28f5c }
    else { 0x3fefae147ae147ae }
}

/// The confidences the offline provider reports, in hundredths.
pub open spec fn is_offline_hundredths(p: nat) -> bool {
    p == 70 || p == 75 || p == 80 || p == 88 || p == 89 || (91 <= p <= 99)
}

/// `Display` of `p / 100` for a two-digit `p`: "0.8" for 80, "0.97" for 97.
pub open spec fn hundredths_text(p: nat) -> Seq<char> {
    if p % 10 == 0 { "0."@ + nat_text(p / 10) } else { "0."@ + nat_text(p) }
}

/// The confidence `p / 100` with its renderings.
pub open spec fn is_hundredths(c: Confidence, p: nat) -> bool {
    &&& c.bits == hundredths_bits(p)
    &&& c.text@ == hundredths_text(p)
    &&& c.percent@ == nat_text(p) + "%"@
}

/// The confidence `p / 100`, for the values the offline provider reports.
pub fn hundredths(p: u8) -> (c: Confidence)
    requires
        is_offline_hundredths(p as nat),
    ensures
        is_hundredths(c, p as nat),
{
    let bits: u64 = if p == 70 { 0x3fe6666666666666 }
        else if p == 75 { 0x3fe8000000000000 }
        else if p == 80 { 0x3fe999999999999a }
        else if p == 88 { 0x3fec28f5c28f5c29 }
        else if p == 89 { 0x3fec7ae147ae147b }
        else if p == 91 { 0x3fed1eb851eb851f }
        else if p == 92 { 0x3fed70a3d70a3d71 }
        else if p == 93 { 0x3fedc28f5c28f5c3 }
        else if p == 94 { 0x3fee147ae147ae14 }
        else if p == 95 { 0x3fee666666666666 }
        else if p == 96 { 0x3feeb851eb851eb8 }
        else if p == 97 { 0x3fef0a3d70a3d70a }
        else if p == 98 { 0x3fef5c28f5c28f5c }
        else { 0x3fefae147ae147ae };
    let mut text = String::from_str("0.");
    if p % 10 == 0 {
        text.append(u128_text((p / 10) as u128).as_str());
    } else {
        text.append(u128_text(p as u128).as_str());
    }
    let mut percent = u128_text(p as u128);
    percent.append("%");
    Confidence { bits, text, percent }
}

/// A typed decision returned by an inference provider.
#[derive(Debug)]
#[allow(inconsistent_fields)]
pub enum ProviderDecision {
    Choice { value: String, confidence: Confidence, probabilities: Option<Vec<(String, Confidence)>> },
    Score { value: i64, confidence: Confidence, probabilities: Option<Vec<(String, Confidence)>> },
    Boolean { value: bool, confidence: Confidence },
}

/// The confidence of a decision.
pub open spec fn confidence_of(d: ProviderDecision) -> Confidence {
    match d {
        ProviderDecision::Choice { confidence, .. } => confidence,
        ProviderDecision::Score { confidence, .. } => confidence,
        ProviderDecision::Boolean { confidence, .. } => confidence,
    }
}

/// The name of a decision's type.
pub open spec fn provider_type_name(d: ProviderDecision) -> Seq<char> {
    match d {
        ProviderDecision::Choice { .. } => "choice"@,
        ProviderDecision::Score { .. } => "score"@,
        ProviderDecision::Boolean { .. } => "boolean"@,
    }
}

/// How a decision's value is shown: the choice, the score in decimal, or "yes"/"no".
pub open spec fn value_text(d: ProviderDecision) -> Seq<char> {
    match d {
        ProviderDecision::Choice { value, .. } => value@,
        ProviderDecision::Score { value, .. } => int_text(value as int),
        ProviderDecision::Boolean { value, .. } => if value { "yes"@ } else { "no"@ },
    }
}

impl ProviderDecision {
    /// The decision's confidence.
    pub fn confidence(&self) -> (c: &Confidence)
        ensures
            *c == confidence_of(*self),
    {
        match self {
            ProviderDecision::Choice { confidence, .. } => confidence,
            ProviderDecision::Score { confidence, .. } => confidence,
            ProviderDecision::Boolean { confidence, .. } => confidence,
        }
    }

    /// "choice", "score" or "boolean".
    pub fn kind_name(&self) -> (s: &'static str)
        ensures
            s@ == provider_type_name(*self),
    {
        match self {
            ProviderDecision::Choice { .. } => "choice",
            ProviderDecision::Score { .. } => "score",
            ProviderDecision::Boolean { .. } => "boolean",
        }
    }

    /// The value as text: the choice, the score in decimal, or "yes"/"no".
    pub fn value_display(&self) -> (s: String)
        ensures
            s@ == value_text(*self),
    {
        match self {
            ProviderDecision::Choice { value, .. } => value.clone(),
            ProviderDecision::Score { value, .. } => i64_text(*value),
            ProviderDecision::Boolean { value, .. } => if *value {
                String::from_str("yes")
            } else {
                String::from_str("no")
            },
        }
    }
}

/// What a pack asks a provider: its identity, guidance, decisions, and the input text.
#[derive(Debug)]
pub struct InferenceRequest {
    pub pack_name: String,
    pub pack_version: String,
    pub instructions: String,
    pub decisions: NamedMap<DecisionSpec>,
    pub input_text: String,
}

/// A provider's answer: its name and one decision per name, in order.
#[derive(Debug)]
pub struct InferenceResponse {
    pub provider: String,
    pub decisions: NamedMap<ProviderDecision>,
}

} // verus!
