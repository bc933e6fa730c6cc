//! The live TypeSafe System One provider: its settings, the questions it asks, how its
//! score answers map back to pack values, and when a failed call is retried.

use vstd::prelude::*;
use vstd::string::*;
use crate::error::JevOpsError;
use crate::inference::types::{Confidence, ProviderDecision};
use crate::packs::manifest::DecisionSpec;
use crate::named::{in_name_order, names_of, NamedMap};
use crate::packs::discovery::text_lt;
use crate::text::{char_vec, i64_text, int_text, push_char, texts, usize_text};

verus! {

/// The API base address used when none is configured.
pub const DEFAULT_TYPESAFE_API_URL: &'static str = "https://api.typesafe.ai/v1";
/// The model used when none is configured.
pub const DEFAULT_TYPESAFE_MODEL: &'static str = "jev-latest";
/// How often a rate-limited or unreachable call is retried.
pub const DEFAULT_MAX_RETRIES: usize = 3;

/// Settings of the live provider.
#[derive(Debug)]
pub struct TypeSafeJevProvider {
    api_key: String,
    base_url: String,
    model: String,
    max_retries: usize,
}

impl TypeSafeJevProvider {
    /// A provider with the given key and, when given, a base address and model; the
    /// defaults otherwise. Calls are retried up to three times.
    pub fn with_custom(api_key: String, base_url: Option<String>, model: Option<String>) -> (p: Self)
        ensures
            p.api_key_text() == api_key@,
            p.base_url_text() == match base_url { Some(u) => u@, None => DEFAULT_TYPESAFE_API_URL@ },
            p.model_text() == match model { Some(m) => m@, None => DEFAULT_TYPESAFE_MODEL@ },
            p.retries() == DEFAULT_MAX_RETRIES,
    {
        TypeSafeJevProvider {
            api_key,
            base_url: match base_url {
                Some(u) => u,
                None => String::from_str(DEFAULT_TYPESAFE_API_URL),
            },
            model: match model {
                Some(m) => m,
                None => String::from_str(DEFAULT_TYPESAFE_MODEL),
            },
            max_retries: DEFAULT_MAX_RETRIES,
        }
    }

    /// The API key.
    pub closed spec fn api_key_text(&self) -> Seq<char> {
        self.api_key@
    }

    /// The base address.
    pub closed spec fn base_url_text(&self) -> Seq<char> {
        self.base_url@
    }

    /// The model.
    pub closed spec fn model_text(&self) -> Seq<char> {
        self.model@
    }

    /// How often a call is retried.
    pub closed spec fn retries(&self) -> usize {
        self.max_retries
    }

    /// The API key.
    pub fn api_key(&self) -> (s: &String)
        ensures
            s@ == self.api_key_text(),
    {
        &self.api_key
    }

    /// The model asked.
    pub fn model(&self) -> (s: &String)
        ensures
            s@ == self.model_text(),
    {
        &self.model
    }

    /// How often a call is retried.
    pub fn max_retries(&self) -> (n: usize)
        ensures
            n == self.retries(),
    {
        self.max_retries
    }

    /// The provider's name, "typesafe-jev".
    pub fn name(&self) -> (s: &'static str)
        ensures
            s@ == "typesafe-jev"@,
    {
        "typesafe-jev"
    }

    /// The address questions are posted to: the base address without trailing slashes,
    /// followed by "/systemone".
    pub fn endpoint(&self) -> (s: String)
        ensures
            s@ == without_trailing_slashes(self.base_url_text()) + "/systemone"@,
    {
        let mut s = trim_trailing_slashes(self.base_url.as_str());
        s.append("/systemone");
        s
    }

    /// The value of the Authorization header: "Bearer " and the key.
    pub fn authorization(&self) -> (s: String)
        ensures
            s@ == "Bearer "@ + self.api_key_text(),
    {
        let mut s = String::from_str("Bearer ");
        s.append(self.api_key.as_str());
        s
    }

    /// How answers are labelled: "typesafe-jev (<model>)".
    pub fn provider_label(&self) -> (s: String)
        ensures
            s@ == "typesafe-jev ("@ + self.model_text() + ")"@,
    {
        let mut s = String::from_str("typesafe-jev (");
        s.append(self.model.as_str());
        s.append(")");
        s
    }
}

/// `s` without the '/' characters at its end, as `trim_end_matches('/')` leaves it.
pub open spec fn without_trailing_slashes(s: Seq<char>) -> Seq<char>
    decreases s.len(),
{
    if s.len() > 0 && s.last() == '/' {
        without_trailing_slashes(s.drop_last())
    } else {
        s
    }
}

fn trim_trailing_slashes(s: &str) -> (r: String)
    ensures
        r@ == without_trailing_slashes(s@),
{
    let chars = char_vec(s);
    let mut end = chars.len();
    assert(s@.take(end as int) =~= s@);
    while end > 0 && chars[end - 1] == '/'
        invariant
            chars@ == s@,
            end <= chars@.len(),
            without_trailing_slashes(s@) == without_trailing_slashes(s@.take(end as int)),
        decreases end,
    {
        assert(s@.take(end as int).drop_last() =~= s@.take(end - 1));
        end = end - 1;
    }
    let mut r = String::new();
    let mut i: usize = 0;
    while i < end
        invariant
            chars@ == s@,
            end <= chars@.len(),
            i <= end,
            r@ == s@.take(i as int),
        decreases end - i,
    {
        push_char(&mut r, chars[i]);
        assert(r@ =~= s@.take(i + 1));
        i = i + 1;
    }
    proof {
        let t = s@.take(end as int);
        assert(!(t.len() > 0 && t.last() == '/'));
    }
    r
}

/// One question of a System One request.
#[derive(Debug)]
#[allow(inconsistent_fields)]
pub enum ApiQuestion {
    /// Pick one of the criteria's keys.
    Choice { instructions: String, criteria: Vec<(String, Option<String>)> },
    /// Pick a level; level `i` is described by `criteria[i]`.
    Score { instructions: String, criteria: Vec<String> },
    /// Answer with a probability that the statement holds.
    Noul { instructions: String },
}

/// The decision name as words: '_' and '-' become spaces.
pub open spec fn label_of(name: Seq<char>) -> Seq<char> {
    name.map_values(|c: char| if c == '_' || c == '-' { ' ' } else { c })
}

/// The default description of level `v` of a scale without level descriptions.
pub open spec fn level_criterion(label: Seq<char>, v: int, min: i64, max: i64) -> Seq<char> {
    "'"@ + label + "' is "@ + int_text(v) + " on the "@ + int_text(min as int) + " to "@ + int_text(max as int)
        + " scale defined in `analysis_guidance`"@
}

/// The instructions of the question for a decision.
pub open spec fn question_instructions(label: Seq<char>, spec: DecisionSpec) -> Seq<char> {
    match spec {
        DecisionSpec::Choice { .. } => "Following `analysis_guidance`, which '"@ + label
            + "' classification best describes `diagnostic_input`?"@,
        DecisionSpec::Score { .. } => "Following `analysis_guidance`, rate the '"@ + label + "' of `diagnostic_input`."@,
        DecisionSpec::Boolean => "Following `analysis_guidance`, does `diagnostic_input` indicate '"@ + label + "'?"@,
    }
}

/// `q` is the question asked for decision `name`: choices keep the pack's values as
/// criteria, scores are described level by level (by the pack's levels when given, one
/// default description per value of `min..=max` otherwise), and yes/no questions become
/// nouls.
pub open spec fn is_question_for(name: Seq<char>, spec: DecisionSpec, q: ApiQuestion) -> bool {
    let label = label_of(name);
    match (spec, q) {
        (DecisionSpec::Choice { values }, ApiQuestion::Choice { instructions, criteria }) => {
            &&& instructions@ == question_instructions(label, spec)
            &&& criteria@.len() == values@.len()
            &&& forall|i: int| 0 <= i < values@.len() ==> (#[trigger] criteria@[i]).0@ == values@[i]@ && criteria@[i].1 is None
        },
        (DecisionSpec::Score { min, max, levels }, ApiQuestion::Score { instructions, criteria }) => {
            &&& instructions@ == question_instructions(label, spec)
            &&& if levels@.len() == 0 {
                &&& criteria@.len() == (if min <= max { max - min + 1 } else { 0 })
                &&& forall|i: int| 0 <= i < criteria@.len() ==> (#[trigger] criteria@[i])@ == level_criterion(label, min + i, min, max)
            } else {
                texts(criteria@) == texts(levels@)
            }
        },
        (DecisionSpec::Boolean, ApiQuestion::Noul { instructions }) => instructions@ == question_instructions(label, spec),
        _ => false,
    }
}

fn question_label(name: &str) -> (s: String)
    ensures
        s@ == label_of(name@),
{
    let chars = char_vec(name);
    let mut s = String::new();
    let n = chars.len();
    let mut i: usize = 0;
    while i < n
        invariant
            chars@ == name@,
            n == chars@.len(),
            i <= n,
            s@ == label_of(name@).take(i as int),
        decreases n - i,
    {
        let c = chars[i];
        push_char(&mut s, if c == '_' || c == '-' { ' ' } else { c });
        assert(s@ =~= label_of(name@).take(i + 1));
        i = i + 1;
    }
    assert(label_of(name@).take(n as int) =~= label_of(name@));
    s
}

fn level_text(label: &String, v: i64, min: i64, max: i64) -> (s: String)
    ensures
        s@ == level_criterion(label@, v as int, min, max),
{
    let mut s = String::from_str("'");
    s.append(label.as_str());
    s.append("' is ");
    s.append(i64_text(v).as_str());
    s.append(" on the ");
    s.append(i64_text(min).as_str());
    s.append(" to ");
    s.append(i64_text(max).as_str());
    s.append(" scale defined in `analysis_guidance`");
    s
}

/// Builds the System One question for one decision of a pack.
pub fn build_question(name: &str, spec: &DecisionSpec) -> (q: ApiQuestion)
    ensures
        is_question_for(name@, *spec, q),
{
    let label = question_label(name);
    match spec {
        DecisionSpec::Choice { values } => {
            let mut instructions = String::from_str("Following `analysis_guidance`, which '");
            instructions.append(label.as_str());
            instructions.append("' classification best describes `diagnostic_input`?");
            let mut criteria: Vec<(String, Option<String>)> = Vec::new();
            let n = values.len();
            let mut i: usize = 0;
            while i < n
                invariant
                    n == values@.len(),
                    i <= n,
                    criteria@.len() == i,
                    forall|j: int| 0 <= j < i ==> (#[trigger] criteria@[j]).0@ == values@[j]@ && criteria@[j].1 is None,
                decreases n - i,
            {
                criteria.push((values[i].clone(), None));
                i = i + 1;
            }
            ApiQuestion::Choice { instructions, criteria }
        },
        DecisionSpec::Score { min, max, levels } => {
            let mut instructions = String::from_str("Following `analysis_guidance`, rate the '");
            instructions.append(label.as_str());
            instructions.append("' of `diagnostic_input`.");
            let mut criteria: Vec<String> = Vec::new();
            if levels.len() == 0 {
                if *min <= *max {
                    let mut v: i64 = *min;
                    loop
                        invariant_except_break
                            *min <= v <= *max,
                            criteria@.len() == v - *min,
                        invariant
                            forall|i: int| 0 <= i < criteria@.len() ==> (#[trigger] criteria@[i])@
                                == level_criterion(label@, *min + i, *min, *max),
                        ensures
                            criteria@.len() == *max - *min + 1,
                            forall|i: int| 0 <= i < criteria@.len() ==> (#[trigger] criteria@[i])@
                                == level_criterion(label@, *min + i, *min, *max),
                        decreases *max - v,
                    {
                        criteria.push(level_text(&label, v, *min, *max));
                        if v == *max {
                            break;
                        }
                        v = v + 1;
                    }
                }
            } else {
                let n = levels.len();
                let mut i: usize = 0;
                while i < n
                    invariant
                        n == levels@.len(),
                        i <= n,
                        criteria@.len() == i,
                        texts(criteria@) == texts(levels@.take(i as int)),
                    decreases n - i,
                {
                    let ghost before = criteria@;
                    criteria.push(levels[i].clone());
                    proof {
                        assert forall|j: int| 0 <= j < i + 1 implies #[trigger] texts(criteria@)[j] == texts(levels@.take(i + 1))[j] by {
                            if j < i {
                                assert(criteria@[j] == before[j]);
                                assert(texts(before)[j] == texts(levels@.take(i as int))[j]);
                            }
                        }
                        assert(texts(criteria@) =~= texts(levels@.take(i + 1)));
                    }
                    i = i + 1;
                }
                assert(levels@.take(n as int) =~= levels@);
            }
            ApiQuestion::Score { instructions, criteria }
        },
        DecisionSpec::Boolean => {
            let mut instructions = String::from_str("Following `analysis_guidance`, does `diagnostic_input` indicate '");
            instructions.append(label.as_str());
            instructions.append("'?");
            ApiQuestion::Noul { instructions }
        },
    }
}

/// Why a call to the API did not produce an answer.
#[derive(Debug)]
pub enum CallFailure {
    /// The API answered with an error status and this body.
    HttpStatus { status: u16, body: String },
    /// The API could not be reached.
    Transport { message: String },
    /// The API answered, but not with the expected JSON.
    BadBody { message: String },
}

/// What to do after a failed call.
#[derive(Debug)]
pub enum RetryStep {
    /// Wait this many seconds, then call again.
    RetryAfter { secs: u64 },
    /// Stop with this error.
    GiveUp(JevOpsError),
}

/// `2^n`.
pub open spec fn pow2(n: nat) -> nat
    decreases n,
{
    if n == 0 { 1 } else { 2 * pow2((n - 1) as nat) }
}

/// A rate-limit or overload status.
pub open spec fn is_overload_status(status: u16) -> bool {
    status == 429 || status == 529
}

/// The step after the `attempts`-th call failed: rate-limit and overload statuses are
/// retried after `2^attempts` seconds and unreachable servers after one second, while at
/// most `max_retries` retries have been made; every other failure ends the inference.
pub open spec fn is_retry_step(attempts: usize, max_retries: usize, provider: Seq<char>, f: CallFailure, r: RetryStep) -> bool {
    match f {
        CallFailure::HttpStatus { status, body } =>
            if is_overload_status(status) && attempts <= max_retries {
                r == RetryStep::RetryAfter { secs: pow2(attempts as nat) as u64 }
            } else {
                r matches RetryStep::GiveUp(JevOpsError::ProviderError { provider: p, details })
                    && p@ == provider
                    && details@ == "HTTP "@ + int_text(status as int) + " from TypeSafe API: "@ + body@
            },
        CallFailure::Transport { message } =>
            if attempts <= max_retries {
                r == RetryStep::RetryAfter { secs: 1 }
            } else {
                r matches RetryStep::GiveUp(JevOpsError::ProviderError { provider: p, details })
                    && p@ == provider && details@ == "Connection failed: "@ + message@
            },
        CallFailure::BadBody { message } =>
            r matches RetryStep::GiveUp(JevOpsError::ProviderError { provider: p, details })
                && p@ == provider && details@ == "Failed to parse TypeSafe API response JSON: "@ + message@,
    }
}

fn seconds_for(attempts: usize) -> (s: u64)
    requires
        attempts < 64,
    ensures
        s == pow2(attempts as nat),
{
    let mut s: u64 = 1;
    let mut k: usize = 0;
    proof {
        assert(pow2(63) == 0x8000000000000000) by {
            reveal_with_fuel(pow2, 64);
        }
    }
    while k < attempts
        invariant
            k <= attempts < 64,
            s == pow2(k as nat),
            pow2(63) == 0x8000000000000000,
        decreases attempts - k,
    {
        proof { lemma_pow2_monotone((k + 1) as nat, 63); }
        s = s * 2;
        k = k + 1;
    }
    s
}

proof fn lemma_pow2_monotone(a: nat, b: nat)
    requires
        a <= b,
    ensures
        pow2(a) <= pow2(b),
    decreases b,
{
    if a < b {
        lemma_pow2_monotone(a, (b - 1) as nat);
    }
}

/// Decides whether a failed call is retried. Every retry happens while `attempts <=
/// max_retries`, so no inference makes more than `max_retries + 1` calls.
pub fn after_failed_call(attempts: usize, max_retries: usize, provider: &str, failure: CallFailure) -> (r: RetryStep)
    requires
        max_retries < 64,
    ensures
        is_retry_step(attempts, max_retries, provider@, failure, r),
        r is RetryAfter ==> attempts <= max_retries,
{
    match failure {
        CallFailure::HttpStatus { status, body } => {
            if (status == 429 || status == 529) && attempts <= max_retries {
                RetryStep::RetryAfter { secs: seconds_for(attempts) }
            } else {
                let mut d = String::from_str("HTTP ");
                d.append(usize_text(status as usize).as_str());
                d.append(" from TypeSafe API: ");
                d.append(body.as_str());
                RetryStep::GiveUp(JevOpsError::ProviderError { provider: String::from_str(provider), details: d })
            }
        },
        CallFailure::Transport { message } => {
            if attempts <= max_retries {
                RetryStep::RetryAfter { secs: 1 }
            } else {
                let mut d = String::from_str("Connection failed: ");
                d.append(message.as_str());
                RetryStep::GiveUp(JevOpsError::ProviderError { provider: String::from_str(provider), details: d })
            }
        },
        CallFailure::BadBody { message } => {
            let mut d = String::from_str("Failed to parse TypeSafe API response JSON: ");
            d.append(message.as_str());
            RetryStep::GiveUp(JevOpsError::ProviderError { provider: String::from_str(provider), details: d })
        },
    }
}

/// "Decision '<name>': <details>" as an invalid provider response.
pub open spec fn invalid_text(name: Seq<char>, details: Seq<char>) -> Seq<char> {
    "Decision '"@ + name + "': "@ + details
}

/// An invalid-response error about one decision.
pub fn invalid(name: &str, details: String) -> (e: JevOpsError)
    ensures
        e matches JevOpsError::InvalidProviderResponse(m) && m@ == invalid_text(name@, details@),
{
    let mut m = String::from_str("Decision '");
    m.append(name);
    m.append("': ");
    m.append(details.as_str());
    JevOpsError::InvalidProviderResponse(m)
}

/// The error for an answer of another type than the decision asks.
pub fn answer_type_mismatch(name: &str) -> (e: JevOpsError)
    ensures
        e matches JevOpsError::InvalidProviderResponse(m)
            && m@ == invalid_text(name@, "TypeSafe API answer type does not match pack specification"@),
{
    invalid(name, String::from_str("TypeSafe API answer type does not match pack specification"))
}

/// The error for a decision the API did not answer.
pub fn missing_answer(name: &str) -> (e: JevOpsError)
    ensures
        e matches JevOpsError::InvalidProviderResponse(m)
            && m@ == "TypeSafe Jev API response did not contain answer for '"@ + name@ + "'"@,
{
    let mut m = String::from_str("TypeSafe Jev API response did not contain answer for '");
    m.append(name);
    m.append("'");
    JevOpsError::InvalidProviderResponse(m)
}

/// An ASCII digit.
pub open spec fn is_digit_char(c: char) -> bool {
    '0' <= c && c <= '9'
}

/// The value of a run of decimal digits.
pub open spec fn digits_value(d: Seq<char>) -> int
    decreases d.len(),
{
    if d.len() == 0 { 0 } else { digits_value(d.drop_last()) * 10 + (d.last() as int - 48) }
}

/// The text starts with a sign.
pub open spec fn has_sign(s: Seq<char>) -> bool {
    s.len() > 0 && (s[0] == '-' || s[0] == '+')
}

/// The text after its sign, if any.
pub open spec fn unsigned_part(s: Seq<char>) -> Seq<char> {
    if has_sign(s) { s.drop_first() } else { s }
}

/// A non-empty run of ASCII digits.
pub open spec fn all_digits(d: Seq<char>) -> bool {
    d.len() > 0 && forall|i: int| 0 <= i < d.len() ==> is_digit_char(#[trigger] d[i])
}

/// The integer a text denotes in the grammar `str::parse::<i64>` reads (an optional '+'
/// or '-' followed by at least one digit), before any range limit.
pub open spec fn integer_value(s: Seq<char>) -> Option<int> {
    if all_digits(unsigned_part(s)) {
        Some(if has_sign(s) && s[0] == '-' { -digits_value(unsigned_part(s)) } else { digits_value(unsigned_part(s)) })
    } else {
        None
    }
}

proof fn lemma_digits_value_grows(d: Seq<char>, n: nat)
    requires
        n <= d.len(),
        forall|i: int| 0 <= i < d.len() ==> is_digit_char(#[trigger] d[i]),
    ensures
        digits_value(d.take(n as int)) <= digits_value(d),
        0 <= digits_value(d.take(n as int)),
    decreases d.len() - n,
{
    if n < d.len() {
        lemma_digits_value_grows(d.drop_last(), n);
        assert(d.drop_last().take(n as int) =~= d.take(n as int));
        lemma_digits_nonneg(d.drop_last());
    } else {
        assert(d.take(n as int) =~= d);
        lemma_digits_nonneg(d);
    }
}

proof fn lemma_digits_nonneg(d: Seq<char>)
    requires
        forall|i: int| 0 <= i < d.len() ==> is_digit_char(#[trigger] d[i]),
    ensures
        0 <= digits_value(d),
    decreases d.len(),
{
    if d.len() > 0 {
        lemma_digits_nonneg(d.drop_last());
    }
}

/// Reads a level key: `Some(v)` when the key denotes an integer `v` with `0 <= v <= top`.
fn level_index(key: &str, top: u64) -> (r: Option<u64>)
    ensures
        match integer_value(key@) {
            Some(v) => if 0 <= v <= top { r == Some(v as u64) } else { r is None },
            None => r is None,
        },
{
    let chars = char_vec(key);
    let n = chars.len();
    if n == 0 {
        return None;
    }
    let signed = chars[0] == '-' || chars[0] == '+';
    let negative = chars[0] == '-';
    let start: usize = if signed { 1 } else { 0 };
    let ghost body = if signed { key@.drop_first() } else { key@ };
    if start == n {
        return None;
    }
    let mut acc: u128 = 0;
    let mut big = false;
    let mut i: usize = start;
    while i < n
        invariant
            chars@ == key@,
            n == chars@.len(),
            start <= i <= n,
            start == (if signed { 1usize } else { 0usize }),
            n > 0,
            signed == (key@[0] == '-' || key@[0] == '+'),
            negative == (key@[0] == '-'),
            body == (if signed { key@.drop_first() } else { key@ }),
            body == key@.subrange(start as int, n as int),
            forall|j: int| start <= j < i ==> is_digit_char(#[trigger] key@[j]),
            !big ==> acc == digits_value(body.take(i - start)),
            big ==> digits_value(body.take(i - start)) > 0x10000000000000000,
            acc <= 0x10000000000000000,
        decreases n - i,
    {
        let c = chars[i];
        if !('0' <= c && c <= '9') {
            proof {
                assert(body[i - start] == c);
                assert(!is_digit_char(body[i - start]));
                assert(has_sign(key@) == signed);
                assert(unsigned_part(key@) == body);
                assert(!all_digits(unsigned_part(key@)));
                assert(integer_value(key@) is None);
            }
            return None;
        }
        proof {
            assert(body.take(i + 1 - start).drop_last() =~= body.take(i - start));
            assert(body.take(i + 1 - start).last() == c);
        }
        let d = (c as u32 - 48) as u128;
        if !big {
            let next = acc * 10 + d;
            if next > 0x10000000000000000 {
                big = true;
            } else {
                acc = next;
            }
        } else {
            proof {
                let p = digits_value(body.take(i - start));
                assert(p * 10 + (c as int - 48) >= p) by (nonlinear_arith) requires p > 0, 48 <= c as int;
            }
        }
        i = i + 1;
    }
    proof {
        assert(body.take(n - start) =~= body);
        assert forall|j: int| 0 <= j < body.len() implies is_digit_char(#[trigger] body[j]) by {
            assert(body[j] == key@[j + start]);
        }
        assert(has_sign(key@) == signed);
        assert(unsigned_part(key@) == body);
        assert(all_digits(body));
        assert(integer_value(key@) == Some(if negative { -digits_value(body) } else { digits_value(body) }));
    }
    if big {
        return None;
    }
    if negative {
        if acc == 0 { Some(0) } else { None }
    } else if acc <= top as u128 {
        Some(acc as u64)
    } else {
        None
    }
}

/// The pack value a level key names: level `v` of the scale `min..=max` is `min + v`.
pub open spec fn level_key_target(key: Seq<char>, min: i64, max: i64) -> Option<int> {
    match integer_value(key) {
        Some(v) => if 0 <= v <= max - min { Some(min + v) } else { None },
        None => None,
    }
}

/// Probabilities keyed by level, re-keyed by pack value.
pub open spec fn rekeyed(
    name: Seq<char>,
    probs: Seq<(String, Confidence)>,
    min: i64,
    max: i64,
    out: Seq<(String, Confidence)>,
) -> bool {
    &&& out.len() == probs.len()
    &&& forall|i: int| 0 <= i < probs.len() ==> {
        &&& level_key_target((#[trigger] probs[i]).0@, min, max) matches Some(t)
        &&& out[i].0@ == int_text(t)
        &&& same_confidence(out[i].1, probs[i].1)
    }
}

/// Two confidences with the same value and renderings.
pub open spec fn same_confidence(a: Confidence, b: Confidence) -> bool {
    a.bits == b.bits && a.text@ == b.text@ && a.percent@ == b.percent@
}

/// The first level key, in order, that names no level.
pub open spec fn first_unknown_key(probs: Seq<(String, Confidence)>, min: i64, max: i64) -> Option<int>
    decreases probs.len(),
{
    if probs.len() == 0 {
        None
    } else {
        match first_unknown_key(probs.drop_last(), min, max) {
            Some(i) => Some(i),
            None => if level_key_target(probs.last().0@, min, max) is None { Some(probs.len() - 1) } else { None },
        }
    }
}

/// Converts a score answer: level `index` of the scale `min..=max` is the pack value
/// `min + index`, and probability keys, which name levels, are re-keyed by pack value. A
/// key that names no level makes the answer invalid.
pub fn score_from_level(
    name: &str,
    min: i64,
    max: i64,
    index: i64,
    confidence: Confidence,
    probabilities: Option<Vec<(String, Confidence)>>,
) -> (r: Result<ProviderDecision, JevOpsError>)
    requires
        min <= max,
        0 <= index <= max - min,
    ensures
        match probabilities {
            None => (r matches Ok(ProviderDecision::Score { value, confidence: c, probabilities: p })
                && value == min + index && c == confidence && p is None),
            Some(probs) => match first_unknown_key(probs@, min, max) {
                Some(k) => (r matches Err(JevOpsError::InvalidProviderResponse(m))
                    && m@ == invalid_text(name@, "unknown score level key '"@ + probs@[k].0@ + "'"@)),
                None => (r matches Ok(ProviderDecision::Score { value, confidence: c, probabilities: Some(out) })
                    && value == min + index && c == confidence && rekeyed(name@, probs@, min, max, out@)),
            },
        },
{
    let top: u64 = (max as i128 - min as i128) as u64;
    let mapped = match probabilities {
        None => None,
        Some(probs) => {
            let ghost pv = probs@;
            let mut out: Vec<(String, Confidence)> = Vec::new();
            let mut probs = probs;
            let n = probs.len();
            let mut i: usize = 0;
            let mut rest: Vec<(String, Confidence)> = Vec::new();
            while i < n
                invariant
                    n == pv.len(),
                    probs@ == pv,
                    probabilities matches Some(p) && p@ == pv,
                    top == max - min,
                    i <= n,
                    first_unknown_key(pv.take(i as int), min, max) is None,
                    out@.len() == i,
                    forall|j: int| 0 <= j < i ==> {
                        &&& level_key_target((#[trigger] pv[j]).0@, min, max) matches Some(t)
                        &&& out@[j].0@ == int_text(t)
                        &&& same_confidence(out@[j].1, pv[j].1)
                    },
                decreases n - i,
            {
                assert(pv.take(i + 1).drop_last() =~= pv.take(i as int));
                let key = &probs[i].0;
                match level_index(key.as_str(), top) {
                    Some(v) => {
                        let value: i64 = (min as i128 + v as i128) as i64;
                        let c = probs[i].1.duplicate();
                        let ghost before = out@;
                        out.push((i64_text(value), c));
                        proof {
                            assert(level_key_target(pv[i as int].0@, min, max) == Some(min + v));
                            assert forall|j: int| 0 <= j < i + 1 implies {
                                &&& level_key_target((#[trigger] pv[j]).0@, min, max) matches Some(t)
                                &&& out@[j].0@ == int_text(t)
                                &&& same_confidence(out@[j].1, pv[j].1)
                            } by {
                                if j < i {
                                    assert(out@[j] == before[j]);
                                }
                            }
                        }
                    },
                    None => {
                        let mut d = String::from_str("unknown score level key '");
                        d.append(key.as_str());
                        d.append("'");
                        proof {
                            assert(pv.take(i + 1).last() == pv[i as int]);
                            assert(level_key_target(pv[i as int].0@, min, max) is None);
                            lemma_unknown_prefix(pv, min, max, (i + 1) as nat);
                            assert(first_unknown_key(pv, min, max) == Some(i as int));
                            assert(d@ == "unknown score level key '"@ + pv[i as int].0@ + "'"@);
                            assert(probabilities matches Some(p) && p@ == pv);
                        }
                        return Err(invalid(name, d));
                    },
                }
                i = i + 1;
            }
            assert(pv.take(n as int) =~= pv);
            Some(out)
        },
    };
    Ok(ProviderDecision::Score { value: min + index, confidence, probabilities: mapped })
}

proof fn lemma_unknown_prefix(probs: Seq<(String, Confidence)>, min: i64, max: i64, n: nat)
    requires
        n <= probs.len(),
        first_unknown_key(probs.take(n as int), min, max) is Some,
    ensures
        first_unknown_key(probs, min, max) == first_unknown_key(probs.take(n as int), min, max),
    decreases probs.len() - n,
{
    if n < probs.len() {
        assert(probs.take(n + 1 as int).drop_last() =~= probs.take(n as int));
        lemma_unknown_prefix(probs, min, max, n + 1);
    } else {
        assert(probs.take(n as int) =~= probs);
    }
}

} // verus!

verus! {

/// The first decision, in order, whose answer is missing or could not be converted.
pub open spec fn first_unusable(converted: Seq<Option<Result<ProviderDecision, JevOpsError>>>) -> Option<int>
    decreases converted.len(),
{
    if converted.len() == 0 {
        None
    } else {
        match first_unusable(converted.drop_last()) {
            Some(i) => Some(i),
            None => if converted.last() matches Some(Ok(_)) { None } else { Some(converted.len() - 1) },
        }
    }
}

proof fn lemma_first_unusable_prefix(converted: Seq<Option<Result<ProviderDecision, JevOpsError>>>, n: nat)
    requires
        n <= converted.len(),
        first_unusable(converted.take(n as int)) is Some,
    ensures
        first_unusable(converted) == first_unusable(converted.take(n as int)),
    decreases converted.len() - n,
{
    if n < converted.len() {
        assert(converted.take(n + 1 as int).drop_last() =~= converted.take(n as int));
        lemma_first_unusable_prefix(converted, n + 1);
    } else {
        assert(converted.take(n as int) =~= converted);
    }
}

/// Puts the converted answers in the pack's order. `converted[i]` is the answer to the
/// `i`-th decision: `None` when the API did not answer it, else the outcome of converting
/// the answer. The first decision, in order, without a usable answer ends the inference with
/// its error.
pub fn collect_answers(
    decisions: &NamedMap<DecisionSpec>,
    converted: Vec<Option<Result<ProviderDecision, JevOpsError>>>,
) -> (r: Result<NamedMap<ProviderDecision>, JevOpsError>)
    requires
        converted@.len() == decisions@.len(),
    ensures
        match first_unusable(converted@) {
            Some(i) => match converted@[i] {
                None => r matches Err(JevOpsError::InvalidProviderResponse(m))
                    && m@ == "TypeSafe Jev API response did not contain answer for '"@ + decisions@[i].0@ + "'"@,
                Some(c) => r == Err::<NamedMap<ProviderDecision>, JevOpsError>(c->Err_0),
            },
            None => r matches Ok(v) && v@.len() == decisions@.len() && forall|i: int| 0 <= i < decisions@.len() ==> {
                &&& (#[trigger] v@[i]).0@ == decisions@[i].0@
                &&& converted@[i] == Some(Ok::<ProviderDecision, JevOpsError>(v@[i].1))
            },
        },
{
    let ghost all = converted@;
    let mut rest = converted;
    let ds = decisions.entries();
    let mut out: NamedMap<ProviderDecision> = NamedMap::new();
    let n = ds.len();
    let mut i: usize = 0;
    while i < n
        invariant
            n == decisions@.len(),
            ds@ == decisions@,
            in_name_order(ds@),
            all.len() == n,
            all == converted@,
            i <= n,
            rest@ == all.skip(i as int),
            first_unusable(all.take(i as int)) is None,
            out@.len() == i,
            forall|j: int| 0 <= j < i ==> {
                &&& (#[trigger] out@[j]).0@ == decisions@[j].0@
                &&& all[j] == Some(Ok::<ProviderDecision, JevOpsError>(out@[j].1))
            },
        decreases n - i,
    {
        assert(all.take(i + 1).drop_last() =~= all.take(i as int));
        assert(all.take(i + 1).last() == all[i as int]);
        let next = rest.remove(0);
        assert(next == all[i as int]);
        assert(rest@ =~= all.skip(i + 1));
        match next {
            None => {
                proof {
                    assert(first_unusable(all.take(i + 1)) == Some(i as int));
                    lemma_first_unusable_prefix(all, (i + 1) as nat);
                }
                return Err(missing_answer(ds[i].0.as_str()));
            },
            Some(Err(e)) => {
                proof {
                    assert(first_unusable(all.take(i + 1)) == Some(i as int));
                    lemma_first_unusable_prefix(all, (i + 1) as nat);
                }
                return Err(e);
            },
            Some(Ok(d)) => {
                let ghost before = out@;
                proof {
                    assert forall|k: int| 0 <= k < before.len() implies text_lt(#[trigger] names_of(before)[k], ds@[i as int].0@) by {
                        assert(names_of(before)[k] == before[k].0@);
                        assert(names_of(ds@)[k] == ds@[k].0@);
                        assert(names_of(ds@)[i as int] == ds@[i as int].0@);
                    }
                }
                out.push_last(ds[i].0.clone(), d);
                proof {
                    assert forall|j: int| 0 <= j < i + 1 implies {
                        &&& (#[trigger] out@[j]).0@ == decisions@[j].0@
                        &&& all[j] == Some(Ok::<ProviderDecision, JevOpsError>(out@[j].1))
                    } by {
                        if j < i {
                            assert(out@[j] == before[j]);
                        }
                    }
                }
            },
        }
        i = i + 1;
    }
    assert(all.take(n as int) =~= all);
    Ok(out)
}

} // verus!
