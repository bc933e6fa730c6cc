//! Schema enforcement of provider answers and assembly of a run's result.

use vstd::prelude::*;
use vstd::string::*;
use crate::error::JevOpsError;
use crate::engine::context::{InputContext, PackIdentity};
use crate::engine::input::accept_input;
use crate::inference::mock::{is_mock_answer, signals_of, MockInferenceProvider};
use crate::inference::types::{
    bits_in_unit_interval, confidence_of, provider_type_name, Confidence, InferenceRequest,
    InferenceResponse, ProviderDecision,
};
use crate::named::{in_name_order, lemma_names_distinct, NamedMap};
use crate::packs::manifest::{decision_type_name, decisions_model, DecisionModel, DecisionSpec, PackManifest};
use crate::security::limits::{ABSOLUTE_MAX_INPUT_BYTES, DEFAULT_MAX_INPUT_BYTES};
use crate::text::{i64_text, int_text, texts};

verus! {

/// The text `format!("{:?}", values)` gives for a list of strings.
pub uninterp spec fn debug_list_text(values: Seq<Seq<char>>) -> Seq<char>;

/// Formats a `Vec<String>` with `Debug`. Claimed: the text depends on the strings alone
/// and is `debug_list_text` of them; its escaping rules are left to std and not restated.
#[verifier::external_body]
fn debug_list(values: &Vec<String>) -> (r: String)
    ensures
        r@ == debug_list_text(texts(values@)),
{
    format!("{:?}", values)
}

/// Index of the first entry called `name`.
pub open spec fn first_named<T>(entries: Seq<(String, T)>, name: Seq<char>) -> Option<int>
    decreases entries.len(),
{
    if entries.len() == 0 {
        None
    } else {
        match first_named(entries.drop_last(), name) {
            Some(i) => Some(i),
            None => if entries.last().0@ == name { Some(entries.len() - 1) } else { None },
        }
    }
}

/// Whether some entry is called `name`.
pub open spec fn has_named<T>(entries: Seq<(String, T)>, name: Seq<char>) -> bool {
    exists|i: int| 0 <= i < entries.len() && #[trigger] entries[i].0@ == name
}

/// Why the answer `d` does not fit the declared decision `spec`, ignoring confidence.
pub open spec fn value_problem(name: Seq<char>, spec: DecisionSpec, d: ProviderDecision) -> Option<Seq<char>> {
    match (spec, d) {
        (DecisionSpec::Choice { values }, ProviderDecision::Choice { value, .. }) =>
            if texts(values@).contains(value@) {
                None
            } else {
                Some(choice_problem_text(name, value@, debug_list_text(texts(values@))))
            },
        (DecisionSpec::Score { min, max, .. }, ProviderDecision::Score { value, .. }) =>
            if value < min || value > max {
                Some("Decision '"@ + name + "': score "@ + int_text(value as int) + " is outside allowed range ["@
                    + int_text(min as int) + ", "@ + int_text(max as int) + "]"@)
            } else {
                None
            },
        (DecisionSpec::Boolean, ProviderDecision::Boolean { .. }) => None,
        _ => Some("Decision '"@ + name + "': type mismatch. Pack expects '"@ + decision_type_name(spec)
            + "', but provider returned '"@ + provider_type_name(d) + "'"@),
    }
}

/// Why the answers do not satisfy the declared decision `name`.
pub open spec fn declared_problem(
    name: Seq<char>,
    spec: DecisionSpec,
    actual: Seq<(String, ProviderDecision)>,
) -> Option<Seq<char>> {
    match first_named(actual, name) {
        None => Some("Provider failed to return declared decision '"@ + name + "'"@),
        Some(k) => {
            let d = actual[k].1;
            if !bits_in_unit_interval(confidence_of(d).bits) {
                Some("Decision '"@ + name + "' confidence "@ + confidence_of(d).text@
                    + " is outside the valid [0.0, 1.0] range"@)
            } else {
                value_problem(name, spec, d)
            }
        },
    }
}

/// The first declared decision, in order, whose answer is missing or wrong.
pub open spec fn declared_problems(
    expected: Seq<(String, DecisionSpec)>,
    actual: Seq<(String, ProviderDecision)>,
) -> Option<Seq<char>>
    decreases expected.len(),
{
    if expected.len() == 0 {
        None
    } else {
        match declared_problems(expected.drop_last(), actual) {
            Some(p) => Some(p),
            None => declared_problem(expected.last().0@, expected.last().1, actual),
        }
    }
}

/// The first answer, in order, whose name the pack does not declare.
pub open spec fn undeclared_problem(
    expected: Seq<(String, DecisionSpec)>,
    actual: Seq<(String, ProviderDecision)>,
) -> Option<Seq<char>>
    decreases actual.len(),
{
    if actual.len() == 0 {
        None
    } else {
        match undeclared_problem(expected, actual.drop_last()) {
            Some(p) => Some(p),
            None => if has_named(expected, actual.last().0@) {
                None
            } else {
                Some("Provider returned undeclared decision '"@ + actual.last().0@ + "' not defined in pack schema"@)
            },
        }
    }
}

/// The reason an answer set is refused, or `None` when it is accepted.
pub open spec fn response_problem(
    expected: Seq<(String, DecisionSpec)>,
    actual: Seq<(String, ProviderDecision)>,
) -> Option<Seq<char>> {
    match declared_problems(expected, actual) {
        Some(p) => Some(p),
        None => undeclared_problem(expected, actual),
    }
}

/// An answer that fits a declared decision: same type, a confidence in `[0.0, 1.0]`, a
/// choice among the declared values, or a score inside the declared range.
pub open spec fn answer_fits(spec: DecisionSpec, d: ProviderDecision) -> bool {
    &&& bits_in_unit_interval(confidence_of(d).bits)
    &&& match (spec, d) {
        (DecisionSpec::Choice { values }, ProviderDecision::Choice { value, .. }) => texts(values@).contains(value@),
        (DecisionSpec::Score { min, max, .. }, ProviderDecision::Score { value, .. }) => min <= value <= max,
        (DecisionSpec::Boolean, ProviderDecision::Boolean { .. }) => true,
        _ => false,
    }
}

/// The answers satisfy the pack's decision schema: every declared decision is answered
/// (its first answer fits), and every answer is declared.
pub open spec fn response_conforms(
    expected: Seq<(String, DecisionSpec)>,
    actual: Seq<(String, ProviderDecision)>,
) -> bool {
    &&& forall|i: int| 0 <= i < expected.len() ==> match #[trigger] first_named(actual, expected[i].0@) {
        Some(k) => answer_fits(expected[i].1, actual[k].1),
        None => false,
    }
    &&& forall|k: int| 0 <= k < actual.len() ==> has_named(expected, #[trigger] actual[k].0@)
}

fn find_named<T>(entries: &Vec<(String, T)>, name: &String) -> (r: Option<usize>)
    ensures
        match first_named(entries@, name@) {
            Some(i) => r == Some(i as usize),
            None => r is None,
        },
{
    let n = entries.len();
    let mut i: usize = 0;
    while i < n
        invariant
            n == entries@.len(),
            i <= n,
            first_named(entries@.take(i as int), name@) is None,
        decreases n - i,
    {
        assert(entries@.take(i + 1).drop_last() =~= entries@.take(i as int));
        if entries[i].0 == *name {
            proof { lemma_first_named_prefix(entries@, name@, (i + 1) as nat); }
            return Some(i);
        }
        i = i + 1;
    }
    assert(entries@.take(n as int) =~= entries@);
    None
}

proof fn lemma_first_named_prefix<T>(entries: Seq<(String, T)>, name: Seq<char>, n: nat)
    requires
        n <= entries.len(),
        first_named(entries.take(n as int), name) is Some,
    ensures
        first_named(entries, name) == first_named(entries.take(n as int), name),
    decreases entries.len() - n,
{
    if n < entries.len() {
        assert(entries.take(n + 1 as int).drop_last() =~= entries.take(n as int));
        lemma_first_named_prefix(entries, name, n + 1);
    } else {
        assert(entries.take(n as int) =~= entries);
    }
}

proof fn lemma_first_named_found<T>(entries: Seq<(String, T)>, name: Seq<char>)
    ensures
        first_named(entries, name) is Some <==> has_named(entries, name),
        first_named(entries, name) matches Some(i) ==> 0 <= i < entries.len() && entries[i].0@ == name,
    decreases entries.len(),
{
    if entries.len() > 0 {
        lemma_first_named_found(entries.drop_last(), name);
        if has_named(entries, name) && first_named(entries.drop_last(), name) is None {
            let i = choose|i: int| 0 <= i < entries.len() && #[trigger] entries[i].0@ == name;
            if i < entries.len() - 1 {
                assert(entries.drop_last()[i] == entries[i]);
            }
        }
        if has_named(entries.drop_last(), name) {
            let i = choose|i: int| 0 <= i < entries.drop_last().len() && #[trigger] entries.drop_last()[i].0@ == name;
            assert(entries[i] == entries.drop_last()[i]);
        }
    }
}

proof fn lemma_declared_problems(expected: Seq<(String, DecisionSpec)>, actual: Seq<(String, ProviderDecision)>)
    ensures
        declared_problems(expected, actual) is None <==> forall|i: int| 0 <= i < expected.len() ==>
            (#[trigger] declared_problem(expected[i].0@, expected[i].1, actual)) is None,
    decreases expected.len(),
{
    if expected.len() > 0 {
        lemma_declared_problems(expected.drop_last(), actual);
        if declared_problems(expected, actual) is None {
            assert forall|i: int| 0 <= i < expected.len() implies
                (#[trigger] declared_problem(expected[i].0@, expected[i].1, actual)) is None by {
                if i < expected.len() - 1 {
                    assert(expected.drop_last()[i] == expected[i]);
                }
            }
        } else if declared_problems(expected.drop_last(), actual) is Some {
            let j = choose|j: int| 0 <= j < expected.drop_last().len()
                && (#[trigger] declared_problem(expected.drop_last()[j].0@, expected.drop_last()[j].1, actual)) is Some;
            assert(expected.drop_last()[j] == expected[j]);
        } else {
            let l = expected.len() - 1;
            assert(declared_problem(expected[l].0@, expected[l].1, actual) is Some);
        }
    }
}

proof fn lemma_undeclared_problem(expected: Seq<(String, DecisionSpec)>, actual: Seq<(String, ProviderDecision)>)
    ensures
        undeclared_problem(expected, actual) is None <==> forall|k: int| 0 <= k < actual.len() ==>
            has_named(expected, #[trigger] actual[k].0@),
    decreases actual.len(),
{
    if actual.len() > 0 {
        lemma_undeclared_problem(expected, actual.drop_last());
        if undeclared_problem(expected, actual) is None {
            assert forall|k: int| 0 <= k < actual.len() implies has_named(expected, #[trigger] actual[k].0@) by {
                if k < actual.len() - 1 {
                    assert(actual.drop_last()[k] == actual[k]);
                }
            }
        } else if undeclared_problem(expected, actual.drop_last()) is Some {
            let j = choose|j: int| 0 <= j < actual.drop_last().len() && !has_named(expected, #[trigger] actual.drop_last()[j].0@);
            assert(actual.drop_last()[j] == actual[j]);
        }
    }
}

/// A provider answer set is refused exactly when it breaks the pack's decision schema.
pub proof fn lemma_response_problem_iff_nonconforming(
    expected: Seq<(String, DecisionSpec)>,
    actual: Seq<(String, ProviderDecision)>,
)
    ensures
        response_problem(expected, actual) is None <==> response_conforms(expected, actual),
{
    lemma_declared_problems(expected, actual);
    lemma_undeclared_problem(expected, actual);
    assert forall|i: int| 0 <= i < expected.len() implies
        ((#[trigger] declared_problem(expected[i].0@, expected[i].1, actual)) is None <==>
        match first_named(actual, expected[i].0@) {
            Some(k) => answer_fits(expected[i].1, actual[k].1),
            None => false,
        }) by {
        lemma_first_named_found(actual, expected[i].0@);
    }
    if response_conforms(expected, actual) {
        assert forall|i: int| 0 <= i < expected.len() implies
            (#[trigger] declared_problem(expected[i].0@, expected[i].1, actual)) is None by {
            let _ = first_named(actual, expected[i].0@);
        }
    }
    if response_problem(expected, actual) is None {
        assert forall|i: int| 0 <= i < expected.len() implies match #[trigger] first_named(actual, expected[i].0@) {
            Some(k) => answer_fits(expected[i].1, actual[k].1),
            None => false,
        } by {
            let _ = declared_problem(expected[i].0@, expected[i].1, actual);
        }
    }
}

fn choice_allowed(values: &Vec<String>, value: &String) -> (r: bool)
    ensures
        r == texts(values@).contains(value@),
{
    let n = values.len();
    let mut i: usize = 0;
    while i < n
        invariant
            n == values@.len(),
            i <= n,
            forall|j: int| 0 <= j < i ==> values@[j]@ != value@,
        decreases n - i,
    {
        if values[i] == *value {
            assert(texts(values@)[i as int] == value@);
            return true;
        }
        i = i + 1;
    }
    proof {
        if texts(values@).contains(value@) {
            let j = choose|j: int| 0 <= j < texts(values@).len() && texts(values@)[j] == value@;
            assert(values@[j]@ == value@);
        }
    }
    false
}

/// The problem of a choice outside the pack's values, given the pack's values as `Debug`
/// writes the list.
pub open spec fn choice_problem_text(name: Seq<char>, value: Seq<char>, allowed: Seq<char>) -> Seq<char> {
    "Decision '"@ + name + "': choice value '"@ + value + "' is not in allowed pack values: "@ + allowed
}

/// Writes the problem of a choice outside the pack's values; `allowed` is the list of
/// values as `Debug` writes it.
pub fn choice_problem(name: &str, value: &str, allowed: &str) -> (s: String)
    ensures
        s@ == choice_problem_text(name@, value@, allowed@),
{
    let mut s = String::from_str("Decision '");
    s.append(name);
    s.append("': choice value '");
    s.append(value);
    s.append("' is not in allowed pack values: ");
    s.append(allowed);
    s
}

fn check_value(name: &String, spec: &DecisionSpec, d: &ProviderDecision) -> (r: Option<String>)
    ensures
        match value_problem(name@, *spec, *d) {
            None => r is None,
            Some(m) => (r matches Some(s) && s@ == m),
        },
{
    match (spec, d) {
        (DecisionSpec::Choice { values }, ProviderDecision::Choice { value, .. }) => {
            if choice_allowed(values, value) {
                None
            } else {
                Some(choice_problem(name.as_str(), value.as_str(), debug_list(values).as_str()))
            }
        },
        (DecisionSpec::Score { min, max, .. }, ProviderDecision::Score { value, .. }) => {
            if *value < *min || *value > *max {
                let mut s = String::from_str("Decision '");
                s.append(name.as_str());
                s.append("': score ");
                s.append(i64_text(*value).as_str());
                s.append(" is outside allowed range [");
                s.append(i64_text(*min).as_str());
                s.append(", ");
                s.append(i64_text(*max).as_str());
                s.append("]");
                Some(s)
            } else {
                None
            }
        },
        (DecisionSpec::Boolean, ProviderDecision::Boolean { .. }) => None,
        _ => {
            let mut s = String::from_str("Decision '");
            s.append(name.as_str());
            s.append("': type mismatch. Pack expects '");
            s.append(spec.kind_name());
            s.append("', but provider returned '");
            s.append(d.kind_name());
            s.append("'");
            Some(s)
        },
    }
}

fn check_declared(name: &String, spec: &DecisionSpec, actual: &Vec<(String, ProviderDecision)>) -> (r: Option<String>)
    ensures
        match declared_problem(name@, *spec, actual@) {
            None => r is None,
            Some(m) => (r matches Some(s) && s@ == m),
        },
{
    let count = actual.len();
    match find_named(actual, name) {
        None => {
            let mut s = String::from_str("Provider failed to return declared decision '");
            s.append(name.as_str());
            s.append("'");
            Some(s)
        },
        Some(k) => {
            proof { lemma_first_named_found(actual@, name@); }
            let d = &actual[k].1;
            let c = d.confidence();
            if !c.in_unit_interval() {
                let mut s = String::from_str("Decision '");
                s.append(name.as_str());
                s.append("' confidence ");
                s.append(c.text.as_str());
                s.append(" is outside the valid [0.0, 1.0] range");
                Some(s)
            } else {
                check_value(name, spec, d)
            }
        },
    }
}

/// Validates that an untrusted provider response satisfies the pack's decision schema:
/// each declared decision is answered with a confidence in `[0.0, 1.0]` and a value of the
/// declared type inside the declared values or range, and nothing undeclared is answered.
/// The first violation, in name order of the declared decisions and then of the answers, is
/// reported.
pub fn validate_provider_response(
    expected_decisions: &NamedMap<DecisionSpec>,
    actual_decisions: &NamedMap<ProviderDecision>,
) -> (r: Result<(), JevOpsError>)
    ensures
        r is Ok <==> response_conforms(expected_decisions@, actual_decisions@),
        match response_problem(expected_decisions@, actual_decisions@) {
            None => r is Ok,
            Some(m) => (r matches Err(JevOpsError::InvalidProviderResponse(s)) && s@ == m),
        },
{
    check_response(expected_decisions.entries(), actual_decisions.entries())
}

fn check_response(
    expected_decisions: &Vec<(String, DecisionSpec)>,
    actual_decisions: &Vec<(String, ProviderDecision)>,
) -> (r: Result<(), JevOpsError>)
    ensures
        r is Ok <==> response_conforms(expected_decisions@, actual_decisions@),
        match response_problem(expected_decisions@, actual_decisions@) {
            None => r is Ok,
            Some(m) => (r matches Err(JevOpsError::InvalidProviderResponse(s)) && s@ == m),
        },
{
    proof { lemma_response_problem_iff_nonconforming(expected_decisions@, actual_decisions@); }
    let n = expected_decisions.len();
    let mut i: usize = 0;
    while i < n
        invariant
            n == expected_decisions@.len(),
            i <= n,
            declared_problems(expected_decisions@.take(i as int), actual_decisions@) is None,
        decreases n - i,
    {
        assert(expected_decisions@.take(i + 1).drop_last() =~= expected_decisions@.take(i as int));
        if let Some(m) = check_declared(&expected_decisions[i].0, &expected_decisions[i].1, actual_decisions) {
            proof { lemma_declared_prefix(expected_decisions@, actual_decisions@, (i + 1) as nat); }
            return Err(JevOpsError::InvalidProviderResponse(m));
        }
        i = i + 1;
    }
    assert(expected_decisions@.take(n as int) =~= expected_decisions@);
    let m = actual_decisions.len();
    let mut k: usize = 0;
    while k < m
        invariant
            n == expected_decisions@.len(),
            m == actual_decisions@.len(),
            k <= m,
            declared_problems(expected_decisions@, actual_decisions@) is None,
            undeclared_problem(expected_decisions@, actual_decisions@.take(k as int)) is None,
        decreases m - k,
    {
        assert(actual_decisions@.take(k + 1).drop_last() =~= actual_decisions@.take(k as int));
        proof { lemma_first_named_found(expected_decisions@, actual_decisions@[k as int].0@); }
        if find_named(expected_decisions, &actual_decisions[k].0).is_none() {
            let mut s = String::from_str("Provider returned undeclared decision '");
            s.append(actual_decisions[k].0.as_str());
            s.append("' not defined in pack schema");
            proof { lemma_undeclared_prefix(expected_decisions@, actual_decisions@, (k + 1) as nat); }
            return Err(JevOpsError::InvalidProviderResponse(s));
        }
        k = k + 1;
    }
    assert(actual_decisions@.take(m as int) =~= actual_decisions@);
    Ok(())
}

proof fn lemma_declared_prefix(
    expected: Seq<(String, DecisionSpec)>,
    actual: Seq<(String, ProviderDecision)>,
    n: nat,
)
    requires
        n <= expected.len(),
        declared_problems(expected.take(n as int), actual) is Some,
    ensures
        declared_problems(expected, actual) == declared_problems(expected.take(n as int), actual),
    decreases expected.len() - n,
{
    if n < expected.len() {
        assert(expected.take(n + 1 as int).drop_last() =~= expected.take(n as int));
        lemma_declared_prefix(expected, actual, n + 1);
    } else {
        assert(expected.take(n as int) =~= expected);
    }
}

proof fn lemma_undeclared_prefix(
    expected: Seq<(String, DecisionSpec)>,
    actual: Seq<(String, ProviderDecision)>,
    n: nat,
)
    requires
        n <= actual.len(),
        undeclared_problem(expected, actual.take(n as int)) is Some,
    ensures
        undeclared_problem(expected, actual) == undeclared_problem(expected, actual.take(n as int)),
    decreases actual.len() - n,
{
    if n < actual.len() {
        assert(actual.take(n + 1 as int).drop_last() =~= actual.take(n as int));
        lemma_undeclared_prefix(expected, actual, n + 1);
    } else {
        assert(actual.take(n as int) =~= actual);
    }
}

/// The outcome of an analysis: which pack and provider, how much input, the decisions in
/// the pack's order, the confidence threshold if one was set, and the pack's decision
/// schema the decisions were checked against.
#[derive(Debug)]
pub struct PipelineResult {
    pub pack: PackIdentity,
    pub provider: String,
    pub input: InputContext,
    pub decisions: NamedMap<ProviderDecision>,
    pub min_confidence: Option<Confidence>,
    pub schema: NamedMap<DecisionSpec>,
}

/// The input size limit of a pack: its own limit, or the default, capped at the absolute maximum.
pub open spec fn input_limit_of(m: PackManifest) -> usize {
    let wanted = match m.spec.input.max_bytes {
        Some(b) => b,
        None => DEFAULT_MAX_INPUT_BYTES,
    };
    if wanted < ABSOLUTE_MAX_INPUT_BYTES { wanted } else { ABSOLUTE_MAX_INPUT_BYTES }
}

/// How many input bytes an analysis with this pack may read.
pub fn input_limit(manifest: &PackManifest) -> (n: usize)
    ensures
        n == input_limit_of(*manifest),
{
    let wanted = match manifest.spec.input.max_bytes {
        Some(b) => b,
        None => DEFAULT_MAX_INPUT_BYTES,
    };
    if wanted < ABSOLUTE_MAX_INPUT_BYTES { wanted } else { ABSOLUTE_MAX_INPUT_BYTES }
}

/// The message for a confidence threshold outside `[0.0, 1.0]`.
pub open spec fn threshold_message(c: Confidence) -> Seq<char> {
    "--min-confidence "@ + c.text@ + " is outside the valid range [0.0, 1.0]"@
}

/// Refuses a confidence threshold outside `[0.0, 1.0]` as invalid usage.
pub fn check_min_confidence(threshold: &Option<Confidence>) -> (r: Result<(), JevOpsError>)
    ensures
        match threshold {
            Some(c) => if bits_in_unit_interval(c.bits) {
                r is Ok
            } else {
                (r matches Err(JevOpsError::Cli(m)) && m@ == threshold_message(*c))
            },
            None => r is Ok,
        },
{
    if let Some(c) = threshold {
        if !c.in_unit_interval() {
            let mut m = String::from_str("--min-confidence ");
            m.append(c.text.as_str());
            m.append(" is outside the valid range [0.0, 1.0]");
            return Err(JevOpsError::Cli(m));
        }
    }
    Ok(())
}

/// The request sent to a provider: the pack's identity, instructions and decisions, and
/// the input text.
pub fn build_request(manifest: &PackManifest, input_text: String) -> (r: InferenceRequest)
    ensures
        r.pack_name@ == manifest.metadata.name@,
        r.pack_version@ == manifest.metadata.version@,
        r.instructions@ == manifest.spec.instructions@,
        decisions_model(r.decisions@) == decisions_model(manifest.spec.decisions@),
        r.input_text@ == input_text@,
{
    InferenceRequest {
        pack_name: manifest.metadata.name.clone(),
        pack_version: manifest.metadata.version.clone(),
        instructions: manifest.spec.instructions.clone(),
        decisions: manifest.spec.decisions.clone(),
        input_text,
    }
}

/// Whether `r` is the result of the analysis that got `response` for `m` on `input`.
pub open spec fn is_result_of(
    r: PipelineResult,
    m: PackManifest,
    input: InputContext,
    response: InferenceResponse,
    min_confidence: Option<Confidence>,
) -> bool {
    &&& r.pack.name@ == m.metadata.name@
    &&& r.pack.version@ == m.metadata.version@
    &&& r.provider == response.provider
    &&& r.input == input
    &&& r.decisions == response.decisions
    &&& r.min_confidence == min_confidence
    &&& r.schema == m.spec.decisions
}

/// Checks a provider's answers against the pack's schema and, when they conform, assembles
/// the result of the analysis.
pub fn finish_pipeline(
    manifest: PackManifest,
    input: InputContext,
    response: InferenceResponse,
    min_confidence: Option<Confidence>,
) -> (r: Result<PipelineResult, JevOpsError>)
    ensures
        r is Ok <==> response_conforms(manifest.spec.decisions@, response.decisions@),
        r matches Ok(res) ==> is_result_of(res, manifest, input, response, min_confidence),
        match response_problem(manifest.spec.decisions@, response.decisions@) {
            None => r is Ok,
            Some(m) => (r matches Err(JevOpsError::InvalidProviderResponse(s)) && s@ == m),
        },
{
    validate_provider_response(&manifest.spec.decisions, &response.decisions)?;
    Ok(PipelineResult {
        pack: PackIdentity { name: manifest.metadata.name, version: manifest.metadata.version },
        provider: response.provider,
        input,
        decisions: response.decisions,
        min_confidence,
        schema: manifest.spec.decisions,
    })
}

/// Whether `resp` holds the offline answers to `decisions` for the input text `t`.
pub open spec fn is_offline_answer_set(
    decisions: Seq<(String, DecisionSpec)>,
    t: Seq<char>,
    resp: Seq<(String, ProviderDecision)>,
) -> bool {
    &&& resp.len() == decisions.len()
    &&& forall|i: int| 0 <= i < decisions.len() ==> {
        &&& (#[trigger] resp[i]).0@ == decisions[i].0@
        &&& is_mock_answer(signals_of(t), decisions[i].0@, decisions[i].1, resp[i].1)
    }
}

/// The input checks an analysis applies to the bytes read, before any provider is asked.
pub open spec fn input_accepted(buffer: Seq<u8>, limit: usize) -> bool {
    &&& 0 < buffer.len() <= limit
    &&& vstd::utf8::valid_utf8(buffer)
    &&& !crate::security::validation::looks_binary(buffer)
}

proof fn lemma_mock_answer_by_model(s: crate::inference::mock::Signals, name: Seq<char>, a: DecisionSpec, b: DecisionSpec, d: ProviderDecision)
    requires
        a@ == b@,
        is_mock_answer(s, name, a, d),
    ensures
        is_mock_answer(s, name, b, d),
{
    match (a, b) {
        (DecisionSpec::Choice { values: va }, DecisionSpec::Choice { values: vb }) => {
            assert(texts(va@) == texts(vb@));
        },
        _ => {},
    }
}

/// The checks an analysis makes before any provider is asked: the threshold must lie in
/// `[0.0, 1.0]`, and the bytes read must be within the pack's input limit, non-empty, UTF-8
/// and not binary. When they pass, the request for the provider and the input's size.
pub fn prepare_analysis(
    manifest: &PackManifest,
    buffer: &[u8],
    min_confidence: &Option<Confidence>,
) -> (r: Result<(InferenceRequest, InputContext), JevOpsError>)
    ensures
        min_confidence is Some && !bits_in_unit_interval(min_confidence->0.bits) ==> (r matches Err(JevOpsError::Cli(m))
            && m@ == threshold_message(min_confidence->0)),
        (min_confidence is Some ==> bits_in_unit_interval(min_confidence->0.bits)) ==> {
            &&& buffer@.len() > input_limit_of(*manifest) ==> (r matches Err(JevOpsError::InputTooLarge { bytes, max_bytes })
                && bytes == buffer@.len() && max_bytes == input_limit_of(*manifest))
            &&& buffer@.len() == 0 ==> (r matches Err(JevOpsError::EmptyInput))
            &&& 0 < buffer@.len() <= input_limit_of(*manifest) && !vstd::utf8::valid_utf8(buffer@)
                ==> (r matches Err(JevOpsError::InvalidUtf8(_)))
            &&& 0 < buffer@.len() <= input_limit_of(*manifest) && vstd::utf8::valid_utf8(buffer@)
                && crate::security::validation::looks_binary(buffer@) ==> (r matches Err(JevOpsError::BinaryContentDetected))
            &&& input_accepted(buffer@, input_limit_of(*manifest)) ==> (r matches Ok((req, ctx)) && {
                &&& is_request_for(req, *manifest)
                &&& vstd::utf8::encode_utf8(req.input_text@) == buffer@
                &&& ctx == (InputContext { bytes: buffer@.len() as usize, truncated: false })
            })
        },
{
    check_min_confidence(min_confidence)?;
    let limit = input_limit(manifest);
    let input = accept_input(buffer, limit)?;
    let request = build_request(manifest, input.text);
    Ok((request, input.context))
}

/// `req` asks the questions of pack `m`.
pub open spec fn is_request_for(req: InferenceRequest, m: PackManifest) -> bool {
    &&& req.pack_name@ == m.metadata.name@
    &&& req.pack_version@ == m.metadata.version@
    &&& req.instructions@ == m.spec.instructions@
    &&& decisions_model(req.decisions@) == decisions_model(m.spec.decisions@)
}

/// What an analysis gives, whatever provider answers: when the checks before asking pass
/// and the answers are accepted, the result names the pack, reports exactly the input's
/// size, which lies within the pack's limit and was not cut, keeps the threshold, and holds
/// answers that conform to the pack's decisions.
pub proof fn lemma_analysis_result(
    m: PackManifest,
    buffer: Seq<u8>,
    ctx: InputContext,
    response: InferenceResponse,
    min_confidence: Option<Confidence>,
    res: PipelineResult,
)
    requires
        input_accepted(buffer, input_limit_of(m)),
        ctx == (InputContext { bytes: buffer.len() as usize, truncated: false }),
        response_conforms(m.spec.decisions@, response.decisions@),
        is_result_of(res, m, ctx, response, min_confidence),
    ensures
        res.pack.name@ == m.metadata.name@,
        res.pack.version@ == m.metadata.version@,
        0 < res.input.bytes <= input_limit_of(m),
        !res.input.truncated,
        res.min_confidence == min_confidence,
        response_conforms(m.spec.decisions@, res.decisions@),
{
}

/// Runs a whole analysis with the offline provider: checks the threshold, reads the input
/// within the pack's limit, answers every decision from keyword heuristics, and checks the
/// answers against the pack's schema.
pub fn analyze_offline(
    manifest: PackManifest,
    buffer: &[u8],
    min_confidence: Option<Confidence>,
) -> (r: Result<PipelineResult, JevOpsError>)
    ensures
        min_confidence is Some && !bits_in_unit_interval(min_confidence->0.bits) ==> (r matches Err(JevOpsError::Cli(m))
            && m@ == threshold_message(min_confidence->0)),
        (min_confidence is Some ==> bits_in_unit_interval(min_confidence->0.bits)) ==> {
            &&& buffer@.len() > input_limit_of(manifest) ==> (r matches Err(JevOpsError::InputTooLarge { bytes, max_bytes })
                && bytes == buffer@.len() && max_bytes == input_limit_of(manifest))
            &&& buffer@.len() == 0 ==> (r matches Err(JevOpsError::EmptyInput))
            &&& 0 < buffer@.len() <= input_limit_of(manifest) && !vstd::utf8::valid_utf8(buffer@)
                ==> (r matches Err(JevOpsError::InvalidUtf8(_)))
            &&& 0 < buffer@.len() <= input_limit_of(manifest) && vstd::utf8::valid_utf8(buffer@)
                && crate::security::validation::looks_binary(buffer@) ==> (r matches Err(JevOpsError::BinaryContentDetected))
            &&& input_accepted(buffer@, input_limit_of(manifest)) ==> exists|t: Seq<char>, resp: Seq<(String, ProviderDecision)>| {
                &&& vstd::utf8::encode_utf8(t) == buffer@
                &&& #[trigger] is_offline_answer_set(manifest.spec.decisions@, t, resp)
                &&& (r is Ok <==> response_conforms(manifest.spec.decisions@, resp))
                &&& (r matches Ok(res) ==> {
                    &&& res.decisions@ == resp
                    &&& res.provider@ == "mock"@
                    &&& res.pack.name@ == manifest.metadata.name@
                    &&& res.pack.version@ == manifest.metadata.version@
                    &&& res.input == (InputContext { bytes: buffer@.len() as usize, truncated: false })
                    &&& res.min_confidence == min_confidence
                    &&& res.schema == manifest.spec.decisions
                })
            }
            &&& input_accepted(buffer@, input_limit_of(manifest)) && crate::packs::validation::manifest_is_valid(manifest)
                ==> r is Ok
        },
{
    let (request, context) = prepare_analysis(&manifest, buffer, &min_confidence)?;
    let ghost t = request.input_text@;
    let provider = MockInferenceProvider::new();
    let response = match provider.infer(&request) {
        Ok(resp) => resp,
        Err(e) => return Err(e),
    };
    let ghost resp = response.decisions@;
    proof {
        assert(decisions_model(request.decisions@).len() == request.decisions@.len());
        assert(decisions_model(manifest.spec.decisions@).len() == manifest.spec.decisions@.len());
        assert forall|i: int| 0 <= i < manifest.spec.decisions@.len() implies {
            &&& (#[trigger] resp[i]).0@ == manifest.spec.decisions@[i].0@
            &&& is_mock_answer(signals_of(t), manifest.spec.decisions@[i].0@, manifest.spec.decisions@[i].1, resp[i].1)
        } by {
            assert(decisions_model(request.decisions@)[i] == decisions_model(manifest.spec.decisions@)[i]);
            lemma_mock_answer_by_model(signals_of(t), request.decisions@[i].0@, request.decisions@[i].1,
                manifest.spec.decisions@[i].1, resp[i].1);
        }
        assert(is_offline_answer_set(manifest.spec.decisions@, t, resp));
    }
    let _ = manifest.spec.decisions.entries();
    proof {
        if crate::packs::validation::manifest_is_valid(manifest) {
            lemma_offline_analysis_succeeds(manifest, t, resp);
        }
    }
    finish_pipeline(manifest, context, response, min_confidence)
}

/// The offline answers to the decisions of a valid pack always conform to its schema, so
/// that with a threshold in `[0.0, 1.0]` (or none) and input that passes the input checks
/// the offline analysis succeeds. A pack's decisions, like every decision map, hold each
/// name once in name order.
pub proof fn lemma_offline_analysis_succeeds(
    m: PackManifest,
    t: Seq<char>,
    resp: Seq<(String, ProviderDecision)>,
)
    requires
        crate::packs::validation::manifest_is_valid(m),
        in_name_order(m.spec.decisions@),
        is_offline_answer_set(m.spec.decisions@, t, resp),
    ensures
        response_conforms(m.spec.decisions@, resp),
{
    let ds = m.spec.decisions@;
    assert forall|i: int| 0 <= i < ds.len() implies match (#[trigger] ds[i]).1 {
        DecisionSpec::Choice { values } => values@.len() > 0,
        DecisionSpec::Score { min, max, .. } => min <= max,
        DecisionSpec::Boolean => true,
    } by {
        assert(crate::packs::validation::decision_is_valid(decisions_model(ds)[i].0, decisions_model(ds)[i].1));
        assert(decisions_model(ds)[i] == (ds[i].0@, ds[i].1@));
        match ds[i].1 {
            DecisionSpec::Choice { values } => {
                assert(texts(values@).len() == values@.len());
            },
            _ => {},
        }
    }
    assert forall|a: int, b: int| 0 <= a < b < ds.len() implies ds[a].0@ != ds[b].0@ by {
        lemma_names_distinct(ds, a, b);
    }
    crate::inference::mock::lemma_mock_answers_conform(ds, signals_of(t), resp);
}

} // verus!
