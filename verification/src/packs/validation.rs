//! Semantic and security rules for pack manifests.

use vstd::prelude::*;
use vstd::string::*;
use vstd::utf8::encode_utf8;
use crate::error::JevOpsError;
use crate::packs::manifest::{decisions_model, DecisionModel, DecisionSpec, PackManifest, CURRENT_API_VERSION, CURRENT_KIND};
use crate::security::limits::{
    ABSOLUTE_MAX_INPUT_BYTES, MAX_CHOICE_VALUES_COUNT, MAX_DECISION_COUNT, MAX_INSTRUCTIONS_BYTES,
    MAX_SCORE_LEVELS,
};
use crate::security::validation::{pack_name_problem, validate_pack_name};
use crate::text::{
    char_vec, i64_text, int_text, is_blank, is_blank_text, joined, texts, u128_text, usize_text,
};

verus! {

/// The text of the error that `semver::Version::parse` reports for `text`, or `None` when
/// `text` parses as a semantic version.
pub uninterp spec fn semver_parse_error(text: Seq<char>) -> Option<Seq<char>>;

/// A version number: one to nineteen ASCII digits (so that it fits in a `u64`), with no
/// leading zero unless it is `0` itself.
pub open spec fn is_version_number(s: Seq<char>) -> bool {
    &&& 1 <= s.len() <= 19
    &&& forall|i: int| 0 <= i < s.len() ==> '0' <= #[trigger] s[i] && s[i] <= '9'
    &&& (s.len() == 1 || s[0] != '0')
}

/// A plain semantic version `major.minor.patch`, with no pre-release or build part.
pub open spec fn is_plain_version(text: Seq<char>) -> bool {
    exists|major: Seq<char>, minor: Seq<char>, patch: Seq<char>|
        is_version_number(major) && is_version_number(minor) && is_version_number(patch)
            && text == #[trigger] (major + "."@ + minor + "."@ + patch)
}

/// Calls `semver::Version::parse`. Claimed: the call fails exactly when
/// `semver_parse_error(text)` is some error text, and that text is what the error displays;
/// and a plain `major.minor.patch` version parses. The rest of the grammar (pre-release and
/// build parts, which errors come when) is left to the crate and is not restated here.
#[verifier::external_body]
pub(crate) fn semver_error(text: &str) -> (r: Option<String>)
    ensures
        match semver_parse_error(text@) {
            None => r is None,
            Some(e) => (r matches Some(m) && m@ == e),
        },
        is_plain_version(text@) ==> r is None,
{
    match semver::Version::parse(text) {
        Ok(_) => None,
        Err(e) => Some(e.to_string()),
    }
}

/// A one-element list when `cond` holds.
pub open spec fn issue_if(cond: bool, msg: Seq<char>) -> Seq<Seq<char>> {
    if cond { seq![msg] } else { Seq::empty() }
}

/// ASCII letters, digits, '_' and '-'.
pub open spec fn is_decision_name_char(c: char) -> bool {
    ('a' <= c && c <= 'z') || ('A' <= c && c <= 'Z') || ('0' <= c && c <= '9') || c == '_' || c == '-'
}

/// A wrong `api_version`.
pub open spec fn api_version_issue(m: PackManifest) -> Seq<Seq<char>> {
    issue_if(m.api_version@ != CURRENT_API_VERSION@,
        "unsupported api_version '"@ + m.api_version@ + "'. Expected '"@ + CURRENT_API_VERSION@ + "'"@)
}

/// A wrong `kind`.
pub open spec fn kind_issue(m: PackManifest) -> Seq<Seq<char>> {
    issue_if(m.kind@ != CURRENT_KIND@,
        "unsupported kind '"@ + m.kind@ + "'. Expected '"@ + CURRENT_KIND@ + "'"@)
}

/// A refused pack name.
pub open spec fn name_issue(m: PackManifest) -> Seq<Seq<char>> {
    match pack_name_problem(m.metadata.name@) {
        Some(p) => seq!["metadata.name: "@ + "Pack error: "@ + p],
        None => Seq::empty(),
    }
}

/// The problem reported for `version` when parsing it as a semantic version failed with
/// `parse_error`.
pub open spec fn version_issue_text(version: Seq<char>, parse_error: Seq<char>) -> Seq<char> {
    "metadata.version: '"@ + version + "' is not valid semantic version ("@ + parse_error + ")"@
}

/// A version that is not a semantic version.
pub open spec fn version_issue(m: PackManifest) -> Seq<Seq<char>> {
    match semver_parse_error(m.metadata.version@) {
        Some(e) => seq![version_issue_text(m.metadata.version@, e)],
        None => Seq::empty(),
    }
}

/// Blank description or author.
pub open spec fn people_issues(m: PackManifest) -> Seq<Seq<char>> {
    issue_if(is_blank_text(m.metadata.description@), "metadata.description: description cannot be empty"@)
    + issue_if(is_blank_text(m.metadata.author@), "metadata.author: author cannot be empty"@)
}

/// An input type other than text.
pub open spec fn input_type_issue(m: PackManifest) -> Seq<Seq<char>> {
    issue_if(m.spec.input.input_type@ != "text"@,
        "spec.input.type: '"@ + m.spec.input.input_type@ + "' is unsupported. Only 'text' is supported in v0.1"@)
}

/// An input limit of zero or above the absolute maximum.
pub open spec fn max_bytes_issue(m: PackManifest) -> Seq<Seq<char>> {
    match m.spec.input.max_bytes {
        Some(b) => if b == 0 {
            seq!["spec.input.max_bytes: cannot be 0"@]
        } else if b > ABSOLUTE_MAX_INPUT_BYTES {
            seq!["spec.input.max_bytes: "@ + int_text(b as int) + " exceeds absolute maximum of "@
                + int_text(ABSOLUTE_MAX_INPUT_BYTES as int) + " bytes (10 MiB)"@]
        } else {
            Seq::empty()
        },
        None => Seq::empty(),
    }
}

/// Blank or oversized instructions.
pub open spec fn instructions_issue(m: PackManifest) -> Seq<Seq<char>> {
    if is_blank_text(m.spec.instructions@) {
        seq!["spec.instructions: instructions cannot be empty"@]
    } else if encode_utf8(m.spec.instructions@).len() > MAX_INSTRUCTIONS_BYTES {
        seq!["spec.instructions: size "@ + int_text(encode_utf8(m.spec.instructions@).len() as int)
            + " bytes exceeds maximum of "@ + int_text(MAX_INSTRUCTIONS_BYTES as int) + " bytes (32 KiB)"@]
    } else {
        Seq::empty()
    }
}

/// No decisions, or too many.
pub open spec fn decision_count_issue(m: PackManifest) -> Seq<Seq<char>> {
    if m.spec.decisions@.len() == 0 {
        seq!["spec.decisions: at least one decision must be defined"@]
    } else if m.spec.decisions@.len() > MAX_DECISION_COUNT {
        seq!["spec.decisions: count "@ + int_text(m.spec.decisions@.len() as int) + " exceeds maximum allowed of "@
            + int_text(MAX_DECISION_COUNT as int)]
    } else {
        Seq::empty()
    }
}

/// Problems with the manifest's header, metadata, input, instructions and decision count.
pub open spec fn header_issues(m: PackManifest) -> Seq<Seq<char>> {
    identity_issues(m) + people_and_input_issues(m) + body_issues(m)
}

/// Problems with the header and the pack's identity.
pub open spec fn identity_issues(m: PackManifest) -> Seq<Seq<char>> {
    api_version_issue(m) + kind_issue(m) + name_issue(m) + version_issue(m)
}

/// Problems with the people named and the input rules.
pub open spec fn people_and_input_issues(m: PackManifest) -> Seq<Seq<char>> {
    people_issues(m) + input_type_issue(m) + max_bytes_issue(m)
}

/// Problems with the instructions and the number of decisions.
pub open spec fn body_issues(m: PackManifest) -> Seq<Seq<char>> {
    instructions_issue(m) + decision_count_issue(m)
}

/// "spec.decisions.<name>" — the place of a decision in messages.
pub open spec fn decision_place(name: Seq<char>) -> Seq<char> {
    "spec.decisions."@ + name
}

/// Problems with the `i`-th value of a choice decision: blank, or equal to an earlier value.
pub open spec fn choice_value_issues(name: Seq<char>, values: Seq<Seq<char>>, i: int) -> Seq<Seq<char>> {
    issue_if(is_blank_text(values[i]), decision_place(name) + ": choice value cannot be empty"@)
    + issue_if(exists|j: int| 0 <= j < i && values[j] == values[i],
        decision_place(name) + ": duplicate choice value '"@ + values[i] + "'"@)
}

/// Problems with the first `n` values of a choice decision.
pub open spec fn choice_values_issues(name: Seq<char>, values: Seq<Seq<char>>, n: nat) -> Seq<Seq<char>>
    decreases n,
{
    if n == 0 {
        Seq::empty()
    } else {
        choice_values_issues(name, values, (n - 1) as nat) + choice_value_issues(name, values, n - 1)
    }
}

/// Number of levels of the scale `min..=max`.
pub open spec fn score_span(min: i64, max: i64) -> int {
    max - min + 1
}

/// Problems with what a decision asks.
pub open spec fn decision_spec_issues(name: Seq<char>, d: DecisionModel) -> Seq<Seq<char>> {
    match d {
        DecisionModel::Choice { values } =>
            (if values.len() == 0 {
                seq![decision_place(name) + ": choice decision must define at least one value"@]
            } else if values.len() > MAX_CHOICE_VALUES_COUNT {
                seq![decision_place(name) + ": choice values count "@ + int_text(values.len() as int)
                    + " exceeds maximum of "@ + int_text(MAX_CHOICE_VALUES_COUNT as int)]
            } else {
                Seq::empty()
            }) + choice_values_issues(name, values, values.len()),
        DecisionModel::Score { min, max, levels } =>
            if min >= max {
                seq![decision_place(name) + ":\nscore minimum ("@ + int_text(min as int)
                    + ") must be lower than maximum ("@ + int_text(max as int) + ")"@]
            } else if score_span(min, max) > MAX_SCORE_LEVELS {
                seq![decision_place(name) + ": score range spans "@ + int_text(score_span(min, max))
                    + " levels, exceeding the maximum of "@ + int_text(MAX_SCORE_LEVELS as int)]
            } else if levels.len() != 0 && levels.len() != score_span(min, max) {
                seq![decision_place(name) + ": levels lists "@ + int_text(levels.len() as int)
                    + " entries but the range "@ + int_text(min as int) + " to "@ + int_text(max as int)
                    + " has "@ + int_text(score_span(min, max)) + " levels"@]
            } else {
                Seq::empty()
            },
        DecisionModel::Boolean => Seq::empty(),
    }
}

/// Problems with one named decision.
pub open spec fn decision_issues(name: Seq<char>, d: DecisionModel) -> Seq<Seq<char>> {
    if is_blank_text(name) {
        seq!["spec.decisions: decision name cannot be empty"@]
    } else {
        issue_if(!(forall|i: int| 0 <= i < name.len() ==> is_decision_name_char(#[trigger] name[i])),
            decision_place(name) + ": decision name must contain only alphanumeric characters, '_', or '-'"@)
        + decision_spec_issues(name, d)
    }
}

/// Problems with a list of decisions, in order.
pub open spec fn decisions_issues(ds: Seq<(Seq<char>, DecisionModel)>) -> Seq<Seq<char>>
    decreases ds.len(),
{
    if ds.len() == 0 {
        Seq::empty()
    } else {
        decisions_issues(ds.drop_last()) + decision_issues(ds.last().0, ds.last().1)
    }
}

/// Every problem `validate_manifest` reports for `m`, in the order it reports them.
pub open spec fn manifest_issues(m: PackManifest) -> Seq<Seq<char>> {
    header_issues(m) + decisions_issues(decisions_model(m.spec.decisions@))
}

/// A decision that the rules accept.
pub open spec fn decision_is_valid(name: Seq<char>, d: DecisionModel) -> bool {
    &&& !is_blank_text(name)
    &&& forall|i: int| 0 <= i < name.len() ==> is_decision_name_char(#[trigger] name[i])
    &&& match d {
        DecisionModel::Choice { values } => {
            &&& 1 <= values.len() <= MAX_CHOICE_VALUES_COUNT
            &&& forall|i: int| 0 <= i < values.len() ==> !is_blank_text(#[trigger] values[i])
            &&& forall|i: int, j: int| 0 <= i < j < values.len() ==> values[i] != values[j]
        },
        DecisionModel::Score { min, max, levels } => {
            &&& min < max
            &&& score_span(min, max) <= MAX_SCORE_LEVELS
            &&& (levels.len() == 0 || levels.len() == score_span(min, max))
        },
        DecisionModel::Boolean => true,
    }
}

/// A manifest that the rules accept: current schema, a well-formed name and semantic
/// version, non-blank description, author and instructions, text input with a limit in
/// `1..=ABSOLUTE_MAX_INPUT_BYTES` when one is set, instructions of at most
/// `MAX_INSTRUCTIONS_BYTES`, between 1 and `MAX_DECISION_COUNT` decisions, and every
/// decision valid.
pub open spec fn manifest_is_valid(m: PackManifest) -> bool {
    &&& m.api_version@ == CURRENT_API_VERSION@
    &&& m.kind@ == CURRENT_KIND@
    &&& pack_name_problem(m.metadata.name@) is None
    &&& semver_parse_error(m.metadata.version@) is None
    &&& !is_blank_text(m.metadata.description@)
    &&& !is_blank_text(m.metadata.author@)
    &&& m.spec.input.input_type@ == "text"@
    &&& (m.spec.input.max_bytes matches Some(b) ==> 1 <= b <= ABSOLUTE_MAX_INPUT_BYTES)
    &&& !is_blank_text(m.spec.instructions@)
    &&& encode_utf8(m.spec.instructions@).len() <= MAX_INSTRUCTIONS_BYTES
    &&& 1 <= m.spec.decisions@.len() <= MAX_DECISION_COUNT
    &&& forall|i: int| 0 <= i < m.spec.decisions@.len() ==>
        decision_is_valid(#[trigger] decisions_model(m.spec.decisions@)[i].0, decisions_model(m.spec.decisions@)[i].1)
}

proof fn lemma_choice_values_issues(name: Seq<char>, values: Seq<Seq<char>>, n: nat)
    requires
        n <= values.len(),
    ensures
        choice_values_issues(name, values, n).len() == 0 <==> (
            (forall|i: int| 0 <= i < n ==> !is_blank_text(#[trigger] values[i]))
            && (forall|i: int, j: int| 0 <= i < j < n ==> values[i] != values[j])),
    decreases n,
{
    if n > 0 {
        lemma_choice_values_issues(name, values, (n - 1) as nat);
        let k = n - 1;
        if choice_values_issues(name, values, n).len() == 0 {
            assert forall|i: int, j: int| 0 <= i < j < n implies values[i] != values[j] by {
                if j == k {
                    if values[i] == values[j] {
                        assert(exists|q: int| 0 <= q < k && values[q] == values[k]);
                    }
                }
            }
        }
    }
}

proof fn lemma_decisions_issues(ds: Seq<(Seq<char>, DecisionModel)>)
    ensures
        decisions_issues(ds).len() == 0 <==> forall|i: int| 0 <= i < ds.len() ==>
            decision_is_valid(#[trigger] ds[i].0, ds[i].1),
    decreases ds.len(),
{
    if ds.len() > 0 {
        lemma_decisions_issues(ds.drop_last());
        let (name, d) = ds.last();
        match d {
            DecisionModel::Choice { values } => lemma_choice_values_issues(name, values, values.len()),
            _ => {},
        }
        assert(decision_issues(name, d).len() == 0 <==> decision_is_valid(name, d));
        if decisions_issues(ds).len() == 0 {
            assert forall|i: int| 0 <= i < ds.len() implies decision_is_valid(#[trigger] ds[i].0, ds[i].1) by {
                if i < ds.len() - 1 {
                    assert(ds.drop_last()[i] == ds[i]);
                }
            }
        } else {
            if forall|i: int| 0 <= i < ds.len() ==> decision_is_valid(#[trigger] ds[i].0, ds[i].1) {
                assert forall|i: int| 0 <= i < ds.drop_last().len() implies
                    decision_is_valid(#[trigger] ds.drop_last()[i].0, ds.drop_last()[i].1) by {
                    assert(ds.drop_last()[i] == ds[i]);
                }
                assert(decision_is_valid(ds[ds.len() - 1].0, ds[ds.len() - 1].1));
            }
        }
    }
}

/// The rules and the reported problems agree: a manifest passes every rule exactly when
/// `validate_manifest` finds nothing to report.
pub proof fn lemma_manifest_valid_iff_no_issues(m: PackManifest)
    ensures
        manifest_is_valid(m) <==> manifest_issues(m).len() == 0,
{
    lemma_decisions_issues(decisions_model(m.spec.decisions@));
}

fn push_issue(errors: &mut Vec<String>, m: String)
    ensures
        texts(final(errors)@) == texts(old(errors)@).push(m@),
{
    errors.push(m);
    proof {
        assert(texts(final(errors)@) =~= texts(old(errors)@).push(m@));
    }
}

fn add_issues(errors: &mut Vec<String>, more: Vec<String>)
    ensures
        texts(final(errors)@) == texts(old(errors)@) + texts(more@),
{
    let mut more = more;
    let ghost m0 = more@;
    errors.append(&mut more);
    proof {
        assert(texts(final(errors)@) =~= texts(old(errors)@) + texts(m0));
    }
}

/// The problem a version has, given the outcome of parsing it as a semantic version: none
/// when it parsed, else the message that quotes the parser's error.
pub fn version_problem(version: &str, parse_error: Option<String>) -> (r: Option<String>)
    ensures
        match parse_error {
            None => r is None,
            Some(e) => (r matches Some(m) && m@ == version_issue_text(version@, e@)),
        },
{
    match parse_error {
        None => None,
        Some(e) => {
            let mut s = String::from_str("metadata.version: '");
            s.append(version);
            s.append("' is not valid semantic version (");
            s.append(e.as_str());
            s.append(")");
            Some(s)
        },
    }
}

fn identity_problems(m: &PackManifest) -> (errors: Vec<String>)
    ensures
        texts(errors@) == identity_issues(*m),
        is_plain_version(m.metadata.version@) ==> semver_parse_error(m.metadata.version@) is None,
{
    let mut errors: Vec<String> = Vec::new();
    if m.api_version != String::from_str(CURRENT_API_VERSION) {
        let mut s = String::from_str("unsupported api_version '");
        s.append(m.api_version.as_str());
        s.append("'. Expected '");
        s.append(CURRENT_API_VERSION);
        s.append("'");
        push_issue(&mut errors, s);
    }
    assert(texts(errors@) =~= api_version_issue(*m));
    if m.kind != String::from_str(CURRENT_KIND) {
        let mut s = String::from_str("unsupported kind '");
        s.append(m.kind.as_str());
        s.append("'. Expected '");
        s.append(CURRENT_KIND);
        s.append("'");
        push_issue(&mut errors, s);
    }
    assert(texts(errors@) =~= api_version_issue(*m) + kind_issue(*m));
    if let Err(e) = validate_pack_name(m.metadata.name.as_str()) {
        let mut s = String::from_str("metadata.name: ");
        s.append(e.message().as_str());
        assert(s@ =~= "metadata.name: "@ + "Pack error: "@ + pack_name_problem(m.metadata.name@)->0);
        push_issue(&mut errors, s);
    }
    assert(texts(errors@) =~= api_version_issue(*m) + kind_issue(*m) + name_issue(*m));
    if let Some(s) = version_problem(m.metadata.version.as_str(), semver_error(m.metadata.version.as_str())) {
        push_issue(&mut errors, s);
    }
    assert(texts(errors@) =~= api_version_issue(*m) + kind_issue(*m) + name_issue(*m) + version_issue(*m));
    errors
}

fn people_and_input_problems(m: &PackManifest) -> (errors: Vec<String>)
    ensures
        texts(errors@) == people_and_input_issues(*m),
{
    let mut errors: Vec<String> = Vec::new();
    if is_blank(m.metadata.description.as_str()) {
        push_issue(&mut errors, String::from_str("metadata.description: description cannot be empty"));
    }
    if is_blank(m.metadata.author.as_str()) {
        push_issue(&mut errors, String::from_str("metadata.author: author cannot be empty"));
    }
    assert(texts(errors@) =~= people_issues(*m));
    if m.spec.input.input_type != String::from_str("text") {
        let mut s = String::from_str("spec.input.type: '");
        s.append(m.spec.input.input_type.as_str());
        s.append("' is unsupported. Only 'text' is supported in v0.1");
        push_issue(&mut errors, s);
    }
    assert(texts(errors@) =~= people_issues(*m) + input_type_issue(*m));
    if let Some(b) = m.spec.input.max_bytes {
        if b == 0 {
            push_issue(&mut errors, String::from_str("spec.input.max_bytes: cannot be 0"));
        } else if b > ABSOLUTE_MAX_INPUT_BYTES {
            let mut s = String::from_str("spec.input.max_bytes: ");
            s.append(usize_text(b).as_str());
            s.append(" exceeds absolute maximum of ");
            s.append(usize_text(ABSOLUTE_MAX_INPUT_BYTES).as_str());
            s.append(" bytes (10 MiB)");
            push_issue(&mut errors, s);
        }
    }
    assert(texts(errors@) =~= people_issues(*m) + input_type_issue(*m) + max_bytes_issue(*m));
    errors
}

fn body_problems(m: &PackManifest) -> (errors: Vec<String>)
    ensures
        texts(errors@) == body_issues(*m),
{
    let mut errors: Vec<String> = Vec::new();
    let instructions = m.spec.instructions.as_str();
    if is_blank(instructions) {
        push_issue(&mut errors, String::from_str("spec.instructions: instructions cannot be empty"));
    } else if instructions.as_bytes().len() > MAX_INSTRUCTIONS_BYTES {
        let mut s = String::from_str("spec.instructions: size ");
        s.append(usize_text(instructions.as_bytes().len()).as_str());
        s.append(" bytes exceeds maximum of ");
        s.append(usize_text(MAX_INSTRUCTIONS_BYTES).as_str());
        s.append(" bytes (32 KiB)");
        push_issue(&mut errors, s);
    }
    assert(texts(errors@) =~= instructions_issue(*m));
    let count = m.spec.decisions.len();
    if count == 0 {
        push_issue(&mut errors, String::from_str("spec.decisions: at least one decision must be defined"));
    } else if count > MAX_DECISION_COUNT {
        let mut s = String::from_str("spec.decisions: count ");
        s.append(usize_text(count).as_str());
        s.append(" exceeds maximum allowed of ");
        s.append(usize_text(MAX_DECISION_COUNT).as_str());
        push_issue(&mut errors, s);
    }
    assert(texts(errors@) =~= instructions_issue(*m) + decision_count_issue(*m));
    errors
}

fn header_problems(m: &PackManifest) -> (errors: Vec<String>)
    ensures
        texts(errors@) == header_issues(*m),
        is_plain_version(m.metadata.version@) ==> semver_parse_error(m.metadata.version@) is None,
{
    let mut errors = identity_problems(m);
    add_issues(&mut errors, people_and_input_problems(m));
    add_issues(&mut errors, body_problems(m));
    errors
}

fn choice_problems(name: &String, values: &Vec<String>) -> (errors: Vec<String>)
    ensures
        texts(errors@) == decision_spec_issues(name@, DecisionModel::Choice { values: texts(values@) }),
{
    let ghost vals = texts(values@);
    let mut errors: Vec<String> = Vec::new();
    let n = values.len();
    if n == 0 {
        let mut s = String::from_str("spec.decisions.");
        s.append(name.as_str());
        s.append(": choice decision must define at least one value");
        push_issue(&mut errors, s);
    } else if n > MAX_CHOICE_VALUES_COUNT {
        let mut s = String::from_str("spec.decisions.");
        s.append(name.as_str());
        s.append(": choice values count ");
        s.append(usize_text(n).as_str());
        s.append(" exceeds maximum of ");
        s.append(usize_text(MAX_CHOICE_VALUES_COUNT).as_str());
        push_issue(&mut errors, s);
    }
    let ghost first = texts(errors@);
    let mut i: usize = 0;
    while i < n
        invariant
            n == values@.len(),
            vals == texts(values@),
            i <= n,
            texts(errors@) == first + choice_values_issues(name@, vals, i as nat),
        decreases n - i,
    {
        let ghost before = texts(errors@);
        if is_blank(values[i].as_str()) {
            let mut s = String::from_str("spec.decisions.");
            s.append(name.as_str());
            s.append(": choice value cannot be empty");
            push_issue(&mut errors, s);
        }
        let mut seen = false;
        let mut j: usize = 0;
        while j < i
            invariant
                i < n,
                n == values@.len(),
                vals == texts(values@),
                j <= i,
                seen == (exists|k: int| 0 <= k < j && vals[k] == vals[i as int]),
            decreases i - j,
        {
            if values[j] == values[i] {
                seen = true;
            }
            proof {
                if seen {
                    if values@[j as int]@ == values@[i as int]@ {
                        assert(vals[j as int] == vals[i as int]);
                    }
                } else {
                    assert forall|k: int| 0 <= k < j + 1 implies vals[k] != vals[i as int] by {
                        if k == j {
                            assert(vals[k] == values@[k]@);
                        }
                    }
                }
            }
            j = j + 1;
        }
        if seen {
            let mut s = String::from_str("spec.decisions.");
            s.append(name.as_str());
            s.append(": duplicate choice value '");
            s.append(values[i].as_str());
            s.append("'");
            push_issue(&mut errors, s);
        }
        proof {
            assert(vals[i as int] == values@[i as int]@);
            assert(texts(errors@) =~= before + choice_value_issues(name@, vals, i as int));
            assert(choice_values_issues(name@, vals, (i + 1) as nat)
                == choice_values_issues(name@, vals, i as nat) + choice_value_issues(name@, vals, i as int));
            assert(texts(errors@) =~= first + choice_values_issues(name@, vals, (i + 1) as nat));
        }
        i = i + 1;
    }
    assert(vals.len() == n);
    assert(texts(errors@) =~= decision_spec_issues(name@, DecisionModel::Choice { values: vals }));
    errors
}

fn score_problems(name: &String, min: i64, max: i64, levels: &Vec<String>) -> (errors: Vec<String>)
    ensures
        texts(errors@) == decision_spec_issues(name@, DecisionModel::Score { min, max, levels: texts(levels@) }),
{
    let mut errors: Vec<String> = Vec::new();
    if min >= max {
        let mut s = String::from_str("spec.decisions.");
        s.append(name.as_str());
        s.append(":\nscore minimum (");
        s.append(i64_text(min).as_str());
        s.append(") must be lower than maximum (");
        s.append(i64_text(max).as_str());
        s.append(")");
        push_issue(&mut errors, s);
    } else {
        let span: i128 = (max as i128) - (min as i128) + 1;
        if span > MAX_SCORE_LEVELS as i128 {
            let mut s = String::from_str("spec.decisions.");
            s.append(name.as_str());
            s.append(": score range spans ");
            s.append(u128_text(span as u128).as_str());
            s.append(" levels, exceeding the maximum of ");
            s.append(i64_text(MAX_SCORE_LEVELS).as_str());
            push_issue(&mut errors, s);
        } else if levels.len() != 0 && levels.len() as i128 != span {
            let mut s = String::from_str("spec.decisions.");
            s.append(name.as_str());
            s.append(": levels lists ");
            s.append(usize_text(levels.len()).as_str());
            s.append(" entries but the range ");
            s.append(i64_text(min).as_str());
            s.append(" to ");
            s.append(i64_text(max).as_str());
            s.append(" has ");
            s.append(u128_text(span as u128).as_str());
            s.append(" levels");
            push_issue(&mut errors, s);
        }
    }
    assert(texts(errors@) =~= decision_spec_issues(name@, DecisionModel::Score { min, max, levels: texts(levels@) }));
    errors
}

fn decision_problems(name: &String, d: &DecisionSpec) -> (errors: Vec<String>)
    ensures
        texts(errors@) == decision_issues(name@, d@),
{
    let mut errors: Vec<String> = Vec::new();
    if is_blank(name.as_str()) {
        push_issue(&mut errors, String::from_str("spec.decisions: decision name cannot be empty"));
        assert(texts(errors@) =~= decision_issues(name@, d@));
        return errors;
    }
    let chars = char_vec(name.as_str());
    let n = chars.len();
    let mut ok = true;
    let mut i: usize = 0;
    while i < n
        invariant
            chars@ == name@,
            n == chars@.len(),
            i <= n,
            ok == (forall|j: int| 0 <= j < i ==> is_decision_name_char(#[trigger] name@[j])),
        decreases n - i,
    {
        let c = chars[i];
        if !(('a' <= c && c <= 'z') || ('A' <= c && c <= 'Z') || ('0' <= c && c <= '9') || c == '_' || c == '-') {
            ok = false;
        }
        i = i + 1;
    }
    if !ok {
        let mut s = String::from_str("spec.decisions.");
        s.append(name.as_str());
        s.append(": decision name must contain only alphanumeric characters, '_', or '-'");
        push_issue(&mut errors, s);
    }
    let more = match d {
        DecisionSpec::Choice { values } => choice_problems(name, values),
        DecisionSpec::Score { min, max, levels } => score_problems(name, *min, *max, levels),
        DecisionSpec::Boolean => Vec::new(),
    };
    add_issues(&mut errors, more);
    assert(texts(errors@) =~= decision_issues(name@, d@));
    errors
}

fn decisions_problems(ds: &Vec<(String, DecisionSpec)>) -> (errors: Vec<String>)
    ensures
        texts(errors@) == decisions_issues(decisions_model(ds@)),
{
    let mut errors: Vec<String> = Vec::new();
    let n = ds.len();
    let mut i: usize = 0;
    while i < n
        invariant
            n == ds@.len(),
            i <= n,
            texts(errors@) == decisions_issues(decisions_model(ds@.take(i as int))),
        decreases n - i,
    {
        let more = decision_problems(&ds[i].0, &ds[i].1);
        add_issues(&mut errors, more);
        proof {
            assert(decisions_model(ds@.take(i + 1)).drop_last() =~= decisions_model(ds@.take(i as int)));
            assert(decisions_model(ds@.take(i + 1)).last() == (ds@[i as int].0@, ds@[i as int].1@));
        }
        i = i + 1;
    }
    assert(ds@.take(n as int) =~= ds@);
    errors
}

/// Validates a parsed pack manifest against all semantic and security rules. All
/// problems are reported together, one per line, in the order of `manifest_issues`.
pub fn validate_manifest(manifest: &PackManifest) -> (r: Result<(), JevOpsError>)
    ensures
        r is Ok <==> manifest_is_valid(*manifest),
        manifest_issues(*manifest).len() == 0 ==> r is Ok,
        manifest_issues(*manifest).len() > 0 ==> (r matches Err(JevOpsError::InvalidPack(m))
            && m@ == joined(manifest_issues(*manifest), "\n"@)),
        is_plain_version(manifest.metadata.version@) ==> semver_parse_error(manifest.metadata.version@) is None,
{
    let mut errors = header_problems(manifest);
    add_issues(&mut errors, decisions_problems(manifest.spec.decisions.entries()));
    assert(texts(errors@) =~= manifest_issues(*manifest));
    proof {
        lemma_manifest_valid_iff_no_issues(*manifest);
    }
    if errors.len() > 0 {
        return Err(JevOpsError::InvalidPack(crate::text::join_strings(&errors, "\n")));
    }
    Ok(())
}

} // verus!
