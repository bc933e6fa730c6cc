//! The offline provider: keyword heuristics that answer every decision of a pack.

use vstd::prelude::*;
use vstd::string::*;
use crate::inference::types::{
    hundredths, is_hundredths, is_offline_hundredths, InferenceRequest, InferenceResponse,
    ProviderDecision,
};
use crate::packs::manifest::DecisionSpec;
use crate::named::{in_name_order, lemma_names_distinct, names_of, NamedMap};
use crate::packs::discovery::text_lt;
use crate::text::{contains_text, has_substring, list_contains, texts};

verus! {

/// Which kinds of trouble the input mentions.
#[derive(Debug, Clone, Copy, PartialEq, Eq, Structural)]
pub struct Signals {
    pub ext4: bool,
    pub oom: bool,
    pub k8s_crashloop: bool,
    pub k8s_oom: bool,
    pub ssh_brute: bool,
    pub healthy: bool,
    pub aws: bool,
    pub azure: bool,
    pub gcp: bool,
}

/// The signals found in `t`, each by its marker phrases.
pub open spec fn signals_of(t: Seq<char>) -> Signals {
    Signals {
        ext4: has_substring(t, "EXT4-fs error"@) || has_substring(t, "ext4_lookup"@)
            || has_substring(t, "deleted inode referenced"@),
        oom: has_substring(t, "Out of memory"@) || has_substring(t, "Killed process"@)
            || has_substring(t, "oom-kill"@) || has_substring(t, "invoked oom-killer"@),
        k8s_crashloop: has_substring(t, "CrashLoopBackOff"@)
            || has_substring(t, "Back-off restarting failed container"@),
        k8s_oom: has_substring(t, "OOMKilled"@),
        ssh_brute: has_substring(t, "Failed password"@) || has_substring(t, "Invalid user"@)
            || (has_substring(t, "sshd"@) && has_substring(t, "authentication failure"@)),
        healthy: has_substring(t, "Active: active (running)"@) || has_substring(t, "Started Service"@)
            || has_substring(t, "All systems operational"@) || has_substring(t, "status: Running"@),
        aws: has_substring(t, "OutOfMemoryError"@) || has_substring(t, "ECS Agent"@)
            || has_substring(t, "ExitCode: 137"@) || has_substring(t, "/aws/ecs"@)
            || has_substring(t, "awslogs"@),
        azure: has_substring(t, "App Gateway"@) || has_substring(t, "Application Gateway"@)
            || has_substring(t, "502 Bad Gateway"@) || has_substring(t, "Health probe"@)
            || has_substring(t, "AKS"@) || has_substring(t, "Alert Rule"@),
        gcp: has_substring(t, "Cloud Run"@) || has_substring(t, "Memory limit of"@)
            || has_substring(t, "exceeded with"@) || has_substring(t, "cloud_run"@),
    }
}

/// Finds the signals in `text`.
pub fn detect_signals(text: &str) -> (s: Signals)
    ensures
        s == signals_of(text@),
{
    Signals {
        ext4: contains_text(text, "EXT4-fs error") || contains_text(text, "ext4_lookup")
            || contains_text(text, "deleted inode referenced"),
        oom: contains_text(text, "Out of memory") || contains_text(text, "Killed process")
            || contains_text(text, "oom-kill") || contains_text(text, "invoked oom-killer"),
        k8s_crashloop: contains_text(text, "CrashLoopBackOff")
            || contains_text(text, "Back-off restarting failed container"),
        k8s_oom: contains_text(text, "OOMKilled"),
        ssh_brute: contains_text(text, "Failed password") || contains_text(text, "Invalid user")
            || (contains_text(text, "sshd") && contains_text(text, "authentication failure")),
        healthy: contains_text(text, "Active: active (running)") || contains_text(text, "Started Service")
            || contains_text(text, "All systems operational") || contains_text(text, "status: Running"),
        aws: contains_text(text, "OutOfMemoryError") || contains_text(text, "ECS Agent")
            || contains_text(text, "ExitCode: 137") || contains_text(text, "/aws/ecs")
            || contains_text(text, "awslogs"),
        azure: contains_text(text, "App Gateway") || contains_text(text, "Application Gateway")
            || contains_text(text, "502 Bad Gateway") || contains_text(text, "Health probe")
            || contains_text(text, "AKS") || contains_text(text, "Alert Rule"),
        gcp: contains_text(text, "Cloud Run") || contains_text(text, "Memory limit of")
            || contains_text(text, "exceeded with") || contains_text(text, "cloud_run"),
    }
}

/// A preferred answer for choice decisions: when the decision is called `decision` and
/// offers `value`, pick it with confidence `hundredths / 100`.
pub struct ChoiceRule {
    pub decision: &'static str,
    pub value: &'static str,
    pub hundredths: u8,
}

/// A rule as plain values.
pub open spec fn rule_view(r: ChoiceRule) -> (Seq<char>, Seq<char>, nat) {
    (r.decision@, r.value@, r.hundredths as nat)
}

/// The choice rules of the first signal found, in the order ext4, OOM, crash loop,
/// Kubernetes OOM, SSH brute force, AWS, Azure, GCP, healthy; none without a signal.
pub open spec fn choice_rules(s: Signals) -> Seq<(Seq<char>, Seq<char>, nat)> {
    if s.ext4 {
        seq![("category"@, "filesystem"@, 98nat), ("health"@, "unhealthy"@, 96nat)]
    } else if s.oom {
        seq![("category"@, "memory"@, 97nat), ("health"@, "unhealthy"@, 96nat),
            ("root_cause"@, "memory"@, 97nat), ("root_cause"@, "resources"@, 97nat)]
    } else if s.k8s_crashloop {
        seq![("root_cause"@, "crashloop"@, 96nat), ("health"@, "unhealthy"@, 95nat)]
    } else if s.k8s_oom {
        seq![("root_cause"@, "resources"@, 98nat), ("root_cause"@, "oom"@, 98nat),
            ("health"@, "unhealthy"@, 97nat)]
    } else if s.ssh_brute {
        seq![("category"@, "security"@, 95nat), ("health"@, "degraded"@, 89nat)]
    } else if s.aws {
        seq![("health"@, "unhealthy"@, 96nat), ("service"@, "ecs"@, 98nat),
            ("root_cause"@, "oom_killed"@, 97nat), ("recommended_action"@, "ssm_restart"@, 94nat)]
    } else if s.azure {
        seq![("health"@, "degraded"@, 91nat), ("resource_type"@, "app_gateway"@, 95nat),
            ("root_cause"@, "probe_failure"@, 93nat), ("recommended_action"@, "auto_heal"@, 89nat)]
    } else if s.gcp {
        seq![("health"@, "unhealthy"@, 96nat), ("service"@, "cloud_run"@, 97nat),
            ("root_cause"@, "container_exited_137"@, 96nat),
            ("recommended_action"@, "restart_revision"@, 92nat)]
    } else if s.healthy {
        seq![("health"@, "healthy"@, 98nat), ("category"@, "normal"@, 95nat)]
    } else {
        Seq::empty()
    }
}

fn rules_for(s: Signals) -> (r: Vec<ChoiceRule>)
    ensures
        r@.map_values(|x: ChoiceRule| rule_view(x)) == choice_rules(s),
{
    let mut r: Vec<ChoiceRule> = Vec::new();
    if s.ext4 {
        r.push(ChoiceRule { decision: "category", value: "filesystem", hundredths: 98 });
        r.push(ChoiceRule { decision: "health", value: "unhealthy", hundredths: 96 });
    } else if s.oom {
        r.push(ChoiceRule { decision: "category", value: "memory", hundredths: 97 });
        r.push(ChoiceRule { decision: "health", value: "unhealthy", hundredths: 96 });
        r.push(ChoiceRule { decision: "root_cause", value: "memory", hundredths: 97 });
        r.push(ChoiceRule { decision: "root_cause", value: "resources", hundredths: 97 });
    } else if s.k8s_crashloop {
        r.push(ChoiceRule { decision: "root_cause", value: "crashloop", hundredths: 96 });
        r.push(ChoiceRule { decision: "health", value: "unhealthy", hundredths: 95 });
    } else if s.k8s_oom {
        r.push(ChoiceRule { decision: "root_cause", value: "resources", hundredths: 98 });
        r.push(ChoiceRule { decision: "root_cause", value: "oom", hundredths: 98 });
        r.push(ChoiceRule { decision: "health", value: "unhealthy", hundredths: 97 });
    } else if s.ssh_brute {
        r.push(ChoiceRule { decision: "category", value: "security", hundredths: 95 });
        r.push(ChoiceRule { decision: "health", value: "degraded", hundredths: 89 });
    } else if s.aws {
        r.push(ChoiceRule { decision: "health", value: "unhealthy", hundredths: 96 });
        r.push(ChoiceRule { decision: "service", value: "ecs", hundredths: 98 });
        r.push(ChoiceRule { decision: "root_cause", value: "oom_killed", hundredths: 97 });
        r.push(ChoiceRule { decision: "recommended_action", value: "ssm_restart", hundredths: 94 });
    } else if s.azure {
        r.push(ChoiceRule { decision: "health", value: "degraded", hundredths: 91 });
        r.push(ChoiceRule { decision: "resource_type", value: "app_gateway", hundredths: 95 });
        r.push(ChoiceRule { decision: "root_cause", value: "probe_failure", hundredths: 93 });
        r.push(ChoiceRule { decision: "recommended_action", value: "auto_heal", hundredths: 89 });
    } else if s.gcp {
        r.push(ChoiceRule { decision: "health", value: "unhealthy", hundredths: 96 });
        r.push(ChoiceRule { decision: "service", value: "cloud_run", hundredths: 97 });
        r.push(ChoiceRule { decision: "root_cause", value: "container_exited_137", hundredths: 96 });
        r.push(ChoiceRule { decision: "recommended_action", value: "restart_revision", hundredths: 92 });
    } else if s.healthy {
        r.push(ChoiceRule { decision: "health", value: "healthy", hundredths: 98 });
        r.push(ChoiceRule { decision: "category", value: "normal", hundredths: 95 });
    }
    assert(r@.map_values(|x: ChoiceRule| rule_view(x)) =~= choice_rules(s));
    r
}

/// The first rule for decision `name` whose value the decision offers.
pub open spec fn first_rule_match(
    rules: Seq<(Seq<char>, Seq<char>, nat)>,
    name: Seq<char>,
    values: Seq<Seq<char>>,
) -> Option<(Seq<char>, nat)>
    decreases rules.len(),
{
    if rules.len() == 0 {
        None
    } else if rules[0].0 == name && values.contains(rules[0].1) {
        Some((rules[0].1, rules[0].2))
    } else {
        first_rule_match(rules.drop_first(), name, values)
    }
}

/// The answer when no rule applies: "unknown" if offered, else the first value, with
/// confidence 0.70.
pub open spec fn fallback_choice(values: Seq<Seq<char>>) -> (Seq<char>, nat) {
    if values.contains("unknown"@) {
        ("unknown"@, 70nat)
    } else if values.len() > 0 {
        (values[0], 70nat)
    } else {
        ("unknown"@, 70nat)
    }
}

/// The offline answer to a choice decision, with its confidence in hundredths.
pub open spec fn mock_choice(s: Signals, name: Seq<char>, values: Seq<Seq<char>>) -> (Seq<char>, nat) {
    match first_rule_match(choice_rules(s), name, values) {
        Some(x) => x,
        None => fallback_choice(values),
    }
}

/// `level` moved into `min..=max` as `level.max(min).min(max)` does.
pub open spec fn clamp_level(level: i64, min: i64, max: i64) -> i64 {
    let a = if level >= min { level } else { min };
    if a <= max { a } else { max }
}

/// The offline answer to a score decision on `min..=max`, with its confidence in hundredths.
pub open spec fn mock_score(s: Signals, min: i64, max: i64) -> (i64, nat) {
    if s.ext4 {
        (max, 91nat)
    } else if s.oom || s.k8s_oom || s.aws || s.gcp {
        (clamp_level(4, min, max), 94nat)
    } else if s.k8s_crashloop || s.azure {
        (clamp_level(4, min, max), 92nat)
    } else if s.ssh_brute {
        (clamp_level(3, min, max), 88nat)
    } else if s.healthy {
        (min, 95nat)
    } else {
        (min, 75nat)
    }
}

/// The offline answer to a yes/no decision, with its confidence in hundredths.
pub open spec fn mock_flag(s: Signals) -> (bool, nat) {
    if s.ext4 {
        (true, 99nat)
    } else if s.oom || s.k8s_oom || s.k8s_crashloop || s.aws || s.azure || s.gcp {
        (true, 98nat)
    } else if s.ssh_brute {
        (true, 92nat)
    } else if s.healthy {
        (false, 99nat)
    } else {
        (false, 80nat)
    }
}

/// `d` is the offline answer to decision `name` asking `spec`, for signals `s`.
pub open spec fn is_mock_answer(s: Signals, name: Seq<char>, spec: DecisionSpec, d: ProviderDecision) -> bool {
    match spec {
        DecisionSpec::Choice { values } => match d {
            ProviderDecision::Choice { value, confidence, probabilities } => {
                &&& value@ == mock_choice(s, name, texts(values@)).0
                &&& is_hundredths(confidence, mock_choice(s, name, texts(values@)).1)
                &&& probabilities is None
            },
            _ => false,
        },
        DecisionSpec::Score { min, max, .. } => match d {
            ProviderDecision::Score { value, confidence, probabilities } => {
                &&& value == mock_score(s, min, max).0
                &&& is_hundredths(confidence, mock_score(s, min, max).1)
                &&& probabilities is None
            },
            _ => false,
        },
        DecisionSpec::Boolean => match d {
            ProviderDecision::Boolean { value, confidence } => {
                &&& value == mock_flag(s).0
                &&& is_hundredths(confidence, mock_flag(s).1)
            },
            _ => false,
        },
    }
}

proof fn lemma_rules_offline(s: Signals, i: int)
    requires
        0 <= i < choice_rules(s).len(),
    ensures
        is_offline_hundredths(choice_rules(s)[i].2),
{
}

fn select_choice(s: Signals, name: &String, values: &Vec<String>) -> (r: (String, u8))
    ensures
        r.0@ == mock_choice(s, name@, texts(values@)).0,
        r.1 as nat == mock_choice(s, name@, texts(values@)).1,
        is_offline_hundredths(r.1 as nat),
{
    let rules = rules_for(s);
    let ghost rv = rules@.map_values(|x: ChoiceRule| rule_view(x));
    let n = rules.len();
    let mut i: usize = 0;
    assert(rv.skip(0) =~= rv);
    while i < n
        invariant
            n == rules@.len(),
            rv == rules@.map_values(|x: ChoiceRule| rule_view(x)),
            rv == choice_rules(s),
            i <= n,
            first_rule_match(rv, name@, texts(values@)) == first_rule_match(rv.skip(i as int), name@, texts(values@)),
        decreases n - i,
    {
        let rule = &rules[i];
        assert(rv.skip(i as int)[0] == rule_view(*rule));
        assert(rv.skip(i as int).drop_first() =~= rv.skip(i + 1));
        if String::from_str(rule.decision) == *name && list_contains(values, rule.value) {
            proof { lemma_rules_offline(s, i as int); }
            return (String::from_str(rule.value), rule.hundredths);
        }
        i = i + 1;
    }
    assert(rv.skip(n as int).len() == 0);
    if list_contains(values, "unknown") {
        (String::from_str("unknown"), 70)
    } else if values.len() > 0 {
        (values[0].clone(), 70)
    } else {
        (String::from_str("unknown"), 70)
    }
}

fn clamp(level: i64, min: i64, max: i64) -> (r: i64)
    ensures
        r == clamp_level(level, min, max),
{
    let a = if level >= min { level } else { min };
    if a <= max { a } else { max }
}

fn score_answer(s: Signals, min: i64, max: i64) -> (r: (i64, u8))
    ensures
        r.0 == mock_score(s, min, max).0,
        r.1 as nat == mock_score(s, min, max).1,
        is_offline_hundredths(r.1 as nat),
{
    if s.ext4 {
        (max, 91)
    } else if s.oom || s.k8s_oom || s.aws || s.gcp {
        (clamp(4, min, max), 94)
    } else if s.k8s_crashloop || s.azure {
        (clamp(4, min, max), 92)
    } else if s.ssh_brute {
        (clamp(3, min, max), 88)
    } else if s.healthy {
        (min, 95)
    } else {
        (min, 75)
    }
}

fn flag_answer(s: Signals) -> (r: (bool, u8))
    ensures
        r.0 == mock_flag(s).0,
        r.1 as nat == mock_flag(s).1,
        is_offline_hundredths(r.1 as nat),
{
    if s.ext4 {
        (true, 99)
    } else if s.oom || s.k8s_oom || s.k8s_crashloop || s.aws || s.azure || s.gcp {
        (true, 98)
    } else if s.ssh_brute {
        (true, 92)
    } else if s.healthy {
        (false, 99)
    } else {
        (false, 80)
    }
}

/// The offline answer to one decision.
pub fn mock_answer(s: Signals, name: &String, spec: &DecisionSpec) -> (d: ProviderDecision)
    ensures
        is_mock_answer(s, name@, *spec, d),
{
    match spec {
        DecisionSpec::Choice { values } => {
            let (value, p) = select_choice(s, name, values);
            ProviderDecision::Choice { value, confidence: hundredths(p), probabilities: None }
        },
        DecisionSpec::Score { min, max, .. } => {
            let (value, p) = score_answer(s, *min, *max);
            ProviderDecision::Score { value, confidence: hundredths(p), probabilities: None }
        },
        DecisionSpec::Boolean => {
            let (value, p) = flag_answer(s);
            ProviderDecision::Boolean { value, confidence: hundredths(p) }
        },
    }
}

/// The offline provider. It never calls a model: it answers from keyword heuristics and is
/// meant for demos and tests, never for automation.
pub struct MockInferenceProvider;

/// `resp` answers `req` as the offline provider does: provider "mock", and for each
/// decision of the request, in order, the same name and the offline answer for the
/// signals of the input text.
pub open spec fn is_mock_response(req: InferenceRequest, resp: InferenceResponse) -> bool {
    &&& resp.provider@ == "mock"@
    &&& resp.decisions@.len() == req.decisions@.len()
    &&& forall|i: int| 0 <= i < req.decisions@.len() ==> {
        &&& (#[trigger] resp.decisions@[i]).0@ == req.decisions@[i].0@
        &&& is_mock_answer(signals_of(req.input_text@), req.decisions@[i].0@, req.decisions@[i].1, resp.decisions@[i].1)
    }
}

impl MockInferenceProvider {
    /// The offline provider.
    pub fn new() -> (r: Self)
        ensures
            r == MockInferenceProvider,
    {
        MockInferenceProvider
    }

    /// The provider's name, "mock".
    pub fn name(&self) -> (s: &'static str)
        ensures
            s@ == "mock"@,
    {
        "mock"
    }

    /// Answers every decision of the request from keyword heuristics on the input text.
    /// Never fails. When every choice of the request offers a value and every score has
    /// `min <= max`, the answers fit the request's schema.
    pub fn infer(&self, request: &InferenceRequest) -> (r: Result<InferenceResponse, crate::error::JevOpsError>)
        ensures
            r matches Ok(resp) && is_mock_response(*request, resp),
            mock_can_answer(request.decisions@) ==> (r matches Ok(resp)
                && crate::engine::pipeline::response_conforms(request.decisions@, resp.decisions@)),
    {
        let s = detect_signals(request.input_text.as_str());
        let ds = request.decisions.entries();
        let mut decisions: NamedMap<ProviderDecision> = NamedMap::new();
        let n = ds.len();
        let mut i: usize = 0;
        while i < n
            invariant
                n == ds@.len(),
                ds@ == request.decisions@,
                in_name_order(ds@),
                s == signals_of(request.input_text@),
                i <= n,
                decisions@.len() == i,
                forall|j: int| 0 <= j < i ==> {
                    &&& (#[trigger] decisions@[j]).0@ == request.decisions@[j].0@
                    &&& is_mock_answer(s, request.decisions@[j].0@, request.decisions@[j].1, decisions@[j].1)
                },
            decreases n - i,
        {
            let entry = &ds[i];
            let d = mock_answer(s, &entry.0, &entry.1);
            let ghost before = decisions@;
            proof {
                assert forall|k: int| 0 <= k < before.len() implies text_lt(#[trigger] names_of(before)[k], entry.0@) by {
                    assert(names_of(before)[k] == before[k].0@);
                    assert(names_of(ds@)[k] == ds@[k].0@);
                    assert(names_of(ds@)[i as int] == ds@[i as int].0@);
                }
            }
            decisions.push_last(entry.0.clone(), d);
            proof {
                assert forall|j: int| 0 <= j < i + 1 implies {
                    &&& (#[trigger] decisions@[j]).0@ == request.decisions@[j].0@
                    &&& is_mock_answer(s, request.decisions@[j].0@, request.decisions@[j].1, decisions@[j].1)
                } by {
                    if j < i {
                        assert(decisions@[j] == before[j]);
                    }
                }
            }
            i = i + 1;
        }
        let resp = InferenceResponse { provider: String::from_str(self.name()), decisions };
        proof {
            if mock_can_answer(request.decisions@) {
                assert forall|a: int, b: int| 0 <= a < b < ds@.len() implies ds@[a].0@ != ds@[b].0@ by {
                    lemma_names_distinct(ds@, a, b);
                }
                lemma_mock_answers_conform(request.decisions@, s, resp.decisions@);
            }
        }
        Ok(resp)
    }
}

impl Default for MockInferenceProvider {
    fn default() -> (r: Self)
        ensures
            r == MockInferenceProvider,
    {
        MockInferenceProvider::new()
    }
}

proof fn lemma_first_rule_offers(rules: Seq<(Seq<char>, Seq<char>, nat)>, name: Seq<char>, values: Seq<Seq<char>>)
    ensures
        first_rule_match(rules, name, values) matches Some(x) ==> values.contains(x.0),
    decreases rules.len(),
{
    if rules.len() > 0 {
        lemma_first_rule_offers(rules.drop_first(), name, values);
    }
}

proof fn lemma_names_first<T, U>(req: Seq<(String, T)>, resp: Seq<(String, U)>, i: int)
    requires
        req.len() == resp.len(),
        0 <= i < req.len(),
        forall|j: int| 0 <= j < req.len() ==> (#[trigger] resp[j]).0@ == req[j].0@,
        forall|a: int, b: int| 0 <= a < b < req.len() ==> req[a].0@ != req[b].0@,
    ensures
        crate::engine::pipeline::first_named(resp, req[i].0@) == Some(i),
    decreases resp.len(),
{
    if i < resp.len() - 1 {
        lemma_names_first(req.drop_last(), resp.drop_last(), i);
        assert(req.drop_last()[i] == req[i]);
    } else {
        let name = req[i].0@;
        assert forall|j: int| 0 <= j < resp.drop_last().len() implies #[trigger] resp.drop_last()[j].0@ != name by {
            assert(resp.drop_last()[j] == resp[j]);
        }
        lemma_not_named(resp.drop_last(), name);
    }
}

proof fn lemma_not_named<U>(entries: Seq<(String, U)>, name: Seq<char>)
    requires
        forall|j: int| 0 <= j < entries.len() ==> #[trigger] entries[j].0@ != name,
    ensures
        crate::engine::pipeline::first_named(entries, name) is None,
    decreases entries.len(),
{
    if entries.len() > 0 {
        assert forall|j: int| 0 <= j < entries.drop_last().len() implies #[trigger] entries.drop_last()[j].0@ != name by {
            assert(entries.drop_last()[j] == entries[j]);
        }
        lemma_not_named(entries.drop_last(), name);
    }
}

/// Every choice offers at least one value and every score has `min <= max`: the
/// decisions that the offline provider can answer within the schema.
pub open spec fn mock_can_answer(ds: Seq<(String, DecisionSpec)>) -> bool {
    forall|i: int| 0 <= i < ds.len() ==> match (#[trigger] ds[i]).1 {
        DecisionSpec::Choice { values } => values@.len() > 0,
        DecisionSpec::Score { min, max, .. } => min <= max,
        DecisionSpec::Boolean => true,
    }
}

/// The offline answers fit any decision list whose names are distinct, whose choices offer
/// at least one value, and whose scores have `min <= max`.
pub(crate) proof fn lemma_mock_answers_conform(
    ex: Seq<(String, DecisionSpec)>,
    s: Signals,
    ac: Seq<(String, ProviderDecision)>,
)
    requires
        ac.len() == ex.len(),
        forall|i: int| 0 <= i < ex.len() ==> {
            &&& (#[trigger] ac[i]).0@ == ex[i].0@
            &&& is_mock_answer(s, ex[i].0@, ex[i].1, ac[i].1)
        },
        forall|a: int, b: int| 0 <= a < b < ex.len() ==> ex[a].0@ != ex[b].0@,
        mock_can_answer(ex),
    ensures
        crate::engine::pipeline::response_conforms(ex, ac),
{
    assert forall|i: int| 0 <= i < ex.len() implies match #[trigger] crate::engine::pipeline::first_named(ac, ex[i].0@) {
        Some(k) => crate::engine::pipeline::answer_fits(ex[i].1, ac[k].1),
        None => false,
    } by {
        assert(ac[i].0@ == ex[i].0@);
        lemma_names_first(ex, ac, i);
        let name = ex[i].0@;
        match ex[i].1 {
            DecisionSpec::Choice { values } => {
                lemma_first_rule_offers(choice_rules(s), name, texts(values@));
                assert(texts(values@).len() > 0);
                if !texts(values@).contains("unknown"@) {
                    assert(texts(values@).contains(texts(values@)[0]));
                }
            },
            _ => {},
        }
    }
    assert forall|k: int| 0 <= k < ac.len() implies crate::engine::pipeline::has_named(ex, #[trigger] ac[k].0@) by {
        assert(ex[k].0@ == ac[k].0@);
    }
}

/// The offline provider answers within the schema of any request whose choices offer at
/// least one value and whose scores have `min <= max`: `validate_provider_response`
/// accepts what it returns. A request's decisions, like every decision map, hold each name
/// once in name order.
pub proof fn lemma_mock_response_conforms(req: InferenceRequest, resp: InferenceResponse)
    requires
        in_name_order(req.decisions@),
        is_mock_response(req, resp),
        mock_can_answer(req.decisions@),
    ensures
        crate::engine::pipeline::response_conforms(req.decisions@, resp.decisions@),
{
    assert forall|a: int, b: int| 0 <= a < b < req.decisions@.len() implies req.decisions@[a].0@ != req.decisions@[b].0@ by {
        lemma_names_distinct(req.decisions@, a, b);
    }
    lemma_mock_answers_conform(req.decisions@, signals_of(req.input_text@), resp.decisions@);
}

/// `d` is a choice answer of `value` with confidence `h / 100`.
pub open spec fn chose(d: ProviderDecision, value: Seq<char>, h: nat) -> bool {
    d matches ProviderDecision::Choice { value: v, confidence, .. } && v@ == value && is_hundredths(confidence, h)
}

/// The values a decision offers: those of a choice, none otherwise.
pub open spec fn offered(spec: DecisionSpec) -> Seq<Seq<char>> {
    match spec {
        DecisionSpec::Choice { values } => texts(values@),
        _ => Seq::empty(),
    }
}

/// The `i`-th answer of an offline response to a choice decision is the offline choice.
proof fn lemma_choice_answer(req: InferenceRequest, resp: InferenceResponse, i: int)
    requires
        is_mock_response(req, resp),
        0 <= i < req.decisions@.len(),
        req.decisions@[i].1 is Choice,
    ensures
        chose(
            resp.decisions@[i].1,
            mock_choice(signals_of(req.input_text@), req.decisions@[i].0@, offered(req.decisions@[i].1)).0,
            mock_choice(signals_of(req.input_text@), req.decisions@[i].0@, offered(req.decisions@[i].1)).1,
        ),
{
    assert(is_mock_answer(signals_of(req.input_text@), req.decisions@[i].0@, req.decisions@[i].1, resp.decisions@[i].1));
}

/// The first rule that names decision `name` with a value the decision offers is the `k`-th
/// when the `k`-th does and none before it does.
proof fn lemma_rule_at(rules: Seq<(Seq<char>, Seq<char>, nat)>, name: Seq<char>, values: Seq<Seq<char>>, k: int)
    requires
        0 <= k < rules.len(),
        rules[k].0 == name,
        values.contains(rules[k].1),
        forall|j: int| 0 <= j < k ==> !(rules[j].0 == name && values.contains(rules[j].1)),
    ensures
        first_rule_match(rules, name, values) == Some((rules[k].1, rules[k].2)),
    decreases k,
{
    if k > 0 {
        assert forall|j: int| 0 <= j < k - 1 implies !(rules.drop_first()[j].0 == name
            && values.contains(rules.drop_first()[j].1)) by {
            assert(rules.drop_first()[j] == rules[j + 1]);
        }
        lemma_rule_at(rules.drop_first(), name, values, k - 1);
    }
}

/// The decision names the rules use are different texts.
proof fn lemma_rule_names_differ()
    ensures
        "health"@.len() == 6,
        "service"@.len() == 7,
        "category"@.len() == 8,
        "root_cause"@.len() == 10,
        "resource_type"@.len() == 13,
        "recommended_action"@.len() == 18,
{
    reveal_strlit("health");
    reveal_strlit("service");
    reveal_strlit("category");
    reveal_strlit("root_cause");
    reveal_strlit("resource_type");
    reveal_strlit("recommended_action");
}

/// With ext4 file-system errors as the first signal found, the offline answers name what
/// was found: category `filesystem` (0.98) and health `unhealthy` (0.96), each when the
/// decision offers that value.
pub proof fn lemma_mock_ext4_answers(req: InferenceRequest, resp: InferenceResponse, i: int)
    requires
        is_mock_response(req, resp),
        0 <= i < req.decisions@.len(),
        req.decisions@[i].1 is Choice,
        signals_of(req.input_text@).ext4,
    ensures
        req.decisions@[i].0@ == "category"@ && offered(req.decisions@[i].1).contains("filesystem"@)
            ==> chose(resp.decisions@[i].1, "filesystem"@, 98),
        req.decisions@[i].0@ == "health"@ && offered(req.decisions@[i].1).contains("unhealthy"@)
            ==> chose(resp.decisions@[i].1, "unhealthy"@, 96),
{
    lemma_choice_answer(req, resp, i);
    lemma_rule_names_differ();
    let n = req.decisions@[i].0@;
    let vs = offered(req.decisions@[i].1);
    let r = choice_rules(signals_of(req.input_text@));
    if n == "category"@ && vs.contains("filesystem"@) {
        lemma_rule_at(r, n, vs, 0);
    }
    if n == "health"@ && vs.contains("unhealthy"@) {
        lemma_rule_at(r, n, vs, 1);
    }
}

/// With out-of-memory kills as the first signal found (no ext4 markers), the offline
/// answers name what was found: category `memory` (0.97), health `unhealthy` (0.96), root
/// cause `memory` (0.97) and root cause `resources` (0.97), each when the decision offers
/// that value (and, for a second rule of the same decision, does not offer the first).
pub proof fn lemma_mock_oom_answers(req: InferenceRequest, resp: InferenceResponse, i: int)
    requires
        is_mock_response(req, resp),
        0 <= i < req.decisions@.len(),
        req.decisions@[i].1 is Choice,
        !signals_of(req.input_text@).ext4,
        signals_of(req.input_text@).oom,
    ensures
        req.decisions@[i].0@ == "category"@ && offered(req.decisions@[i].1).contains("memory"@)
            ==> chose(resp.decisions@[i].1, "memory"@, 97),
        req.decisions@[i].0@ == "health"@ && offered(req.decisions@[i].1).contains("unhealthy"@)
            ==> chose(resp.decisions@[i].1, "unhealthy"@, 96),
        req.decisions@[i].0@ == "root_cause"@ && offered(req.decisions@[i].1).contains("memory"@)
            ==> chose(resp.decisions@[i].1, "memory"@, 97),
        req.decisions@[i].0@ == "root_cause"@ && offered(req.decisions@[i].1).contains("resources"@) && !offered(req.decisions@[i].1).contains("memory"@)
            ==> chose(resp.decisions@[i].1, "resources"@, 97),
{
    lemma_choice_answer(req, resp, i);
    lemma_rule_names_differ();
    let n = req.decisions@[i].0@;
    let vs = offered(req.decisions@[i].1);
    let r = choice_rules(signals_of(req.input_text@));
    if n == "category"@ && vs.contains("memory"@) {
        lemma_rule_at(r, n, vs, 0);
    }
    if n == "health"@ && vs.contains("unhealthy"@) {
        lemma_rule_at(r, n, vs, 1);
    }
    if n == "root_cause"@ && vs.contains("memory"@) {
        lemma_rule_at(r, n, vs, 2);
    }
    if n == "root_cause"@ && vs.contains("resources"@) && !vs.contains("memory"@) {
        lemma_rule_at(r, n, vs, 3);
    }
}

/// With a Kubernetes crash loop as the first signal found (no ext4 or OOM markers), the
/// offline answers name what was found: root cause `crashloop` (0.96) and health
/// `unhealthy` (0.95), each when the decision offers that value.
pub proof fn lemma_mock_crashloop_answers(req: InferenceRequest, resp: InferenceResponse, i: int)
    requires
        is_mock_response(req, resp),
        0 <= i < req.decisions@.len(),
        req.decisions@[i].1 is Choice,
        !signals_of(req.input_text@).ext4,
        !signals_of(req.input_text@).oom,
        signals_of(req.input_text@).k8s_crashloop,
    ensures
        req.decisions@[i].0@ == "root_cause"@ && offered(req.decisions@[i].1).contains("crashloop"@)
            ==> chose(resp.decisions@[i].1, "crashloop"@, 96),
        req.decisions@[i].0@ == "health"@ && offered(req.decisions@[i].1).contains("unhealthy"@)
            ==> chose(resp.decisions@[i].1, "unhealthy"@, 95),
{
    lemma_choice_answer(req, resp, i);
    lemma_rule_names_differ();
    let n = req.decisions@[i].0@;
    let vs = offered(req.decisions@[i].1);
    let r = choice_rules(signals_of(req.input_text@));
    if n == "root_cause"@ && vs.contains("crashloop"@) {
        lemma_rule_at(r, n, vs, 0);
    }
    if n == "health"@ && vs.contains("unhealthy"@) {
        lemma_rule_at(r, n, vs, 1);
    }
}

/// With a Kubernetes OOM kill as the first signal found (no ext4, OOM or crash-loop
/// markers), the offline answers name what was found: root cause `resources` (0.98), root
/// cause `oom` (0.98) and health `unhealthy` (0.97), each when the decision offers that
/// value (and, for a second rule of the same decision, does not offer the first).
pub proof fn lemma_mock_k8s_oom_answers(req: InferenceRequest, resp: InferenceResponse, i: int)
    requires
        is_mock_response(req, resp),
        0 <= i < req.decisions@.len(),
        req.decisions@[i].1 is Choice,
        !signals_of(req.input_text@).ext4,
        !signals_of(req.input_text@).oom,
        !signals_of(req.input_text@).k8s_crashloop,
        signals_of(req.input_text@).k8s_oom,
    ensures
        req.decisions@[i].0@ == "root_cause"@ && offered(req.decisions@[i].1).contains("resources"@)
            ==> chose(resp.decisions@[i].1, "resources"@, 98),
        req.decisions@[i].0@ == "root_cause"@ && offered(req.decisions@[i].1).contains("oom"@) && !offered(req.decisions@[i].1).contains("resources"@)
            ==> chose(resp.decisions@[i].1, "oom"@, 98),
        req.decisions@[i].0@ == "health"@ && offered(req.decisions@[i].1).contains("unhealthy"@)
            ==> chose(resp.decisions@[i].1, "unhealthy"@, 97),
{
    lemma_choice_answer(req, resp, i);
    lemma_rule_names_differ();
    let n = req.decisions@[i].0@;
    let vs = offered(req.decisions@[i].1);
    let r = choice_rules(signals_of(req.input_text@));
    if n == "root_cause"@ && vs.contains("resources"@) {
        lemma_rule_at(r, n, vs, 0);
    }
    if n == "root_cause"@ && vs.contains("oom"@) && !vs.contains("resources"@) {
        lemma_rule_at(r, n, vs, 1);
    }
    if n == "health"@ && vs.contains("unhealthy"@) {
        lemma_rule_at(r, n, vs, 2);
    }
}

/// With SSH brute force as the first signal found (no ext4, OOM, crash-loop or Kubernetes
/// OOM markers), the offline answers name what was found: category `security` (0.95) and
/// health `degraded` (0.89), each when the decision offers that value.
pub proof fn lemma_mock_ssh_answers(req: InferenceRequest, resp: InferenceResponse, i: int)
    requires
        is_mock_response(req, resp),
        0 <= i < req.decisions@.len(),
        req.decisions@[i].1 is Choice,
        !signals_of(req.input_text@).ext4,
        !signals_of(req.input_text@).oom,
        !signals_of(req.input_text@).k8s_crashloop,
        !signals_of(req.input_text@).k8s_oom,
        signals_of(req.input_text@).ssh_brute,
    ensures
        req.decisions@[i].0@ == "category"@ && offered(req.decisions@[i].1).contains("security"@)
            ==> chose(resp.decisions@[i].1, "security"@, 95),
        req.decisions@[i].0@ == "health"@ && offered(req.decisions@[i].1).contains("degraded"@)
            ==> chose(resp.decisions@[i].1, "degraded"@, 89),
{
    lemma_choice_answer(req, resp, i);
    lemma_rule_names_differ();
    let n = req.decisions@[i].0@;
    let vs = offered(req.decisions@[i].1);
    let r = choice_rules(signals_of(req.input_text@));
    if n == "category"@ && vs.contains("security"@) {
        lemma_rule_at(r, n, vs, 0);
    }
    if n == "health"@ && vs.contains("degraded"@) {
        lemma_rule_at(r, n, vs, 1);
    }
}

/// With AWS ECS markers as the first signal found (no ext4, OOM, crash-loop, Kubernetes OOM
/// or SSH brute-force markers), the offline answers name what was found: health `unhealthy`
/// (0.96), service `ecs` (0.98), root cause `oom_killed` (0.97) and recommended action
/// `ssm_restart` (0.94), each when the decision offers that value.
pub proof fn lemma_mock_aws_answers(req: InferenceRequest, resp: InferenceResponse, i: int)
    requires
        is_mock_response(req, resp),
        0 <= i < req.decisions@.len(),
        req.decisions@[i].1 is Choice,
        !signals_of(req.input_text@).ext4,
        !signals_of(req.input_text@).oom,
        !signals_of(req.input_text@).k8s_crashloop,
        !signals_of(req.input_text@).k8s_oom,
        !signals_of(req.input_text@).ssh_brute,
        signals_of(req.input_text@).aws,
    ensures
        req.decisions@[i].0@ == "health"@ && offered(req.decisions@[i].1).contains("unhealthy"@)
            ==> chose(resp.decisions@[i].1, "unhealthy"@, 96),
        req.decisions@[i].0@ == "service"@ && offered(req.decisions@[i].1).contains("ecs"@)
            ==> chose(resp.decisions@[i].1, "ecs"@, 98),
        req.decisions@[i].0@ == "root_cause"@ && offered(req.decisions@[i].1).contains("oom_killed"@)
            ==> chose(resp.decisions@[i].1, "oom_killed"@, 97),
        req.decisions@[i].0@ == "recommended_action"@ && offered(req.decisions@[i].1).contains("ssm_restart"@)
            ==> chose(resp.decisions@[i].1, "ssm_restart"@, 94),
{
    lemma_choice_answer(req, resp, i);
    lemma_rule_names_differ();
    let n = req.decisions@[i].0@;
    let vs = offered(req.decisions@[i].1);
    let r = choice_rules(signals_of(req.input_text@));
    if n == "health"@ && vs.contains("unhealthy"@) {
        lemma_rule_at(r, n, vs, 0);
    }
    if n == "service"@ && vs.contains("ecs"@) {
        lemma_rule_at(r, n, vs, 1);
    }
    if n == "root_cause"@ && vs.contains("oom_killed"@) {
        lemma_rule_at(r, n, vs, 2);
    }
    if n == "recommended_action"@ && vs.contains("ssm_restart"@) {
        lemma_rule_at(r, n, vs, 3);
    }
}

/// With Azure gateway markers as the first signal found (none of the markers above, and no
/// AWS ones), the offline answers name what was found: health `degraded` (0.91), resource
/// type `app_gateway` (0.95), root cause `probe_failure` (0.93) and recommended action
/// `auto_heal` (0.89), each when the decision offers that value.
pub proof fn lemma_mock_azure_answers(req: InferenceRequest, resp: InferenceResponse, i: int)
    requires
        is_mock_response(req, resp),
        0 <= i < req.decisions@.len(),
        req.decisions@[i].1 is Choice,
        !signals_of(req.input_text@).ext4,
        !signals_of(req.input_text@).oom,
        !signals_of(req.input_text@).k8s_crashloop,
        !signals_of(req.input_text@).k8s_oom,
        !signals_of(req.input_text@).ssh_brute,
        !signals_of(req.input_text@).aws,
        signals_of(req.input_text@).azure,
    ensures
        req.decisions@[i].0@ == "health"@ && offered(req.decisions@[i].1).contains("degraded"@)
            ==> chose(resp.decisions@[i].1, "degraded"@, 91),
        req.decisions@[i].0@ == "resource_type"@ && offered(req.decisions@[i].1).contains("app_gateway"@)
            ==> chose(resp.decisions@[i].1, "app_gateway"@, 95),
        req.decisions@[i].0@ == "root_cause"@ && offered(req.decisions@[i].1).contains("probe_failure"@)
            ==> chose(resp.decisions@[i].1, "probe_failure"@, 93),
        req.decisions@[i].0@ == "recommended_action"@ && offered(req.decisions@[i].1).contains("auto_heal"@)
            ==> chose(resp.decisions@[i].1, "auto_heal"@, 89),
{
    lemma_choice_answer(req, resp, i);
    lemma_rule_names_differ();
    let n = req.decisions@[i].0@;
    let vs = offered(req.decisions@[i].1);
    let r = choice_rules(signals_of(req.input_text@));
    if n == "health"@ && vs.contains("degraded"@) {
        lemma_rule_at(r, n, vs, 0);
    }
    if n == "resource_type"@ && vs.contains("app_gateway"@) {
        lemma_rule_at(r, n, vs, 1);
    }
    if n == "root_cause"@ && vs.contains("probe_failure"@) {
        lemma_rule_at(r, n, vs, 2);
    }
    if n == "recommended_action"@ && vs.contains("auto_heal"@) {
        lemma_rule_at(r, n, vs, 3);
    }
}

/// With Google Cloud Run markers as the first signal found (none of the markers above, and
/// no AWS or Azure ones), the offline answers name what was found: health `unhealthy`
/// (0.96), service `cloud_run` (0.97), root cause `container_exited_137` (0.96) and
/// recommended action `restart_revision` (0.92), each when the decision offers that value.
pub proof fn lemma_mock_gcp_answers(req: InferenceRequest, resp: InferenceResponse, i: int)
    requires
        is_mock_response(req, resp),
        0 <= i < req.decisions@.len(),
        req.decisions@[i].1 is Choice,
        !signals_of(req.input_text@).ext4,
        !signals_of(req.input_text@).oom,
        !signals_of(req.input_text@).k8s_crashloop,
        !signals_of(req.input_text@).k8s_oom,
        !signals_of(req.input_text@).ssh_brute,
        !signals_of(req.input_text@).aws,
        !signals_of(req.input_text@).azure,
        signals_of(req.input_text@).gcp,
    ensures
        req.decisions@[i].0@ == "health"@ && offered(req.decisions@[i].1).contains("unhealthy"@)
            ==> chose(resp.decisions@[i].1, "unhealthy"@, 96),
        req.decisions@[i].0@ == "service"@ && offered(req.decisions@[i].1).contains("cloud_run"@)
            ==> chose(resp.decisions@[i].1, "cloud_run"@, 97),
        req.decisions@[i].0@ == "root_cause"@ && offered(req.decisions@[i].1).contains("container_exited_137"@)
            ==> chose(resp.decisions@[i].1, "container_exited_137"@, 96),
        req.decisions@[i].0@ == "recommended_action"@ && offered(req.decisions@[i].1).contains("restart_revision"@)
            ==> chose(resp.decisions@[i].1, "restart_revision"@, 92),
{
    lemma_choice_answer(req, resp, i);
    lemma_rule_names_differ();
    let n = req.decisions@[i].0@;
    let vs = offered(req.decisions@[i].1);
    let r = choice_rules(signals_of(req.input_text@));
    if n == "health"@ && vs.contains("unhealthy"@) {
        lemma_rule_at(r, n, vs, 0);
    }
    if n == "service"@ && vs.contains("cloud_run"@) {
        lemma_rule_at(r, n, vs, 1);
    }
    if n == "root_cause"@ && vs.contains("container_exited_137"@) {
        lemma_rule_at(r, n, vs, 2);
    }
    if n == "recommended_action"@ && vs.contains("restart_revision"@) {
        lemma_rule_at(r, n, vs, 3);
    }
}

/// With only markers of a healthy system (no trouble markers at all), the offline answers
/// name what was found: health `healthy` (0.98) and category `normal` (0.95), each when the
/// decision offers that value.
pub proof fn lemma_mock_healthy_answers(req: InferenceRequest, resp: InferenceResponse, i: int)
    requires
        is_mock_response(req, resp),
        0 <= i < req.decisions@.len(),
        req.decisions@[i].1 is Choice,
        !signals_of(req.input_text@).ext4,
        !signals_of(req.input_text@).oom,
        !signals_of(req.input_text@).k8s_crashloop,
        !signals_of(req.input_text@).k8s_oom,
        !signals_of(req.input_text@).ssh_brute,
        !signals_of(req.input_text@).aws,
        !signals_of(req.input_text@).azure,
        !signals_of(req.input_text@).gcp,
        signals_of(req.input_text@).healthy,
    ensures
        req.decisions@[i].0@ == "health"@ && offered(req.decisions@[i].1).contains("healthy"@)
            ==> chose(resp.decisions@[i].1, "healthy"@, 98),
        req.decisions@[i].0@ == "category"@ && offered(req.decisions@[i].1).contains("normal"@)
            ==> chose(resp.decisions@[i].1, "normal"@, 95),
{
    lemma_choice_answer(req, resp, i);
    lemma_rule_names_differ();
    let n = req.decisions@[i].0@;
    let vs = offered(req.decisions@[i].1);
    let r = choice_rules(signals_of(req.input_text@));
    if n == "health"@ && vs.contains("healthy"@) {
        lemma_rule_at(r, n, vs, 0);
    }
    if n == "category"@ && vs.contains("normal"@) {
        lemma_rule_at(r, n, vs, 1);
    }
}

/// `d` is a score answer of `value` with confidence `h / 100`.
pub open spec fn scored(d: ProviderDecision, value: int, h: nat) -> bool {
    d matches ProviderDecision::Score { value: v, confidence, .. } && v == value && is_hundredths(confidence, h)
}

/// `d` is a yes/no answer of `value` with confidence `h / 100`.
pub open spec fn flagged(d: ProviderDecision, value: bool, h: nat) -> bool {
    d matches ProviderDecision::Boolean { value: v, confidence } && v == value && is_hundredths(confidence, h)
}

/// No rule applies to a choice decision whose name no rule uses.
proof fn lemma_no_rule(rules: Seq<(Seq<char>, Seq<char>, nat)>, name: Seq<char>, values: Seq<Seq<char>>)
    requires
        forall|j: int| 0 <= j < rules.len() ==> rules[j].0 != name,
    ensures
        first_rule_match(rules, name, values) is None,
    decreases rules.len(),
{
    if rules.len() > 0 {
        assert forall|j: int| 0 <= j < rules.drop_first().len() implies rules.drop_first()[j].0 != name by {
            assert(rules.drop_first()[j] == rules[j + 1]);
        }
        lemma_no_rule(rules.drop_first(), name, values);
    }
}

/// A choice decision that no signal's rule covers (the input holds no marker at all, or the
/// decision's name is none of `category`, `health`, `root_cause`, `service`, `resource_type`
/// and `recommended_action`) is answered `unknown` when it offers that value, and otherwise
/// with its first value, with confidence 0.70.
pub proof fn lemma_mock_fallback_answers(req: InferenceRequest, resp: InferenceResponse, i: int)
    requires
        is_mock_response(req, resp),
        0 <= i < req.decisions@.len(),
        req.decisions@[i].1 is Choice,
        ({
            let s = signals_of(req.input_text@);
            let n = req.decisions@[i].0@;
            (!s.ext4 && !s.oom && !s.k8s_crashloop && !s.k8s_oom && !s.ssh_brute && !s.aws && !s.azure
                && !s.gcp && !s.healthy)
            || (n != "category"@ && n != "health"@ && n != "root_cause"@ && n != "service"@
                && n != "resource_type"@ && n != "recommended_action"@)
        }),
    ensures
        offered(req.decisions@[i].1).contains("unknown"@) ==> chose(resp.decisions@[i].1, "unknown"@, 70),
        !offered(req.decisions@[i].1).contains("unknown"@) && offered(req.decisions@[i].1).len() > 0
            ==> chose(resp.decisions@[i].1, offered(req.decisions@[i].1)[0], 70),
{
    lemma_choice_answer(req, resp, i);
    let n = req.decisions@[i].0@;
    let vs = offered(req.decisions@[i].1);
    let r = choice_rules(signals_of(req.input_text@));
    lemma_no_rule(r, n, vs);
}

/// A score decision on a scale `min..=max` is answered by how serious the first signal found is:
/// the top of the scale for ext4 errors (0.91); 4, kept within the scale, for memory kills
/// and for AWS or Cloud Run failures (0.94), then for crash loops and Azure gateway failures
/// (0.92); 3, kept within the scale, for SSH brute force (0.88); the bottom of the scale for
/// a healthy system (0.95) and when nothing is found (0.75).
pub proof fn lemma_mock_score_answers(req: InferenceRequest, resp: InferenceResponse, i: int, min: i64, max: i64)
    requires
        is_mock_response(req, resp),
        0 <= i < req.decisions@.len(),
        req.decisions@[i].1 matches DecisionSpec::Score { min: lo, max: hi, .. } && lo == min && hi == max,
        min <= max,
    ensures
        ({
            let s = signals_of(req.input_text@);
            let d = resp.decisions@[i].1;
            let four = if 4 < min { min as int } else if 4 > max { max as int } else { 4 };
            let three = if 3 < min { min as int } else if 3 > max { max as int } else { 3 };
            &&& s.ext4 ==> scored(d, max as int, 91)
            &&& !s.ext4 && (s.oom || s.k8s_oom || s.aws || s.gcp) ==> scored(d, four, 94)
            &&& !s.ext4 && !(s.oom || s.k8s_oom || s.aws || s.gcp) && (s.k8s_crashloop || s.azure)
                ==> scored(d, four, 92)
            &&& !s.ext4 && !(s.oom || s.k8s_oom || s.aws || s.gcp || s.k8s_crashloop || s.azure) && s.ssh_brute
                ==> scored(d, three, 88)
            &&& !(s.ext4 || s.oom || s.k8s_oom || s.aws || s.gcp || s.k8s_crashloop || s.azure || s.ssh_brute)
                ==> scored(d, min as int, if s.healthy { 95 } else { 75 })
        }),
{
    assert(is_mock_answer(signals_of(req.input_text@), req.decisions@[i].0@, req.decisions@[i].1, resp.decisions@[i].1));
}

/// A yes/no decision says whether the operator is needed: yes for ext4 errors (0.99), for
/// memory kills, crash loops and cloud failures (0.98) and for SSH brute force (0.92); no for
/// a healthy system (0.99) and when nothing is found (0.80).
pub proof fn lemma_mock_flag_answers(req: InferenceRequest, resp: InferenceResponse, i: int)
    requires
        is_mock_response(req, resp),
        0 <= i < req.decisions@.len(),
        req.decisions@[i].1 is Boolean,
    ensures
        ({
            let s = signals_of(req.input_text@);
            let d = resp.decisions@[i].1;
            let trouble = s.oom || s.k8s_oom || s.k8s_crashloop || s.aws || s.azure || s.gcp;
            &&& s.ext4 ==> flagged(d, true, 99)
            &&& !s.ext4 && trouble ==> flagged(d, true, 98)
            &&& !s.ext4 && !trouble && s.ssh_brute ==> flagged(d, true, 92)
            &&& !s.ext4 && !trouble && !s.ssh_brute ==> flagged(d, false, if s.healthy { 99 } else { 80 })
        }),
{
    assert(is_mock_answer(signals_of(req.input_text@), req.decisions@[i].0@, req.decisions@[i].1, resp.decisions@[i].1));
}

/// Each marker phrase in the input raises its signal: ext4 errors, memory kills, Kubernetes
/// crash loops and OOM kills, SSH brute force, a healthy service, and AWS ECS, Azure gateway
/// and Google Cloud Run failures.
pub proof fn lemma_markers_raise_signals(t: Seq<char>)
    ensures
        has_substring(t, "EXT4-fs error"@) ==> signals_of(t).ext4,
        has_substring(t, "ext4_lookup"@) ==> signals_of(t).ext4,
        has_substring(t, "deleted inode referenced"@) ==> signals_of(t).ext4,
        has_substring(t, "Out of memory"@) ==> signals_of(t).oom,
        has_substring(t, "Killed process"@) ==> signals_of(t).oom,
        has_substring(t, "oom-kill"@) ==> signals_of(t).oom,
        has_substring(t, "invoked oom-killer"@) ==> signals_of(t).oom,
        has_substring(t, "CrashLoopBackOff"@) ==> signals_of(t).k8s_crashloop,
        has_substring(t, "Back-off restarting failed container"@) ==> signals_of(t).k8s_crashloop,
        has_substring(t, "OOMKilled"@) ==> signals_of(t).k8s_oom,
        has_substring(t, "Failed password"@) ==> signals_of(t).ssh_brute,
        has_substring(t, "Invalid user"@) ==> signals_of(t).ssh_brute,
        has_substring(t, "Active: active (running)"@) ==> signals_of(t).healthy,
        has_substring(t, "Started Service"@) ==> signals_of(t).healthy,
        has_substring(t, "All systems operational"@) ==> signals_of(t).healthy,
        has_substring(t, "status: Running"@) ==> signals_of(t).healthy,
        has_substring(t, "OutOfMemoryError"@) ==> signals_of(t).aws,
        has_substring(t, "ECS Agent"@) ==> signals_of(t).aws,
        has_substring(t, "ExitCode: 137"@) ==> signals_of(t).aws,
        has_substring(t, "/aws/ecs"@) ==> signals_of(t).aws,
        has_substring(t, "awslogs"@) ==> signals_of(t).aws,
        has_substring(t, "App Gateway"@) ==> signals_of(t).azure,
        has_substring(t, "Application Gateway"@) ==> signals_of(t).azure,
        has_substring(t, "502 Bad Gateway"@) ==> signals_of(t).azure,
        has_substring(t, "Health probe"@) ==> signals_of(t).azure,
        has_substring(t, "AKS"@) ==> signals_of(t).azure,
        has_substring(t, "Alert Rule"@) ==> signals_of(t).azure,
        has_substring(t, "Cloud Run"@) ==> signals_of(t).gcp,
        has_substring(t, "Memory limit of"@) ==> signals_of(t).gcp,
        has_substring(t, "exceeded with"@) ==> signals_of(t).gcp,
        has_substring(t, "cloud_run"@) ==> signals_of(t).gcp,
        has_substring(t, "sshd"@) && has_substring(t, "authentication failure"@) ==> signals_of(t).ssh_brute,
{
}

} // verus!
