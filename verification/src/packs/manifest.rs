//! The pack manifest model: metadata, input limits, and the typed decisions a pack asks for.

use vstd::prelude::*;
use vstd::string::*;
use crate::named::NamedMap;

verus! {

/// The manifest schema version this tool reads.
pub const CURRENT_API_VERSION: &'static str = "jev-ops/v1";
/// The manifest kind this tool reads.
pub const CURRENT_KIND: &'static str = "DiagnosticPack";

/// A diagnostic pack manifest.
#[derive(Debug)]
pub struct PackManifest {
    pub api_version: String,
    pub kind: String,
    pub metadata: PackMetadata,
    pub spec: PackSpec,
}

/// Who a pack is and which version it has.
#[derive(Debug)]
pub struct PackMetadata {
    pub name: String,
    pub version: String,
    pub description: String,
    pub author: String,
}

/// The body of a pack: input rules, decisions by name, and the analysis guidance.
/// `decisions` holds each name once, in name order, which is the order in which the
/// decisions are asked and reported.
#[derive(Debug)]
pub struct PackSpec {
    pub input: InputSpec,
    pub decisions: NamedMap<DecisionSpec>,
    pub instructions: String,
}

/// The kind of input a pack accepts and its size limit.
#[derive(Debug)]
pub struct InputSpec {
    pub input_type: String,
    pub max_bytes: Option<usize>,
}

/// One typed question of a pack.
#[derive(Debug)]
pub enum DecisionSpec {
    /// Pick one of `values`.
    Choice { values: Vec<String> },
    /// Rate on the integer scale `min..=max`; `levels`, when given, describes each level in order.
    Score { min: i64, max: i64, levels: Vec<String> },
    /// Answer yes or no.
    Boolean,
}

/// The input type a pack gets when it names none.
pub fn default_input_type() -> (s: String)
    ensures
        s@ == "text"@,
{
    String::from_str("text")
}

impl InputSpec {
    /// Text input with no pack-specific size limit.
    pub fn default() -> (r: InputSpec)
        ensures
            r.input_type@ == "text"@,
            r.max_bytes is None,
    {
        InputSpec { input_type: default_input_type(), max_bytes: None }
    }
}

/// The name of a decision's type.
pub open spec fn decision_type_name(d: DecisionSpec) -> Seq<char> {
    match d {
        DecisionSpec::Choice { .. } => "choice"@,
        DecisionSpec::Score { .. } => "score"@,
        DecisionSpec::Boolean => "boolean"@,
    }
}

impl DecisionSpec {
    /// "choice", "score" or "boolean".
    pub fn kind_name(&self) -> (s: &'static str)
        ensures
            s@ == decision_type_name(*self),
    {
        match self {
            DecisionSpec::Choice { .. } => "choice",
            DecisionSpec::Score { .. } => "score",
            DecisionSpec::Boolean => "boolean",
        }
    }
}

/// What a decision asks, as plain values.
pub ghost enum DecisionModel {
    Choice { values: Seq<Seq<char>> },
    Score { min: i64, max: i64, levels: Seq<Seq<char>> },
    Boolean,
}

impl View for DecisionSpec {
    type V = DecisionModel;

    open spec fn view(&self) -> DecisionModel {
        match self {
            DecisionSpec::Choice { values } => DecisionModel::Choice { values: crate::text::texts(values@) },
            DecisionSpec::Score { min, max, levels } =>
                DecisionModel::Score { min: *min, max: *max, levels: crate::text::texts(levels@) },
            DecisionSpec::Boolean => DecisionModel::Boolean,
        }
    }
}

impl Clone for DecisionSpec {
    fn clone(&self) -> (r: Self)
        ensures
            r@ == self@,
    {
        proof {
            broadcast use vstd::std_specs::vec::group_vec_axioms;
        }
        match self {
            DecisionSpec::Choice { values } => {
                let v = values.clone();
                assert(crate::text::texts(v@) =~= crate::text::texts(values@));
                DecisionSpec::Choice { values: v }
            },
            DecisionSpec::Score { min, max, levels } => {
                let v = levels.clone();
                assert(crate::text::texts(v@) =~= crate::text::texts(levels@));
                DecisionSpec::Score { min: *min, max: *max, levels: v }
            },
            DecisionSpec::Boolean => DecisionSpec::Boolean,
        }
    }
}

/// The decisions as plain values, in order.
pub open spec fn decisions_model(ds: Seq<(String, DecisionSpec)>) -> Seq<(Seq<char>, DecisionModel)> {
    ds.map_values(|p: (String, DecisionSpec)| (p.0@, p.1@))
}

/// A copy of a decision list with the same names and questions.
pub fn clone_decisions(ds: &Vec<(String, DecisionSpec)>) -> (r: Vec<(String, DecisionSpec)>)
    ensures
        decisions_model(r@) == decisions_model(ds@),
{
    let mut r: Vec<(String, DecisionSpec)> = Vec::new();
    let n = ds.len();
    let mut i: usize = 0;
    while i < n
        invariant
            n == ds@.len(),
            i <= n,
            r@.len() == i,
            decisions_model(r@) == decisions_model(ds@.take(i as int)),
        decreases n - i,
    {
        let name = ds[i].0.clone();
        let spec = ds[i].1.clone();
        let ghost before = r@;
        r.push((name, spec));
        proof {
            assert forall|j: int| 0 <= j < i + 1 implies #[trigger] decisions_model(r@)[j] == decisions_model(ds@.take(i + 1))[j] by {
                if j < i {
                    assert(r@[j] == before[j]);
                    assert(decisions_model(before)[j] == decisions_model(ds@.take(i as int))[j]);
                }
            }
            assert(decisions_model(r@) =~= decisions_model(ds@.take(i + 1)));
        }
        i = i + 1;
    }
    assert(ds@.take(n as int) =~= ds@);
    r
}

} // verus!
