//! What machine-readable output reports besides the decisions.

use vstd::prelude::*;
use crate::engine::pipeline::PipelineResult;
use crate::inference::types::{bits_less, confidence_of, Confidence, ProviderDecision};
use crate::named::{in_name_order, lemma_names_distinct, names_of};
use crate::packs::discovery::{names_sorted, text_lt};
use crate::text::texts;

verus! {

/// Version of the JSON output layout.
pub const OUTPUT_SCHEMA_VERSION: &'static str = "1";

/// Names of the decisions whose confidence is below `threshold`, in order.
pub open spec fn names_below(ds: Seq<(String, ProviderDecision)>, threshold: Confidence) -> Seq<Seq<char>>
    decreases ds.len(),
{
    if ds.len() == 0 {
        Seq::empty()
    } else {
        names_below(ds.drop_last(), threshold) + if bits_less(confidence_of(ds.last().1).bits, threshold.bits) {
            seq![ds.last().0@]
        } else {
            Seq::empty()
        }
    }
}

/// The decisions below the confidence threshold, or `None` when no threshold was set.
pub fn low_confidence_names(result: &PipelineResult) -> (r: Option<Vec<String>>)
    ensures
        match result.min_confidence {
            None => r is None,
            Some(t) => (r matches Some(v) && texts(v@) == names_below(result.decisions@, t)),
        },
{
    match &result.min_confidence {
        None => None,
        Some(t) => {
            let ds = result.decisions.entries();
            let mut names: Vec<String> = Vec::new();
            let n = ds.len();
            let mut i: usize = 0;
            while i < n
                invariant
                    n == ds@.len(),
                    i <= n,
                    texts(names@) == names_below(ds@.take(i as int), *t),
                decreases n - i,
            {
                assert(ds@.take(i + 1).drop_last() =~= ds@.take(i as int));
                if ds[i].1.confidence().less_than(t) {
                    names.push(ds[i].0.clone());
                }
                assert(texts(names@) =~= names_below(ds@.take(i + 1), *t));
                i = i + 1;
            }
            assert(ds@.take(n as int) =~= ds@);
            Some(names)
        },
    }
}

/// Every name in the low-confidence list is the name of a decision below the threshold.
proof fn lemma_listed_are_below(ds: Seq<(String, ProviderDecision)>, threshold: Confidence, k: int)
    requires
        0 <= k < names_below(ds, threshold).len(),
    ensures
        exists|j: int| 0 <= j < ds.len() && #[trigger] ds[j].0@ == names_below(ds, threshold)[k]
            && bits_less(confidence_of(ds[j].1).bits, threshold.bits),
    decreases ds.len(),
{
    let front = names_below(ds.drop_last(), threshold);
    if k < front.len() {
        lemma_listed_are_below(ds.drop_last(), threshold, k);
        let j = choose|j: int| 0 <= j < ds.drop_last().len() && #[trigger] ds.drop_last()[j].0@ == front[k]
            && bits_less(confidence_of(ds.drop_last()[j].1).bits, threshold.bits);
        assert(ds[j] == ds.drop_last()[j]);
    } else {
        assert(ds[ds.len() - 1] == ds.last());
    }
}

/// Every decision below the threshold has its name in the low-confidence list.
proof fn lemma_below_are_listed(ds: Seq<(String, ProviderDecision)>, threshold: Confidence, i: int)
    requires
        0 <= i < ds.len(),
        bits_less(confidence_of(ds[i].1).bits, threshold.bits),
    ensures
        names_below(ds, threshold).contains(ds[i].0@),
    decreases ds.len(),
{
    let front = names_below(ds.drop_last(), threshold);
    if i < ds.len() - 1 {
        assert(ds.drop_last()[i] == ds[i]);
        lemma_below_are_listed(ds.drop_last(), threshold, i);
        let k = choose|k: int| 0 <= k < front.len() && front[k] == ds[i].0@;
        assert(names_below(ds, threshold)[k] == front[k]);
    } else {
        assert(names_below(ds, threshold)[front.len() as int] == ds[i].0@);
    }
}

/// For every decision of a result, whatever its type, its name is in the low-confidence list
/// exactly when its confidence is below the threshold; the list names nothing else. The
/// decisions of a result, like every decision map, hold each name once.
pub proof fn lemma_low_confidence_exact(result: PipelineResult, threshold: Confidence, i: int)
    requires
        in_name_order(result.decisions@),
        0 <= i < result.decisions@.len(),
    ensures
        names_below(result.decisions@, threshold).contains(result.decisions@[i].0@)
            <==> bits_less(confidence_of(result.decisions@[i].1).bits, threshold.bits),
        forall|k: int| #![trigger names_below(result.decisions@, threshold)[k]]
            0 <= k < names_below(result.decisions@, threshold).len() ==> exists|j: int|
            0 <= j < result.decisions@.len() && #[trigger] result.decisions@[j].0@
                == names_below(result.decisions@, threshold)[k]
                && bits_less(confidence_of(result.decisions@[j].1).bits, threshold.bits),
{
    let ds = result.decisions@;
    let listed = names_below(ds, threshold);
    assert forall|k: int| #![trigger listed[k]] 0 <= k < listed.len() implies exists|j: int|
        0 <= j < ds.len() && #[trigger] ds[j].0@ == listed[k]
            && bits_less(confidence_of(ds[j].1).bits, threshold.bits) by {
        lemma_listed_are_below(ds, threshold, k);
    }
    if bits_less(confidence_of(ds[i].1).bits, threshold.bits) {
        lemma_below_are_listed(ds, threshold, i);
    }
    if listed.contains(ds[i].0@) {
        let k = choose|k: int| 0 <= k < listed.len() && listed[k] == ds[i].0@;
        lemma_listed_are_below(ds, threshold, k);
        let j = choose|j: int| 0 <= j < ds.len() && #[trigger] ds[j].0@ == listed[k]
            && bits_less(confidence_of(ds[j].1).bits, threshold.bits);
        if j != i {
            lemma_names_distinct(ds, i, j);
        }
    }
}

/// The low-confidence list keeps the decisions' order: for decisions held in name order, its
/// names come in strictly increasing order, so that none is listed twice.
pub proof fn lemma_low_confidence_in_order(result: PipelineResult, threshold: Confidence)
    requires
        in_name_order(result.decisions@),
    ensures
        names_sorted(names_below(result.decisions@, threshold)),
{
    lemma_names_below_sorted(result.decisions@, threshold);
}

proof fn lemma_names_below_sorted(ds: Seq<(String, ProviderDecision)>, threshold: Confidence)
    requires
        in_name_order(ds),
    ensures
        names_sorted(names_below(ds, threshold)),
    decreases ds.len(),
{
    if ds.len() > 0 {
        let front_ds = ds.drop_last();
        assert(in_name_order(front_ds)) by {
            assert forall|a: int, b: int| 0 <= a < b < front_ds.len() implies
                text_lt(#[trigger] names_of(front_ds)[a], #[trigger] names_of(front_ds)[b]) by {
                assert(names_of(front_ds)[a] == names_of(ds)[a]);
                assert(names_of(front_ds)[b] == names_of(ds)[b]);
            }
        }
        lemma_names_below_sorted(front_ds, threshold);
        let front = names_below(front_ds, threshold);
        let all = names_below(ds, threshold);
        let last = ds.len() - 1;
        assert forall|a: int, b: int| 0 <= a < b < all.len() implies text_lt(#[trigger] all[a], #[trigger] all[b]) by {
            if b < front.len() {
                assert(all[a] == front[a]);
                assert(all[b] == front[b]);
            } else {
                assert(all[a] == front[a]);
                assert(all[b] == ds[last].0@);
                lemma_listed_are_below(front_ds, threshold, a);
                let j = choose|j: int| 0 <= j < front_ds.len() && #[trigger] front_ds[j].0@ == front[a]
                    && bits_less(confidence_of(front_ds[j].1).bits, threshold.bits);
                assert(front_ds[j] == ds[j]);
                assert(names_of(ds)[j] == ds[j].0@);
                assert(names_of(ds)[last] == ds[last].0@);
            }
        }
    }
}

} // verus!
