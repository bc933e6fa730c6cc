//! The terminal summary of an analysis.

use vstd::prelude::*;
use vstd::string::*;
use crate::engine::pipeline::{first_named, PipelineResult};
use crate::inference::types::{bits_less, Confidence, ProviderDecision};
use crate::packs::manifest::DecisionSpec;
use crate::text::{
    char_vec, digit, digit_char, has_substring, contains_text, int_text, i64_text, nat_text,
    padded_left, padded_right, push_char, push_padded_left, push_padded_right, u128_text,
};

verus! {

/// `n / d` rounded to the nearest integer, ties to even.
pub open spec fn round_half_even(n: nat, d: nat) -> nat
    recommends
        d > 0,
{
    let q = n / d;
    let r = n % d;
    if 2 * r > d || (2 * r == d && q % 2 == 1) { q + 1 } else { q }
}

/// A count of tenths written with one decimal: 15 is "1.5".
pub open spec fn tenths_text(t: nat) -> Seq<char> {
    nat_text(t / 10) + "."@ + seq![digit_char(t % 10)]
}

/// A byte count for people: bytes below 1 KiB, then KiB and MiB with one decimal, as
/// `{:.1}` formats the exact quotient (ties to even).
pub open spec fn bytes_text(b: nat) -> Seq<char> {
    if b < 1024 {
        nat_text(b) + " B"@
    } else if b < 1048576 {
        tenths_text(round_half_even(10 * b, 1024)) + " KB"@
    } else {
        tenths_text(round_half_even(10 * b, 1048576)) + " MB"@
    }
}

fn round_div(n: u128, d: u128) -> (r: u128)
    requires
        0 < d < 0x10000000000000000000000000,
        n < 0x10000000000000000000000000,
    ensures
        r == round_half_even(n as nat, d as nat),
{
    let q = n / d;
    let rem = n % d;
    if 2 * rem > d || (2 * rem == d && q % 2 == 1) { q + 1 } else { q }
}

fn tenths(t: u128) -> (s: String)
    ensures
        s@ == tenths_text(t as nat),
{
    let mut s = u128_text(t / 10);
    s.append(".");
    push_char(&mut s, digit(t % 10));
    s
}

/// Formats a byte count: "512 B", "2.0 KB", "1.5 MB". Values are exact quotients rounded
/// to one decimal, ties to even.
pub fn format_bytes(bytes: usize) -> (s: String)
    ensures
        s@ == bytes_text(bytes as nat),
{
    let b = bytes as u128;
    if b < 1024 {
        let mut s = u128_text(b);
        s.append(" B");
        s
    } else if b < 1048576 {
        let mut s = tenths(round_div(10 * b, 1024));
        s.append(" KB");
        s
    } else {
        let mut s = tenths(round_div(10 * b, 1048576));
        s.append(" MB");
        s
    }
}

/// ASCII upper case of a character; others unchanged.
pub open spec fn ascii_upper(c: char) -> char {
    if 'a' <= c && c <= 'z' { ((c as u32) - 32) as char } else { c }
}

/// The label of a decision: "Attention:" for `needs_attention`, otherwise the name with
/// underscores as spaces, its first character upper-cased, and a colon.
pub open spec fn label_text(name: Seq<char>) -> Seq<char> {
    if name == "needs_attention"@ {
        "Attention:"@
    } else {
        let spaced = name.map_values(|c: char| if c == '_' { ' ' } else { c });
        (if spaced.len() == 0 { spaced } else { spaced.update(0, ascii_upper(spaced[0])) }) + ":"@
    }
}

/// The label shown for a decision.
pub fn format_label(name: &str) -> (s: String)
    ensures
        s@ == label_text(name@),
{
    let attention = String::from_str("needs_attention");
    if String::from_str(name) == attention {
        return String::from_str("Attention:");
    }
    let chars = char_vec(name);
    let ghost spaced = name@.map_values(|c: char| if c == '_' { ' ' } else { c });
    let mut out = String::new();
    let n = chars.len();
    let mut i: usize = 0;
    while i < n
        invariant
            chars@ == name@,
            n == chars@.len(),
            i <= n,
            spaced == name@.map_values(|c: char| if c == '_' { ' ' } else { c }),
            out@ == (if i == 0 { Seq::<char>::empty() } else { spaced.take(i as int).update(0, ascii_upper(spaced[0])) }),
        decreases n - i,
    {
        let c = chars[i];
        let c2 = if c == '_' { ' ' } else { c };
        let c3 = if i == 0 && 'a' <= c2 && c2 <= 'z' { ((c2 as u8) - 32) as char } else { c2 };
        proof {
            if i == 0 {
                assert(c3 == ascii_upper(c2));
            }
        }
        push_char(&mut out, c3);
        proof {
            assert(spaced[i as int] == c2);
            if i == 0 {
                assert(out@ =~= spaced.take(1).update(0, ascii_upper(spaced[0])));
            } else {
                assert(out@ =~= spaced.take(i + 1).update(0, ascii_upper(spaced[0])));
            }
        }
        i = i + 1;
    }
    proof {
        if n > 0 {
            assert(spaced.take(n as int) =~= spaced);
        } else {
            assert(spaced.len() == 0);
        }
    }
    out.append(":");
    out
}

/// The top of a score's scale, when the schema declares `name` as a score.
pub open spec fn score_max(schema: Seq<(String, DecisionSpec)>, name: Seq<char>) -> Option<i64> {
    match first_named(schema, name) {
        Some(k) => match schema[k].1 {
            DecisionSpec::Score { max, .. } => Some(max),
            _ => None,
        },
        None => None,
    }
}

/// How a decision's value is shown: a severity score as "value/max" of its pack scale.
pub open spec fn shown_value(name: Seq<char>, d: ProviderDecision, schema: Seq<(String, DecisionSpec)>) -> Seq<char> {
    match d {
        ProviderDecision::Choice { value, .. } => value@,
        ProviderDecision::Score { value, .. } =>
            if has_substring(name, "severity"@) && score_max(schema, name) is Some {
                int_text(value as int) + "/"@ + int_text(score_max(schema, name)->0 as int)
            } else {
                int_text(value as int)
            },
        ProviderDecision::Boolean { value, .. } => if value { "yes"@ } else { "no"@ },
    }
}

/// The confidence of a decision.
pub open spec fn conf(d: ProviderDecision) -> Confidence {
    crate::inference::types::confidence_of(d)
}

/// One summary line: label, value, confidence percentage, and a mark when the confidence
/// is below the threshold.
pub open spec fn decision_line(
    name: Seq<char>,
    d: ProviderDecision,
    schema: Seq<(String, DecisionSpec)>,
    threshold: Option<Confidence>,
) -> Seq<char> {
    padded_right(label_text(name), 12) + padded_right(shown_value(name, d, schema), 14) + " "@
        + padded_left(conf(d).percent@, 4)
        + (if threshold is Some && bits_less(conf(d).bits, threshold->0.bits) { "  [LOW CONFIDENCE]"@ } else { Seq::empty() })
        + "\n"@
}

/// The summary lines of the decisions, in order.
pub open spec fn decision_lines(
    ds: Seq<(String, ProviderDecision)>,
    schema: Seq<(String, DecisionSpec)>,
    threshold: Option<Confidence>,
) -> Seq<char>
    decreases ds.len(),
{
    if ds.len() == 0 {
        Seq::empty()
    } else {
        decision_lines(ds.drop_last(), schema, threshold) + decision_line(ds.last().0@, ds.last().1, schema, threshold)
    }
}

/// The whole terminal summary.
pub open spec fn human_text(r: PipelineResult) -> Seq<char> {
    "jev-ops analysis\n\n"@
        + padded_right("Pack:"@, 12) + padded_right(r.pack.name@ + " "@ + r.pack.version@, 14) + " "@ + "\n"@
        + padded_right("Provider:"@, 12) + padded_right(r.provider@, 14) + "\n"@
        + padded_right("Input:"@, 12) + padded_right(bytes_text(r.input.bytes as nat), 14) + "\n\n"@
        + decision_lines(r.decisions@, r.schema@, r.min_confidence)
}

/// The summary shows a yes/no decision as "yes" exactly when its value is true and as "no"
/// exactly when it is false, whatever its name, confidence and schema.
pub proof fn lemma_flag_shown(name: Seq<char>, value: bool, confidence: Confidence, schema: Seq<(String, DecisionSpec)>)
    ensures
        (shown_value(name, ProviderDecision::Boolean { value, confidence }, schema) == "yes"@) <==> value,
        (shown_value(name, ProviderDecision::Boolean { value, confidence }, schema) == "no"@) <==> !value,
{
    reveal_strlit("yes");
    reveal_strlit("no");
    assert("yes"@.len() == 3 && "no"@.len() == 2);
}

/// The summary shows a choice as the value chosen, and a score that is not a severity as its
/// number alone.
pub proof fn lemma_value_shown(name: Seq<char>, d: ProviderDecision, schema: Seq<(String, DecisionSpec)>)
    ensures
        d matches ProviderDecision::Choice { value, .. } ==> shown_value(name, d, schema) == value@,
        d matches ProviderDecision::Score { value, .. } ==> (!has_substring(name, "severity"@)
            ==> shown_value(name, d, schema) == int_text(value as int)),
{
}

fn find_score_max(schema: &Vec<(String, DecisionSpec)>, name: &String) -> (r: Option<i64>)
    ensures
        r == score_max(schema@, name@),
{
    let n = schema.len();
    let mut i: usize = 0;
    while i < n
        invariant
            n == schema@.len(),
            i <= n,
            first_named(schema@.take(i as int), name@) is None,
        decreases n - i,
    {
        assert(schema@.take(i + 1).drop_last() =~= schema@.take(i as int));
        if schema[i].0 == *name {
            proof { lemma_first_named_take(schema@, name@, (i + 1) as nat); }
            return match &schema[i].1 {
                DecisionSpec::Score { max, .. } => Some(*max),
                _ => None,
            };
        }
        i = i + 1;
    }
    assert(schema@.take(n as int) =~= schema@);
    None
}

proof fn lemma_first_named_take<T>(entries: Seq<(String, T)>, name: Seq<char>, n: nat)
    requires
        n <= entries.len(),
        first_named(entries.take(n as int), name) is Some,
    ensures
        first_named(entries, name) == first_named(entries.take(n as int), name),
    decreases entries.len() - n,
{
    if n < entries.len() {
        assert(entries.take(n + 1 as int).drop_last() =~= entries.take(n as int));
        lemma_first_named_take(entries, name, n + 1);
    } else {
        assert(entries.take(n as int) =~= entries);
    }
}

fn value_for_display(name: &String, d: &ProviderDecision, schema: &Vec<(String, DecisionSpec)>) -> (s: String)
    ensures
        s@ == shown_value(name@, *d, schema@),
{
    match d {
        ProviderDecision::Choice { value, .. } => value.clone(),
        ProviderDecision::Score { value, .. } => {
            let mut s = i64_text(*value);
            if contains_text(name.as_str(), "severity") {
                if let Some(max) = find_score_max(schema, name) {
                    s.append("/");
                    s.append(i64_text(max).as_str());
                }
            }
            s
        },
        ProviderDecision::Boolean { value, .. } => if *value {
            String::from_str("yes")
        } else {
            String::from_str("no")
        },
    }
}

fn push_decision_line(
    out: &mut String,
    name: &String,
    d: &ProviderDecision,
    schema: &Vec<(String, DecisionSpec)>,
    threshold: &Option<Confidence>,
)
    ensures
        final(out)@ == old(out)@ + decision_line(name@, *d, schema@, *threshold),
{
    let label = format_label(name.as_str());
    push_padded_right(out, label.as_str(), 12);
    let value = value_for_display(name, d, schema);
    push_padded_right(out, value.as_str(), 14);
    out.append(" ");
    let c = d.confidence();
    push_padded_left(out, c.percent.as_str(), 4);
    let low = match threshold {
        Some(t) => c.less_than(t),
        None => false,
    };
    if low {
        out.append("  [LOW CONFIDENCE]");
    }
    out.append("\n");
    proof {
        assert(final(out)@ =~= old(out)@ + decision_line(name@, *d, schema@, *threshold));
    }
}

/// Renders the terminal summary of an analysis: pack, provider and input size, then one
/// line per decision with its confidence, marking those below the threshold.
pub fn render_human(result: &PipelineResult) -> (s: String)
    ensures
        s@ == human_text(*result),
{
    let mut out = String::from_str("jev-ops analysis\n\n");
    push_padded_right(&mut out, "Pack:", 12);
    let mut ident = result.pack.name.clone();
    ident.append(" ");
    ident.append(result.pack.version.as_str());
    push_padded_right(&mut out, ident.as_str(), 14);
    out.append(" ");
    out.append("\n");
    push_padded_right(&mut out, "Provider:", 12);
    push_padded_right(&mut out, result.provider.as_str(), 14);
    out.append("\n");
    push_padded_right(&mut out, "Input:", 12);
    push_padded_right(&mut out, format_bytes(result.input.bytes).as_str(), 14);
    out.append("\n\n");
    let ghost head = out@;
    let ds = result.decisions.entries();
    let n = ds.len();
    let mut i: usize = 0;
    while i < n
        invariant
            n == ds@.len(),
            i <= n,
            out@ == head + decision_lines(ds@.take(i as int), result.schema@, result.min_confidence),
        decreases n - i,
    {
        assert(ds@.take(i + 1).drop_last() =~= ds@.take(i as int));
        push_decision_line(&mut out, &ds[i].0, &ds[i].1, result.schema.entries(), &result.min_confidence);
        proof {
            assert(out@ =~= head + decision_lines(ds@.take(i + 1), result.schema@, result.min_confidence));
        }
        i = i + 1;
    }
    assert(ds@.take(n as int) =~= ds@);
    assert(out@ =~= human_text(*result));
    out
}

} // verus!
