//! The terminal texts of the pack commands: the pack list, a pack's details, and the
//! confirmations of validating and scaffolding a pack.

use vstd::prelude::*;
use vstd::string::*;
use crate::packs::discovery::DiscoveredPack;
use crate::packs::manifest::{DecisionSpec, PackManifest};
use crate::text::{
    i64_text, int_text, join_strings, joined, padded_right, push_char, push_padded_right, repeat_char,
    texts, trim_text, trimmed, truncate_chars, truncated, usize_text,
};

verus! {

/// The line of one pack in the pack list.
pub open spec fn list_line(p: DiscoveredPack) -> Seq<char> {
    padded_right(p.name@, 18) + " "@ + padded_right(p.manifest.metadata.version@, 10) + " "@
        + padded_right(truncated(p.manifest.metadata.description@, 38), 40) + " "@ + p.path@ + "\n"@
}

/// The lines of the packs, in order.
pub open spec fn list_lines(ps: Seq<DiscoveredPack>) -> Seq<char>
    decreases ps.len(),
{
    if ps.len() == 0 {
        Seq::empty()
    } else {
        list_lines(ps.drop_last()) + list_line(ps.last())
    }
}

/// The heading of the pack list: title, column names and a rule.
pub open spec fn list_heading() -> Seq<char> {
    "AVAILABLE DIAGNOSTIC PACKS:\n"@ + padded_right("NAME"@, 18) + " "@ + padded_right("VERSION"@, 10) + " "@
        + padded_right("DESCRIPTION"@, 40) + " PATH\n"@ + repeat_char('\u{2500}', 80) + "\n"@
}

/// The pack list as the terminal shows it.
pub open spec fn pack_list_text(ps: Seq<DiscoveredPack>) -> Seq<char> {
    if ps.len() == 0 {
        "No diagnostic packs found.\n"@
    } else {
        list_heading() + list_lines(ps)
    }
}

fn push_repeated(out: &mut String, c: char, n: usize)
    ensures
        final(out)@ == old(out)@ + repeat_char(c, n as nat),
{
    let mut k: usize = 0;
    while k < n
        invariant
            k <= n,
            out@ == old(out)@ + repeat_char(c, k as nat),
        decreases n - k,
    {
        push_char(out, c);
        assert(old(out)@ + repeat_char(c, (k + 1) as nat) =~= (old(out)@ + repeat_char(c, k as nat)).push(c));
        k = k + 1;
    }
}

/// Renders the pack list: one line per pack with name, version, shortened description and
/// path, or a note that no pack was found.
pub fn render_pack_list(packs: &Vec<DiscoveredPack>) -> (s: String)
    ensures
        s@ == pack_list_text(packs@),
{
    let n = packs.len();
    if n == 0 {
        return String::from_str("No diagnostic packs found.\n");
    }
    let mut out = String::from_str("AVAILABLE DIAGNOSTIC PACKS:\n");
    push_padded_right(&mut out, "NAME", 18);
    out.append(" ");
    push_padded_right(&mut out, "VERSION", 10);
    out.append(" ");
    push_padded_right(&mut out, "DESCRIPTION", 40);
    out.append(" PATH\n");
    push_repeated(&mut out, '\u{2500}', 80);
    out.append("\n");
    assert(out@ =~= list_heading());
    let mut i: usize = 0;
    while i < n
        invariant
            n == packs@.len(),
            i <= n,
            out@ == list_heading() + list_lines(packs@.take(i as int)),
        decreases n - i,
    {
        let p = &packs[i];
        let ghost before = out@;
        push_padded_right(&mut out, p.name.as_str(), 18);
        out.append(" ");
        push_padded_right(&mut out, p.manifest.metadata.version.as_str(), 10);
        out.append(" ");
        let desc = truncate_chars(p.manifest.metadata.description.as_str(), 38);
        push_padded_right(&mut out, desc.as_str(), 40);
        out.append(" ");
        out.append(p.path.as_str());
        out.append("\n");
        proof {
            assert(packs@.take(i + 1).drop_last() =~= packs@.take(i as int));
            assert(out@ =~= before + list_line(packs@[i as int]));
            assert(out@ =~= list_heading() + list_lines(packs@.take(i + 1)));
        }
        i = i + 1;
    }
    assert(packs@.take(n as int) =~= packs@);
    out
}

/// How many described levels a score shows: one per value of `min..=max`, as far as the
/// descriptions go.
pub open spec fn shown_levels(min: i64, max: i64, described: nat) -> nat {
    if max < min {
        0
    } else if described <= max - min + 1 {
        described
    } else {
        (max - min + 1) as nat
    }
}

/// The lines that pair each level value, from `min` up, with its description.
pub open spec fn level_lines(min: i64, levels: Seq<Seq<char>>) -> Seq<char>
    decreases levels.len(),
{
    if levels.len() == 0 {
        Seq::empty()
    } else {
        level_lines(min, levels.drop_last()) + "      "@ + int_text(min + levels.len() - 1) + ": "@
            + levels.last() + "\n"@
    }
}

/// The summary of one decision in a pack's details.
pub open spec fn decision_summary(name: Seq<char>, spec: DecisionSpec) -> Seq<char> {
    match spec {
        DecisionSpec::Choice { values } => "  - "@ + name + ": choice (options: "@ + joined(texts(values@), ", "@)
            + ")\n"@,
        DecisionSpec::Score { min, max, levels } => "  - "@ + name + ": score (range: "@ + int_text(min as int)
            + " to "@ + int_text(max as int) + ")\n"@
            + level_lines(min, texts(levels@).take(shown_levels(min, max, levels@.len()) as int)),
        DecisionSpec::Boolean => "  - "@ + name + ": boolean (yes/no)\n"@,
    }
}

/// The summaries of the decisions, in order.
pub open spec fn decision_summaries(ds: Seq<(String, DecisionSpec)>) -> Seq<char>
    decreases ds.len(),
{
    if ds.len() == 0 {
        Seq::empty()
    } else {
        decision_summaries(ds.drop_last()) + decision_summary(ds.last().0@, ds.last().1)
    }
}

/// A pack's details as the terminal shows them.
pub open spec fn pack_details_text(path: Seq<char>, m: PackManifest) -> Seq<char> {
    "Diagnostic Pack: "@ + m.metadata.name@ + "\n"@
        + "Version:         "@ + m.metadata.version@ + "\n"@
        + "Author:          "@ + m.metadata.author@ + "\n"@
        + "Path:            "@ + path + "\n"@
        + "Description:     "@ + m.metadata.description@ + "\n"@
        + "\nSpec Input:\n"@
        + "  Type:          "@ + m.spec.input.input_type@ + "\n"@
        + (match m.spec.input.max_bytes {
            Some(b) => "  Max Bytes:     "@ + int_text(b as int) + "\n"@,
            None => Seq::empty(),
        })
        + "\nDecisions ("@ + int_text(m.spec.decisions@.len() as int) + " defined):\n"@
        + decision_summaries(m.spec.decisions@)
        + "\nInstructions:\n"@ + trimmed(m.spec.instructions@) + "\n"@
}

/// In a pack's details, the `i`-th described level of a score on `min..=max` is printed,
/// after the levels before it, as the value it stands for, `min + i`, then its description.
pub proof fn lemma_level_line_value(min: i64, levels: Seq<Seq<char>>, i: int)
    requires
        0 <= i < levels.len(),
    ensures
        level_lines(min, levels.take(i + 1))
            == level_lines(min, levels.take(i)) + "      "@ + int_text(min + i) + ": "@ + levels[i] + "\n"@,
{
    assert(levels.take(i + 1).drop_last() =~= levels.take(i));
    assert(levels.take(i + 1).last() == levels[i]);
}

/// A score decision whose levels describe its whole scale `min..=max` shows every level,
/// the last one as the top of the scale, `max`.
pub proof fn lemma_full_scale_shown(name: Seq<char>, min: i64, max: i64, levels: Seq<Seq<char>>)
    requires
        min <= max,
        levels.len() == max - min + 1,
    ensures
        shown_levels(min, max, levels.len()) == levels.len(),
        level_lines(min, levels) == level_lines(min, levels.drop_last()) + "      "@ + int_text(max as int)
            + ": "@ + levels.last() + "\n"@,
{
}

fn push_level_lines(out: &mut String, min: i64, max: i64, levels: &Vec<String>)
    ensures
        final(out)@ == old(out)@ + level_lines(min, texts(levels@).take(shown_levels(min, max, levels@.len()) as int)),
{
    let count: usize = if max < min {
        0
    } else {
        let span: i128 = (max as i128) - (min as i128) + 1;
        if (levels.len() as i128) <= span {
            levels.len()
        } else {
            span as usize
        }
    };
    assert(count == shown_levels(min, max, levels@.len()));
    let ghost ls = texts(levels@);
    let mut k: usize = 0;
    while k < count
        invariant
            count == shown_levels(min, max, levels@.len()),
            count <= levels@.len(),
            ls == texts(levels@),
            k <= count,
            max < min ==> count == 0,
            max >= min ==> count <= max - min + 1,
            out@ == old(out)@ + level_lines(min, ls.take(k as int)),
        decreases count - k,
    {
        let ghost before = out@;
        let wide: i128 = (min as i128) + (k as i128);
        let value: i64 = wide as i64;
        assert(value == min + k);
        out.append("      ");
        out.append(i64_text(value).as_str());
        out.append(": ");
        out.append(levels[k].as_str());
        out.append("\n");
        proof {
            assert(ls.take(k + 1).drop_last() =~= ls.take(k as int));
            assert(ls.take(k + 1).last() == levels@[k as int]@);
            assert(out@ =~= old(out)@ + level_lines(min, ls.take(k + 1)));
        }
        k = k + 1;
    }
}

fn push_decision_summary(out: &mut String, name: &String, spec: &DecisionSpec)
    ensures
        final(out)@ == old(out)@ + decision_summary(name@, *spec),
{
    out.append("  - ");
    out.append(name.as_str());
    match spec {
        DecisionSpec::Choice { values } => {
            out.append(": choice (options: ");
            out.append(join_strings(values, ", ").as_str());
            out.append(")\n");
        },
        DecisionSpec::Score { min, max, levels } => {
            out.append(": score (range: ");
            out.append(i64_text(*min).as_str());
            out.append(" to ");
            out.append(i64_text(*max).as_str());
            out.append(")\n");
            let ghost mid = out@;
            push_level_lines(out, *min, *max, levels);
            assert(out@ =~= old(out)@ + decision_summary(name@, *spec));
        },
        DecisionSpec::Boolean => {
            out.append(": boolean (yes/no)\n");
        },
    }
    assert(out@ =~= old(out)@ + decision_summary(name@, *spec));
}

/// Renders a pack's details: metadata, where it was found, its input rules, each decision
/// with its options or described levels, and its instructions.
pub fn render_pack_details(path: &str, manifest: &PackManifest) -> (s: String)
    ensures
        s@ == pack_details_text(path@, *manifest),
{
    let m = manifest;
    let mut out = String::from_str("Diagnostic Pack: ");
    out.append(m.metadata.name.as_str());
    out.append("\n");
    out.append("Version:         ");
    out.append(m.metadata.version.as_str());
    out.append("\n");
    out.append("Author:          ");
    out.append(m.metadata.author.as_str());
    out.append("\n");
    out.append("Path:            ");
    out.append(path);
    out.append("\n");
    out.append("Description:     ");
    out.append(m.metadata.description.as_str());
    out.append("\n");
    out.append("\nSpec Input:\n");
    out.append("  Type:          ");
    out.append(m.spec.input.input_type.as_str());
    out.append("\n");
    if let Some(b) = m.spec.input.max_bytes {
        out.append("  Max Bytes:     ");
        out.append(usize_text(b).as_str());
        out.append("\n");
    }
    out.append("\nDecisions (");
    let ds = m.spec.decisions.entries();
    out.append(usize_text(ds.len()).as_str());
    out.append(" defined):\n");
    let ghost head = out@;
    proof {
        let mb: Seq<char> = match m.spec.input.max_bytes {
            Some(b) => "  Max Bytes:     "@ + int_text(b as int) + "\n"@,
            None => Seq::empty(),
        };
        assert(head =~= "Diagnostic Pack: "@ + m.metadata.name@ + "\n"@
            + "Version:         "@ + m.metadata.version@ + "\n"@
            + "Author:          "@ + m.metadata.author@ + "\n"@
            + "Path:            "@ + path@ + "\n"@
            + "Description:     "@ + m.metadata.description@ + "\n"@
            + "\nSpec Input:\n"@
            + "  Type:          "@ + m.spec.input.input_type@ + "\n"@
            + mb
            + "\nDecisions ("@ + int_text(m.spec.decisions@.len() as int) + " defined):\n"@);
    }
    let n = ds.len();
    let mut i: usize = 0;
    while i < n
        invariant
            n == ds@.len(),
            i <= n,
            out@ == head + decision_summaries(ds@.take(i as int)),
        decreases n - i,
    {
        push_decision_summary(&mut out, &ds[i].0, &ds[i].1);
        assert(ds@.take(i + 1).drop_last() =~= ds@.take(i as int));
        assert(out@ =~= head + decision_summaries(ds@.take(i + 1)));
        i = i + 1;
    }
    assert(ds@.take(n as int) =~= ds@);
    out.append("\nInstructions:\n");
    out.append(trim_text(m.spec.instructions.as_str()).as_str());
    out.append("\n");
    assert(out@ =~= pack_details_text(path@, *manifest));
    out
}

/// The confirmation that a manifest passed validation.
pub fn validated_message(name: &str, version: &str, path: &str) -> (s: String)
    ensures
        s@ == "\u{2713} Pack '"@ + name@ + "' ("@ + version@ + ") at '"@ + path@ + "' is valid."@,
{
    let mut s = String::from_str("\u{2713} Pack '");
    s.append(name);
    s.append("' (");
    s.append(version);
    s.append(") at '");
    s.append(path);
    s.append("' is valid.");
    s
}

/// The confirmation that a starter pack was written.
pub fn scaffolded_message(path: &str) -> (s: String)
    ensures
        s@ == "\u{2713} Scaffolded diagnostic pack template at '"@ + path@ + "'"@,
{
    let mut s = String::from_str("\u{2713} Scaffolded diagnostic pack template at '");
    s.append(path);
    s.append("'");
    s
}

} // verus!
