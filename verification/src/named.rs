//! Values kept by name: each name once, in name order, as a map keyed by name keeps them.

use vstd::prelude::*;
use vstd::string::*;
use crate::packs::manifest::{clone_decisions, decisions_model, DecisionSpec};
use crate::packs::discovery::{
    lemma_text_lt_irreflexive, lemma_text_lt_total, lemma_text_lt_transitive, names_sorted, text_less, text_lt,
};

verus! {

/// The names of a list of named values, in order.
pub open spec fn names_of<T>(entries: Seq<(String, T)>) -> Seq<Seq<char>> {
    entries.map_values(|e: (String, T)| e.0@)
}

/// Named values with each name once, in strictly increasing name order.
pub open spec fn in_name_order<T>(entries: Seq<(String, T)>) -> bool {
    names_sorted(names_of(entries))
}

/// Whether some entry is called `name`.
pub open spec fn holds_key<T>(entries: Seq<(String, T)>, name: Seq<char>) -> bool {
    exists|i: int| 0 <= i < entries.len() && #[trigger] names_of(entries)[i] == name
}

/// In a list in name order, two entries at different places have different names.
pub proof fn lemma_names_distinct<T>(entries: Seq<(String, T)>, a: int, b: int)
    requires
        in_name_order(entries),
        0 <= a < entries.len(),
        0 <= b < entries.len(),
        a != b,
    ensures
        entries[a].0@ != entries[b].0@,
{
    let names = names_of(entries);
    assert(names[a] == entries[a].0@);
    assert(names[b] == entries[b].0@);
    lemma_text_lt_irreflexive(names[a]);
    if a < b {
        assert(text_lt(names[a], names[b]));
    } else {
        assert(text_lt(names[b], names[a]));
    }
}

/// Values by name, each name once and in name order, as a map keyed by name holds them.
#[derive(Debug)]
pub struct NamedMap<T> {
    entries: Vec<(String, T)>,
}

impl<T> View for NamedMap<T> {
    type V = Seq<(String, T)>;

    closed spec fn view(&self) -> Seq<(String, T)> {
        self.entries@
    }
}

impl<T> NamedMap<T> {
    #[verifier::type_invariant]
    closed spec fn keeps_name_order(self) -> bool {
        in_name_order(self.entries@)
    }

    /// An empty map.
    pub fn new() -> (m: Self)
        ensures
            m@ == Seq::<(String, T)>::empty(),
    {
        NamedMap { entries: Vec::new() }
    }

    /// The entries, in name order.
    pub fn entries(&self) -> (r: &Vec<(String, T)>)
        ensures
            r@ == self@,
            in_name_order(self@),
    {
        proof {
            use_type_invariant(self);
        }
        &self.entries
    }

    /// The entries, in name order, taken out of the map.
    pub fn into_entries(self) -> (r: Vec<(String, T)>)
        ensures
            r@ == self@,
            in_name_order(r@),
    {
        proof {
            use_type_invariant(&self);
        }
        self.entries
    }

    /// How many names the map holds.
    pub fn len(&self) -> (n: usize)
        ensures
            n == self@.len(),
    {
        self.entries.len()
    }

    /// Puts `value` under `name`, as `BTreeMap::insert` does: a value already held under
    /// that name is replaced in its place; otherwise the entry goes where its name keeps the
    /// order.
    pub fn insert(&mut self, name: String, value: T)
        ensures
            in_name_order(final(self)@),
            holds_key(old(self)@, name@) ==> (exists|i: int| 0 <= i < old(self)@.len()
                && #[trigger] names_of(old(self)@)[i] == name@
                && final(self)@ == old(self)@.update(i, (name, value))),
            !holds_key(old(self)@, name@) ==> (exists|j: int| 0 <= j <= old(self)@.len()
                && final(self)@ == #[trigger] old(self)@.insert(j, (name, value))),
    {
        proof {
            use_type_invariant(&*self);
        }
        let mut v: Vec<(String, T)> = Vec::new();
        std::mem::swap(&mut v, &mut self.entries);
        let ghost old_entries = v@;
        let ghost names = names_of(old_entries);
        let ghost entry = (name, value);
        let n = v.len();
        let mut j: usize = 0;
        let mut scanning = true;
        while scanning && j < n
            invariant
                n == v@.len(),
                v@ == old_entries,
                names == names_of(old_entries),
                names_sorted(names),
                j <= n,
                forall|k: int| 0 <= k < j ==> text_lt(#[trigger] names[k], name@),
                !scanning ==> j < n && !text_lt(names[j as int], name@),
            decreases (if scanning { n - j + 1 } else { 0 }),
        {
            if text_less(v[j].0.as_str(), name.as_str()) {
                j = j + 1;
            } else {
                scanning = false;
            }
        }
        proof {
            lemma_text_lt_irreflexive(name@);
            if j < n {
                lemma_text_lt_total(names[j as int], name@);
            }
        }
        if j < n && v[j].0 == name {
            proof {
                assert forall|i: int| 0 <= i < n && names[i] == name@ implies i == j by {
                    if i > j {
                        assert(text_lt(names[j as int], names[i]));
                    }
                    if i < j {
                        assert(text_lt(names[i], name@));
                    }
                }
                assert(names[j as int] == name@);
            }
            v.set(j, (name, value));
            proof {
                assert(v@ == old_entries.update(j as int, entry));
                assert(names_of(v@) =~= names);
            }
        } else {
            proof {
                assert forall|i: int| 0 <= i < n implies names[i] != name@ by {
                    if i > j {
                        assert(text_lt(names[j as int], names[i]));
                        lemma_text_lt_total(names[j as int], name@);
                    }
                    if i < j {
                        assert(text_lt(names[i], name@));
                    }
                }
                assert(!holds_key(old_entries, name@));
                if j < n {
                    assert(text_lt(name@, names[j as int]));
                    assert forall|k: int| j <= k < n implies text_lt(name@, #[trigger] names[k]) by {
                        if k > j {
                            lemma_text_lt_transitive(name@, names[j as int], names[k]);
                        }
                    }
                }
            }
            v.insert(j, (name, value));
            proof {
                let nn = names_of(v@);
                assert(v@ == old_entries.insert(j as int, entry));
                assert(nn =~= names.insert(j as int, name@));
                assert forall|a: int, b: int| 0 <= a < b < nn.len() implies text_lt(#[trigger] nn[a], #[trigger] nn[b]) by {
                    if b < j {
                    } else if b == j {
                    } else if a < j {
                        assert(nn[b] == names[b - 1]);
                    } else if a == j {
                        assert(nn[b] == names[b - 1]);
                    } else {
                        assert(nn[a] == names[a - 1]);
                        assert(nn[b] == names[b - 1]);
                    }
                }
            }
        }
        self.entries = v;
    }

    /// Appends `value` under a name that comes after every name held.
    pub fn push_last(&mut self, name: String, value: T)
        requires
            forall|i: int| 0 <= i < old(self)@.len() ==> text_lt(#[trigger] names_of(old(self)@)[i], name@),
        ensures
            final(self)@ == old(self)@.push((name, value)),
    {
        proof {
            use_type_invariant(&*self);
        }
        let mut v: Vec<(String, T)> = Vec::new();
        std::mem::swap(&mut v, &mut self.entries);
        let ghost old_entries = v@;
        let ghost n = old_entries.len();
        assert(old_entries == old(self)@);
        assert(names_sorted(names_of(old_entries)));
        v.push((name, value));
        proof {
            let nn = names_of(v@);
            assert(nn =~= names_of(old_entries).push(name@));
            assert forall|a: int, b: int| 0 <= a < b < nn.len() implies text_lt(#[trigger] nn[a], #[trigger] nn[b]) by {
                if b == n {
                    assert(nn[a] == names_of(old_entries)[a]);
                    assert(nn[b] == name@);
                    assert(text_lt(names_of(old(self)@)[a], name@));
                } else {
                    assert(nn[a] == names_of(old_entries)[a]);
                    assert(nn[b] == names_of(old_entries)[b]);
                }
            }
        }
        self.entries = v;
    }
}

impl Clone for NamedMap<DecisionSpec> {
    /// A copy with the same names and questions.
    fn clone(&self) -> (r: Self)
        ensures
            decisions_model(r@) == decisions_model(self@),
    {
        proof {
            use_type_invariant(self);
        }
        let e = clone_decisions(&self.entries);
        proof {
            assert(decisions_model(e@).len() == e@.len());
            assert(decisions_model(self.entries@).len() == self.entries@.len());
            assert forall|i: int| 0 <= i < e@.len() implies #[trigger] names_of(e@)[i] == names_of(self.entries@)[i] by {
                assert(decisions_model(e@)[i] == decisions_model(self.entries@)[i]);
            }
            assert(names_of(e@) =~= names_of(self.entries@));
        }
        NamedMap { entries: e }
    }
}

} // verus!
