//! Where packs are looked for and in which order, the search for one pack, and the listing
//! of all of them.

use vstd::prelude::*;
use vstd::string::*;
use crate::error::JevOpsError;
use crate::packs::builtin::{builtin_catalog, get_builtin_pack, is_builtin_name, BuiltinPack};
use crate::packs::manifest::PackManifest;
use crate::text::{char_vec, joined, joined_path, join_strings, path_join, texts};

verus! {

/// A pack found on disk or compiled in.
#[derive(Debug)]
pub struct DiscoveredPack {
    pub name: String,
    pub path: String,
    pub manifest: PackManifest,
}

/// Calls `dirs::config_dir`. Nothing is claimed of the result: it depends on the platform
/// and the environment. A directory whose path is not UTF-8 is reported as absent.
#[verifier::external_body]
fn user_config_dir() -> (r: Option<String>)
{
    dirs::config_dir().and_then(|p| p.into_os_string().into_string().ok())
}

/// Calls `dirs::data_dir`. Nothing is claimed of the result: it depends on the platform
/// and the environment. A directory whose path is not UTF-8 is reported as absent.
#[verifier::external_body]
fn user_data_dir() -> (r: Option<String>)
{
    dirs::data_dir().and_then(|p| p.into_os_string().into_string().ok())
}

/// The pack directory below a user directory: `<dir>/jev-ops/packs`.
pub open spec fn user_pack_dir(dir: Seq<char>) -> Seq<char> {
    joined_path(joined_path(dir, "jev-ops"@), "packs"@)
}

/// The directories searched for packs, highest precedence first: the one given on the
/// command line, `./packs`, the user configuration directory's and the user data
/// directory's `jev-ops/packs`, and `/usr/share/jev-ops/packs`.
pub open spec fn search_order(
    custom: Option<Seq<char>>,
    config_dir: Option<Seq<char>>,
    data_dir: Option<Seq<char>>,
) -> Seq<Seq<char>> {
    (match custom { Some(c) => seq![c], None => Seq::empty() })
        + seq!["./packs"@]
        + (match config_dir { Some(c) => seq![user_pack_dir(c)], None => Seq::empty() })
        + (match data_dir { Some(d) => seq![user_pack_dir(d)], None => Seq::empty() })
        + seq!["/usr/share/jev-ops/packs"@]
}

/// The text of an optional string slice.
pub open spec fn opt_str(o: Option<&str>) -> Option<Seq<char>> {
    match o {
        Some(s) => Some(s@),
        None => None,
    }
}

/// The text of an optional string.
pub open spec fn opt_text(o: Option<String>) -> Option<Seq<char>> {
    match o {
        Some(s) => Some(s@),
        None => None,
    }
}

/// The search order for a command-line directory and the user directories found.
pub fn search_directories_from(
    custom: Option<&str>,
    config_dir: Option<String>,
    data_dir: Option<String>,
) -> (dirs: Vec<String>)
    ensures
        texts(dirs@) == search_order(opt_str(custom), opt_text(config_dir), opt_text(data_dir)),
{
    let mut dirs: Vec<String> = Vec::new();
    if let Some(c) = custom {
        dirs.push(String::from_str(c));
    }
    dirs.push(String::from_str("./packs"));
    if let Some(c) = &config_dir {
        dirs.push(path_join(path_join(c.as_str(), "jev-ops").as_str(), "packs"));
    }
    if let Some(d) = &data_dir {
        dirs.push(path_join(path_join(d.as_str(), "jev-ops").as_str(), "packs"));
    }
    dirs.push(String::from_str("/usr/share/jev-ops/packs"));
    assert(texts(dirs@) =~= search_order(opt_str(custom), opt_text(config_dir), opt_text(data_dir)));
    dirs
}

/// Returns the pack search directories in precedence order, with the user directories of
/// this platform and environment.
pub fn search_directories(custom: Option<&str>) -> (dirs: Vec<String>)
    ensures
        exists|config_dir: Option<Seq<char>>, data_dir: Option<Seq<char>>|
            texts(dirs@) == #[trigger] search_order(opt_str(custom), config_dir, data_dir),
{
    let config_dir = user_config_dir();
    let data_dir = user_data_dir();
    search_directories_from(custom, config_dir, data_dir)
}

/// The files that may hold pack `name` in a directory, in the order they are tried:
/// `<dir>/<name>/pack.yaml`, `<dir>/<name>/pack.yml`, `<dir>/<name>.yaml`, `<dir>/<name>.yml`.
pub open spec fn candidate_files(dir: Seq<char>, name: Seq<char>) -> Seq<Seq<char>> {
    seq![
        joined_path(joined_path(dir, name), "pack.yaml"@),
        joined_path(joined_path(dir, name), "pack.yml"@),
        joined_path(dir, name + ".yaml"@),
        joined_path(dir, name + ".yml"@),
    ]
}

/// The candidate manifest files for pack `name` in `dir`, in the order they are tried.
pub fn pack_candidates(dir: &str, name: &str) -> (r: Vec<String>)
    ensures
        texts(r@) == candidate_files(dir@, name@),
{
    let sub = path_join(dir, name);
    let mut r: Vec<String> = Vec::new();
    r.push(path_join(sub.as_str(), "pack.yaml"));
    r.push(path_join(sub.as_str(), "pack.yml"));
    let mut f1 = String::from_str(name);
    f1.append(".yaml");
    r.push(path_join(dir, f1.as_str()));
    let mut f2 = String::from_str(name);
    f2.append(".yml");
    r.push(path_join(dir, f2.as_str()));
    assert(texts(r@) =~= candidate_files(dir@, name@));
    r
}

/// A manifest found in a candidate file is the pack only when it carries the pack's name.
pub fn manifest_matches(manifest: &PackManifest, name: &str) -> (r: bool)
    ensures
        r == (manifest.metadata.name@ == name@),
{
    manifest.metadata.name == String::from_str(name)
}

/// The path shown for a compiled-in pack: `<embedded:<name>>`.
pub fn embedded_path(name: &str) -> (r: String)
    ensures
        r@ == "<embedded:"@ + name@ + ">"@,
{
    let mut r = String::from_str("<embedded:");
    r.append(name);
    r.append(">");
    r
}

/// The error for a pack found nowhere, listing the directories searched.
pub fn pack_not_found(name: &str, dirs: &Vec<String>) -> (e: JevOpsError)
    ensures
        e matches JevOpsError::PackNotFound { name: n, searched } && n@ == name@
            && searched@ == joined(texts(dirs@), ", "@),
{
    JevOpsError::PackNotFound { name: String::from_str(name), searched: join_strings(dirs, ", ") }
}

/// What the filesystem says about one entry of a pack directory.
#[derive(Debug, Clone, Copy)]
pub struct EntryProbe {
    pub is_dir: bool,
    pub is_file: bool,
    pub yaml_is_file: bool,
    pub yml_is_file: bool,
}

/// The manifest an entry of a pack directory holds: a directory's `pack.yaml` or else
/// `pack.yml`, or the entry itself when it is a file with extension `yaml` or `yml`.
pub fn entry_manifest_path(entry: &str, probe: &EntryProbe, extension: Option<&str>) -> (r: Option<String>)
    ensures
        probe.is_dir ==> (if probe.yaml_is_file {
            r matches Some(p) && p@ == joined_path(entry@, "pack.yaml"@)
        } else if probe.yml_is_file {
            r matches Some(p) && p@ == joined_path(entry@, "pack.yml"@)
        } else {
            r is None
        }),
        !probe.is_dir && probe.is_file ==> (match extension {
            Some(x) => if x@ == "yaml"@ || x@ == "yml"@ { r matches Some(p) && p@ == entry@ } else { r is None },
            None => r is None,
        }),
        !probe.is_dir && !probe.is_file ==> r is None,
{
    if probe.is_dir {
        if probe.yaml_is_file {
            Some(path_join(entry, "pack.yaml"))
        } else if probe.yml_is_file {
            Some(path_join(entry, "pack.yml"))
        } else {
            None
        }
    } else if probe.is_file {
        match extension {
            Some(x) => {
                let ext = String::from_str(x);
                if ext == String::from_str("yaml") || ext == String::from_str("yml") {
                    Some(String::from_str(entry))
                } else {
                    None
                }
            },
            None => None,
        }
    } else {
        None
    }
}

} // verus!

verus! {

/// Code-point order on texts: the order in which Rust compares two strings (UTF-8 keeps
/// code-point order byte by byte).
pub open spec fn text_lt(a: Seq<char>, b: Seq<char>) -> bool
    decreases a.len(),
{
    if a.len() == 0 {
        b.len() > 0
    } else if b.len() == 0 {
        false
    } else if a[0] != b[0] {
        (a[0] as int) < (b[0] as int)
    } else {
        text_lt(a.drop_first(), b.drop_first())
    }
}

/// No text comes before itself.
pub proof fn lemma_text_lt_irreflexive(a: Seq<char>)
    ensures
        !text_lt(a, a),
    decreases a.len(),
{
    if a.len() > 0 {
        lemma_text_lt_irreflexive(a.drop_first());
    }
}

/// Two different texts are ordered one way or the other, and never both ways.
pub proof fn lemma_text_lt_total(a: Seq<char>, b: Seq<char>)
    ensures
        a != b ==> text_lt(a, b) || text_lt(b, a),
        !(text_lt(a, b) && text_lt(b, a)),
    decreases a.len(),
{
    if a.len() > 0 && b.len() > 0 && a[0] == b[0] {
        lemma_text_lt_total(a.drop_first(), b.drop_first());
        if a.drop_first() == b.drop_first() {
            assert forall|i: int| 0 <= i < a.len() implies a[i] == b[i] by {
                if i > 0 {
                    assert(a[i] == a.drop_first()[i - 1]);
                    assert(b[i] == b.drop_first()[i - 1]);
                }
            }
            assert(a =~= b);
        }
    } else if a.len() == 0 && b.len() == 0 {
        assert(a =~= b);
    }
}

/// The order on texts is transitive.
pub proof fn lemma_text_lt_transitive(a: Seq<char>, b: Seq<char>, c: Seq<char>)
    requires
        text_lt(a, b),
        text_lt(b, c),
    ensures
        text_lt(a, c),
    decreases a.len(),
{
    if a.len() > 0 && b.len() > 0 && c.len() > 0 && a[0] == b[0] && b[0] == c[0] {
        lemma_text_lt_transitive(a.drop_first(), b.drop_first(), c.drop_first());
    }
}

/// Compares two texts in code-point order.
pub fn text_less(a: &str, b: &str) -> (r: bool)
    ensures
        r == text_lt(a@, b@),
{
    let av = char_vec(a);
    let bv = char_vec(b);
    let mut i: usize = 0;
    assert(a@.skip(0) =~= a@);
    assert(b@.skip(0) =~= b@);
    loop
        invariant
            av@ == a@,
            bv@ == b@,
            i <= av@.len(),
            i <= bv@.len(),
            text_lt(a@, b@) == text_lt(a@.skip(i as int), b@.skip(i as int)),
        decreases av@.len() - i,
    {
        if i == av.len() {
            return i < bv.len();
        }
        if i == bv.len() {
            return false;
        }
        let x = av[i];
        let y = bv[i];
        assert(a@.skip(i as int)[0] == x);
        assert(b@.skip(i as int)[0] == y);
        if x != y {
            return x < y;
        }
        assert(a@.skip(i as int).drop_first() =~= a@.skip(i + 1));
        assert(b@.skip(i as int).drop_first() =~= b@.skip(i + 1));
        i = i + 1;
    }
}

/// Names in strictly increasing order, so that none occurs twice.
pub open spec fn names_sorted(names: Seq<Seq<char>>) -> bool {
    forall|i: int, j: int| 0 <= i < j < names.len() ==> text_lt(#[trigger] names[i], #[trigger] names[j])
}

/// The names of a list of packs, in order.
pub open spec fn pack_names(packs: Seq<DiscoveredPack>) -> Seq<Seq<char>> {
    packs.map_values(|p: DiscoveredPack| p.name@)
}

/// The entry a manifest found at `path` makes: it is known by the name it declares.
pub open spec fn found_entry(path: String, manifest: PackManifest) -> DiscoveredPack {
    DiscoveredPack { name: manifest.metadata.name, path, manifest }
}

/// Found packs by name, kept in name order with each name once. A pack inserted under a
/// name already present replaces the one there.
pub struct PackIndex {
    packs: Vec<DiscoveredPack>,
}

impl PackIndex {
    /// The packs held, in name order.
    pub closed spec fn entries(&self) -> Seq<DiscoveredPack> {
        self.packs@
    }

    /// Every index holds its names in strictly increasing order.
    pub open spec fn well_formed(&self) -> bool {
        names_sorted(pack_names(self.entries()))
    }

    /// An empty index.
    pub fn new() -> (r: PackIndex)
        ensures
            r.well_formed(),
            r.entries() == Seq::<DiscoveredPack>::empty(),
    {
        PackIndex { packs: Vec::new() }
    }

    /// Inserts the manifest found at `path` under the name it declares. A pack of that name
    /// already held is replaced in its place; otherwise the pack goes where its name keeps the
    /// order.
    pub fn insert(&mut self, path: String, manifest: PackManifest)
        requires
            old(self).well_formed(),
        ensures
            final(self).well_formed(),
            (exists|i: int| 0 <= i < old(self).entries().len()
                && #[trigger] pack_names(old(self).entries())[i] == manifest.metadata.name@) ==>
                (exists|i: int| 0 <= i < old(self).entries().len()
                    && #[trigger] pack_names(old(self).entries())[i] == manifest.metadata.name@
                    && final(self).entries() == old(self).entries().update(i, found_entry(path, manifest))),
            !(exists|i: int| 0 <= i < old(self).entries().len()
                && #[trigger] pack_names(old(self).entries())[i] == manifest.metadata.name@) ==>
                (exists|j: int| 0 <= j <= old(self).entries().len()
                    && final(self).entries() == #[trigger] old(self).entries().insert(j, found_entry(path, manifest))),
    {
        let ghost old_entries = self.packs@;
        let ghost names = pack_names(old_entries);
        let ghost entry = found_entry(path, manifest);
        let name = manifest.metadata.name.clone();
        let n = self.packs.len();
        let mut j: usize = 0;
        let mut scanning = true;
        while scanning && j < n
            invariant
                n == self.packs@.len(),
                self.packs@ == old_entries,
                names == pack_names(old_entries),
                names_sorted(names),
                name@ == manifest.metadata.name@,
                j <= n,
                forall|k: int| 0 <= k < j ==> text_lt(#[trigger] names[k], name@),
                !scanning ==> j < n && !text_lt(names[j as int], name@),
            decreases (if scanning { n - j + 1 } else { 0 }),
        {
            if text_less(self.packs[j].name.as_str(), name.as_str()) {
                j = j + 1;
            } else {
                scanning = false;
            }
        }
        proof {
            lemma_text_lt_irreflexive(name@);
            if j < n {
                lemma_text_lt_total(names[j as int], name@);
            }
        }
        if j < n && self.packs[j].name == name {
            proof {
                assert forall|i: int| 0 <= i < n && names[i] == name@ implies i == j by {
                    if i > j {
                        assert(text_lt(names[j as int], names[i]));
                    }
                    if i < j {
                        assert(text_lt(names[i], name@));
                    }
                }
            }
            let e = DiscoveredPack { name, path, manifest };
            self.packs.set(j, e);
            proof {
                assert(self.packs@ == old_entries.update(j as int, entry));
                assert(pack_names(self.packs@) =~= names.update(j as int, name@));
                assert(names[j as int] == name@);
                assert(pack_names(self.packs@) =~= names);
            }
        } else {
            proof {
                assert forall|i: int| 0 <= i < n implies names[i] != name@ by {
                    if i > j {
                        assert(text_lt(names[j as int], names[i]));
                        lemma_text_lt_total(names[j as int], name@);
                    }
                    if i < j {
                        assert(text_lt(names[i], name@));
                    }
                }
                if j < n {
                    assert(text_lt(name@, names[j as int]));
                    assert forall|k: int| j <= k < n implies text_lt(name@, #[trigger] names[k]) by {
                        if k > j {
                            lemma_text_lt_transitive(name@, names[j as int], names[k]);
                        }
                    }
                }
            }
            let e = DiscoveredPack { name, path, manifest };
            self.packs.insert(j, e);
            proof {
                let nn = pack_names(self.packs@);
                assert(self.packs@ == old_entries.insert(j as int, entry));
                assert(nn =~= names.insert(j as int, name@));
                assert forall|a: int, b: int| 0 <= a < b < nn.len() implies text_lt(#[trigger] nn[a], #[trigger] nn[b]) by {
                    if b < j {
                    } else if b == j {
                    } else if a < j {
                        assert(nn[b] == names[b - 1]);
                        if b - 1 > a {
                        }
                    } else if a == j {
                        assert(nn[b] == names[b - 1]);
                    } else {
                        assert(nn[a] == names[a - 1]);
                        assert(nn[b] == names[b - 1]);
                    }
                }
            }
        }
    }

    /// The packs held, in name order.
    pub fn into_packs(self) -> (r: Vec<DiscoveredPack>)
        ensures
            r@ == self.entries(),
    {
        self.packs
    }
}

} // verus!

verus! {

/// The candidates whose presence flag is set, in order.
pub open spec fn present_in(cands: Seq<Seq<char>>, present: Seq<bool>) -> Seq<Seq<char>>
    decreases cands.len(),
{
    if cands.len() == 0 {
        Seq::empty()
    } else {
        present_in(cands.drop_last(), present.take(cands.len() - 1))
            + (if present[cands.len() - 1] { seq![cands.last()] } else { Seq::empty() })
    }
}

/// The manifest files a search for pack `name` tries, in order: for each search directory
/// that exists, the candidate files of the pack that exist there. `dir_present[i]` says
/// whether `dirs[i]` is a directory, `file_present[i][k]` whether its `k`-th candidate file
/// is a file.
pub open spec fn present_candidates(
    dirs: Seq<Seq<char>>,
    name: Seq<char>,
    dir_present: Seq<bool>,
    file_present: Seq<Seq<bool>>,
) -> Seq<Seq<char>>
    decreases dirs.len(),
{
    if dirs.len() == 0 {
        Seq::empty()
    } else {
        let last = dirs.len() - 1;
        present_candidates(dirs.drop_last(), name, dir_present.take(last), file_present.take(last))
            + (if dir_present[last] { present_in(candidate_files(dirs[last], name), file_present[last]) } else { Seq::empty() })
    }
}

/// The manifest files to try, in order, when looking for pack `name` in `dirs`, given what
/// the filesystem says about each directory and each of its candidate files.
pub fn search_candidates(
    dirs: &Vec<String>,
    name: &str,
    dir_present: &Vec<bool>,
    file_present: &Vec<Vec<bool>>,
) -> (r: Vec<String>)
    requires
        dir_present@.len() == dirs@.len(),
        file_present@.len() == dirs@.len(),
        forall|i: int| 0 <= i < file_present@.len() ==> (#[trigger] file_present@[i])@.len() == 4,
    ensures
        texts(r@) == present_candidates(texts(dirs@), name@, dir_present@, file_present@.map_values(|v: Vec<bool>| v@)),
{
    let ghost ds = texts(dirs@);
    let ghost fps = file_present@.map_values(|v: Vec<bool>| v@);
    let mut r: Vec<String> = Vec::new();
    let n = dirs.len();
    let mut i: usize = 0;
    while i < n
        invariant
            n == dirs@.len(),
            ds == texts(dirs@),
            fps == file_present@.map_values(|v: Vec<bool>| v@),
            dir_present@.len() == n,
            file_present@.len() == n,
            forall|j: int| 0 <= j < file_present@.len() ==> (#[trigger] file_present@[j])@.len() == 4,
            i <= n,
            texts(r@) == present_candidates(ds.take(i as int), name@, dir_present@.take(i as int), fps.take(i as int)),
        decreases n - i,
    {
        let ghost before = texts(r@);
        proof {
            assert(ds.take(i + 1).drop_last() =~= ds.take(i as int));
            assert(dir_present@.take(i + 1).take(i as int) =~= dir_present@.take(i as int));
            assert(fps.take(i + 1).take(i as int) =~= fps.take(i as int));
            assert(ds.take(i + 1)[i as int] == dirs@[i as int]@);
        }
        if dir_present[i] {
            let cands = pack_candidates(dirs[i].as_str(), name);
            let fp = &file_present[i];
            let ghost cs = texts(cands@);
            assert(cs.len() == cands@.len());
            let mut k: usize = 0;
            while k < 4
                invariant
                    cands@.len() == 4,
                    cs == texts(cands@),
                    fp@.len() == 4,
                    k <= 4,
                    texts(r@) == before + present_in(cs.take(k as int), fp@.take(k as int)),
                decreases 4 - k,
            {
                proof {
                    assert(cs.take(k + 1).drop_last() =~= cs.take(k as int));
                    assert(fp@.take(k + 1).take(k as int) =~= fp@.take(k as int));
                }
                let ghost prev = r@;
                assert(cs.take(k + 1).len() == k + 1);
                assert(cs.take(k + 1).last() == cs[k as int]);
                assert(fp@.take(k + 1)[k as int] == fp@[k as int]);
                if fp[k] {
                    r.push(cands[k].clone());
                    assert(texts(r@) =~= texts(prev).push(cands@[k as int]@));
                    assert(texts(r@) =~= before + present_in(cs.take(k + 1), fp@.take(k + 1)));
                } else {
                    assert(texts(r@) =~= before + present_in(cs.take(k + 1), fp@.take(k + 1)));
                }
                k = k + 1;
            }
            proof {
                assert(cs.take(4) =~= cs);
                assert(fp@.take(4) =~= fp@);
                assert(fps[i as int] == fp@);
            }
        }
        assert(texts(r@) =~= present_candidates(ds.take(i + 1), name@, dir_present@.take(i + 1), fps.take(i + 1)));
        i = i + 1;
    }
    assert(ds.take(n as int) =~= ds);
    assert(dir_present@.take(n as int) =~= dir_present@);
    assert(fps.take(n as int) =~= fps);
    r
}

} // verus!

verus! {

/// Whether `found[j]` is the last pack found under its name.
pub open spec fn is_latest(found: Seq<DiscoveredPack>, j: int) -> bool {
    forall|k: int| j < k < found.len() ==> (#[trigger] found[k]).name@ != found[j].name@
}

/// Every listed pack is the last pack found under its name.
pub open spec fn lists_only_latest(listed: Seq<DiscoveredPack>, found: Seq<DiscoveredPack>) -> bool {
    forall|i: int| #![trigger listed[i]] 0 <= i < listed.len() ==> exists|j: int|
        #![trigger found[j]] 0 <= j < found.len() && is_latest(found, j) && listed[i] == found[j]
}

/// Every pack found last under its name is listed.
pub open spec fn lists_every_latest(listed: Seq<DiscoveredPack>, found: Seq<DiscoveredPack>) -> bool {
    forall|j: int| #![trigger found[j]] 0 <= j < found.len() && is_latest(found, j) ==> exists|i: int|
        #![trigger listed[i]] 0 <= i < listed.len() && listed[i] == found[j]
}

/// `listed` lists the packs of `found`: each name once, in name order, each with the pack
/// found last under that name.
#[verifier::opaque]
pub open spec fn is_listing_of(listed: Seq<DiscoveredPack>, found: Seq<DiscoveredPack>) -> bool {
    &&& names_sorted(pack_names(listed))
    &&& lists_only_latest(listed, found)
    &&& lists_every_latest(listed, found)
}

proof fn lemma_sorted_names_differ(names: Seq<Seq<char>>, a: int, b: int)
    requires
        names_sorted(names),
        0 <= a < names.len(),
        0 <= b < names.len(),
        a != b,
    ensures
        names[a] != names[b],
{
    lemma_text_lt_irreflexive(names[a]);
    if a < b {
        assert(text_lt(names[a], names[b]));
    } else {
        assert(text_lt(names[b], names[a]));
    }
}

proof fn lemma_update_keeps_found(listed: Seq<DiscoveredPack>, found: Seq<DiscoveredPack>, e: DiscoveredPack, i: int)
    requires
        lists_only_latest(listed, found),
        names_sorted(pack_names(listed)),
        0 <= i < listed.len(),
        pack_names(listed)[i] == e.name@,
    ensures
        lists_only_latest(listed.update(i, e), found.push(e)),
{
    let nf = found.push(e);
    let nl = listed.update(i, e);
    let names = pack_names(listed);
    assert(is_latest(nf, found.len() as int));
    assert forall|x: int| #![trigger nl[x]] 0 <= x < nl.len() implies exists|j: int|
        #![trigger nf[j]] 0 <= j < nf.len() && is_latest(nf, j) && nl[x] == nf[j] by {
        if x == i {
            assert(nf[found.len() as int] == e);
        } else {
            assert(listed[x] == listed[x]);
            let j = choose|j: int| #![trigger found[j]] 0 <= j < found.len() && is_latest(found, j) && listed[x] == found[j];
            lemma_sorted_names_differ(names, x, i);
            assert(names[x] == listed[x].name@);
            assert(nf[j] == found[j]);
            assert forall|k: int| j < k < nf.len() implies (#[trigger] nf[k]).name@ != nf[j].name@ by {
                if k < found.len() {
                    assert(nf[k] == found[k]);
                }
            }
        }
    }
}

proof fn lemma_update_lists_latest(listed: Seq<DiscoveredPack>, found: Seq<DiscoveredPack>, e: DiscoveredPack, i: int)
    requires
        lists_every_latest(listed, found),
        0 <= i < listed.len(),
        pack_names(listed)[i] == e.name@,
    ensures
        lists_every_latest(listed.update(i, e), found.push(e)),
{
    let nf = found.push(e);
    let nl = listed.update(i, e);
    let names = pack_names(listed);
    assert forall|j: int| #![trigger nf[j]] 0 <= j < nf.len() && is_latest(nf, j) implies exists|x: int|
        #![trigger nl[x]] 0 <= x < nl.len() && nl[x] == nf[j] by {
        if j == found.len() {
            assert(nl[i] == e);
        } else {
            assert(nf[j] == found[j]);
            assert forall|k: int| j < k < found.len() implies (#[trigger] found[k]).name@ != found[j].name@ by {
                assert(nf[k] == found[k]);
            }
            assert(nf[found.len() as int] == e);
            assert(found[j].name@ != e.name@);
            assert(found[j] == found[j]);
            let x = choose|x: int| #![trigger listed[x]] 0 <= x < listed.len() && listed[x] == found[j];
            assert(0 <= x < listed.len());
            assert(names[x] == listed[x].name@);
            assert(x != i);
            assert(nl[x] == listed[x]);
        }
    }
}

proof fn lemma_listing_after_update(listed: Seq<DiscoveredPack>, found: Seq<DiscoveredPack>, e: DiscoveredPack, i: int)
    requires
        is_listing_of(listed, found),
        0 <= i < listed.len(),
        pack_names(listed)[i] == e.name@,
        names_sorted(pack_names(listed.update(i, e))),
    ensures
        is_listing_of(listed.update(i, e), found.push(e)),
{
    reveal(is_listing_of);
    lemma_update_keeps_found(listed, found, e, i);
    lemma_update_lists_latest(listed, found, e, i);
}

proof fn lemma_insert_keeps_found(listed: Seq<DiscoveredPack>, found: Seq<DiscoveredPack>, e: DiscoveredPack, p: int)
    requires
        lists_only_latest(listed, found),
        0 <= p <= listed.len(),
        forall|x: int| 0 <= x < listed.len() ==> (#[trigger] pack_names(listed)[x]) != e.name@,
    ensures
        lists_only_latest(listed.insert(p, e), found.push(e)),
{
    let nf = found.push(e);
    let nl = listed.insert(p, e);
    let names = pack_names(listed);
    assert(is_latest(nf, found.len() as int));
    assert forall|x: int| #![trigger nl[x]] 0 <= x < nl.len() implies exists|j: int|
        #![trigger nf[j]] 0 <= j < nf.len() && is_latest(nf, j) && nl[x] == nf[j] by {
        if x == p {
            assert(nf[found.len() as int] == e);
        } else {
            let y = if x < p { x } else { x - 1 };
            assert(nl[x] == listed[y]);
            assert(listed[y] == listed[y]);
            let j = choose|j: int| #![trigger found[j]] 0 <= j < found.len() && is_latest(found, j) && listed[y] == found[j];
            assert(names[y] == listed[y].name@);
            assert(nf[j] == found[j]);
            assert forall|k: int| j < k < nf.len() implies (#[trigger] nf[k]).name@ != nf[j].name@ by {
                if k < found.len() {
                    assert(nf[k] == found[k]);
                }
            }
        }
    }
}

proof fn lemma_insert_lists_latest(listed: Seq<DiscoveredPack>, found: Seq<DiscoveredPack>, e: DiscoveredPack, p: int)
    requires
        lists_every_latest(listed, found),
        0 <= p <= listed.len(),
    ensures
        lists_every_latest(listed.insert(p, e), found.push(e)),
{
    let nf = found.push(e);
    let nl = listed.insert(p, e);
    assert forall|j: int| #![trigger nf[j]] 0 <= j < nf.len() && is_latest(nf, j) implies exists|x: int|
        #![trigger nl[x]] 0 <= x < nl.len() && nl[x] == nf[j] by {
        if j == found.len() {
            assert(nl[p] == e);
        } else {
            assert(nf[j] == found[j]);
            assert forall|k: int| j < k < found.len() implies (#[trigger] found[k]).name@ != found[j].name@ by {
                assert(nf[k] == found[k]);
            }
            assert(found[j] == found[j]);
            let y = choose|y: int| #![trigger listed[y]] 0 <= y < listed.len() && listed[y] == found[j];
            let x = if y < p { y } else { y + 1 };
            assert(nl[x] == listed[y]);
        }
    }
}

proof fn lemma_listing_after_insert(listed: Seq<DiscoveredPack>, found: Seq<DiscoveredPack>, e: DiscoveredPack, p: int)
    requires
        is_listing_of(listed, found),
        0 <= p <= listed.len(),
        forall|x: int| 0 <= x < listed.len() ==> (#[trigger] pack_names(listed)[x]) != e.name@,
        names_sorted(pack_names(listed.insert(p, e))),
    ensures
        is_listing_of(listed.insert(p, e), found.push(e)),
{
    reveal(is_listing_of);
    lemma_insert_keeps_found(listed, found, e, p);
    lemma_insert_lists_latest(listed, found, e, p);
}

/// The packs a listing is built from, in the order they are taken: the compiled-in packs,
/// then each search directory's packs, from the directory of lowest precedence to the one
/// of highest precedence.
pub open spec fn listing_sources(
    builtins: Seq<(String, PackManifest)>,
    by_dir: Seq<Seq<(String, PackManifest)>>,
) -> Seq<(String, PackManifest)>
    decreases by_dir.len(),
{
    if by_dir.len() == 0 {
        builtins
    } else {
        listing_sources(builtins, by_dir.drop_first()) + by_dir[0]
    }
}

/// The entries a list of found manifests makes.
pub open spec fn found_entries(found: Seq<(String, PackManifest)>) -> Seq<DiscoveredPack> {
    found.map_values(|f: (String, PackManifest)| found_entry(f.0, f.1))
}

/// Lists the available packs. `builtins` are the compiled-in packs that load; `by_dir[d]`
/// holds the packs found in the `d`-th search directory, highest precedence first. A pack
/// found in a directory replaces a compiled-in pack of the same name and one found in a
/// directory of lower precedence; the list is in name order with each name once.
pub fn merge_listing(
    builtins: Vec<(String, PackManifest)>,
    by_dir: Vec<Vec<(String, PackManifest)>>,
) -> (r: Vec<DiscoveredPack>)
    ensures
        is_listing_of(r@, found_entries(listing_sources(builtins@, by_dir@.map_values(|v: Vec<(String, PackManifest)>| v@)))),
{
    let ghost dirs = by_dir@.map_values(|v: Vec<(String, PackManifest)>| v@);
    let mut index = PackIndex::new();
    let ghost mut found: Seq<DiscoveredPack> = Seq::empty();
    proof {
        reveal(is_listing_of);
    }
    let mut rest = builtins;
    let ghost all = rest@;
    let ghost mut taken: int = 0;
    while rest.len() > 0
        invariant
            index.well_formed(),
            is_listing_of(index.entries(), found),
            rest@ == all.skip(taken),
            0 <= taken <= all.len(),
            found == found_entries(all.take(taken)),
        decreases rest.len(),
    {
        let (path, manifest) = rest.remove(0);
        let ghost e = found_entry(path, manifest);
        let ghost before = index.entries();
        index.insert(path, manifest);
        proof {
            lemma_listing_step(before, found, e, index.entries());
            found = found.push(e);
            assert(all[taken] == (path, manifest));
            assert(all.take(taken + 1) =~= all.take(taken).push(all[taken]));
            assert(found_entries(all.take(taken + 1)) =~= found_entries(all.take(taken)).push(e));
            assert(rest@ =~= all.skip(taken + 1));
            taken = taken + 1;
        }
    }
    proof {
        assert(all.take(taken) =~= all);
        assert(dirs.skip(dirs.len() as int) =~= Seq::<Seq<(String, PackManifest)>>::empty());
    }
    let mut dirs_left = by_dir;
    while dirs_left.len() > 0
        invariant
            index.well_formed(),
            is_listing_of(index.entries(), found),
            dirs == by_dir@.map_values(|v: Vec<(String, PackManifest)>| v@),
            dirs_left@.len() <= dirs.len(),
            dirs_left@.map_values(|v: Vec<(String, PackManifest)>| v@) == dirs.take(dirs_left@.len() as int),
            found == found_entries(listing_sources(all, dirs.skip(dirs_left@.len() as int))),
        decreases dirs_left.len(),
    {
        let ghost m = dirs_left@.len() as int;
        let ghost old_left = dirs_left@;
        let mut entries = dirs_left.pop().unwrap();
        let ghost dir_all = entries@;
        proof {
            assert(old_left.map_values(|v: Vec<(String, PackManifest)>| v@)[m - 1] == old_left[m - 1]@);
            assert(dirs.take(m)[m - 1] == dirs[m - 1]);
            assert(dir_all == dirs[m - 1]);
            assert(dirs_left@.map_values(|v: Vec<(String, PackManifest)>| v@) =~= dirs.take(m - 1));
        }
        let ghost base = found;
        let ghost mut done: int = 0;
        while entries.len() > 0
            invariant
                index.well_formed(),
                is_listing_of(index.entries(), found),
                entries@ == dir_all.skip(done),
                0 <= done <= dir_all.len(),
                found == base + found_entries(dir_all.take(done)),
            decreases entries.len(),
        {
            let (path, manifest) = entries.remove(0);
            let ghost e = found_entry(path, manifest);
            let ghost before = index.entries();
            index.insert(path, manifest);
            proof {
                lemma_listing_step(before, found, e, index.entries());
                found = found.push(e);
                assert(dir_all[done] == (path, manifest));
                assert(dir_all.take(done + 1) =~= dir_all.take(done).push(dir_all[done]));
                assert(found_entries(dir_all.take(done + 1)) =~= found_entries(dir_all.take(done)).push(e));
                assert(found =~= base + found_entries(dir_all.take(done + 1)));
                assert(entries@ =~= dir_all.skip(done + 1));
                done = done + 1;
            }
        }
        proof {
            assert(dir_all.take(done) =~= dir_all);
            let s = dirs.skip(m - 1);
            assert(s.drop_first() =~= dirs.skip(m));
            assert(s[0] == dir_all);
            assert(listing_sources(all, s) == listing_sources(all, s.drop_first()) + s[0]);
            assert(found_entries(listing_sources(all, dirs.skip(m)) + dir_all)
                =~= found_entries(listing_sources(all, dirs.skip(m))) + found_entries(dir_all));
        }
    }
    proof {
        assert(dirs.skip(0) =~= dirs);
    }
    index.into_packs()
}

proof fn lemma_listing_step(before: Seq<DiscoveredPack>, found: Seq<DiscoveredPack>, e: DiscoveredPack, after: Seq<DiscoveredPack>)
    requires
        is_listing_of(before, found),
        names_sorted(pack_names(after)),
        (exists|i: int| 0 <= i < before.len() && #[trigger] pack_names(before)[i] == e.name@) ==>
            (exists|i: int| 0 <= i < before.len() && #[trigger] pack_names(before)[i] == e.name@
                && after == before.update(i, e)),
        !(exists|i: int| 0 <= i < before.len() && #[trigger] pack_names(before)[i] == e.name@) ==>
            (exists|j: int| 0 <= j <= before.len() && after == #[trigger] before.insert(j, e)),
    ensures
        is_listing_of(after, found.push(e)),
{
    if exists|i: int| 0 <= i < before.len() && #[trigger] pack_names(before)[i] == e.name@ {
        let i = choose|i: int| 0 <= i < before.len() && #[trigger] pack_names(before)[i] == e.name@
            && after == before.update(i, e);
        lemma_listing_after_update(before, found, e, i);
    } else {
        let j = choose|j: int| 0 <= j <= before.len() && after == #[trigger] before.insert(j, e);
        lemma_listing_after_insert(before, found, e, j);
    }
}

} // verus!

verus! {

/// Whether some found manifest declares the name `n`.
pub open spec fn holds_name(entries: Seq<(String, PackManifest)>, n: Seq<char>) -> bool {
    exists|k: int| 0 <= k < entries.len() && (#[trigger] entries[k]).1.metadata.name@ == n
}

/// Whether `entries[k]` is the last found manifest with its name.
pub open spec fn is_last_of_name(entries: Seq<(String, PackManifest)>, k: int) -> bool {
    forall|q: int| k < q < entries.len() ==> (#[trigger] entries[q]).1.metadata.name@ != entries[k].1.metadata.name@
}

proof fn lemma_source_position_in_dir(
    builtins: Seq<(String, PackManifest)>,
    by_dir: Seq<Seq<(String, PackManifest)>>,
    d: int,
    k: int,
) -> (p: int)
    requires
        0 <= d < by_dir.len(),
        0 <= k < by_dir[d].len(),
        is_last_of_name(by_dir[d], k),
        forall|e: int| 0 <= e < d ==> !holds_name(#[trigger] by_dir[e], by_dir[d][k].1.metadata.name@),
    ensures
        0 <= p < listing_sources(builtins, by_dir).len(),
        listing_sources(builtins, by_dir)[p] == by_dir[d][k],
        is_last_of_name(listing_sources(builtins, by_dir), p),
    decreases by_dir.len(),
{
    let src = listing_sources(builtins, by_dir);
    let head = listing_sources(builtins, by_dir.drop_first());
    let n = by_dir[d][k].1.metadata.name@;
    assert(src == head + by_dir[0]);
    if d == 0 {
        let p = head.len() + k;
        assert forall|q: int| p < q < src.len() implies (#[trigger] src[q]).1.metadata.name@ != src[p].1.metadata.name@ by {
            assert(src[q] == by_dir[0][q - head.len()]);
        }
        p
    } else {
        assert forall|e: int| 0 <= e < d - 1 implies !holds_name(#[trigger] by_dir.drop_first()[e], n) by {
            assert(by_dir.drop_first()[e] == by_dir[e + 1]);
        }
        assert(by_dir.drop_first()[d - 1] == by_dir[d]);
        let p = lemma_source_position_in_dir(builtins, by_dir.drop_first(), d - 1, k);
        assert(!holds_name(by_dir[0], n));
        assert forall|q: int| p < q < src.len() implies (#[trigger] src[q]).1.metadata.name@ != src[p].1.metadata.name@ by {
            if q < head.len() {
                assert(src[q] == head[q]);
            } else {
                assert(src[q] == by_dir[0][q - head.len()]);
            }
        }
        p
    }
}

proof fn lemma_source_position_builtin(
    builtins: Seq<(String, PackManifest)>,
    by_dir: Seq<Seq<(String, PackManifest)>>,
    k: int,
)
    requires
        0 <= k < builtins.len(),
        is_last_of_name(builtins, k),
        forall|e: int| 0 <= e < by_dir.len() ==> !holds_name(#[trigger] by_dir[e], builtins[k].1.metadata.name@),
    ensures
        k < listing_sources(builtins, by_dir).len(),
        listing_sources(builtins, by_dir)[k] == builtins[k],
        is_last_of_name(listing_sources(builtins, by_dir), k),
    decreases by_dir.len(),
{
    let src = listing_sources(builtins, by_dir);
    if by_dir.len() > 0 {
        let head = listing_sources(builtins, by_dir.drop_first());
        assert forall|e: int| 0 <= e < by_dir.drop_first().len() implies !holds_name(
            #[trigger] by_dir.drop_first()[e],
            builtins[k].1.metadata.name@,
        ) by {
            assert(by_dir.drop_first()[e] == by_dir[e + 1]);
        }
        lemma_source_position_builtin(builtins, by_dir.drop_first(), k);
        assert(!holds_name(by_dir[0], builtins[k].1.metadata.name@));
        assert forall|q: int| k < q < src.len() implies (#[trigger] src[q]).1.metadata.name@ != src[k].1.metadata.name@ by {
            if q < head.len() {
                assert(src[q] == head[q]);
            } else {
                assert(src[q] == by_dir[0][q - head.len()]);
            }
        }
    }
}

proof fn lemma_latest_is_listed(found: Seq<(String, PackManifest)>, listed: Seq<DiscoveredPack>, p: int)
    requires
        is_listing_of(listed, found_entries(found)),
        0 <= p < found.len(),
        is_last_of_name(found, p),
    ensures
        exists|i: int| 0 <= i < listed.len() && listed[i] == found_entry(found[p].0, found[p].1),
{
    reveal(is_listing_of);
    let fe = found_entries(found);
    assert forall|q: int| p < q < fe.len() implies (#[trigger] fe[q]).name@ != fe[p].name@ by {
        assert(found[q].1.metadata.name@ != found[p].1.metadata.name@);
    }
    assert(is_latest(fe, p));
    assert(fe[p] == found_entry(found[p].0, found[p].1));
}

/// The listing keeps the pack of the highest precedence: a pack that a search directory
/// holds is listed, as the last one of its name in that directory, unless a directory of
/// higher precedence (a lower index) holds a pack of the same name.
pub proof fn lemma_higher_precedence_wins(
    builtins: Seq<(String, PackManifest)>,
    by_dir: Seq<Seq<(String, PackManifest)>>,
    listed: Seq<DiscoveredPack>,
    d: int,
    k: int,
)
    requires
        is_listing_of(listed, found_entries(listing_sources(builtins, by_dir))),
        0 <= d < by_dir.len(),
        0 <= k < by_dir[d].len(),
        is_last_of_name(by_dir[d], k),
        forall|e: int| 0 <= e < d ==> !holds_name(#[trigger] by_dir[e], by_dir[d][k].1.metadata.name@),
    ensures
        exists|i: int| 0 <= i < listed.len() && listed[i] == found_entry(by_dir[d][k].0, by_dir[d][k].1),
{
    let p = lemma_source_position_in_dir(builtins, by_dir, d, k);
    lemma_latest_is_listed(listing_sources(builtins, by_dir), listed, p);
}

/// A compiled-in pack is listed, as the last one of its name, when no search directory
/// holds a pack of the same name.
pub proof fn lemma_builtin_listed_without_override(
    builtins: Seq<(String, PackManifest)>,
    by_dir: Seq<Seq<(String, PackManifest)>>,
    listed: Seq<DiscoveredPack>,
    k: int,
)
    requires
        is_listing_of(listed, found_entries(listing_sources(builtins, by_dir))),
        0 <= k < builtins.len(),
        is_last_of_name(builtins, k),
        forall|e: int| 0 <= e < by_dir.len() ==> !holds_name(#[trigger] by_dir[e], builtins[k].1.metadata.name@),
    ensures
        exists|i: int| 0 <= i < listed.len() && listed[i] == found_entry(builtins[k].0, builtins[k].1),
{
    lemma_source_position_builtin(builtins, by_dir, k);
    lemma_latest_is_listed(listing_sources(builtins, by_dir), listed, k);
}

} // verus!

verus! {

/// A search for a pack through its candidate manifest files, tried in order, with the
/// compiled-in packs as the fall-back.
pub struct PackSearch {
    name: String,
    dirs: Vec<String>,
    candidates: Vec<String>,
    tried: usize,
}

/// What a search does after a candidate file was loaded.
#[derive(Debug)]
pub enum SearchStep {
    /// The candidate is not the pack: go on with the next one.
    Continue,
    /// The candidate holds the pack.
    Found { path: String, manifest: PackManifest },
    /// The candidate could not be loaded: the search ends with this error.
    Failed(JevOpsError),
}

/// How a search ends when no candidate file holds the pack.
#[derive(Debug)]
pub enum SearchEnd {
    /// The compiled-in pack of that name, and the path it is known by.
    Builtin { path: String, pack: BuiltinPack },
    /// No pack of that name anywhere.
    NotFound(JevOpsError),
}

impl PackSearch {
    /// The name searched for.
    pub closed spec fn name_text(&self) -> Seq<char> {
        self.name@
    }

    /// The search directories, in precedence order.
    pub closed spec fn dir_texts(&self) -> Seq<Seq<char>> {
        texts(self.dirs@)
    }

    /// The candidate files, in the order they are tried.
    pub closed spec fn candidate_texts(&self) -> Seq<Seq<char>> {
        texts(self.candidates@)
    }

    /// How many candidates have been tried.
    pub closed spec fn tried(&self) -> nat {
        self.tried as nat
    }

    /// A search for pack `name` through `candidates`, the candidate files found in `dirs`.
    pub fn new(name: &str, dirs: Vec<String>, candidates: Vec<String>) -> (s: PackSearch)
        ensures
            s.name_text() == name@,
            s.dir_texts() == texts(dirs@),
            s.candidate_texts() == texts(candidates@),
            s.tried() == 0,
    {
        PackSearch { name: String::from_str(name), dirs, candidates, tried: 0 }
    }

    /// The next candidate file to load, or `None` when every candidate has been tried.
    pub fn next_candidate(&self) -> (r: Option<String>)
        ensures
            self.tried() < self.candidate_texts().len() ==> (r matches Some(p) && p@ == self.candidate_texts()[self.tried() as int]),
            self.tried() >= self.candidate_texts().len() ==> r is None,
    {
        if self.tried < self.candidates.len() {
            Some(self.candidates[self.tried].clone())
        } else {
            None
        }
    }

    /// Takes the outcome of loading the next candidate: an error ends the search, a
    /// manifest that declares the pack's name is the pack, and any other manifest sends the
    /// search on to the next candidate.
    pub fn record(&mut self, loaded: Result<PackManifest, JevOpsError>) -> (r: SearchStep)
        requires
            old(self).tried() < old(self).candidate_texts().len(),
        ensures
            final(self).name_text() == old(self).name_text(),
            final(self).dir_texts() == old(self).dir_texts(),
            final(self).candidate_texts() == old(self).candidate_texts(),
            final(self).tried() == old(self).tried() + 1,
            match loaded {
                Err(e) => r == SearchStep::Failed(e),
                Ok(m) => if m.metadata.name@ == old(self).name_text() {
                    r matches SearchStep::Found { path, manifest } && manifest == m
                        && path@ == old(self).candidate_texts()[old(self).tried() as int]
                } else {
                    r is Continue
                },
            },
    {
        assert(texts(self.candidates@).len() == self.candidates@.len());
        let n = self.candidates.len();
        assert(self.tried < n);
        let path = self.candidates[self.tried].clone();
        self.tried = self.tried + 1;
        match loaded {
            Err(e) => SearchStep::Failed(e),
            Ok(m) => {
                if manifest_matches(&m, self.name.as_str()) {
                    SearchStep::Found { path, manifest: m }
                } else {
                    SearchStep::Continue
                }
            },
        }
    }

    /// The end of a search that found the pack in no candidate file: the compiled-in pack
    /// of that name, known as `<embedded:NAME>`, or else the error that lists the
    /// directories searched.
    pub fn finish(&self) -> (r: SearchEnd)
        ensures
            is_builtin_name(self.name_text()) ==> (r matches SearchEnd::Builtin { path, pack }
                && path@ == "<embedded:"@ + self.name_text() + ">"@ && pack.name@ == self.name_text()
                && builtin_catalog().contains(pack)),
            !is_builtin_name(self.name_text()) ==> (r matches SearchEnd::NotFound(JevOpsError::PackNotFound { name, searched })
                && name@ == self.name_text() && searched@ == joined(self.dir_texts(), ", "@)),
    {
        match get_builtin_pack(self.name.as_str()) {
            Some(pack) => SearchEnd::Builtin { path: embedded_path(self.name.as_str()), pack },
            None => SearchEnd::NotFound(pack_not_found(self.name.as_str(), &self.dirs)),
        }
    }
}

} // verus!
