use vstd::prelude::*;
use crate::core_config::CoreConfig;
use crate::descriptor::{Descriptor, Permission, Platform};
use crate::schema::ValidationError;
use crate::state_store::{join, join_path};
use crate::text::{concat2, concat3, owned, str_eq};

verus! {

/// Lexicographic order of texts by character (the order of `String`).
pub open spec fn text_lt(a: Seq<char>, b: Seq<char>) -> bool
    decreases a.len(),
{
    if a.len() == 0 {
        b.len() > 0
    } else if b.len() == 0 {
        false
    } else if a[0] != b[0] {
        (a[0] as int) < (b[0] as int)
    } else {
        text_lt(a.drop_first(), b.drop_first())
    }
}

pub proof fn lemma_text_lt_irreflexive(a: Seq<char>)
    ensures
        !text_lt(a, a),
    decreases a.len(),
{
    if a.len() > 0 {
        lemma_text_lt_irreflexive(a.drop_first());
    }
}

pub proof fn lemma_text_lt_transitive(a: Seq<char>, b: Seq<char>, c: Seq<char>)
    requires
        text_lt(a, b),
        text_lt(b, c),
    ensures
        text_lt(a, c),
    decreases a.len(),
{
    if a.len() > 0 && b.len() > 0 && c.len() > 0 {
        if a[0] == b[0] && b[0] == c[0] {
            lemma_text_lt_transitive(a.drop_first(), b.drop_first(), c.drop_first());
        }
    }
}

pub proof fn lemma_text_lt_total(a: Seq<char>, b: Seq<char>)
    ensures
        a == b || text_lt(a, b) || text_lt(b, a),
    decreases a.len(),
{
    if a.len() > 0 && b.len() > 0 && a[0] == b[0] {
        lemma_text_lt_total(a.drop_first(), b.drop_first());
        if a.drop_first() == b.drop_first() {
            assert(a.drop_first().len() == b.drop_first().len());
            assert(a.len() == b.len());
            assert forall|i: int| 0 <= i < a.len() implies a[i] == b[i] by {
                if i > 0 {
                    assert(a[i] == a.drop_first()[i - 1]);
                    assert(b[i] == b.drop_first()[i - 1]);
                }
            }
            assert(a =~= b);
        }
    } else if a.len() == 0 && b.len() == 0 {
        assert(a =~= b);
    } else if a.len() > 0 && b.len() > 0 {
        assert(a[0] != b[0]);
        assert((a[0] as int) != (b[0] as int));
    }
}

/// Whether `a` comes before `b`.
pub fn str_lt(a: &str, b: &str) -> (r: bool)
    ensures
        r == text_lt(a@, b@),
{
    let n = a.unicode_len();
    let m = b.unicode_len();
    let mut i: usize = 0;
    assert(a@.skip(0) =~= a@);
    assert(b@.skip(0) =~= b@);
    while i < n && i < m
        invariant
            n == a@.len(),
            m == b@.len(),
            i <= n,
            i <= m,
            forall|j: int| 0 <= j < i ==> a@[j] == b@[j],
            text_lt(a@, b@) == text_lt(a@.skip(i as int), b@.skip(i as int)),
        decreases n - i,
    {
        let x = a.get_char(i);
        let y = b.get_char(i);
        if x != y {
            assert(a@.skip(i as int)[0] == x);
            assert(b@.skip(i as int)[0] == y);
            return (x as u32) < (y as u32);
        }
        assert(a@.skip(i as int).drop_first() =~= a@.skip(i + 1));
        assert(b@.skip(i as int).drop_first() =~= b@.skip(i + 1));
        i = i + 1;
    }
    i < m
}

/// An extension found on disk: its folder, manifest and component.
#[derive(Debug)]
pub struct Extension {
    pub root: String,
    pub descriptor: Descriptor,
    pub wasm_component_path: String,
}

impl Extension {
    pub fn runtime_artifact_path(&self) -> (p: &str)
        ensures
            p@ == self.wasm_component_path@,
    {
        self.wasm_component_path.as_str()
    }
}

/// Why the extensions could not be loaded.
#[derive(Debug)]
pub enum ExtensionError {
    Io(String),
    Validation(ValidationError),
    MissingFile(String),
    InvalidArtifact(String),
}

impl ExtensionError {
    pub open spec fn message(&self) -> Seq<char> {
        match self {
            ExtensionError::Io(m) => "I/O error: "@ + m@,
            ExtensionError::Validation(v) => "manifest validation error: "@ + v.message(),
            ExtensionError::MissingFile(m) => "extension is missing required file: "@ + m@,
            ExtensionError::InvalidArtifact(m) => "invalid extension runtime artifact: "@ + m@,
        }
    }

    pub fn to_string(&self) -> (s: String)
        ensures
            s@ == self.message(),
    {
        match self {
            ExtensionError::Io(m) => concat2("I/O error: ", m.as_str()),
            ExtensionError::Validation(v) => concat2("manifest validation error: ", v.to_string().as_str()),
            ExtensionError::MissingFile(m) => concat2("extension is missing required file: ", m.as_str()),
            ExtensionError::InvalidArtifact(m) => concat2("invalid extension runtime artifact: ", m.as_str()),
        }
    }
}

/// The component file a manifest must name: `<id>.wasm`.
pub open spec fn expected_artifact(id: Seq<char>) -> Seq<char> {
    id + ".wasm"@
}

/// The component file named by a manifest, or why the manifest cannot be
/// loaded: it has no component runtime, or names another file.
pub fn declared_artifact(descriptor: &Descriptor) -> (r: Result<String, ExtensionError>)
    ensures
        match descriptor.runtime {
            Some(rt) => if rt.artifact@ == expected_artifact(descriptor.id@) {
                r matches Ok(a) && a@ == rt.artifact@
            } else {
                r matches Err(ExtensionError::InvalidArtifact(m)) && m@ == "extension "@ + descriptor.id@
                    + " artifact must be named "@ + expected_artifact(descriptor.id@) + ", got "@
                    + rt.artifact@
            },
            None => r matches Err(ExtensionError::InvalidArtifact(m)) && m@ == "extension "@
                + descriptor.id@
                + " must declare a wasm-component runtime; TypeScript compatibility was removed"@,
        },
{
    match &descriptor.runtime {
        Some(rt) => {
            let expected = concat2(descriptor.id.as_str(), ".wasm");
            if str_eq(rt.artifact.as_str(), expected.as_str()) {
                Ok(owned(rt.artifact.as_str()))
            } else {
                let a = concat3("extension ", descriptor.id.as_str(), " artifact must be named ");
                let b = concat3(a.as_str(), expected.as_str(), ", got ");
                Err(ExtensionError::InvalidArtifact(concat2(b.as_str(), rt.artifact.as_str())))
            }
        },
        None => Err(
            ExtensionError::InvalidArtifact(
                concat3(
                    "extension ",
                    descriptor.id.as_str(),
                    " must declare a wasm-component runtime; TypeScript compatibility was removed",
                ),
            ),
        ),
    }
}

/// What the file system says of a declared component file.
#[derive(Debug, Clone, Copy)]
pub struct ArtifactFacts {
    pub exists: bool,
    pub is_file: bool,
    /// Its canonical path lies directly in the package folder.
    pub inside_package: bool,
}

/// Whether a declared component file may be loaded, given what the file
/// system says of it (`folder` and `path` as they are displayed).
pub fn check_artifact(id: &str, folder: &str, artifact: &str, path: &str, facts: ArtifactFacts) -> (r:
    Result<(), ExtensionError>)
    ensures
        !facts.exists ==> (r matches Err(ExtensionError::MissingFile(m)) && m@ == folder@
            + " does not contain "@ + artifact@),
        facts.exists && !facts.is_file ==> (r matches Err(ExtensionError::InvalidArtifact(m)) && m@
            == "extension "@ + id@ + " artifact "@ + path@ + " is not a file"@),
        facts.exists && facts.is_file && !facts.inside_package ==> (r matches Err(
            ExtensionError::InvalidArtifact(m),
        ) && m@ == "extension "@ + id@ + " artifact resolves outside its package"@),
        facts.exists && facts.is_file && facts.inside_package ==> r is Ok,
{
    if !facts.exists {
        return Err(ExtensionError::MissingFile(concat3(folder, " does not contain ", artifact)));
    }
    if !facts.is_file {
        let a = concat3("extension ", id, " artifact ");
        return Err(ExtensionError::InvalidArtifact(concat3(a.as_str(), path, " is not a file")));
    }
    if !facts.inside_package {
        return Err(
            ExtensionError::InvalidArtifact(
                concat3("extension ", id, " artifact resolves outside its package"),
            ),
        );
    }
    Ok(())
}

/// An extension runs where its manifest names no platform, or names this one.
pub open spec fn supports(ext: Extension, platform: Platform) -> bool {
    ext.descriptor.platforms@.len() == 0 || ext.descriptor.platforms@.contains(platform)
}

pub fn supports_platform(extension: &Extension, platform: Platform) -> (r: bool)
    ensures
        r == supports(*extension, platform),
{
    let ps = &extension.descriptor.platforms;
    if ps.len() == 0 {
        return true;
    }
    let mut i: usize = 0;
    while i < ps.len()
        invariant
            i <= ps@.len(),
            ps@ == extension.descriptor.platforms@,
            forall|j: int| 0 <= j < i ==> ps@[j] != platform,
        decreases ps.len() - i,
    {
        if ps[i] == platform {
            assert(ps@[i as int] == platform);
            assert(ps@.contains(platform));
            return true;
        }
        i = i + 1;
    }
    false
}

pub fn check_permission(ext: &Extension, permission: Permission) -> (r: bool)
    ensures
        r == ext.descriptor.permissions@.contains(permission),
{
    let ps = &ext.descriptor.permissions;
    let mut i: usize = 0;
    while i < ps.len()
        invariant
            i <= ps@.len(),
            ps@ == ext.descriptor.permissions@,
            forall|j: int| 0 <= j < i ==> ps@[j] != permission,
        decreases ps.len() - i,
    {
        if ps[i] == permission {
            assert(ps@[i as int] == permission);
            assert(ps@.contains(permission));
            return true;
        }
        i = i + 1;
    }
    false
}

} // verus!

verus! {

pub open spec fn ids_of(entries: Seq<Extension>) -> Seq<Seq<char>> {
    entries.map_values(|e: Extension| e.descriptor.id@)
}

/// Ids in strictly increasing order (so each occurs once).
pub open spec fn sorted_ids(ids: Seq<Seq<char>>) -> bool {
    forall|i: int, j: int| 0 <= i < j < ids.len() ==> text_lt(#[trigger] ids[i], #[trigger] ids[j])
}

/// The loaded extensions, one per id, in the order of their ids.
#[derive(Debug)]
pub struct Registry {
    entries: Vec<Extension>,
}

impl Registry {
    pub closed spec fn entries(&self) -> Seq<Extension> {
        self.entries@
    }

    pub open spec fn wf(&self) -> bool {
        sorted_ids(ids_of(self.entries()))
    }

    pub fn new() -> (r: Registry)
        ensures
            r.entries().len() == 0,
            r.wf(),
    {
        Registry { entries: Vec::new() }
    }

    /// Adds an extension; one with the same id is replaced.
    pub fn insert(&mut self, ext: Extension)
        requires
            old(self).wf(),
        ensures
            final(self).wf(),
            (exists|p: int|
                0 <= p < old(self).entries().len() && old(self).entries()[p].descriptor.id@ == ext.descriptor.id@
                    && final(self).entries() == old(self).entries().update(p, ext)) || (!ids_of(
                old(self).entries(),
            ).contains(ext.descriptor.id@) && exists|p: int|
                0 <= p <= old(self).entries().len() && final(self).entries() == old(self).entries().insert(
                    p,
                    ext,
                )),
    {
        let ghost old_entries = self.entries@;
        let ghost id = ext.descriptor.id@;
        let mut p: usize = 0;
        while p < self.entries.len() && str_lt(self.entries[p].descriptor.id.as_str(), ext.descriptor.id.as_str())
            invariant
                p <= self.entries@.len(),
                self.entries@ == old_entries,
                id == ext.descriptor.id@,
                sorted_ids(ids_of(old_entries)),
                forall|j: int| 0 <= j < p ==> text_lt(#[trigger] old_entries[j].descriptor.id@, id),
            decreases self.entries.len() - p,
        {
            p = p + 1;
        }
        proof {
            assert forall|j: int| p <= j < old_entries.len() implies !text_lt(
                #[trigger] old_entries[j].descriptor.id@,
                id,
            ) by {
                if j > p {
                    assert(text_lt(ids_of(old_entries)[p as int], ids_of(old_entries)[j]));
                    if text_lt(old_entries[j].descriptor.id@, id) {
                        lemma_text_lt_transitive(
                            old_entries[p as int].descriptor.id@,
                            old_entries[j].descriptor.id@,
                            id,
                        );
                    }
                }
            }
        }
        if p < self.entries.len() && str_eq(self.entries[p].descriptor.id.as_str(), ext.descriptor.id.as_str()) {
            self.entries.set(p, ext);
            proof {
                assert(self.entries@ == old_entries.update(p as int, ext));
                assert forall|i: int, j: int| 0 <= i < j < ids_of(self.entries@).len() implies text_lt(
                    #[trigger] ids_of(self.entries@)[i],
                    #[trigger] ids_of(self.entries@)[j],
                ) by {
                    assert(ids_of(self.entries@)[i] == ids_of(old_entries)[i]);
                    assert(ids_of(self.entries@)[j] == ids_of(old_entries)[j]);
                }
            }
        } else {
            self.entries.insert(p, ext);
            proof {
                assert(self.entries@ == old_entries.insert(p as int, ext));
                if p < old_entries.len() {
                    lemma_text_lt_total(old_entries[p as int].descriptor.id@, id);
                }
                assert forall|j: int| p <= j < old_entries.len() implies text_lt(
                    id,
                    #[trigger] old_entries[j].descriptor.id@,
                ) by {
                    if j > p {
                        assert(text_lt(ids_of(old_entries)[p as int], ids_of(old_entries)[j]));
                        lemma_text_lt_transitive(id, old_entries[p as int].descriptor.id@, old_entries[j].descriptor.id@);
                    }
                }
                assert forall|i: int, j: int| 0 <= i < j < ids_of(self.entries@).len() implies text_lt(
                    #[trigger] ids_of(self.entries@)[i],
                    #[trigger] ids_of(self.entries@)[j],
                ) by {
                    if j < p {
                        assert(ids_of(old_entries)[i] == ids_of(self.entries@)[i]);
                        assert(ids_of(old_entries)[j] == ids_of(self.entries@)[j]);
                    } else if j == p {
                        assert(ids_of(self.entries@)[i] == old_entries[i].descriptor.id@);
                    } else if i < p {
                        assert(ids_of(self.entries@)[i] == old_entries[i].descriptor.id@);
                        assert(ids_of(self.entries@)[j] == old_entries[j - 1].descriptor.id@);
                        lemma_text_lt_transitive(old_entries[i].descriptor.id@, id, old_entries[j - 1].descriptor.id@);
                    } else if i == p {
                        assert(ids_of(self.entries@)[j] == old_entries[j - 1].descriptor.id@);
                    } else {
                        assert(ids_of(self.entries@)[i] == ids_of(old_entries)[i - 1]);
                        assert(ids_of(self.entries@)[j] == ids_of(old_entries)[j - 1]);
                    }
                }
                assert forall|j: int| 0 <= j < old_entries.len() implies #[trigger] ids_of(old_entries)[j] != id by {
                    if j < p {
                        lemma_text_lt_irreflexive(id);
                    } else {
                        lemma_text_lt_irreflexive(id);
                    }
                }
            }
        }
    }

    /// The extension with this id.
    pub fn get(&self, id: &str) -> (r: Option<&Extension>)
        ensures
            match r {
                Some(e) => e.descriptor.id@ == id@ && self.entries().contains(*e),
                None => !ids_of(self.entries()).contains(id@),
            },
    {
        let mut i: usize = 0;
        while i < self.entries.len()
            invariant
                i <= self.entries@.len(),
                forall|j: int| 0 <= j < i ==> self.entries@[j].descriptor.id@ != id@,
            decreases self.entries.len() - i,
        {
            if str_eq(self.entries[i].descriptor.id.as_str(), id) {
                assert(self.entries@.contains(self.entries@[i as int]));
                return Some(&self.entries[i]);
            }
            i = i + 1;
        }
        assert forall|j: int| 0 <= j < ids_of(self.entries@).len() implies #[trigger] ids_of(self.entries@)[j] != id@ by {
            assert(ids_of(self.entries@)[j] == self.entries@[j].descriptor.id@);
        }
        None
    }

    /// The extensions in the order of their ids.
    pub fn list(&self) -> (r: &Vec<Extension>)
        ensures
            r@ == self.entries(),
    {
        &self.entries
    }

    /// Keeps the extensions that are enabled and run on `platform`.
    pub fn filter_for_runtime(self, core_config: &CoreConfig, platform: Platform) -> (r: Registry)
        requires
            self.wf(),
        ensures
            r.wf(),
            r.entries() == self.entries().filter(
                |e: Extension| !core_config.disables(e.descriptor.id@) && supports(e, platform),
            ),
    {
        let ghost pred = |e: Extension| !core_config.disables(e.descriptor.id@) && supports(e, platform);
        let ghost all = self.entries@;
        let mut rest = self.entries;
        let total = rest.len();
        let mut kept: Vec<Extension> = Vec::new();
        let mut i: usize = 0;
        assert(rest@ =~= all.skip(0));
        while rest.len() > 0
            invariant
                i + rest@.len() == all.len(),
                all.len() == total,
                rest@ == all.skip(i as int),
                kept@ == all.take(i as int).filter(pred),
                sorted_ids(ids_of(all)),
                sorted_ids(ids_of(kept@)),
                forall|a: int, j: int|
                    0 <= a < kept@.len() && i <= j < all.len() ==> text_lt(
                        #[trigger] kept@[a].descriptor.id@,
                        #[trigger] all[j].descriptor.id@,
                    ),
                pred == (|e: Extension| !core_config.disables(e.descriptor.id@) && supports(e, platform)),
            decreases rest@.len(),
        {
            let ext = rest.remove(0);
            assert(ext == all[i as int]);
            assert(all.take(i + 1).drop_last() =~= all.take(i as int));
            assert(all.take(i + 1).last() == ext);
            proof {
                reveal(Seq::filter);
            }
            let keep = core_config.is_extension_enabled(ext.descriptor.id.as_str()) && supports_platform(&ext, platform);
            assert(keep == pred(ext));
            let ghost before = kept@;
            if keep {
                kept.push(ext);
                proof {
                    assert forall|a: int, b: int| 0 <= a < b < ids_of(kept@).len() implies text_lt(
                        #[trigger] ids_of(kept@)[a],
                        #[trigger] ids_of(kept@)[b],
                    ) by {
                        assert(ids_of(kept@)[a] == kept@[a].descriptor.id@);
                        assert(ids_of(kept@)[b] == kept@[b].descriptor.id@);
                        if b < before.len() {
                            assert(ids_of(before)[a] == before[a].descriptor.id@);
                            assert(ids_of(before)[b] == before[b].descriptor.id@);
                        }
                    }
                }
            }
            proof {
                assert forall|a: int, j: int|
                    0 <= a < kept@.len() && i + 1 <= j < all.len() implies text_lt(
                        #[trigger] kept@[a].descriptor.id@,
                        #[trigger] all[j].descriptor.id@,
                    ) by {
                    if a < before.len() {
                        assert(kept@[a] == before[a]);
                    } else {
                        assert(ids_of(all)[i as int] == all[i as int].descriptor.id@);
                        assert(ids_of(all)[j] == all[j].descriptor.id@);
                    }
                }
            }
            i = i + 1;
            assert(rest@ =~= all.skip(i as int));
        }
        assert(all.take(i as int) =~= all);
        Registry { entries: kept }
    }
}


/// The paths of a list with later repeats dropped, in order of first
/// appearance.
pub open spec fn dedup_spec(s: Seq<Seq<char>>) -> Seq<Seq<char>>
    decreases s.len(),
{
    if s.len() == 0 {
        Seq::empty()
    } else {
        let d = dedup_spec(s.drop_last());
        if d.contains(s.last()) {
            d
        } else {
            d.push(s.last())
        }
    }
}

/// Dropping repeats keeps every path and leaves no path twice.
pub proof fn lemma_dedup(s: Seq<Seq<char>>)
    ensures
        forall|x: Seq<char>| dedup_spec(s).contains(x) <==> s.contains(x),
        forall|i: int, j: int|
            0 <= i < j < dedup_spec(s).len() ==> dedup_spec(s)[i] != dedup_spec(s)[j],
    decreases s.len(),
{
    if s.len() > 0 {
        let t = s.drop_last();
        lemma_dedup(t);
        assert forall|x: Seq<char>| dedup_spec(s).contains(x) <==> s.contains(x) by {
            if s.contains(x) {
                let k = choose|k: int| 0 <= k < s.len() && s[k] == x;
                if k < s.len() - 1 {
                    assert(t[k] == x);
                }
            }
            if t.contains(x) {
                let k = choose|k: int| 0 <= k < t.len() && t[k] == x;
                assert(s[k] == x);
            }
            if !dedup_spec(t).contains(s.last()) {
                assert(dedup_spec(s) == dedup_spec(t).push(s.last()));
                if dedup_spec(s).contains(x) {
                    let k = choose|k: int| 0 <= k < dedup_spec(s).len() && dedup_spec(s)[k] == x;
                    if k < dedup_spec(t).len() {
                        assert(dedup_spec(t)[k] == x);
                    }
                }
                if dedup_spec(t).contains(x) {
                    let k = choose|k: int| 0 <= k < dedup_spec(t).len() && dedup_spec(t)[k] == x;
                    assert(dedup_spec(s)[k] == x);
                }
                assert(dedup_spec(s)[dedup_spec(t).len() as int] == s.last());
            }
        }
    }
}

/// Drops repeated paths, keeping the first of each.
pub fn dedup_paths(paths: &Vec<String>) -> (r: Vec<String>)
    ensures
        crate::text::strings_view(r@) == dedup_spec(crate::text::strings_view(paths@)),
{
    let ghost all = crate::text::strings_view(paths@);
    let mut out: Vec<String> = Vec::new();
    let mut i: usize = 0;
    while i < paths.len()
        invariant
            i <= paths@.len(),
            all == crate::text::strings_view(paths@),
            crate::text::strings_view(out@) == dedup_spec(all.take(i as int)),
        decreases paths.len() - i,
    {
        assert(all.take(i + 1).drop_last() =~= all.take(i as int));
        assert(all.take(i + 1).last() == paths@[i as int]@);
        if !crate::text::contains_str(out.as_slice(), paths[i].as_str()) {
            out.push(owned(paths[i].as_str()));
            assert(crate::text::strings_view(out@) =~= dedup_spec(all.take(i as int)).push(paths@[i as int]@));
        }
        i = i + 1;
    }
    assert(all.take(i as int) =~= all);
    out
}

/// The places a bundle may keep its core extensions, most specific first:
/// `extensions` beside the program, above it and two levels above it, then
/// the older `core-extensions` beside it and above it.
pub open spec fn core_candidates_spec(
    exe_dir: Seq<char>,
    parent: Option<Seq<char>>,
    grandparent: Option<Seq<char>>,
) -> Seq<Seq<char>> {
    let ext = "extensions"@;
    let legacy = "core-extensions"@;
    seq![join(exe_dir, ext)] + match parent {
        Some(p) => seq![join(p, ext)],
        None => Seq::empty(),
    } + match grandparent {
        Some(g) => seq![join(g, ext)],
        None => Seq::empty(),
    } + seq![join(exe_dir, legacy)] + match parent {
        Some(p) => seq![join(p, legacy)],
        None => Seq::empty(),
    }
}

/// The candidate core extension directories for a program directory, its
/// parent and its grandparent.
pub fn core_root_candidates(exe_dir: &str, parent: Option<&str>, grandparent: Option<&str>) -> (r: Vec<
    String,
>)
    ensures
        crate::text::strings_view(r@) == core_candidates_spec(
            exe_dir@,
            match parent {
                Some(p) => Some(p@),
                None => None,
            },
            match grandparent {
                Some(g) => Some(g@),
                None => None,
            },
        ),
{
    let mut out: Vec<String> = Vec::new();
    out.push(join_path(exe_dir, "extensions"));
    match parent {
        Some(p) => out.push(join_path(p, "extensions")),
        None => {},
    }
    match grandparent {
        Some(g) => out.push(join_path(g, "extensions")),
        None => {},
    }
    out.push(join_path(exe_dir, "core-extensions"));
    match parent {
        Some(p) => out.push(join_path(p, "core-extensions")),
        None => {},
    }
    assert(crate::text::strings_view(out@) =~= core_candidates_spec(
        exe_dir@,
        match parent {
            Some(p) => Some(p@),
            None => None,
        },
        match grandparent {
            Some(g) => Some(g@),
            None => None,
        },
    ));
    out
}

/// The core extension roots among the candidates that exist, each once.
pub fn core_extension_roots(existing_candidates: &Vec<String>) -> (r: Vec<String>)
    ensures
        crate::text::strings_view(r@) == dedup_spec(crate::text::strings_view(existing_candidates@)),
{
    dedup_paths(existing_candidates)
}

/// The core extension directory: the last of the core roots.
pub fn core_extensions_dir_from_roots(roots: &Vec<String>) -> (r: Option<String>)
    ensures
        roots@.len() == 0 ==> r is None,
        roots@.len() > 0 ==> (r matches Some(d) && d@ == roots@.last()@),
{
    if roots.len() == 0 {
        None
    } else {
        Some(owned(roots[roots.len() - 1].as_str()))
    }
}

/// The directories extensions are loaded from: the core roots, then the
/// user's directory, each resolved path once. The user's directory is always
/// among them and no directory is listed twice.
pub fn runtime_extension_roots(core_roots: &Vec<String>, user_extensions_dir: &str) -> (r: Vec<String>)
    ensures
        crate::text::strings_view(r@) == dedup_spec(
            crate::text::strings_view(core_roots@).push(user_extensions_dir@),
        ),
        crate::text::strings_view(r@).contains(user_extensions_dir@),
        forall|i: int, j: int| 0 <= i < j < r@.len() ==> r@[i]@ != r@[j]@,
{
    let mut all: Vec<String> = Vec::new();
    let mut i: usize = 0;
    while i < core_roots.len()
        invariant
            i <= core_roots@.len(),
            crate::text::strings_view(all@) == crate::text::strings_view(core_roots@).take(i as int),
        decreases core_roots.len() - i,
    {
        let ghost before = all@;
        all.push(owned(core_roots[i].as_str()));
        assert(crate::text::strings_view(all@) =~= crate::text::strings_view(before).push(core_roots@[i as int]@));
        assert(crate::text::strings_view(core_roots@).take(i + 1) =~= crate::text::strings_view(core_roots@).take(i as int).push(core_roots@[i as int]@));
        i = i + 1;
    }
    let ghost before = all@;
    assert(crate::text::strings_view(core_roots@).take(i as int) =~= crate::text::strings_view(core_roots@));
    all.push(owned(user_extensions_dir));
    let ghost s = crate::text::strings_view(core_roots@).push(user_extensions_dir@);
    assert(crate::text::strings_view(all@) =~= crate::text::strings_view(before).push(user_extensions_dir@));
    assert(crate::text::strings_view(all@) =~= s);
    let r = dedup_paths(&all);
    proof {
        lemma_dedup(s);
        assert(s[s.len() - 1] == user_extensions_dir@);
        assert(s.contains(user_extensions_dir@));
        assert forall|i: int, j: int| 0 <= i < j < r@.len() implies r@[i]@ != r@[j]@ by {
            assert(crate::text::strings_view(r@)[i] == r@[i]@);
            assert(crate::text::strings_view(r@)[j] == r@[j]@);
        }
    }
    r
}

} // verus!
