use vstd::prelude::*;

use crate::artifact::{Artifact, ArtifactView};
use crate::paths::{forward_slashes, has_prefix, normalize_separators};
use crate::table::SortedTable;

verus! {

/// One record of the bundler's manifest: a source name, the file produced for it, and
/// whether it is an entry point.
#[derive(Debug, Clone)]
pub struct ManifestEntry {
    pub key: String,
    pub file: String,
    pub is_entry: Option<bool>,
}

pub open spec fn view_strings(s: Seq<String>) -> Seq<Seq<char>> {
    s.map_values(|x: String| x@)
}

/// Paths under the bundler's own bookkeeping directory.
pub open spec fn is_internal(p: Seq<char>) -> bool {
    ".vite/"@.is_prefix_of(p)
}

/// The logical paths made of the paths that a walk of the output directory found:
/// separators written as `/`, bookkeeping files left out, order kept.
pub open spec fn indexable_paths(s: Seq<Seq<char>>) -> Seq<Seq<char>>
    decreases s.len(),
{
    if s.len() == 0 {
        Seq::empty()
    } else {
        let rest = indexable_paths(s.drop_last());
        let p = forward_slashes(s.last());
        if is_internal(p) {
            rest
        } else {
            rest.push(p)
        }
    }
}

/// The literal table made of `files`, where a later file replaces an earlier one of the same path.
pub open spec fn files_map(files: Seq<(String, Artifact)>) -> Map<Seq<char>, ArtifactView>
    decreases files.len(),
{
    if files.len() == 0 {
        Map::empty()
    } else {
        files_map(files.drop_last()).insert(files.last().0@, files.last().1@)
    }
}

/// Whether a manifest record asks for an alias, given the literal table.
pub open spec fn wants_alias(e: ManifestEntry, literals: Map<Seq<char>, ArtifactView>) -> bool {
    e.is_entry == Some(true) && !literals.contains_key(e.key@)
}

/// The alias table made of the manifest: each entry point whose source name is no literal
/// key maps to the file produced for it.
pub open spec fn aliases_map(
    manifest: Seq<ManifestEntry>,
    literals: Map<Seq<char>, ArtifactView>,
) -> Map<Seq<char>, Seq<char>>
    decreases manifest.len(),
{
    if manifest.len() == 0 {
        Map::empty()
    } else {
        let rest = aliases_map(manifest.drop_last(), literals);
        let e = manifest.last();
        if wants_alias(e, literals) {
            rest.insert(e.key@, e.file@)
        } else {
            rest
        }
    }
}

/// No alias made of a manifest has a literal key as its source name.
pub proof fn lemma_aliases_avoid_literals(
    manifest: Seq<ManifestEntry>,
    literals: Map<Seq<char>, ArtifactView>,
    k: Seq<char>,
)
    requires
        literals.contains_key(k),
    ensures
        !aliases_map(manifest, literals).contains_key(k),
    decreases manifest.len(),
{
    if manifest.len() > 0 {
        lemma_aliases_avoid_literals(manifest.drop_last(), literals, k);
    }
}

/// In an index built from `files` and `manifest`, a path that is a literal key resolves to
/// its own artifact, even where the manifest names it as an entry point.
pub proof fn law_literal_precedence(
    store: StaticStore,
    files: Seq<(String, Artifact)>,
    manifest: Seq<ManifestEntry>,
    p: Seq<char>,
)
    requires
        store.wf(),
        store.literals() == files_map(files),
        store.alias_map() == aliases_map(manifest, files_map(files)),
        files_map(files).contains_key(p),
    ensures
        store.lookup(p) == Some(files_map(files)[p]),
{
    lemma_aliases_avoid_literals(manifest, files_map(files), p);
}

/// Every file that the manifest names is in the literal table.
pub open spec fn all_files_present(
    manifest: Seq<ManifestEntry>,
    literals: Map<Seq<char>, ArtifactView>,
) -> bool {
    forall|i: int| 0 <= i < manifest.len() ==> literals.contains_key(#[trigger] manifest[i].file@)
}

/// Why a build's output cannot be indexed.
#[derive(Debug, Clone, PartialEq, Eq)]
pub enum IndexError {
    /// The manifest names a produced file that the output does not hold.
    MissingFile(String),
}

pub open spec fn opt_artifact_view(o: Option<Artifact>) -> Option<ArtifactView> {
    match o {
        Some(a) => Some(a@),
        None => None,
    }
}

/// The paths of a build's output that become literal keys: `\` written as `/`, and the
/// files under the `.vite/` directory (the bundler's manifest and other bookkeeping) left out.
pub fn list_compiled_files(walked: &Vec<String>) -> (r: Vec<String>)
    ensures
        view_strings(r@) == indexable_paths(view_strings(walked@)),
{
    let mut out: Vec<String> = Vec::new();
    let mut i: usize = 0;
    while i < walked.len()
        invariant
            i <= walked@.len(),
            view_strings(out@) == indexable_paths(view_strings(walked@.subrange(0, i as int))),
        decreases walked@.len() - i,
    {
        let p = normalize_separators(walked[i].as_str());
        let internal = has_prefix(p.as_str(), ".vite/");
        proof {
            assert(view_strings(walked@.subrange(0, i + 1)).drop_last() =~= view_strings(
                walked@.subrange(0, i as int),
            ));
        }
        if !internal {
            let ghost before = out@;
            let ghost pv = p@;
            out.push(p);
            assert(view_strings(out@) =~= view_strings(before).push(pv));
        }
        i = i + 1;
    }
    assert(walked@.subrange(0, walked@.len() as int) =~= walked@);
    out
}

/// The embedded asset store: a sorted literal table and a sorted alias table.
#[derive(Clone)]
pub struct StaticStore {
    entries: SortedTable<Artifact>,
    aliases: SortedTable<String>,
}

impl StaticStore {
    /// Both tables are sorted, and no alias shadows a literal key.
    pub closed spec fn wf(self) -> bool {
        &&& self.entries.wf()
        &&& self.aliases.wf()
        &&& forall|k: Seq<char>|
            #[trigger] self.aliases.view_map().contains_key(k)
                ==> !self.entries.view_map().contains_key(k)
    }

    /// The literal table: logical path to artifact.
    pub closed spec fn literals(self) -> Map<Seq<char>, ArtifactView> {
        self.entries.view_map()
    }

    /// The alias table: source name to produced path.
    pub closed spec fn alias_map(self) -> Map<Seq<char>, Seq<char>> {
        self.aliases.view_map()
    }

    /// The path that a lookup of `p` searches the literal table for.
    pub open spec fn target(self, p: Seq<char>) -> Seq<char> {
        if self.alias_map().contains_key(p) {
            self.alias_map()[p]
        } else {
            p
        }
    }

    /// What a lookup of `p` finds.
    pub open spec fn lookup(self, p: Seq<char>) -> Option<ArtifactView> {
        let t = self.target(p);
        if self.literals().contains_key(t) {
            Some(self.literals()[t])
        } else {
            None
        }
    }

    /// Every path of the literal table resolves to the artifact registered for it, and a
    /// path in neither table resolves to nothing.
    pub proof fn law_literal_lookup(self, p: Seq<char>)
        requires
            self.wf(),
        ensures
            self.literals().contains_key(p) ==> self.lookup(p) == Some(self.literals()[p]),
            !self.literals().contains_key(p) && !self.alias_map().contains_key(p)
                ==> self.lookup(p).is_none(),
    {
        if self.literals().contains_key(p) {
            assert(!self.alias_map().contains_key(p));
        }
    }

    /// Resolution is idempotent: where a path resolves, its target resolves to the same
    /// artifact.
    pub proof fn law_resolve_idempotent(self, p: Seq<char>)
        requires
            self.wf(),
            self.lookup(p).is_some(),
        ensures
            self.lookup(self.target(p)) == self.lookup(p),
    {
        let t = self.target(p);
        assert(self.literals().contains_key(t));
        assert(!self.alias_map().contains_key(t));
    }

    /// A store with no files.
    pub fn empty() -> (r: StaticStore)
        ensures
            r.wf(),
            r.literals() == Map::<Seq<char>, ArtifactView>::empty(),
            r.alias_map() == Map::<Seq<char>, Seq<char>>::empty(),
    {
        StaticStore { entries: SortedTable::new(), aliases: SortedTable::new() }
    }

    /// Builds the index of a bundler's output: the literal table from the files read from
    /// it (logical path and artifact), then an alias for each entry point of the manifest
    /// whose source name is not already a literal key.
    ///
    /// A manifest record whose produced file is not among `files` fails the whole build:
    /// no partial index is returned.
    pub fn build_index(files: Vec<(String, Artifact)>, manifest: &Vec<ManifestEntry>) -> (r:
        Result<StaticStore, IndexError>)
        ensures
            match r {
                Ok(s) => {
                    &&& all_files_present(manifest@, files_map(files@))
                    &&& s.wf()
                    &&& s.literals() == files_map(files@)
                    &&& s.alias_map() == aliases_map(manifest@, files_map(files@))
                },
                Err(IndexError::MissingFile(f)) => {
                    &&& !all_files_present(manifest@, files_map(files@))
                    &&& !files_map(files@).contains_key(f@)
                    &&& exists|i: int| 0 <= i < manifest@.len() && #[trigger] manifest@[i].file@ == f@
                },
            },
    {
        let ghost all = files@;
        let mut pending = files;
        let mut entries: SortedTable<Artifact> = SortedTable::new();
        let ghost mut n: int = 0;
        while pending.len() > 0
            invariant
                0 <= n <= all.len(),
                pending@ == all.subrange(n, all.len() as int),
                all == files@,
                entries.wf(),
                entries.view_map() == files_map(all.subrange(0, n)),
            decreases pending@.len(),
        {
            let (path, artifact) = pending.remove(0);
            proof {
                assert(all.subrange(0, n + 1).drop_last() =~= all.subrange(0, n));
                assert(all[n] == (path, artifact));
            }
            entries.insert(path, artifact);
            proof {
                n = n + 1;
                assert(pending@ =~= all.subrange(n, all.len() as int));
            }
        }
        proof {
            assert(all.subrange(0, n) =~= all);
        }
        let ghost lits = files_map(all);
        let mut aliases: SortedTable<String> = SortedTable::new();
        let mut i: usize = 0;
        while i < manifest.len()
            invariant
                i <= manifest@.len(),
                all == files@,
                lits == files_map(all),
                entries.wf(),
                entries.view_map() == lits,
                aliases.wf(),
                aliases.view_map() == aliases_map(manifest@.subrange(0, i as int), lits),
                forall|k: Seq<char>|
                    #[trigger] aliases.view_map().contains_key(k) ==> !lits.contains_key(k),
                forall|j: int| 0 <= j < i ==> lits.contains_key(#[trigger] manifest@[j].file@),
            decreases manifest@.len() - i,
        {
            let e = &manifest[i];
            if !entries.contains(e.file.as_str()) {
                let f = e.file.clone();
                proof {
                    assert(manifest@[i as int].file@ == f@);
                    assert(!lits.contains_key(manifest@[i as int].file@));
                    assert(!lits.contains_key(f@));
                    assert(!all_files_present(manifest@, lits));
                }
                return Err(IndexError::MissingFile(f));
            }
            proof {
                assert(manifest@.subrange(0, i + 1).drop_last() =~= manifest@.subrange(0, i as int));
            }
            let is_entry = match e.is_entry {
                Some(b) => b,
                None => false,
            };
            if is_entry && !entries.contains(e.key.as_str()) {
                aliases.insert(e.key.clone(), e.file.clone());
            }
            i = i + 1;
        }
        proof {
            assert(manifest@.subrange(0, manifest@.len() as int) =~= manifest@);
        }
        Ok(StaticStore { entries, aliases })
    }

    /// Looks up `path`: through the alias table first, then in the literal table.
    pub fn resolve(&self, path: &str) -> (r: Option<Artifact>)
        requires
            self.wf(),
        ensures
            opt_artifact_view(r) == self.lookup(path@),
    {
        let target: &str = match self.aliases.get(path) {
            Some(t) => t.as_str(),
            None => path,
        };
        match self.entries.get(target) {
            Some(a) => Some(a.duplicate()),
            None => None,
        }
    }

    /// True when a lookup of `path` finds an artifact.
    pub fn has_asset(&self, path: &str) -> (r: bool)
        requires
            self.wf(),
        ensures
            r == self.lookup(path@).is_some(),
    {
        let target: &str = match self.aliases.get(path) {
            Some(t) => t.as_str(),
            None => path,
        };
        self.entries.contains(target)
    }
}

} // verus!
