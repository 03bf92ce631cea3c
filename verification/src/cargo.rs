//! The manifest graph loader and the version-propagation engine: discovers
//! every configuration file related to a root, updates the fields that
//! represent a target package's version, and persists what changed.

use vstd::prelude::*;

use crate::encode::{serialize_manifest, serialized_manifest};
use crate::filesystem::FileSystem;
use crate::manifest::{deps_view, update_dep, update_deps, update_manifest, Dependency, ManifestData,
    ManifestView};
use crate::parse::{parse_manifest, parsed_manifest};
use crate::paths::{lex_le, member_manifest_file, member_manifest_path, name_le, parent_dir,
    parent_dir_spec};

verus! {

/// An error from loading or propagating, carrying the identifier of the
/// resource that produced it.
#[derive(Debug, Clone)]
pub enum ManifestError {
    /// The resource could not be read or written: it does not exist.
    Io(String),
    /// The resource's content does not conform to the structural format.
    Parse(String),
    /// The mutated content could not be re-encoded.
    Serialize(String),
}

/// Mathematical form of a `ManifestError`.
pub enum ErrView {
    Io(Seq<char>),
    Parse(Seq<char>),
    Serialize(Seq<char>),
}

impl View for ManifestError {
    type V = ErrView;

    open spec fn view(&self) -> ErrView {
        match self {
            ManifestError::Io(p) => ErrView::Io(p@),
            ManifestError::Parse(p) => ErrView::Parse(p@),
            ManifestError::Serialize(p) => ErrView::Serialize(p@),
        }
    }
}

/// The loaded manifest graph: the root's identifier and content, plus the
/// member mapping when the root declares at least one member. The mapping is
/// keyed by resolved identifier and kept in lexicographic order of the keys.
#[derive(Debug, Clone)]
pub struct CargoManifest {
    pub root_path: String,
    pub root_manifest: ManifestData,
    pub members: Option<Vec<(String, ManifestData)>>,
}

/// Mathematical form of a `CargoManifest`.
pub struct GraphView {
    pub root_path: Seq<char>,
    pub root_manifest: ManifestView,
    pub members: Option<Seq<(Seq<char>, ManifestView)>>,
}

/// Mathematical form of a member mapping.
pub open spec fn members_view(ms: Seq<(String, ManifestData)>) -> Seq<(Seq<char>, ManifestView)> {
    ms.map_values(|e: (String, ManifestData)| (e.0@, e.1@))
}

impl View for CargoManifest {
    type V = GraphView;

    open spec fn view(&self) -> GraphView {
        GraphView {
            root_path: self.root_path@,
            root_manifest: self.root_manifest@,
            members: match self.members {
                Some(ms) => Some(members_view(ms@)),
                None => None,
            },
        }
    }
}

impl CargoManifest {
    /// A graph holding the root alone; members are added by the loader.
    pub fn new(root_path: String, root_manifest: ManifestData) -> (r: Self)
        ensures
            r@ == (GraphView {
                root_path: root_path@,
                root_manifest: root_manifest@,
                members: None::<Seq<(Seq<char>, ManifestView)>>,
            }),
    {
        Self { root_path, root_manifest, members: None }
    }
}

/// `ms` with content `m` under key `path`: replaces the entry of an equal
/// key, else inserts keeping lexicographic order of the keys.
pub open spec fn insert_member_spec(
    ms: Seq<(Seq<char>, ManifestView)>,
    path: Seq<char>,
    m: ManifestView,
) -> Seq<(Seq<char>, ManifestView)>
    decreases ms.len(),
{
    if ms.len() == 0 {
        seq![(path, m)]
    } else if ms[0].0 == path {
        seq![(path, m)] + ms.skip(1)
    } else if lex_le(path, ms[0].0) {
        seq![(path, m)] + ms
    } else {
        seq![ms[0]] + insert_member_spec(ms.skip(1), path, m)
    }
}

/// What loading the declared members yields, processing them in declared
/// order, fail-fast: the first member whose resource is missing or does not
/// parse aborts the whole load with that member's identifier; otherwise each
/// parsed content is inserted into the accumulated mapping under its
/// resolved identifier.
pub open spec fn load_members_spec(
    fs: Map<Seq<char>, Seq<u8>>,
    dir: Seq<char>,
    members: Seq<Seq<char>>,
    acc: Seq<(Seq<char>, ManifestView)>,
) -> Result<Seq<(Seq<char>, ManifestView)>, ErrView>
    decreases members.len(),
{
    if members.len() == 0 {
        Ok(acc)
    } else {
        let p = member_manifest_path(dir, members[0]);
        if !fs.contains_key(p) {
            Err(ErrView::Io(p))
        } else {
            match parsed_manifest(fs[p]) {
                None => Err(ErrView::Parse(p)),
                Some(m) => load_members_spec(fs, dir, members.skip(1), insert_member_spec(acc, p, m)),
            }
        }
    }
}

/// What loading from storage `fs` at the root identifier `path` yields: the
/// graph, or the first error met. A membership declaration that is absent or
/// empty leaves the member mapping absent, not empty.
pub open spec fn load_spec(fs: Map<Seq<char>, Seq<u8>>, path: Seq<char>) -> Result<GraphView, ErrView> {
    if !fs.contains_key(path) {
        Err(ErrView::Io(path))
    } else {
        match parsed_manifest(fs[path]) {
            None => Err(ErrView::Parse(path)),
            Some(root) => match root.workspace {
                None => Ok(GraphView { root_path: path, root_manifest: root, members: None }),
                Some(w) => match load_members_spec(fs, parent_dir_spec(path), w.members, Seq::empty()) {
                    Err(e) => Err(e),
                    Ok(ms) => Ok(
                        GraphView {
                            root_path: path,
                            root_manifest: root,
                            members: if ms.len() > 0 {
                                Some(ms)
                            } else {
                                None
                            },
                        },
                    ),
                },
            },
        }
    }
}

/// Every member's content taken through the update policy; keys unchanged.
pub open spec fn updated_members(
    ms: Seq<(Seq<char>, ManifestView)>,
    name: Seq<char>,
    version: Seq<char>,
) -> Seq<(Seq<char>, ManifestView)> {
    ms.map_values(|e: (Seq<char>, ManifestView)| (e.0, update_manifest(e.1, name, version)))
}

/// The whole graph taken through the update policy.
pub open spec fn updated_graph(g: GraphView, name: Seq<char>, version: Seq<char>) -> GraphView {
    GraphView {
        root_path: g.root_path,
        root_manifest: update_manifest(g.root_manifest, name, version),
        members: match g.members {
            Some(ms) => Some(updated_members(ms, name, version)),
            None => None,
        },
    }
}

/// The storage after the persistence pass over the members (in mapping
/// order), with the first error met, if any: a member is re-encoded and
/// written only when it owns no package descriptor; a write failure aborts
/// further writes and leaves the earlier ones committed.
pub open spec fn apply_members_spec(
    fs: Map<Seq<char>, Seq<u8>>,
    ms: Seq<(Seq<char>, ManifestView)>,
    name: Seq<char>,
    version: Seq<char>,
) -> (Map<Seq<char>, Seq<u8>>, Option<ErrView>)
    decreases ms.len(),
{
    if ms.len() == 0 {
        (fs, None)
    } else if ms[0].1.package is Some {
        apply_members_spec(fs, ms.skip(1), name, version)
    } else {
        let p = ms[0].0;
        match serialized_manifest(update_manifest(ms[0].1, name, version)) {
            None => (fs, Some(ErrView::Serialize(p))),
            Some(bytes) => if !fs.contains_key(p) {
                (fs, Some(ErrView::Io(p)))
            } else {
                apply_members_spec(fs.insert(p, bytes), ms.skip(1), name, version)
            },
        }
    }
}

/// The storage after the whole persistence pass for an update of `name` to
/// `version` over graph `g`: the root is always re-encoded and written
/// first, then each member that owns no package descriptor.
pub open spec fn apply_spec(
    fs: Map<Seq<char>, Seq<u8>>,
    g: GraphView,
    name: Seq<char>,
    version: Seq<char>,
) -> (Map<Seq<char>, Seq<u8>>, Option<ErrView>) {
    match serialized_manifest(update_manifest(g.root_manifest, name, version)) {
        None => (fs, Some(ErrView::Serialize(g.root_path))),
        Some(bytes) => if !fs.contains_key(g.root_path) {
            (fs, Some(ErrView::Io(g.root_path)))
        } else {
            let fs1 = fs.insert(g.root_path, bytes);
            match g.members {
                None => (fs1, None),
                Some(ms) => apply_members_spec(fs1, ms, name, version),
            }
        },
    }
}

/// Inserts `(path, m)` into the member mapping as `insert_member_spec` says.
fn insert_member(ms: &mut Vec<(String, ManifestData)>, path: String, m: ManifestData)
    ensures
        members_view(final(ms)@) == insert_member_spec(members_view(old(ms)@), path@, m@),
{
    let ghost orig = members_view(old(ms)@);
    proof {
        assert(orig.skip(0) =~= orig);
        assert(orig.take(0) + insert_member_spec(orig, path@, m@) =~= insert_member_spec(
            orig,
            path@,
            m@,
        ));
    }
    let mut i: usize = 0;
    while i < ms.len()
        invariant
            i <= ms@.len(),
            ms@ == old(ms)@,
            orig == members_view(ms@),
            insert_member_spec(orig, path@, m@) == orig.take(i as int) + insert_member_spec(
                orig.skip(i as int),
                path@,
                m@,
            ),
        decreases ms@.len() - i,
    {
        if ms[i].0 == path {
            let _ = ms.remove(i);
            ms.insert(i, (path, m));
            proof {
                assert(orig.skip(i as int)[0].0 == path@);
                assert(orig.skip(i as int).skip(1) =~= orig.skip(i + 1));
                assert(members_view(ms@) =~= orig.take(i as int) + (seq![(path@, m@)] + orig.skip(
                    i + 1,
                )));
            }
            return ;
        }
        if name_le(&path, &ms[i].0) {
            ms.insert(i, (path, m));
            proof {
                assert(members_view(ms@) =~= orig.take(i as int) + (seq![(path@, m@)] + orig.skip(
                    i as int,
                )));
            }
            return ;
        }
        proof {
            assert(orig.skip(i as int)[0] == orig[i as int]);
            assert(orig.skip(i as int).skip(1) =~= orig.skip(i + 1));
            assert(orig.take(i as int) + seq![orig[i as int]] =~= orig.take(i + 1));
            assert(orig.take(i as int) + (seq![orig[i as int]] + insert_member_spec(
                orig.skip(i + 1),
                path@,
                m@,
            )) =~= orig.take(i + 1) + insert_member_spec(orig.skip(i + 1), path@, m@));
        }
        i = i + 1;
    }
    ms.push((path, m));
    proof {
        assert(orig.skip(orig.len() as int) =~= Seq::<(Seq<char>, ManifestView)>::empty());
        assert(members_view(ms@) =~= orig.take(orig.len() as int) + seq![(path@, m@)]);
    }
}

/// The manifest graph loader and version-propagation engine, over a storage
/// capability.
pub struct CargoManifestService<F: FileSystem> {
    fs: F,
}

impl<F: FileSystem> CargoManifestService<F> {
    /// The storage the service works on.
    pub closed spec fn storage(&self) -> Map<Seq<char>, Seq<u8>> {
        self.fs.files()
    }

    /// A service over the given storage.
    pub fn new(fs: F) -> (r: Self)
        ensures
            r.storage() == fs.files(),
    {
        Self { fs }
    }

    /// Hands the storage back, for callers that inspect it after a pass.
    pub fn into_fs(self) -> (r: F)
        ensures
            r.files() == self.storage(),
    {
        self.fs
    }

    /// Reads and parses one configuration file, tagging any failure with the
    /// file's identifier.
    fn load_cargo(&self, path: &String) -> (r: Result<ManifestData, ManifestError>)
        ensures
            match r {
                Ok(m) => self.storage().contains_key(path@) && parsed_manifest(
                    self.storage()[path@],
                ) == Some(m@),
                Err(e) => match e@ {
                    ErrView::Io(p) => p == path@ && !self.storage().contains_key(path@),
                    ErrView::Parse(p) => p == path@ && self.storage().contains_key(path@)
                        && parsed_manifest(self.storage()[path@]) is None,
                    ErrView::Serialize(_) => false,
                },
            },
    {
        let content = match self.fs.read(path) {
            Ok(c) => c,
            Err(_) => {
                return Err(ManifestError::Io(path.clone()));
            },
        };
        match parse_manifest(&content) {
            Some(m) => Ok(m),
            None => Err(ManifestError::Parse(path.clone())),
        }
    }

    /// Resolves, reads and parses every member the root declares, in
    /// declared order, fail-fast; on success the member mapping is present
    /// exactly when at least one member was declared.
    #[verifier::loop_isolation(false)]
    fn load_children(&self, s: &mut CargoManifest) -> (r: Result<(), ManifestError>)
        requires
            old(s)@.members is None,
        ensures
            match r {
                Ok(_) => match old(s)@.root_manifest.workspace {
                    None => final(s)@ == old(s)@,
                    Some(w) => {
                        &&& load_members_spec(
                            self.storage(),
                            parent_dir_spec(old(s)@.root_path),
                            w.members,
                            Seq::empty(),
                        ) matches Ok(ms)
                        &&& final(s)@ == (GraphView {
                            root_path: old(s)@.root_path,
                            root_manifest: old(s)@.root_manifest,
                            members: if ms.len() > 0 {
                                Some(ms)
                            } else {
                                None
                            },
                        })
                    },
                },
                Err(e) => old(s)@.root_manifest.workspace matches Some(w) && load_members_spec(
                    self.storage(),
                    parent_dir_spec(old(s)@.root_path),
                    w.members,
                    Seq::empty(),
                ) == Err::<Seq<(Seq<char>, ManifestView)>, ErrView>(e@),
            },
    {
        let dir = parent_dir(&s.root_path);
        let mut members: Vec<(String, ManifestData)> = Vec::new();
        match &s.root_manifest.workspace {
            None => Ok(()),
            Some(w) => {
                let ghost fsmap = self.storage();
                let ghost dirv = dir@;
                let ghost wm = w.members@.map_values(|x: String| x@);
                proof {
                    assert(old(s)@.root_manifest.workspace == Some(w@));
                    assert(w@.members == wm);
                    assert(wm.skip(0) =~= wm);
                    assert(members_view(members@) =~= Seq::<(Seq<char>, ManifestView)>::empty());
                }
                let ghost wsv = w@;
                let mut i: usize = 0;
                while i < w.members.len()
                    invariant
                        i <= w.members@.len(),
                        wm == w.members@.map_values(|x: String| x@),
                        fsmap == self.storage(),
                        dirv == dir@,
                        old(s)@.root_manifest.workspace == Some(wsv),
                        wsv.members == wm,
                        load_members_spec(fsmap, dirv, wm, Seq::empty()) == load_members_spec(
                            fsmap,
                            dirv,
                            wm.skip(i as int),
                            members_view(members@),
                        ),
                    decreases w.members@.len() - i,
                {
                    let member_path = member_manifest_file(&dir, &w.members[i]);
                    proof {
                        assert(wm.skip(i as int)[0] == wm[i as int]);
                        assert(wm[i as int] == w.members@[i as int]@);
                    }
                    let m = match self.load_cargo(&member_path) {
                        Ok(m) => m,
                        Err(e) => {
                            return Err(e);
                        },
                    };
                    insert_member(&mut members, member_path, m);
                    proof {
                        assert(wm.skip(i as int).skip(1) =~= wm.skip(i + 1));
                    }
                    i = i + 1;
                }
                proof {
                    assert(wm.skip(wm.len() as int) =~= Seq::<Seq<char>>::empty());
                }
                if members.len() > 0 {
                    s.members = Some(members);
                }
                Ok(())
            },
        }
    }

    /// Produces the manifest graph of the root at `path`: reads and parses
    /// the root, then every declared member; the first failure aborts the
    /// whole load and no partial graph is returned.
    pub fn load_manifest(&self, path: &String) -> (r: Result<CargoManifest, ManifestError>)
        ensures
            match r {
                Ok(g) => load_spec(self.storage(), path@) == Ok::<GraphView, ErrView>(g@),
                Err(e) => load_spec(self.storage(), path@) == Err::<GraphView, ErrView>(e@),
            },
    {
        let root_manifest = match self.load_cargo(path) {
            Ok(m) => m,
            Err(e) => {
                return Err(e);
            },
        };
        let mut s = CargoManifest::new(path.clone(), root_manifest);
        match self.load_children(&mut s) {
            Ok(_) => Ok(s),
            Err(e) => Err(e),
        }
    }

    /// Updates every entry of one dependencies mapping whose key equals
    /// `package`, by variant: a Simple version is replaced, an Inherited
    /// entry is left as it is, a Detailed table gets the version pin set.
    fn update_dependencies(
        &self,
        dependencies: &mut Vec<(String, Dependency)>,
        package: &String,
        version: &String,
    )
        ensures
            deps_view(final(dependencies)@) == update_deps(
                deps_view(old(dependencies)@),
                package@,
                version@,
            ),
    {
        let ghost orig = old(dependencies)@;
        let mut i: usize = 0;
        while i < dependencies.len()
            invariant
                i <= dependencies@.len(),
                dependencies@.len() == orig.len(),
                forall|j: int| i <= j < orig.len() ==> dependencies@[j] == orig[j],
                forall|j: int|
                    0 <= j < i ==> (#[trigger] dependencies@[j]).0 == orig[j].0
                        && dependencies@[j].1@ == (if orig[j].0@ == package@ {
                        update_dep(orig[j].1@, version@)
                    } else {
                        orig[j].1@
                    }),
            decreases dependencies@.len() - i,
        {
            if dependencies[i].0 == *package {
                let ghost before = dependencies@;
                let (key, dep) = dependencies.remove(i);
                let updated = match dep {
                    Dependency::Simple(_) => Dependency::Simple(version.clone()),
                    Dependency::Inherited => Dependency::Inherited,
                    Dependency::Detailed(_) => Dependency::Detailed(Some(version.clone())),
                };
                dependencies.insert(i, (key, updated));
                proof {
                    assert(dependencies@ =~= before.update(i as int, dependencies@[i as int]));
                }
            }
            i = i + 1;
        }
        proof {
            let res = deps_view(dependencies@);
            let goal = update_deps(deps_view(orig), package@, version@);
            assert forall|j: int| 0 <= j < res.len() implies res[j] == goal[j] by {
                assert(deps_view(orig)[j] == (orig[j].0@, orig[j].1@));
                assert(res[j] == (dependencies@[j].0@, dependencies@[j].1@));
            }
            assert(res =~= goal);
        }
    }

    /// Applies the update policy to one structural content in place.
    fn update_manifest_data(&self, m: &mut ManifestData, package: &String, version: &String)
        ensures
            final(m)@ == update_manifest(old(m)@, package@, version@),
    {
        let mut is_package = false;
        match &mut m.package {
            Some(p) => {
                is_package = true;
                if p.name == *package {
                    p.version = Some(version.clone());
                }
            },
            None => {},
        }
        if !is_package {
            self.update_dependencies(&mut m.dependencies, package, version);
        }
        match &mut m.workspace {
            Some(w) => {
                self.update_dependencies(&mut w.dependencies, package, version);
            },
            None => {},
        }
    }

    /// Applies the update policy to every member's content in place.
    fn update_members(
        &self,
        members: &mut Vec<(String, ManifestData)>,
        package: &String,
        version: &String,
    )
        ensures
            members_view(final(members)@) == updated_members(
                members_view(old(members)@),
                package@,
                version@,
            ),
    {
        let ghost orig = old(members)@;
        let mut i: usize = 0;
        while i < members.len()
            invariant
                i <= members@.len(),
                members@.len() == orig.len(),
                forall|j: int| i <= j < orig.len() ==> members@[j] == orig[j],
                forall|j: int|
                    0 <= j < i ==> (#[trigger] members@[j]).0 == orig[j].0 && members@[j].1@
                        == update_manifest(orig[j].1@, package@, version@),
            decreases members@.len() - i,
        {
            let ghost before = members@;
            let (key, mut md) = members.remove(i);
            self.update_manifest_data(&mut md, package, version);
            members.insert(i, (key, md));
            proof {
                assert(members@ =~= before.update(i as int, members@[i as int]));
            }
            i = i + 1;
        }
        proof {
            let res = members_view(members@);
            let goal = updated_members(members_view(orig), package@, version@);
            assert forall|j: int| 0 <= j < res.len() implies res[j] == goal[j] by {
                assert(members_view(orig)[j] == (orig[j].0@, orig[j].1@));
                assert(res[j] == (members@[j].0@, members@[j].1@));
            }
            assert(res =~= goal);
        }
    }

    /// Applies `(package, version)` across the whole graph in place and
    /// persists: the root is always re-encoded and written; a member is
    /// written only when it owns no package descriptor, so a member whose
    /// own package descriptor matched is updated in memory but not persisted
    /// in this pass. A failure aborts further writes; the earlier ones stay.
    #[verifier::loop_isolation(false)]
    pub fn update_version(
        &mut self,
        s: &mut CargoManifest,
        package: &String,
        version: &String,
    ) -> (r: Result<(), ManifestError>)
        ensures
            final(s)@ == updated_graph(old(s)@, package@, version@),
            final(self).storage() == apply_spec(
                old(self).storage(),
                old(s)@,
                package@,
                version@,
            ).0,
            match r {
                Ok(_) => apply_spec(old(self).storage(), old(s)@, package@, version@).1 is None,
                Err(e) => apply_spec(old(self).storage(), old(s)@, package@, version@).1 == Some(
                    e@,
                ),
            },
    {
        let ghost g0 = old(s)@;
        self.update_manifest_data(&mut s.root_manifest, package, version);
        match &mut s.members {
            Some(members) => {
                self.update_members(members, package, version);
            },
            None => {},
        }
        proof {
            assert(s@ == updated_graph(g0, package@, version@));
        }
        let root_bytes = match serialize_manifest(&s.root_manifest) {
            Some(b) => b,
            None => {
                return Err(ManifestError::Serialize(s.root_path.clone()));
            },
        };
        match self.fs.write(&s.root_path, root_bytes) {
            Ok(_) => {},
            Err(_) => {
                return Err(ManifestError::Io(s.root_path.clone()));
            },
        }
        let ghost fs1 = self.storage();
        match &s.members {
            None => Ok(()),
            Some(members) => {
                let ghost mview = g0.members->Some_0;
                proof {
                    assert(s.members == Some(*members));
                    assert(s@.members == Some(members_view(members@)));
                    assert(s@.members == Some(updated_members(mview, package@, version@)));
                    assert(members_view(members@) == updated_members(mview, package@, version@));
                    assert(members_view(members@).len() == members@.len());
                    assert(updated_members(mview, package@, version@).len() == mview.len());
                    assert(members@.len() == mview.len());
                    assert(mview.skip(0) =~= mview);
                    assert(apply_spec(old(self).storage(), g0, package@, version@)
                        == apply_members_spec(fs1, mview, package@, version@));
                }
                let mut i: usize = 0;
                while i < members.len()
                    invariant
                        i <= members@.len(),
                        members@.len() == mview.len(),
                        g0 == old(s)@,
                        members_view(members@) == updated_members(mview, package@, version@),
                        apply_spec(old(self).storage(), g0, package@, version@)
                            == apply_members_spec(fs1, mview, package@, version@),
                        apply_members_spec(fs1, mview, package@, version@) == apply_members_spec(
                            self.storage(),
                            mview.skip(i as int),
                            package@,
                            version@,
                        ),
                    decreases members@.len() - i,
                {
                    proof {
                        assert(mview.skip(i as int)[0] == mview[i as int]);
                        assert(members_view(members@)[i as int] == (
                            members@[i as int].0@,
                            members@[i as int].1@,
                        ));
                        assert(updated_members(mview, package@, version@)[i as int] == (
                            mview[i as int].0,
                            update_manifest(mview[i as int].1, package@, version@),
                        ));
                    }
                    if members[i].1.package.is_none() {
                        let member_bytes = match serialize_manifest(&members[i].1) {
                            Some(b) => b,
                            None => {
                                return Err(ManifestError::Serialize(members[i].0.clone()));
                            },
                        };
                        match self.fs.write(&members[i].0, member_bytes) {
                            Ok(_) => {},
                            Err(_) => {
                                return Err(ManifestError::Io(members[i].0.clone()));
                            },
                        }
                    }
                    proof {
                        assert(mview.skip(i as int).skip(1) =~= mview.skip(i + 1));
                    }
                    i = i + 1;
                }
                proof {
                    assert(mview.skip(mview.len() as int) =~= Seq::<
                        (Seq<char>, ManifestView),
                    >::empty());
                }
                Ok(())
            },
        }
    }
}

} // verus!
