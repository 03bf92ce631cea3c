//! What holds of the loader and the propagation engine across all inputs,
//! stated over the same spec functions that the executable functions'
//! contracts use, and proved here.

use vstd::prelude::*;

use crate::cargo::{apply_members_spec, apply_spec, insert_member_spec, load_members_spec,
    load_spec, updated_graph, updated_members, GraphView};
use crate::encode::serialized_manifest;
use crate::manifest::{update_dep, update_deps, update_manifest, DepView, ManifestView,
    PackageView, WorkspaceView};
use crate::paths::{member_manifest_path, parent_dir_spec};

verus! {

proof fn lemma_insert_member_len(
    ms: Seq<(Seq<char>, ManifestView)>,
    path: Seq<char>,
    m: ManifestView,
)
    ensures
        insert_member_spec(ms, path, m).len() >= 1,
    decreases ms.len(),
{
    if ms.len() != 0 && !(ms[0].0 == path) && !crate::paths::lex_le(path, ms[0].0) {
        lemma_insert_member_len(ms.skip(1), path, m);
    }
}

proof fn lemma_load_members_nonempty(
    fs: Map<Seq<char>, Seq<u8>>,
    dir: Seq<char>,
    members: Seq<Seq<char>>,
    acc: Seq<(Seq<char>, ManifestView)>,
)
    requires
        members.len() > 0 || acc.len() > 0,
        load_members_spec(fs, dir, members, acc) is Ok,
    ensures
        load_members_spec(fs, dir, members, acc)->Ok_0.len() > 0,
    decreases members.len(),
{
    if members.len() > 0 {
        let p = member_manifest_path(dir, members[0]);
        let m = crate::parse::parsed_manifest(fs[p])->Some_0;
        lemma_insert_member_len(acc, p, m);
        lemma_load_members_nonempty(fs, dir, members.skip(1), insert_member_spec(acc, p, m));
    }
}

/// Membership absence vs emptiness: a loaded graph's member mapping is
/// absent exactly when the root declares no membership at all, or declares
/// an explicitly empty member list; it is never an empty mapping.
pub proof fn lemma_members_absent_vs_empty(fs: Map<Seq<char>, Seq<u8>>, path: Seq<char>)
    requires
        load_spec(fs, path) is Ok,
    ensures
        ({
            let g = load_spec(fs, path)->Ok_0;
            &&& (g.members is None <==> (g.root_manifest.workspace is None
                || g.root_manifest.workspace->Some_0.members.len() == 0))
            &&& (g.members matches Some(ms) ==> ms.len() > 0)
        }),
{
    let root = crate::parse::parsed_manifest(fs[path])->Some_0;
    match root.workspace {
        None => {},
        Some(w) => {
            if w.members.len() > 0 {
                lemma_load_members_nonempty(fs, parent_dir_spec(path), w.members, Seq::empty());
            }
        },
    }
}

/// Direct version update: a resource whose package descriptor carries the
/// target name gets exactly the new version, and nothing else of the
/// descriptor changes; one whose descriptor carries another name keeps its
/// descriptor as it was.
pub proof fn lemma_direct_version_update(m: ManifestView, name: Seq<char>, version: Seq<char>)
    ensures
        (m.package matches Some(p) && p.name == name) ==> update_manifest(m, name, version).package
            == Some(PackageView { name, version: Some(version) }),
        (m.package matches Some(p) && p.name != name) ==> update_manifest(m, name, version).package
            == m.package,
        m.package is None ==> update_manifest(m, name, version).package is None,
{
}

/// Dependency propagation by variant: under the target name, a Simple
/// version is replaced outright, an Inherited entry is left structurally
/// unchanged, and a Detailed table gets the version pin set whether or not
/// it had one; entries under other names are untouched, and no entry is
/// added or removed.
pub proof fn lemma_dependency_propagation(
    deps: Seq<(Seq<char>, DepView)>,
    name: Seq<char>,
    version: Seq<char>,
    i: int,
)
    requires
        0 <= i < deps.len(),
    ensures
        update_deps(deps, name, version).len() == deps.len(),
        update_deps(deps, name, version)[i].0 == deps[i].0,
        deps[i].0 != name ==> update_deps(deps, name, version)[i] == deps[i],
        deps[i].0 == name ==> update_deps(deps, name, version)[i].1 == update_dep(
            deps[i].1,
            version,
        ),
        deps[i].0 == name ==> match deps[i].1 {
            DepView::Simple(_) => update_deps(deps, name, version)[i].1 == DepView::Simple(version),
            DepView::Inherited => update_deps(deps, name, version)[i].1 == DepView::Inherited,
            DepView::Detailed(_) => update_deps(deps, name, version)[i].1 == DepView::Detailed(
                Some(version),
            ),
        },
{
}

/// The workspace-level mapping is taken through the same per-entry rule,
/// with the member list untouched: this is what makes an inherited
/// dependency resolve to the new version.
pub proof fn lemma_workspace_propagation(m: ManifestView, name: Seq<char>, version: Seq<char>)
    ensures
        m.workspace matches Some(w) ==> update_manifest(m, name, version).workspace == Some(
            WorkspaceView { members: w.members, dependencies: update_deps(w.dependencies, name, version) },
        ),
        m.workspace is None ==> update_manifest(m, name, version).workspace is None,
{
}

/// Whether a structural content names the package anywhere a version update
/// could touch: as its own package descriptor, among its dependencies, or
/// among its workspace-level dependencies.
pub open spec fn names_package(m: ManifestView, name: Seq<char>) -> bool {
    ||| (m.package matches Some(p) && p.name == name)
    ||| exists|j: int| 0 <= j < m.dependencies.len() && #[trigger] m.dependencies[j].0 == name
    ||| (m.workspace matches Some(w) && exists|j: int|
        0 <= j < w.dependencies.len() && #[trigger] w.dependencies[j].0 == name)
}

proof fn lemma_update_deps_noop(deps: Seq<(Seq<char>, DepView)>, name: Seq<char>, version: Seq<char>)
    requires
        forall|j: int| 0 <= j < deps.len() ==> #[trigger] deps[j].0 != name,
    ensures
        update_deps(deps, name, version) == deps,
{
    assert(update_deps(deps, name, version) =~= deps);
}

/// A structural content that nowhere names the target package is left
/// exactly as it was by the update policy.
pub proof fn lemma_unrelated_content_noop(m: ManifestView, name: Seq<char>, version: Seq<char>)
    requires
        !names_package(m, name),
    ensures
        update_manifest(m, name, version) == m,
{
    lemma_update_deps_noop(m.dependencies, name, version);
    match m.workspace {
        Some(w) => {
            lemma_update_deps_noop(w.dependencies, name, version);
        },
        None => {},
    }
}

proof fn lemma_apply_members_all_packages(
    fs: Map<Seq<char>, Seq<u8>>,
    ms: Seq<(Seq<char>, ManifestView)>,
    name: Seq<char>,
    version: Seq<char>,
)
    requires
        forall|j: int| 0 <= j < ms.len() ==> (#[trigger] ms[j].1).package is Some,
    ensures
        apply_members_spec(fs, ms, name, version) == (fs, None::<crate::cargo::ErrView>),
    decreases ms.len(),
{
    if ms.len() > 0 {
        lemma_apply_members_all_packages(fs, ms.skip(1), name, version);
    }
}

/// Unrelated package no-op: when neither the root nor any member names the
/// target package, and every member owns a package descriptor, the update
/// policy changes no content, and the pass performs no write beyond the
/// root's unconditional re-write of its unchanged content.
pub proof fn lemma_unrelated_package_noop(
    fs: Map<Seq<char>, Seq<u8>>,
    g: GraphView,
    name: Seq<char>,
    version: Seq<char>,
)
    requires
        !names_package(g.root_manifest, name),
        g.members matches Some(ms) ==> forall|j: int|
            0 <= j < ms.len() ==> (!names_package((#[trigger] ms[j]).1, name) && ms[j].1.package
                is Some),
        serialized_manifest(g.root_manifest) is Some,
        fs.contains_key(g.root_path),
    ensures
        updated_graph(g, name, version) == g,
        apply_spec(fs, g, name, version) == (
            fs.insert(g.root_path, serialized_manifest(g.root_manifest)->Some_0),
            None::<crate::cargo::ErrView>,
        ),
{
    lemma_unrelated_content_noop(g.root_manifest, name, version);
    match g.members {
        Some(ms) => {
            assert forall|j: int| 0 <= j < ms.len() implies (#[trigger] updated_members(
                ms,
                name,
                version,
            )[j]) == ms[j] by {
                lemma_unrelated_content_noop(ms[j].1, name, version);
            }
            assert(updated_members(ms, name, version) =~= ms);
            lemma_apply_members_all_packages(
                fs.insert(g.root_path, serialized_manifest(g.root_manifest)->Some_0),
                ms,
                name,
                version,
            );
        },
        None => {},
    }
    assert(updated_graph(g, name, version) == g);
}

proof fn lemma_load_members_fail_io(
    fs: Map<Seq<char>, Seq<u8>>,
    dir: Seq<char>,
    members: Seq<Seq<char>>,
    acc: Seq<(Seq<char>, ManifestView)>,
    i: int,
)
    requires
        0 <= i < members.len(),
        forall|j: int|
            0 <= j < i ==> fs.contains_key(member_manifest_path(dir, #[trigger] members[j]))
                && crate::parse::parsed_manifest(
                fs[member_manifest_path(dir, members[j])],
            ) is Some,
        !fs.contains_key(member_manifest_path(dir, members[i])),
    ensures
        load_members_spec(fs, dir, members, acc) == Err::<
            Seq<(Seq<char>, ManifestView)>,
            crate::cargo::ErrView,
        >(crate::cargo::ErrView::Io(member_manifest_path(dir, members[i]))),
    decreases i,
{
    if i > 0 {
        let p = member_manifest_path(dir, members[0]);
        let m = crate::parse::parsed_manifest(fs[p])->Some_0;
        assert(members.skip(1)[i - 1] == members[i]);
        assert(forall|j: int|
            0 <= j < i - 1 ==> #[trigger] members.skip(1)[j] == members[j + 1]);
        lemma_load_members_fail_io(fs, dir, members.skip(1), insert_member_spec(acc, p, m), i - 1);
    }
}

/// Fail-fast on load: when the root parses and declares members, every
/// member before position `i` exists and parses, and the member at `i` has
/// no resource, the load fails with that member's resolved identifier — and,
/// failing, returns no graph at all, partial or otherwise.
pub proof fn lemma_fail_fast_on_load(fs: Map<Seq<char>, Seq<u8>>, path: Seq<char>, i: int)
    requires
        fs.contains_key(path),
        crate::parse::parsed_manifest(fs[path]) is Some,
        crate::parse::parsed_manifest(fs[path])->Some_0.workspace is Some,
        ({
            let w = crate::parse::parsed_manifest(fs[path])->Some_0.workspace->Some_0;
            let dir = parent_dir_spec(path);
            &&& 0 <= i < w.members.len()
            &&& forall|j: int|
                0 <= j < i ==> fs.contains_key(member_manifest_path(dir, #[trigger] w.members[j]))
                    && crate::parse::parsed_manifest(
                    fs[member_manifest_path(dir, w.members[j])],
                ) is Some
            &&& !fs.contains_key(member_manifest_path(dir, w.members[i]))
        }),
    ensures
        ({
            let w = crate::parse::parsed_manifest(fs[path])->Some_0.workspace->Some_0;
            load_spec(fs, path) == Err::<GraphView, crate::cargo::ErrView>(
                crate::cargo::ErrView::Io(
                    member_manifest_path(parent_dir_spec(path), w.members[i]),
                ),
            )
        }),
{
    let w = crate::parse::parsed_manifest(fs[path])->Some_0.workspace->Some_0;
    lemma_load_members_fail_io(fs, parent_dir_spec(path), w.members, Seq::empty(), i);
}

proof fn lemma_apply_members_untouched(
    fs: Map<Seq<char>, Seq<u8>>,
    ms: Seq<(Seq<char>, ManifestView)>,
    name: Seq<char>,
    version: Seq<char>,
    key: Seq<char>,
)
    requires
        forall|j: int| 0 <= j < ms.len() && (#[trigger] ms[j]).1.package is None ==> ms[j].0 != key,
    ensures
        ({
            let r = apply_members_spec(fs, ms, name, version);
            &&& r.0.contains_key(key) == fs.contains_key(key)
            &&& fs.contains_key(key) ==> r.0[key] == fs[key]
        }),
    decreases ms.len(),
{
    if ms.len() > 0 {
        assert(forall|j: int| 0 <= j < ms.len() - 1 ==> #[trigger] ms.skip(1)[j] == ms[j + 1]);
        if ms[0].1.package is Some {
            lemma_apply_members_untouched(fs, ms.skip(1), name, version, key);
        } else {
            match serialized_manifest(update_manifest(ms[0].1, name, version)) {
                None => {},
                Some(bytes) => {
                    if fs.contains_key(ms[0].0) {
                        lemma_apply_members_untouched(
                            fs.insert(ms[0].0, bytes),
                            ms.skip(1),
                            name,
                            version,
                            key,
                        );
                    }
                },
            }
        }
    }
}

/// Selective persistence: on a successful pass, the root resource holds the
/// re-encoded updated root content, while a member that owns a package
/// descriptor is not written — its resource keeps the content it had before
/// the pass, even though its in-memory content was updated.
pub proof fn lemma_selective_persistence(
    fs: Map<Seq<char>, Seq<u8>>,
    g: GraphView,
    name: Seq<char>,
    version: Seq<char>,
    i: int,
)
    requires
        g.members is Some,
        ({
            let ms = g.members->Some_0;
            &&& 0 <= i < ms.len()
            &&& ms[i].1.package is Some
            &&& ms[i].0 != g.root_path
            &&& forall|j: int|
                0 <= j < ms.len() && (#[trigger] ms[j]).1.package is None ==> ms[j].0 != ms[i].0
                    && ms[j].0 != g.root_path
        }),
        apply_spec(fs, g, name, version).1 is None,
    ensures
        ({
            let ms = g.members->Some_0;
            let fs2 = apply_spec(fs, g, name, version).0;
            &&& fs2.contains_key(g.root_path)
            &&& fs2[g.root_path] == serialized_manifest(
                update_manifest(g.root_manifest, name, version),
            )->Some_0
            &&& fs2.contains_key(ms[i].0) == fs.contains_key(ms[i].0)
            &&& fs.contains_key(ms[i].0) ==> fs2[ms[i].0] == fs[ms[i].0]
        }),
{
    let ms = g.members->Some_0;
    match serialized_manifest(update_manifest(g.root_manifest, name, version)) {
        None => {},
        Some(bytes) => {
            let fs1 = fs.insert(g.root_path, bytes);
            lemma_apply_members_untouched(fs1, ms, name, version, ms[i].0);
            lemma_apply_members_untouched(fs1, ms, name, version, g.root_path);
        },
    }
}

proof fn lemma_insert_member_contains(
    ms: Seq<(Seq<char>, ManifestView)>,
    path: Seq<char>,
    m: ManifestView,
)
    ensures
        exists|k: int|
            0 <= k < insert_member_spec(ms, path, m).len() && #[trigger] insert_member_spec(
                ms,
                path,
                m,
            )[k] == (path, m),
    decreases ms.len(),
{
    let r = insert_member_spec(ms, path, m);
    if ms.len() == 0 || ms[0].0 == path || crate::paths::lex_le(path, ms[0].0) {
        assert(r[0] == (path, m));
    } else {
        lemma_insert_member_contains(ms.skip(1), path, m);
        let k0 = choose|k: int|
            0 <= k < insert_member_spec(ms.skip(1), path, m).len()
                && #[trigger] insert_member_spec(ms.skip(1), path, m)[k] == (path, m);
        assert(r[k0 + 1] == (path, m));
    }
}

proof fn lemma_insert_member_keys(
    ms: Seq<(Seq<char>, ManifestView)>,
    path: Seq<char>,
    m: ManifestView,
    j: int,
)
    requires
        0 <= j < ms.len(),
    ensures
        exists|k: int|
            #![trigger insert_member_spec(ms, path, m)[k]]
            0 <= k < insert_member_spec(ms, path, m).len() && insert_member_spec(ms, path, m)[k].0
                == ms[j].0,
    decreases ms.len(),
{
    let r = insert_member_spec(ms, path, m);
    if ms[0].0 == path {
        if j == 0 {
            assert(r[0].0 == ms[0].0);
        } else {
            assert(r[j].0 == ms[j].0);
        }
    } else if crate::paths::lex_le(path, ms[0].0) {
        assert(r[j + 1].0 == ms[j].0);
    } else {
        if j == 0 {
            assert(r[0].0 == ms[0].0);
        } else {
            lemma_insert_member_keys(ms.skip(1), path, m, j - 1);
            assert(ms.skip(1)[j - 1] == ms[j]);
            let k0 = choose|k: int|
                #![trigger insert_member_spec(ms.skip(1), path, m)[k]]
                0 <= k < insert_member_spec(ms.skip(1), path, m).len() && insert_member_spec(
                    ms.skip(1),
                    path,
                    m,
                )[k].0 == ms.skip(1)[j - 1].0;
            assert(r[k0 + 1].0 == ms[j].0);
        }
    }
}

proof fn lemma_insert_member_domain(
    ms: Seq<(Seq<char>, ManifestView)>,
    path: Seq<char>,
    m: ManifestView,
    k: int,
)
    requires
        0 <= k < insert_member_spec(ms, path, m).len(),
    ensures
        insert_member_spec(ms, path, m)[k] == (path, m) || exists|j: int|
            0 <= j < ms.len() && #[trigger] ms[j] == insert_member_spec(ms, path, m)[k],
    decreases ms.len(),
{
    let r = insert_member_spec(ms, path, m);
    if ms.len() == 0 {
    } else if ms[0].0 == path {
        if k > 0 {
            assert(ms[k] == r[k]);
        }
    } else if crate::paths::lex_le(path, ms[0].0) {
        if k > 0 {
            assert(ms[k - 1] == r[k]);
        }
    } else {
        if k > 0 {
            lemma_insert_member_domain(ms.skip(1), path, m, k - 1);
            if insert_member_spec(ms.skip(1), path, m)[k - 1] != (path, m) {
                let j0 = choose|j: int|
                    0 <= j < ms.skip(1).len() && #[trigger] ms.skip(1)[j] == insert_member_spec(
                        ms.skip(1),
                        path,
                        m,
                    )[k - 1];
                assert(ms[j0 + 1] == r[k]);
            }
        }
    }
}

/// Whether `e` is the entry that loading resolves for the member declared as
/// `rel` against directory `dir`: its resolved identifier paired with the
/// parsed content of that resource.
pub open spec fn is_member_entry(
    fs: Map<Seq<char>, Seq<u8>>,
    dir: Seq<char>,
    rel: Seq<char>,
    e: (Seq<char>, ManifestView),
) -> bool {
    let p = member_manifest_path(dir, rel);
    &&& fs.contains_key(p)
    &&& crate::parse::parsed_manifest(fs[p]) is Some
    &&& e == (p, crate::parse::parsed_manifest(fs[p])->Some_0)
}

proof fn lemma_load_members_keys(
    fs: Map<Seq<char>, Seq<u8>>,
    dir: Seq<char>,
    members: Seq<Seq<char>>,
    acc: Seq<(Seq<char>, ManifestView)>,
)
    requires
        load_members_spec(fs, dir, members, acc) is Ok,
    ensures
        ({
            let r = load_members_spec(fs, dir, members, acc)->Ok_0;
            &&& forall|i: int|
                #![trigger members[i]]
                0 <= i < members.len() ==> exists|k: int|
                    #![trigger r[k]]
                    0 <= k < r.len() && r[k].0 == member_manifest_path(dir, members[i])
            &&& forall|j: int|
                #![trigger acc[j]]
                0 <= j < acc.len() ==> exists|k: int|
                    #![trigger r[k]]
                    0 <= k < r.len() && r[k].0 == acc[j].0
        }),
    decreases members.len(),
{
    let r = load_members_spec(fs, dir, members, acc)->Ok_0;
    if members.len() > 0 {
        let p = member_manifest_path(dir, members[0]);
        let m = crate::parse::parsed_manifest(fs[p])->Some_0;
        let acc1 = insert_member_spec(acc, p, m);
        let rest = members.skip(1);
        assert(forall|j: int| 0 <= j < rest.len() ==> #[trigger] rest[j] == members[j + 1]);
        lemma_load_members_keys(fs, dir, rest, acc1);
        lemma_insert_member_contains(acc, p, m);
        assert forall|i: int| #![trigger members[i]] 0 <= i < members.len() implies exists|k: int|
            #![trigger r[k]]
            0 <= k < r.len() && r[k].0 == member_manifest_path(dir, members[i]) by {
            if i >= 1 {
                assert(rest[i - 1] == members[i]);
            } else {
                let k1 = choose|k: int| #![trigger acc1[k]] 0 <= k < acc1.len() && acc1[k] == (p, m);
            }
        }
        assert forall|j: int| #![trigger acc[j]] 0 <= j < acc.len() implies exists|k: int|
            #![trigger r[k]]
            0 <= k < r.len() && r[k].0 == acc[j].0 by {
            lemma_insert_member_keys(acc, p, m, j);
        }
    }
}

proof fn lemma_load_members_domain(
    fs: Map<Seq<char>, Seq<u8>>,
    dir: Seq<char>,
    members: Seq<Seq<char>>,
    acc: Seq<(Seq<char>, ManifestView)>,
)
    requires
        load_members_spec(fs, dir, members, acc) is Ok,
    ensures
        ({
            let r = load_members_spec(fs, dir, members, acc)->Ok_0;
            forall|k: int|
                #![trigger r[k]]
                0 <= k < r.len() ==> (exists|j: int| #![trigger acc[j]] 0 <= j < acc.len() && acc[j]
                    == r[k]) || (exists|i: int|
                    #![trigger members[i]]
                    0 <= i < members.len() && is_member_entry(fs, dir, members[i], r[k]))
        }),
    decreases members.len(),
{
    let r = load_members_spec(fs, dir, members, acc)->Ok_0;
    if members.len() > 0 {
        let p = member_manifest_path(dir, members[0]);
        let m = crate::parse::parsed_manifest(fs[p])->Some_0;
        let acc1 = insert_member_spec(acc, p, m);
        let rest = members.skip(1);
        assert(forall|j: int| 0 <= j < rest.len() ==> #[trigger] rest[j] == members[j + 1]);
        lemma_load_members_domain(fs, dir, rest, acc1);
        assert forall|k: int| #![trigger r[k]] 0 <= k < r.len() implies (exists|j: int|
            #![trigger acc[j]]
            0 <= j < acc.len() && acc[j] == r[k]) || (exists|i: int|
            #![trigger members[i]]
            0 <= i < members.len() && is_member_entry(fs, dir, members[i], r[k])) by {
            if exists|j1: int| #![trigger acc1[j1]] 0 <= j1 < acc1.len() && acc1[j1] == r[k] {
                let j1 = choose|j1: int| #![trigger acc1[j1]] 0 <= j1 < acc1.len() && acc1[j1] == r[k];
                lemma_insert_member_domain(acc, p, m, j1);
                if acc1[j1] == (p, m) {
                    assert(is_member_entry(fs, dir, members[0], r[k]));
                } else {
                    let j0 = choose|j0: int| 0 <= j0 < acc.len() && #[trigger] acc[j0] == acc1[j1];
                    assert(acc[j0] == r[k]);
                }
            } else {
                let i2 = choose|i2: int|
                    #![trigger rest[i2]]
                    0 <= i2 < rest.len() && is_member_entry(fs, dir, rest[i2], r[k]);
                assert(rest[i2] == members[i2 + 1]);
                assert(is_member_entry(fs, dir, members[i2 + 1], r[k]));
            }
        }
    }
}

/// Graph completeness: on a successful load whose member mapping is present,
/// the mapping holds, for every declared member, the member's resolved
/// identifier with that resource's correctly parsed content — and holds
/// nothing else.
pub proof fn lemma_graph_completeness(fs: Map<Seq<char>, Seq<u8>>, path: Seq<char>)
    requires
        load_spec(fs, path) is Ok,
        load_spec(fs, path)->Ok_0.members is Some,
    ensures
        ({
            let g = load_spec(fs, path)->Ok_0;
            let ms = g.members->Some_0;
            let w = g.root_manifest.workspace->Some_0;
            let dir = parent_dir_spec(path);
            &&& g.root_manifest == crate::parse::parsed_manifest(fs[path])->Some_0
            &&& forall|i: int|
                #![trigger w.members[i]]
                0 <= i < w.members.len() ==> exists|k: int|
                    #![trigger ms[k]]
                    0 <= k < ms.len() && is_member_entry(fs, dir, w.members[i], ms[k])
            &&& forall|k: int|
                #![trigger ms[k]]
                0 <= k < ms.len() ==> exists|i: int|
                    #![trigger w.members[i]]
                    0 <= i < w.members.len() && is_member_entry(fs, dir, w.members[i], ms[k])
        }),
{
    let g = load_spec(fs, path)->Ok_0;
    let w = g.root_manifest.workspace->Some_0;
    let dir = parent_dir_spec(path);
    lemma_load_members_keys(fs, dir, w.members, Seq::empty());
    lemma_load_members_domain(fs, dir, w.members, Seq::empty());
    let r = load_members_spec(fs, dir, w.members, Seq::empty())->Ok_0;
    assert(g.members == Some(r));
    let ms = g.members->Some_0;
    assert(ms == r);
    assert forall|k: int| #![trigger ms[k]] 0 <= k < ms.len() implies exists|i: int|
        #![trigger w.members[i]]
        0 <= i < w.members.len() && is_member_entry(fs, dir, w.members[i], ms[k]) by {
        assert(0 <= k < r.len());
        assert(!(exists|j: int|
            #![trigger Seq::<(Seq<char>, ManifestView)>::empty()[j]]
            0 <= j < Seq::<(Seq<char>, ManifestView)>::empty().len() && Seq::<
                (Seq<char>, ManifestView),
            >::empty()[j] == r[k]));
    }
    assert forall|i: int| #![trigger w.members[i]] 0 <= i < w.members.len() implies exists|k: int|
        #![trigger ms[k]]
        0 <= k < ms.len() && is_member_entry(fs, dir, w.members[i], ms[k]) by {
        let k = choose|k: int|
            #![trigger r[k]]
            0 <= k < r.len() && r[k].0 == member_manifest_path(dir, w.members[i]);
        let i2 = choose|i2: int|
            #![trigger w.members[i2]]
            0 <= i2 < w.members.len() && is_member_entry(fs, dir, w.members[i2], r[k]);
        assert(member_manifest_path(dir, w.members[i2]) == member_manifest_path(
            dir,
            w.members[i],
        ));
        assert(is_member_entry(fs, dir, w.members[i], r[k]));
    }
}

} // verus!
