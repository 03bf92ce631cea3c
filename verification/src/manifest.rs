//! The structural content of one configuration file: an optional package
//! descriptor, an optional membership (workspace) declaration, and a
//! dependencies mapping; together with the per-resource update policy.

use vstd::prelude::*;

verus! {

/// One reference to another package, in one of three closed forms.
#[derive(Debug, Clone)]
pub enum Dependency {
    /// The version is given directly as a string: `dep = "1.2.3"`.
    Simple(String),
    /// The version is delegated to the workspace-level entry of the same
    /// name: `dep = { workspace = true }`. It carries no settable version.
    Inherited,
    /// A table with an optional version pin: `dep = { version = "1.2.3" }`;
    /// `None` means no explicit pin.
    Detailed(Option<String>),
}

/// Mathematical form of a `Dependency`.
pub enum DepView {
    Simple(Seq<char>),
    Inherited,
    Detailed(Option<Seq<char>>),
}

impl View for Dependency {
    type V = DepView;

    open spec fn view(&self) -> DepView {
        match self {
            Dependency::Simple(v) => DepView::Simple(v@),
            Dependency::Inherited => DepView::Inherited,
            Dependency::Detailed(ov) => DepView::Detailed(
                match ov {
                    Some(v) => Some(v@),
                    None => None,
                },
            ),
        }
    }
}

/// The package descriptor: this resource is a named, versioned unit.
#[derive(Debug, Clone)]
pub struct Package {
    pub name: String,
    /// `None` means the version is inherited from the workspace
    /// (`version.workspace = true`) rather than stated here.
    pub version: Option<String>,
}

/// Mathematical form of a `Package`.
pub struct PackageView {
    pub name: Seq<char>,
    pub version: Option<Seq<char>>,
}

impl View for Package {
    type V = PackageView;

    open spec fn view(&self) -> PackageView {
        PackageView {
            name: self.name@,
            version: match self.version {
                Some(v) => Some(v@),
                None => None,
            },
        }
    }
}

/// The membership declaration: relative paths of the member sub-projects and
/// the workspace-level dependencies that members may inherit from.
#[derive(Debug, Clone)]
pub struct Workspace {
    pub members: Vec<String>,
    pub dependencies: Vec<(String, Dependency)>,
}

/// Mathematical form of a `Workspace`.
pub struct WorkspaceView {
    pub members: Seq<Seq<char>>,
    pub dependencies: Seq<(Seq<char>, DepView)>,
}

/// Mathematical form of a dependencies mapping.
pub open spec fn deps_view(deps: Seq<(String, Dependency)>) -> Seq<(Seq<char>, DepView)> {
    deps.map_values(|e: (String, Dependency)| (e.0@, e.1@))
}

impl View for Workspace {
    type V = WorkspaceView;

    open spec fn view(&self) -> WorkspaceView {
        WorkspaceView {
            members: self.members@.map_values(|m: String| m@),
            dependencies: deps_view(self.dependencies@),
        }
    }
}

/// The parsed structural content of one configuration file.
#[derive(Debug, Clone)]
pub struct ManifestData {
    pub package: Option<Package>,
    pub workspace: Option<Workspace>,
    pub dependencies: Vec<(String, Dependency)>,
}

/// Mathematical form of a `ManifestData`.
pub struct ManifestView {
    pub package: Option<PackageView>,
    pub workspace: Option<WorkspaceView>,
    pub dependencies: Seq<(Seq<char>, DepView)>,
}

impl View for ManifestData {
    type V = ManifestView;

    open spec fn view(&self) -> ManifestView {
        ManifestView {
            package: match self.package {
                Some(p) => Some(p@),
                None => None,
            },
            workspace: match self.workspace {
                Some(w) => Some(w@),
                None => None,
            },
            dependencies: deps_view(self.dependencies@),
        }
    }
}

/// The new form of a dependency entry whose key matched the target package:
/// a Simple version is replaced outright, an Inherited entry has no version
/// of its own and stays as it is, and a Detailed table gets the version pin
/// whether or not it had one.
pub open spec fn update_dep(d: DepView, version: Seq<char>) -> DepView {
    match d {
        DepView::Simple(_) => DepView::Simple(version),
        DepView::Inherited => DepView::Inherited,
        DepView::Detailed(_) => DepView::Detailed(Some(version)),
    }
}

/// Every entry of `deps` whose key equals `name`, updated; the rest unchanged.
pub open spec fn update_deps(
    deps: Seq<(Seq<char>, DepView)>,
    name: Seq<char>,
    version: Seq<char>,
) -> Seq<(Seq<char>, DepView)> {
    deps.map_values(
        |e: (Seq<char>, DepView)|
            if e.0 == name {
                (e.0, update_dep(e.1, version))
            } else {
                e
            },
    )
}

/// The per-resource update policy, applied identically to the root and to
/// each member:
/// - a package descriptor named `name` gets its version set to `version`;
/// - a resource without a package descriptor (a pure aggregator) has its own
///   dependencies mapping updated;
/// - a workspace-level dependencies mapping, when present, is updated as well.
pub open spec fn update_manifest(m: ManifestView, name: Seq<char>, version: Seq<char>) -> ManifestView {
    ManifestView {
        package: match m.package {
            Some(p) => if p.name == name {
                Some(PackageView { name: p.name, version: Some(version) })
            } else {
                Some(p)
            },
            None => None,
        },
        workspace: match m.workspace {
            Some(w) => Some(
                WorkspaceView { members: w.members, dependencies: update_deps(w.dependencies, name, version) },
            ),
            None => None,
        },
        dependencies: if m.package is None {
            update_deps(m.dependencies, name, version)
        } else {
            m.dependencies
        },
    }
}

} // verus!
