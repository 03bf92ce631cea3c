//! Parsing of configuration-file bytes into structural content. The parse
//! itself is the work of the `cargo_toml` crate; what it yields is named by
//! uninterpreted spec functions and extracted behind trusted wrappers.

use vstd::prelude::*;

use crate::manifest::{deps_view, Dependency, ManifestData, ManifestView, Package, PackageView, Workspace};

verus! {

/// The raw parsed form of one configuration file, from the `cargo_toml` crate.
#[verifier::external_type_specification]
#[verifier::external_body]
#[verifier::reject_recursive_types(Metadata)]
pub struct ExCargoManifest<Metadata>(cargo_toml::Manifest<Metadata>);

/// The structural content that a raw `cargo_toml::Manifest` holds: its
/// package descriptor, workspace declaration, and dependency entries, in the
/// library's form (dependency entries in the raw map's key order).
pub uninterp spec fn raw_model(m: cargo_toml::Manifest) -> ManifestView;

/// What `cargo_toml::Manifest::from_slice` yields for a byte string,
/// abstracted to the structural content: `None` when the bytes do not parse.
/// The parse depends on the bytes alone.
pub uninterp spec fn manifest_of_toml(bytes: Seq<u8>) -> Option<ManifestView>;

/// The package descriptor written as bare top-level `name` and `version`
/// keys of the document (the short form of the format), rather than as a
/// package table; `None` when there is no such `name` key. It depends on the
/// bytes alone.
pub uninterp spec fn top_level_package(bytes: Seq<u8>) -> Option<PackageView>;

/// Relies on `cargo_toml::Manifest::from_slice`: parsing is a function of the
/// bytes alone, and succeeds exactly when the bytes conform to the format.
#[verifier::external_body]
fn toml_parse(bytes: &Vec<u8>) -> (r: Option<cargo_toml::Manifest>)
    ensures
        (r is Some <==> manifest_of_toml(bytes@) is Some),
        r matches Some(m) ==> raw_model(m) == manifest_of_toml(bytes@)->Some_0,
{
    cargo_toml::Manifest::from_slice(bytes.as_slice()).ok()
}

/// Relies on the `package` field of `cargo_toml::Manifest` and on
/// `cargo_toml::Inheritable`: moves the package name out, and the version
/// either set directly or marked as inherited from the workspace.
#[verifier::external_body]
fn raw_package(raw: &cargo_toml::Manifest) -> (r: Option<Package>)
    ensures
        (r is Some <==> raw_model(*raw).package is Some),
        r matches Some(p) ==> p@ == raw_model(*raw).package->Some_0,
{
    raw.package.as_ref().map(|p| Package {
        name: p.name.clone(),
        version: match &p.version {
            cargo_toml::Inheritable::Set(v) => Some(v.clone()),
            cargo_toml::Inheritable::Inherited => None,
        },
    })
}

/// Relies on the `workspace` field of `cargo_toml::Manifest`: moves the
/// member list out and converts each workspace-level dependency entry, one
/// arm per `cargo_toml::Dependency` variant.
#[verifier::external_body]
fn raw_workspace(raw: &cargo_toml::Manifest) -> (r: Option<Workspace>)
    ensures
        (r is Some <==> raw_model(*raw).workspace is Some),
        r matches Some(w) ==> w@ == raw_model(*raw).workspace->Some_0,
{
    raw.workspace.as_ref().map(|w| Workspace {
        members: w.members.clone(),
        dependencies: w.dependencies.iter().map(|(k, d)| (k.clone(), match d {
            cargo_toml::Dependency::Simple(v) => Dependency::Simple(v.clone()),
            cargo_toml::Dependency::Inherited(_) => Dependency::Inherited,
            cargo_toml::Dependency::Detailed(t) => Dependency::Detailed(t.version.clone()),
        })).collect(),
    })
}

/// Relies on the `dependencies` field of `cargo_toml::Manifest` (a map
/// ordered by key): converts each entry, one arm per
/// `cargo_toml::Dependency` variant.
#[verifier::external_body]
fn raw_dependencies(raw: &cargo_toml::Manifest) -> (r: Vec<(String, Dependency)>)
    ensures
        deps_view(r@) == raw_model(*raw).dependencies,
{
    raw.dependencies.iter().map(|(k, d)| (k.clone(), match d {
        cargo_toml::Dependency::Simple(v) => Dependency::Simple(v.clone()),
        cargo_toml::Dependency::Inherited(_) => Dependency::Inherited,
        cargo_toml::Dependency::Detailed(t) => Dependency::Detailed(t.version.clone()),
    })).collect()
}

/// Relies on `toml::from_str::<toml::Table>` and the `get`/`as_str`
/// accessors of `toml::Value`: reads the bare top-level `name` and `version`
/// string keys of the document, a lookup that depends on the bytes alone.
#[verifier::external_body]
fn toml_bare_package(bytes: &Vec<u8>) -> (r: Option<Package>)
    ensures
        (r is Some <==> top_level_package(bytes@) is Some),
        r matches Some(p) ==> p@ == top_level_package(bytes@)->Some_0,
{
    let text = core::str::from_utf8(bytes.as_slice()).ok()?;
    let table: toml::Table = toml::from_str(text).ok()?;
    let name = table.get("name")?.as_str()?.to_owned();
    let version = table.get("version").and_then(|v| v.as_str()).map(|s| s.to_owned());
    Some(Package { name, version })
}

/// The structural content of one configuration file: what the format parser
/// yields, with the package descriptor taken from the bare top-level short
/// form when no package table is present.
pub open spec fn parsed_manifest(bytes: Seq<u8>) -> Option<ManifestView> {
    match manifest_of_toml(bytes) {
        Some(m) => Some(
            ManifestView {
                package: if m.package is Some {
                    m.package
                } else {
                    top_level_package(bytes)
                },
                workspace: m.workspace,
                dependencies: m.dependencies,
            },
        ),
        None => None,
    }
}

/// Parses the byte content of one configuration file into its structural
/// content; `None` when the bytes do not conform to the format.
pub fn parse_manifest(bytes: &Vec<u8>) -> (r: Option<ManifestData>)
    ensures
        (r is Some <==> parsed_manifest(bytes@) is Some),
        r matches Some(m) ==> m@ == parsed_manifest(bytes@)->Some_0,
{
    let raw = match toml_parse(bytes) {
        Some(raw) => raw,
        None => {
            return None;
        },
    };
    let package = match raw_package(&raw) {
        Some(p) => Some(p),
        None => toml_bare_package(bytes),
    };
    let workspace = raw_workspace(&raw);
    let dependencies = raw_dependencies(&raw);
    Some(ManifestData { package, workspace, dependencies })
}

} // verus!
