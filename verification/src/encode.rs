//! Re-encoding of structural content as configuration-file bytes. The
//! library builds the key/value document itself, verified against a
//! mathematical model of TOML values; only the final rendering to text is
//! the work of the `toml` crate.

use vstd::prelude::*;

use crate::manifest::{deps_view, Dependency, DepView, ManifestData, ManifestView, PackageView,
    WorkspaceView};

verus! {

/// A TOML value, from the `toml` crate.
#[verifier::external_type_specification]
#[verifier::external_body]
pub struct ExTomlValue(toml::Value);

/// Mathematical form of a TOML value.
pub enum TomlData {
    /// A string.
    Text(Seq<char>),
    /// A boolean.
    Flag(bool),
    /// An array.
    List(Seq<TomlData>),
    /// A table: a mapping from key to value (the underlying table is ordered
    /// by key, so the mapping determines it).
    Table(Map<Seq<char>, TomlData>),
    /// A value of a kind this library never builds (an integer, float or
    /// datetime), identified by its canonical text so that every TOML value
    /// has exactly one structural image.
    Other(Seq<char>),
}

/// The structural content a `toml::Value` holds, one to one.
pub uninterp spec fn toml_value_model(v: toml::Value) -> TomlData;

/// What `toml::to_string_pretty` yields for a TOML value, as bytes: a
/// function of the value's structural content alone; `None` when the value
/// cannot be rendered.
pub uninterp spec fn rendered_toml(t: TomlData) -> Option<Seq<u8>>;

/// Relies on `toml::Value::String`: wraps a string as a TOML value.
#[verifier::external_body]
fn tv_text(s: &str) -> (v: toml::Value)
    ensures
        toml_value_model(v) == TomlData::Text(s@),
{
    toml::Value::String(s.to_owned())
}

/// Relies on `toml::Value::Boolean`: wraps a boolean as a TOML value.
#[verifier::external_body]
fn tv_flag(b: bool) -> (v: toml::Value)
    ensures
        toml_value_model(v) == TomlData::Flag(b),
{
    toml::Value::Boolean(b)
}

/// Relies on `toml::Value::Array`: wraps the items as a TOML array.
#[verifier::external_body]
fn tv_list(items: Vec<toml::Value>) -> (v: toml::Value)
    ensures
        toml_value_model(v) == TomlData::List(
            Seq::new(items@.len(), |i: int| toml_value_model(items@[i])),
        ),
{
    toml::Value::Array(items)
}

/// Relies on `toml::map::Map::new` and `toml::Value::Table`: an empty table.
#[verifier::external_body]
fn tv_table_new() -> (v: toml::Value)
    ensures
        toml_value_model(v) == TomlData::Table(Map::<Seq<char>, TomlData>::empty()),
{
    toml::Value::Table(toml::map::Map::new())
}

/// Relies on `toml::Value::as_table_mut` and `toml::map::Map::insert`: puts
/// `val` under `key`, replacing an existing entry of that key.
#[verifier::external_body]
fn tv_table_insert(table: &mut toml::Value, key: &str, val: toml::Value)
    requires
        toml_value_model(*old(table)) is Table,
    ensures
        toml_value_model(*old(table)) matches TomlData::Table(t0) ==> toml_value_model(
            *final(table),
        ) == TomlData::Table(t0.insert(key@, toml_value_model(val))),
{
    table.as_table_mut().unwrap().insert(key.to_owned(), val);
}

/// Relies on `toml::to_string_pretty`: rendering is a function of the
/// value's structural content alone (`rendered_toml` names the bytes), and
/// `String::into_bytes`.
#[verifier::external_body]
fn render_toml(v: &toml::Value) -> (r: Option<Vec<u8>>)
    ensures
        (r is Some <==> rendered_toml(toml_value_model(*v)) is Some),
        r matches Some(b) ==> b@ == rendered_toml(toml_value_model(*v))->Some_0,
{
    toml::to_string_pretty(v).ok().map(|s| s.into_bytes())
}

/// The table image of one dependency entry's value.
pub open spec fn dep_data(d: DepView) -> TomlData {
    match d {
        DepView::Simple(v) => TomlData::Text(v),
        DepView::Inherited => TomlData::Table(
            Map::<Seq<char>, TomlData>::empty().insert("workspace"@, TomlData::Flag(true)),
        ),
        DepView::Detailed(Some(v)) => TomlData::Table(
            Map::<Seq<char>, TomlData>::empty().insert("version"@, TomlData::Text(v)),
        ),
        DepView::Detailed(None) => TomlData::Table(Map::<Seq<char>, TomlData>::empty()),
    }
}

/// The table image of a dependencies mapping.
pub open spec fn deps_table(deps: Seq<(Seq<char>, DepView)>) -> Map<Seq<char>, TomlData>
    decreases deps.len(),
{
    if deps.len() == 0 {
        Map::empty()
    } else {
        deps_table(deps.drop_last()).insert(deps.last().0, dep_data(deps.last().1))
    }
}

/// The table image of a package descriptor; an inherited version is written
/// as `version = { workspace = true }`.
pub open spec fn package_table(p: PackageView) -> Map<Seq<char>, TomlData> {
    let base = Map::<Seq<char>, TomlData>::empty().insert("name"@, TomlData::Text(p.name));
    match p.version {
        Some(v) => base.insert("version"@, TomlData::Text(v)),
        None => base.insert(
            "version"@,
            TomlData::Table(
                Map::<Seq<char>, TomlData>::empty().insert("workspace"@, TomlData::Flag(true)),
            ),
        ),
    }
}

/// The table image of a membership declaration; an empty dependencies
/// mapping is left out.
pub open spec fn workspace_table(w: WorkspaceView) -> Map<Seq<char>, TomlData> {
    let base = Map::<Seq<char>, TomlData>::empty().insert(
        "members"@,
        TomlData::List(w.members.map_values(|s: Seq<char>| TomlData::Text(s))),
    );
    if w.dependencies.len() > 0 {
        base.insert("dependencies"@, TomlData::Table(deps_table(w.dependencies)))
    } else {
        base
    }
}

/// The document image of one structural content: optional package table,
/// optional workspace table, and the dependencies table when non-empty.
pub open spec fn manifest_table(m: ManifestView) -> TomlData {
    let t = Map::<Seq<char>, TomlData>::empty();
    let t = match m.package {
        Some(p) => t.insert("package"@, TomlData::Table(package_table(p))),
        None => t,
    };
    let t = match m.workspace {
        Some(w) => t.insert("workspace"@, TomlData::Table(workspace_table(w))),
        None => t,
    };
    let t = if m.dependencies.len() > 0 {
        t.insert("dependencies"@, TomlData::Table(deps_table(m.dependencies)))
    } else {
        t
    };
    TomlData::Table(t)
}

/// The bytes that persisting one structural content writes; `None` when the
/// encoder cannot render it.
pub open spec fn serialized_manifest(m: ManifestView) -> Option<Seq<u8>> {
    rendered_toml(manifest_table(m))
}

/// Builds the TOML value of one dependency entry's value.
fn dep_to_value(d: &Dependency) -> (v: toml::Value)
    ensures
        toml_value_model(v) == dep_data(d@),
{
    match d {
        Dependency::Simple(ver) => tv_text(ver.as_str()),
        Dependency::Inherited => {
            let mut t = tv_table_new();
            tv_table_insert(&mut t, "workspace", tv_flag(true));
            t
        },
        Dependency::Detailed(Some(ver)) => {
            let mut t = tv_table_new();
            tv_table_insert(&mut t, "version", tv_text(ver.as_str()));
            t
        },
        Dependency::Detailed(None) => tv_table_new(),
    }
}

/// Builds the TOML table of a dependencies mapping.
fn deps_to_value(deps: &Vec<(String, Dependency)>) -> (v: toml::Value)
    ensures
        toml_value_model(v) == TomlData::Table(deps_table(deps_view(deps@))),
{
    let ghost dseq = deps_view(deps@);
    let mut t = tv_table_new();
    let mut i: usize = 0;
    while i < deps.len()
        invariant
            i <= deps@.len(),
            dseq == deps_view(deps@),
            toml_value_model(t) == TomlData::Table(deps_table(dseq.take(i as int))),
        decreases deps@.len() - i,
    {
        let dv = dep_to_value(&deps[i].1);
        tv_table_insert(&mut t, deps[i].0.as_str(), dv);
        proof {
            assert(dseq.take(i + 1).drop_last() =~= dseq.take(i as int));
            assert(dseq.take(i + 1).last() == (deps@[i as int].0@, deps@[i as int].1@));
        }
        i = i + 1;
    }
    proof {
        assert(dseq.take(deps@.len() as int) =~= dseq);
    }
    t
}

/// Builds the TOML document of one structural content.
fn manifest_to_value(m: &ManifestData) -> (v: toml::Value)
    ensures
        toml_value_model(v) == manifest_table(m@),
{
    let mut root = tv_table_new();
    if let Some(p) = &m.package {
        let mut pt = tv_table_new();
        tv_table_insert(&mut pt, "name", tv_text(p.name.as_str()));
        match &p.version {
            Some(ver) => tv_table_insert(&mut pt, "version", tv_text(ver.as_str())),
            None => {
                let mut wv = tv_table_new();
                tv_table_insert(&mut wv, "workspace", tv_flag(true));
                tv_table_insert(&mut pt, "version", wv);
            },
        }
        tv_table_insert(&mut root, "package", pt);
    }
    if let Some(w) = &m.workspace {
        let mut wt = tv_table_new();
        let mut items: Vec<toml::Value> = Vec::new();
        let mut i: usize = 0;
        while i < w.members.len()
            invariant
                i <= w.members@.len(),
                items@.len() == i,
                forall|j: int| 0 <= j < i ==> #[trigger] toml_value_model(items@[j])
                    == TomlData::Text(w.members@[j]@),
            decreases w.members@.len() - i,
        {
            items.push(tv_text(w.members[i].as_str()));
            i = i + 1;
        }
        proof {
            assert(Seq::new(items@.len(), |j: int| toml_value_model(items@[j])) =~= w@
                .members
                .map_values(|s: Seq<char>| TomlData::Text(s)));
        }
        tv_table_insert(&mut wt, "members", tv_list(items));
        if w.dependencies.len() > 0 {
            let dv = deps_to_value(&w.dependencies);
            tv_table_insert(&mut wt, "dependencies", dv);
        }
        tv_table_insert(&mut root, "workspace", wt);
    }
    if m.dependencies.len() > 0 {
        let dv = deps_to_value(&m.dependencies);
        tv_table_insert(&mut root, "dependencies", dv);
    }
    root
}

/// Re-encodes structural content as configuration-file bytes; `None` when
/// the encoder cannot render it.
pub fn serialize_manifest(m: &ManifestData) -> (r: Option<Vec<u8>>)
    ensures
        (r is Some <==> serialized_manifest(m@) is Some),
        r matches Some(b) ==> b@ == serialized_manifest(m@)->Some_0,
{
    let v = manifest_to_value(m);
    render_toml(&v)
}

} // verus!
