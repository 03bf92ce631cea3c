use cargo_set::cargo::{CargoManifestService, ManifestError};
use cargo_set::filesystem::{FileSystem, MockFileSystem};
use cargo_set::manifest::Dependency;
use cargo_set::parse::parse_manifest;

fn dep_named<'a>(deps: &'a [(String, Dependency)], name: &str) -> &'a Dependency {
    &deps.iter().find(|e| e.0 == name).unwrap().1
}

fn member_named<'a>(
    members: &'a [(String, cargo_set::manifest::ManifestData)],
    path: &str,
) -> &'a cargo_set::manifest::ManifestData {
    &members.iter().find(|e| e.0 == path).unwrap().1
}

#[test]
fn can_load_children() {
    let root_manifest_toml =
        b"name = 'root'\nversion = '0.1.0'\n workspace = { members = ['child'] }";
    let child_manifest_toml = b"name = 'child'\nversion = '0.2.0'";

    let root_manifest_path = String::from("Cargo.toml");
    let child_manifest_path = String::from("child/Cargo.toml");

    let mut fs = MockFileSystem::new();
    fs.add_file(root_manifest_path.clone(), root_manifest_toml.to_vec());
    fs.add_file(child_manifest_path.clone(), child_manifest_toml.to_vec());

    let cargo_manifest = CargoManifestService::new(fs)
        .load_manifest(&root_manifest_path)
        .unwrap();
    let members = cargo_manifest.members.as_ref().unwrap();

    assert_eq!(1, members.len());
    assert!(members.iter().any(|e| e.0 == child_manifest_path));
}

#[test]
fn can_no_children() {
    let root_manifest_toml = b"name = 'root'\nversion = '0.1.0'\n workspace = { members = [] }";

    let root_manifest_path = String::from("Cargo.toml");

    let mut fs = MockFileSystem::new();
    fs.add_file(root_manifest_path.clone(), root_manifest_toml.to_vec());

    let cargo_manifest = CargoManifestService::new(fs)
        .load_manifest(&root_manifest_path)
        .unwrap();
    assert!(cargo_manifest.members.is_none());
}

#[test]
fn can_update_version() {
    let root_manifest_toml = r#"
            [workspace]
            members = ['child', "other"]

            [workspace.dependencies]
            child = { path = "child", version = "0.2.0"}
            other = { path = "child", version = "0.2.0"}


            [package]
            name = 'root'
            version = '0.1.0'

            [dependencies]
            child.workspace = true
            "#;
    let child_manifest_toml = b"name = 'child'\nversion = '0.2.0'";
    let other_child_manifest_toml = b"name = 'other'\nversion = '0.1.0'";

    let root_manifest_path = String::from("Cargo.toml");
    let child_manifest_path = String::from("child/Cargo.toml");
    let other_child_manifest_path = String::from("other/Cargo.toml");

    let mut fs = MockFileSystem::new();
    fs.add_file(
        root_manifest_path.clone(),
        root_manifest_toml.as_bytes().to_vec(),
    );
    fs.add_file(child_manifest_path.clone(), child_manifest_toml.to_vec());
    fs.add_file(
        other_child_manifest_path.clone(),
        other_child_manifest_toml.to_vec(),
    );

    let mut cargo_manifest_service = CargoManifestService::new(fs);

    let mut cargo_manifest = cargo_manifest_service
        .load_manifest(&root_manifest_path)
        .unwrap();

    cargo_manifest_service
        .update_version(
            &mut cargo_manifest,
            &String::from("child"),
            &String::from("0.3.0"),
        )
        .unwrap();

    let workspace = cargo_manifest.root_manifest.workspace.as_ref().unwrap();
    match dep_named(&workspace.dependencies, "child") {
        Dependency::Simple(_) => panic!(),
        Dependency::Inherited => panic!(),
        Dependency::Detailed(d) => assert_eq!(d.as_ref().unwrap(), "0.3.0"),
    }

    assert_eq!(
        cargo_manifest
            .root_manifest
            .package
            .as_ref()
            .unwrap()
            .version
            .as_ref()
            .unwrap(),
        "0.1.0"
    );

    let members = cargo_manifest.members.as_ref().unwrap();

    assert_eq!(
        member_named(members, "child/Cargo.toml")
            .package
            .as_ref()
            .unwrap()
            .version
            .as_ref()
            .unwrap(),
        "0.3.0"
    );

    assert_eq!(
        member_named(members, "other/Cargo.toml")
            .package
            .as_ref()
            .unwrap()
            .version
            .as_ref()
            .unwrap(),
        "0.1.0"
    );
}

#[test]
fn no_workspace_means_no_members() {
    let mut fs = MockFileSystem::new();
    fs.add_file(
        String::from("Cargo.toml"),
        b"[package]\nname = 'solo'\nversion = '1.0.0'".to_vec(),
    );
    let graph = CargoManifestService::new(fs)
        .load_manifest(&String::from("Cargo.toml"))
        .unwrap();
    assert!(graph.members.is_none());
    assert_eq!(graph.root_manifest.package.as_ref().unwrap().name, "solo");
}

#[test]
fn missing_member_fails_with_io_error() {
    let mut fs = MockFileSystem::new();
    fs.add_file(
        String::from("Cargo.toml"),
        b"[workspace]\nmembers = ['present', 'missing']".to_vec(),
    );
    fs.add_file(
        String::from("present/Cargo.toml"),
        b"name = 'present'\nversion = '0.1.0'".to_vec(),
    );
    let err = CargoManifestService::new(fs)
        .load_manifest(&String::from("Cargo.toml"))
        .unwrap_err();
    match err {
        ManifestError::Io(p) => assert_eq!(p, "missing/Cargo.toml"),
        _ => panic!(),
    }
}

#[test]
fn missing_root_fails_with_io_error() {
    let fs = MockFileSystem::new();
    let err = CargoManifestService::new(fs)
        .load_manifest(&String::from("Cargo.toml"))
        .unwrap_err();
    match err {
        ManifestError::Io(p) => assert_eq!(p, "Cargo.toml"),
        _ => panic!(),
    }
}

#[test]
fn unparsable_root_fails_with_parse_error() {
    let mut fs = MockFileSystem::new();
    fs.add_file(String::from("Cargo.toml"), b"= not toml at all [".to_vec());
    let err = CargoManifestService::new(fs)
        .load_manifest(&String::from("Cargo.toml"))
        .unwrap_err();
    match err {
        ManifestError::Parse(p) => assert_eq!(p, "Cargo.toml"),
        _ => panic!(),
    }
}

#[test]
fn aggregator_member_dependencies_updated_and_written() {
    let mut fs = MockFileSystem::new();
    fs.add_file(
        String::from("ws/Cargo.toml"),
        b"[workspace]\nmembers = ['agg']".to_vec(),
    );
    fs.add_file(
        String::from("ws/agg/Cargo.toml"),
        b"[dependencies]\nchild = \"0.1.0\"\nother = { version = \"0.5.0\" }\nkept = { workspace = true }"
            .to_vec(),
    );

    let mut service = CargoManifestService::new(fs);
    let mut graph = service.load_manifest(&String::from("ws/Cargo.toml")).unwrap();
    service
        .update_version(&mut graph, &String::from("child"), &String::from("0.3.0"))
        .unwrap();

    // in memory: the Simple entry is replaced outright, the others untouched
    let members = graph.members.as_ref().unwrap();
    let agg = member_named(members, "ws/agg/Cargo.toml");
    match dep_named(&agg.dependencies, "child") {
        Dependency::Simple(v) => assert_eq!(v, "0.3.0"),
        _ => panic!(),
    }
    match dep_named(&agg.dependencies, "other") {
        Dependency::Detailed(v) => assert_eq!(v.as_ref().unwrap(), "0.5.0"),
        _ => panic!(),
    }
    assert!(matches!(
        dep_named(&agg.dependencies, "kept"),
        Dependency::Inherited
    ));

    // persisted: the aggregator was re-encoded and written back
    let fs = service.into_fs();
    let bytes = fs.read(&String::from("ws/agg/Cargo.toml")).unwrap();
    let reread = parse_manifest(&bytes).unwrap();
    match dep_named(&reread.dependencies, "child") {
        Dependency::Simple(v) => assert_eq!(v, "0.3.0"),
        _ => panic!(),
    }
    assert!(matches!(
        dep_named(&reread.dependencies, "kept"),
        Dependency::Inherited
    ));
}

#[test]
fn matched_member_is_updated_in_memory_but_not_written() {
    let mut fs = MockFileSystem::new();
    fs.add_file(
        String::from("Cargo.toml"),
        b"[workspace]\nmembers = ['child']\n[workspace.dependencies]\nchild = { version = \"0.2.0\" }"
            .to_vec(),
    );
    let child_before = b"name = 'child'\nversion = '0.2.0'".to_vec();
    fs.add_file(String::from("child/Cargo.toml"), child_before.clone());

    let mut service = CargoManifestService::new(fs);
    let mut graph = service.load_manifest(&String::from("Cargo.toml")).unwrap();
    service
        .update_version(&mut graph, &String::from("child"), &String::from("0.3.0"))
        .unwrap();

    // in memory the member's own version moved to 0.3.0
    let members = graph.members.as_ref().unwrap();
    let child = member_named(members, "child/Cargo.toml");
    assert_eq!(
        child.package.as_ref().unwrap().version.as_ref().unwrap(),
        "0.3.0"
    );

    let fs = service.into_fs();

    // but its resource still holds the pre-update bytes
    let child_bytes = fs.read(&String::from("child/Cargo.toml")).unwrap();
    assert_eq!(child_bytes, child_before);
    let child_reread = parse_manifest(&child_bytes).unwrap();
    assert_eq!(
        child_reread
            .package
            .as_ref()
            .unwrap()
            .version
            .as_ref()
            .unwrap(),
        "0.2.0"
    );

    // the root was re-written and reflects the new workspace-level version
    let root_bytes = fs.read(&String::from("Cargo.toml")).unwrap();
    let root_reread = parse_manifest(&root_bytes).unwrap();
    let ws = root_reread.workspace.as_ref().unwrap();
    assert_eq!(ws.members, vec![String::from("child")]);
    match dep_named(&ws.dependencies, "child") {
        Dependency::Detailed(v) => assert_eq!(v.as_ref().unwrap(), "0.3.0"),
        _ => panic!(),
    }
}

#[test]
fn unrelated_package_is_a_noop_beyond_the_root_rewrite() {
    let mut fs = MockFileSystem::new();
    fs.add_file(
        String::from("Cargo.toml"),
        b"[workspace]\nmembers = ['child']\n[package]\nname = 'root'\nversion = '0.1.0'".to_vec(),
    );
    let child_before = b"name = 'child'\nversion = '0.2.0'".to_vec();
    fs.add_file(String::from("child/Cargo.toml"), child_before.clone());

    let mut service = CargoManifestService::new(fs);
    let mut graph = service.load_manifest(&String::from("Cargo.toml")).unwrap();
    service
        .update_version(&mut graph, &String::from("unrelated"), &String::from("9.9.9"))
        .unwrap();

    // nothing in memory moved
    assert_eq!(
        graph
            .root_manifest
            .package
            .as_ref()
            .unwrap()
            .version
            .as_ref()
            .unwrap(),
        "0.1.0"
    );
    let members = graph.members.as_ref().unwrap();
    let child = member_named(members, "child/Cargo.toml");
    assert_eq!(
        child.package.as_ref().unwrap().version.as_ref().unwrap(),
        "0.2.0"
    );

    // the member was not written; the root was re-encoded with the same content
    let fs = service.into_fs();
    assert_eq!(
        fs.read(&String::from("child/Cargo.toml")).unwrap(),
        child_before
    );
    let root_reread = parse_manifest(&fs.read(&String::from("Cargo.toml")).unwrap()).unwrap();
    assert_eq!(
        root_reread
            .package
            .as_ref()
            .unwrap()
            .version
            .as_ref()
            .unwrap(),
        "0.1.0"
    );
}

#[test]
fn writing_an_unknown_resource_fails() {
    let mut fs = MockFileSystem::new();
    fs.add_file(String::from("a.txt"), b"one".to_vec());
    assert!(fs.write(&String::from("b.txt"), b"two".to_vec()).is_err());
    fs.write(&String::from("a.txt"), b"three".to_vec()).unwrap();
    assert_eq!(fs.read(&String::from("a.txt")).unwrap(), b"three".to_vec());
    assert!(fs.read(&String::from("b.txt")).is_err());
}
