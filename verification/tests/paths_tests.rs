use cargo_set::commands::{BumpLevel, Cli, Commands, LogLevel};
use cargo_set::paths::{member_manifest_file, name_le, parent_dir};

#[test]
fn parent_dir_strips_the_file_name() {
    assert_eq!(parent_dir(&String::from("a/b/Cargo.toml")), "a/b");
    assert_eq!(parent_dir(&String::from("Cargo.toml")), "");
    assert_eq!(parent_dir(&String::from("ws/Cargo.toml")), "ws");
}

#[test]
fn member_paths_resolve_against_the_containing_directory() {
    assert_eq!(
        member_manifest_file(&String::from(""), &String::from("child")),
        "child/Cargo.toml"
    );
    assert_eq!(
        member_manifest_file(&String::from("ws"), &String::from("child")),
        "ws/child/Cargo.toml"
    );
}

#[test]
fn name_order_is_lexicographic() {
    assert!(name_le(&String::from("a"), &String::from("b")));
    assert!(!name_le(&String::from("b"), &String::from("a")));
    assert!(name_le(&String::from("a"), &String::from("a")));
    assert!(name_le(&String::from("a"), &String::from("ab")));
    assert!(!name_le(&String::from("ab"), &String::from("a")));
}

#[test]
fn effective_path_defaults_to_the_conventional_name() {
    let given = Commands::SetVersion {
        workspace: false,
        _crate: String::from("child"),
        path: Some(String::from("ws/Cargo.toml")),
        set_version: Some(String::from("0.3.0")),
        bump: None,
    };
    assert_eq!(given.effective_path(), "ws/Cargo.toml");

    let defaulted = Commands::SetVersion {
        workspace: false,
        _crate: String::from("child"),
        path: None,
        set_version: None,
        bump: Some(BumpLevel::Patch),
    };
    assert_eq!(defaulted.effective_path(), "Cargo.toml");

    let cli = Cli { name: None, log_level: Some(LogLevel::Info), command: Some(defaulted) };
    assert!(cli.command.is_some());
}
