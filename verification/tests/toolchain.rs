use capsule::module::toolchain::{
    detect, detect_toolchain, ensure_v_prefix, node_version_from_file, parse_version, toolchain_file_table, version_command,
    ToolchainModule,
};
use capsule::module::ModuleSpeed;

fn present(names: &[&str]) -> Vec<String> {
    names.iter().map(|n| (*n).to_owned()).collect()
}

#[test]
fn test_detect_toolchain_rust() {
    assert_eq!(detect_toolchain(&present(&["Cargo.toml"])), Some("rust"));
}

#[test]
fn test_detect_toolchain_node() {
    assert_eq!(detect_toolchain(&present(&["package.json"])), Some("node"));
}

#[test]
fn test_detect_toolchain_go() {
    assert_eq!(detect_toolchain(&present(&["go.mod"])), Some("go"));
}

#[test]
fn test_detect_toolchain_no_marker_returns_none() {
    assert_eq!(detect_toolchain(&present(&[])), None);
    assert_eq!(detect_toolchain(&present(&["README.md"])), None);
}

#[test]
fn test_detect_toolchain_first_match_wins() {
    assert_eq!(
        detect_toolchain(&present(&["package.json", "Cargo.toml"])),
        Some("rust"),
        "Cargo.toml should take precedence"
    );
}

#[test]
fn test_detect_toolchain_bun_lockb() {
    assert_eq!(detect_toolchain(&present(&["bun.lockb"])), Some("bun"));
}

#[test]
fn test_detect_toolchain_bunfig_toml() {
    assert_eq!(detect_toolchain(&present(&["bunfig.toml"])), Some("bun"));
}

#[test]
fn test_detect_toolchain_bun_takes_precedence_over_node() {
    assert_eq!(
        detect_toolchain(&present(&["package.json", "bun.lockb"])),
        Some("bun"),
        "bun.lockb should take precedence over package.json"
    );
}

#[test]
fn test_detect_toolchain_elixir_removed() {
    assert_eq!(detect_toolchain(&present(&["mix.exs"])), None, "Elixir should no longer be detected");
}

#[test]
fn marker_table_order() {
    let table = toolchain_file_table();
    assert_eq!(table.first(), Some(&("Cargo.toml", "rust")));
    let bun = table.iter().position(|(_, t)| *t == "bun");
    let node = table.iter().position(|(_, t)| *t == "node");
    assert!(bun < node, "{table:?}");
}

#[test]
fn test_parse_version_rust() {
    assert_eq!(parse_version("rust", "rustc 1.82.0 (f6e511eec 2024-10-15)"), Some("v1.82.0".to_owned()));
}

#[test]
fn test_parse_version_rust_nightly() {
    assert_eq!(
        parse_version("rust", "rustc 1.83.0-nightly (aedd173a2 2024-11-01)"),
        Some("v1.83.0-nightly".to_owned())
    );
}

#[test]
fn test_parse_version_node() {
    assert_eq!(parse_version("node", "v22.0.0"), Some("v22.0.0".to_owned()));
}

#[test]
fn test_parse_version_node_without_v_prefix() {
    assert_eq!(parse_version("node", "22.0.0"), Some("v22.0.0".to_owned()));
}

#[test]
fn test_parse_version_go() {
    assert_eq!(parse_version("go", "go version go1.22.0 darwin/arm64"), Some("v1.22.0".to_owned()));
}

#[test]
fn test_parse_version_python() {
    assert_eq!(parse_version("python", "Python 3.12.0"), Some("v3.12.0".to_owned()));
}

#[test]
fn test_parse_version_ruby() {
    assert_eq!(
        parse_version("ruby", "ruby 3.3.0p0 (2023-12-25 revision 5124f9ac75) [arm64-darwin23]"),
        Some("v3.3.0".to_owned())
    );
}

#[test]
fn test_parse_version_ruby_without_patch_suffix() {
    assert_eq!(
        parse_version("ruby", "ruby 3.3.0 (2023-12-25 revision 5124f9ac75) [arm64-darwin23]"),
        Some("v3.3.0".to_owned())
    );
}

#[test]
fn test_parse_version_bun() {
    assert_eq!(parse_version("bun", "1.1.0"), Some("v1.1.0".to_owned()));
}

#[test]
fn test_parse_version_unknown_toolchain() {
    assert_eq!(parse_version("unknown", "anything"), None);
}

#[test]
fn parse_version_rejects_malformed_output() {
    assert_eq!(parse_version("rust", ""), None);
    assert_eq!(parse_version("go", "go version"), None);
    assert_eq!(parse_version("python", "Python"), None);
}

#[test]
fn test_node_version_file_plain_version() {
    assert_eq!(node_version_from_file("22.0.0\n"), Some("v22.0.0".to_owned()));
}

#[test]
fn test_node_version_file_with_v_prefix() {
    assert_eq!(node_version_from_file("v22.0.0\n"), Some("v22.0.0".to_owned()));
}

#[test]
fn test_node_version_file_named_version_ignored() {
    assert_eq!(node_version_from_file("lts/iron\n"), None, "named versions should be ignored");
}

#[test]
fn test_node_version_file_empty() {
    assert_eq!(node_version_from_file("\n"), None);
}

#[test]
fn v_prefix_added_once() {
    assert_eq!(ensure_v_prefix("1.2.3"), "v1.2.3");
    assert_eq!(ensure_v_prefix("v1.2.3"), "v1.2.3");
    assert_eq!(ensure_v_prefix(""), "v");
}

#[test]
fn version_commands() {
    assert_eq!(version_command("rust"), Some(("rustc", vec!["--version"])));
    assert_eq!(version_command("go"), Some(("go", vec!["version"])));
    assert_eq!(version_command("unknown"), None);
}

#[test]
fn toolchain_test_module_speed_is_slow() {
    assert_eq!(ToolchainModule::new().speed(), ModuleSpeed::Slow);
    assert_eq!(ToolchainModule::new().name(), "toolchain");
}

#[test]
fn detect_combines_marker_and_version_sources() {
    let rust = detect(&present(&["Cargo.toml"]), None, Some("rustc 1.82.0 (f6e511eec 2024-10-15)\n"));
    assert_eq!(rust.map(|i| (i.name, i.version)), Some(("rust", "v1.82.0".to_owned())));
    let node_file = detect(&present(&["package.json"]), Some("20.1.0\n"), Some("v22.0.0\n"));
    assert_eq!(node_file.map(|i| i.version), Some("v20.1.0".to_owned()));
    let node_cmd = detect(&present(&["package.json"]), Some("lts/iron\n"), Some("v22.0.0\n"));
    assert_eq!(node_cmd.map(|i| i.version), Some("v22.0.0".to_owned()));
    assert!(detect(&present(&["Cargo.toml"]), None, None).is_none());
    assert!(detect(&present(&[]), None, Some("rustc 1.0.0")).is_none());
}
