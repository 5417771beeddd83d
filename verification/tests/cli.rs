use capsule::cli::{capsule_dir, format_uptime, lock_path, log_dir, socket_path, Cli, Command, DaemonAction, Shell};
use capsule::config::resolve_config_path;
use capsule::connect::{negotiation_outcome, BuildIdNegotiation, HelloReply};
use capsule::path::parent_path;
use capsule::service::systemd::fragment_path_from_output;
use capsule::service::{is_nix_managed_definition, link_target_path, NIX_MANAGED_MARKER};

#[test]
fn runtime_files_live_under_dot_capsule() {
    assert_eq!(capsule_dir("/Users/me"), "/Users/me/.capsule");
    assert_eq!(socket_path("/Users/me"), "/Users/me/.capsule/capsule.sock");
    assert_eq!(lock_path("/Users/me/"), "/Users/me/.capsule/capsule.lock");
    assert_eq!(log_dir(Some("/var/folders/x/T/".to_owned())), "/var/folders/x/T/");
    assert_eq!(log_dir(None), "/tmp");
}

#[test]
fn uptime_formats() {
    assert_eq!(format_uptime(0), "0s");
    assert_eq!(format_uptime(59), "59s");
    assert_eq!(format_uptime(60), "1m 0s");
    assert_eq!(format_uptime(3_605), "1h 0m 5s");
    assert_eq!(format_uptime(90_061), "1d 1h 1m 1s");
    assert_eq!(format_uptime(86_400), "1d 0h 0m 0s");
}

#[test]
fn commands_compare_structurally() {
    let cli = Cli { command: Command::Daemon { action: Some(DaemonAction::Status { json: true }) } };
    assert_eq!(cli.command, Command::Daemon { action: Some(DaemonAction::Status { json: true }) });
    assert_ne!(Command::Init { shell: Shell::Zsh }, Command::Preset);
}

#[test]
fn build_id_negotiation() {
    let names = vec!["PATH".to_owned()];
    let unchecked = negotiation_outcome(None, Some(HelloReply { build_id: None, env_var_names: names.clone() }));
    assert_eq!(unchecked, BuildIdNegotiation::Unchecked { env_var_names: vec![] });
    assert_eq!(negotiation_outcome(Some("1:2"), None), BuildIdNegotiation::Incompatible { env_var_names: vec![] });
    let same = negotiation_outcome(
        Some("1:2"),
        Some(HelloReply { build_id: Some("1:2".to_owned()), env_var_names: names.clone() }),
    );
    assert_eq!(same, BuildIdNegotiation::Compatible { env_var_names: names.clone() });
    let unknown = negotiation_outcome(Some("1:2"), Some(HelloReply { build_id: None, env_var_names: names.clone() }));
    assert_eq!(unknown, BuildIdNegotiation::Compatible { env_var_names: names.clone() });
    let other = negotiation_outcome(
        Some("1:2"),
        Some(HelloReply { build_id: Some("3:4".to_owned()), env_var_names: names.clone() }),
    );
    assert_eq!(other, BuildIdNegotiation::Incompatible { env_var_names: names });
    assert!(other.needs_daemon_restart());
}

#[test]
fn systemctl_fragment_path_parsing() {
    assert_eq!(
        fragment_path_from_output("/home/u/.config/systemd/user/capsule.service\n"),
        Some("/home/u/.config/systemd/user/capsule.service".to_owned())
    );
    assert_eq!(fragment_path_from_output("\n  \n  /nix/store/x.service  \n"), Some("/nix/store/x.service".to_owned()));
    assert_eq!(fragment_path_from_output(""), None);
    assert_eq!(fragment_path_from_output("\n\n"), None);
    assert_eq!(fragment_path_from_output("relative/unit.service\n/abs\n"), None);
}

#[test]
fn config_path_resolution() {
    assert_eq!(
        resolve_config_path(Some("/x"), Some("/home/u"), true, true),
        Some("/x/capsule/config.toml".to_owned())
    );
    assert_eq!(resolve_config_path(None, None, true, true), None);
    assert_eq!(
        resolve_config_path(None, Some("/home/u"), true, true),
        Some("/home/u/.config/capsule/config.toml".to_owned())
    );
    assert_eq!(resolve_config_path(None, Some("/home/u"), false, true), Some("/home/u/.capsule/config.toml".to_owned()));
    assert_eq!(
        resolve_config_path(None, Some("/home/u"), false, false),
        Some("/home/u/.config/capsule/config.toml".to_owned())
    );
}

#[test]
fn parent_matches_std_path() {
    for p in ["/a/b", "/a", "/", "a", "", "./a", "a/./b", "a/b/", "../x", "//a", "a/.."] {
        let expected = std::path::Path::new(p).parent().map(|q| q.to_string_lossy().into_owned());
        assert_eq!(parent_path(p), expected, "{p:?}");
    }
}

#[test]
fn link_targets_resolve_against_link_directory() {
    assert_eq!(link_target_path("/home/u/unit.service", "/nix/store/x"), "/nix/store/x");
    assert_eq!(link_target_path("/home/u/unit.service", "../v/x"), "/home/u/../v/x");
    assert_eq!(link_target_path("unit.service", "x"), "x");
}

#[test]
fn test_nix_managed_definition_detects_nix_store_symlink() {
    assert!(is_nix_managed_definition(
        "/tmp/dir/capsule.service",
        Some("[Service]\n"),
        Some("/nix/store/example-capsule.service"),
        Some("/nix/store/example-capsule.service"),
    ));
}

#[test]
fn test_nix_managed_definition_ignores_missing_file() {
    assert!(!is_nix_managed_definition("/tmp/capsule-missing.service", None, None, None));
}

#[test]
fn nix_managed_by_marker_path_or_canonical_path() {
    let marked = format!("<key>{NIX_MANAGED_MARKER}</key>");
    assert!(is_nix_managed_definition("/home/u/a.plist", Some(&marked), None, None));
    assert!(is_nix_managed_definition("/nix/store/a.plist", None, None, None));
    assert!(is_nix_managed_definition("/home/u/a.plist", None, None, Some("/nix/store/h-a.plist")));
    assert!(!is_nix_managed_definition("/home/u/a.plist", Some("plain"), Some("b.plist"), Some("/home/u/b.plist")));
}
