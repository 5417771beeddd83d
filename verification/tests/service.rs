use capsule::service::launchd::{
    escape_xml, Launchd, format_environment_variables, generate_plist, plist_path_for, service_target, LAUNCHD_LABEL,
    LAUNCHD_SOCKET_NAME,
};
use capsule::service::systemd::{
    data_unit_dir, generate_service_unit, generate_socket_unit, push_unique_path, service_definition_paths_with_env,
    service_file_path, socket_file_path, unit_dir, Systemd,
};
use capsule::service::{
    contains_nix_marker, definition_current, install_step, is_nix_store_path, nix_managed_service_definition,
    InstallOutcome, InstallStep, NIX_MANAGED_MARKER,
};

fn service_unit_without_env() -> String {
    generate_service_unit("/usr/local/bin/capsule", &[])
}

fn socket_unit() -> String {
    generate_socket_unit("/home/user/.capsule/capsule.sock")
}

fn plist_without_env() -> String {
    generate_plist("/usr/local/bin/capsule", "/Users/test/.capsule/capsule.sock", &[])
}

// -- systemd --

#[test]
fn service_unit_contains_core_fields() {
    let unit = service_unit_without_env();
    assert!(unit.contains("[Unit]"), "should have [Unit] section");
    assert!(unit.contains("[Service]"), "should have [Service] section");
    assert!(unit.contains("[Install]"), "should have [Install] section");
    assert!(unit.contains("ExecStart=/usr/local/bin/capsule daemon"), "should have ExecStart with binary path");
    assert!(unit.contains("Type=simple"), "should declare service type");
    assert!(unit.contains("WantedBy=default.target"), "should install into default.target");
}

#[test]
fn service_unit_embeds_environment_variables() {
    let unit = generate_service_unit("/usr/bin/capsule", &[("XDG_CONFIG_HOME", "/home/user/.config".to_owned())]);
    assert!(
        unit.contains("Environment=XDG_CONFIG_HOME=/home/user/.config"),
        "should contain forwarded env var: {unit}"
    );
}

#[test]
fn service_unit_omits_environment_lines_when_empty() {
    let unit = service_unit_without_env();
    assert!(!unit.contains("Environment="), "should not contain Environment= when empty: {unit}");
}

#[test]
fn socket_unit_contains_core_fields() {
    let unit = socket_unit();
    assert!(unit.contains("[Unit]"), "should have [Unit] section");
    assert!(unit.contains("[Socket]"), "should have [Socket] section");
    assert!(unit.contains("[Install]"), "should have [Install] section");
    assert!(unit.contains("ListenStream=/home/user/.capsule/capsule.sock"), "should contain socket path");
    assert!(unit.contains("SocketMode=0700"), "should set socket permissions");
    assert!(unit.contains("WantedBy=sockets.target"), "should install into sockets.target");
}

#[test]
fn service_file_path_uses_systemd_user_dir() {
    assert_eq!(service_file_path("/home/user"), "/home/user/.config/systemd/user/capsule.service");
}

#[test]
fn socket_file_path_uses_systemd_user_dir() {
    assert_eq!(socket_file_path("/home/user"), "/home/user/.config/systemd/user/capsule.socket");
}

#[test]
fn service_definition_paths_defaults_to_home_config_and_etc() {
    let paths = service_definition_paths_with_env("/home/user", None, None, None);
    assert_eq!(
        paths,
        vec![
            "/home/user/.config/systemd/user/capsule.service".to_owned(),
            "/home/user/.local/share/systemd/user/capsule.service".to_owned(),
            "/etc/systemd/user/capsule.service".to_owned(),
        ]
    );
}

#[test]
fn service_definition_paths_includes_xdg_config_home_override() {
    let paths = service_definition_paths_with_env("/home/user", Some("/custom/config".to_owned()), None, None);
    assert!(
        paths.contains(&"/custom/config/systemd/user/capsule.service".to_owned()),
        "should discover the XDG_CONFIG_HOME unit path: {paths:?}"
    );
}

#[test]
fn service_definition_paths_uses_xdg_data_home_for_home_manager_units() {
    let paths = service_definition_paths_with_env("/home/user", None, Some("/custom/data".to_owned()), None);
    assert!(
        paths.contains(&"/custom/data/systemd/user/capsule.service".to_owned()),
        "should discover the XDG_DATA_HOME (Home Manager) unit path: {paths:?}"
    );
    assert!(
        !paths.contains(&"/home/user/.local/share/systemd/user/capsule.service".to_owned()),
        "an explicit XDG_DATA_HOME should replace the default data dir: {paths:?}"
    );
}

#[test]
fn service_definition_paths_includes_systemctl_fragment_path() {
    let fragment = "/nix/store/hash-capsule/systemd/user/capsule.service".to_owned();
    let paths = service_definition_paths_with_env("/home/user", None, None, Some(fragment.clone()));
    assert!(paths.contains(&fragment), "should discover the systemctl FragmentPath unit path: {paths:?}");
}

#[test]
fn service_definition_paths_deduplicates_candidates() {
    let fragment = "/home/user/.config/systemd/user/capsule.service".to_owned();
    let paths = service_definition_paths_with_env(
        "/home/user",
        Some("/home/user/.config".to_owned()),
        None,
        Some(fragment.clone()),
    );
    let occurrences = paths.iter().filter(|path| **path == fragment).count();
    assert_eq!(occurrences, 1, "candidates equal to the default unit path should be de-duplicated: {paths:?}");
}

#[test]
fn service_definition_paths_dedup_ignores_trailing_separator() {
    let paths = service_definition_paths_with_env(
        "/home/user",
        None,
        None,
        Some("/home/user/.config/systemd/user/capsule.service/".to_owned()),
    );
    assert_eq!(paths.len(), 3, "{paths:?}");
}

#[test]
fn systemd_directories() {
    assert_eq!(unit_dir("/home/user"), "/home/user/.config/systemd/user");
    assert_eq!(data_unit_dir("/home/user", None), "/home/user/.local/share/systemd/user");
    assert_eq!(data_unit_dir("/home/user", Some("/data".to_owned())), "/data/systemd/user");
}

#[test]
fn push_unique_path_keeps_first_occurrence() {
    let mut paths = vec!["/a/b".to_owned()];
    push_unique_path(&mut paths, "/a/b".to_owned());
    push_unique_path(&mut paths, "/a/c".to_owned());
    push_unique_path(&mut paths, "/a//c".to_owned());
    assert_eq!(paths, vec!["/a/b".to_owned(), "/a/c".to_owned()]);
}

#[test]
fn service_unit_exact_layout() {
    let unit = generate_service_unit("/bin/capsule", &[("A", "1".to_owned()), ("B", "two".to_owned())]);
    let env_a = unit.find("Environment=A=1\n");
    let env_b = unit.find("Environment=B=two\n");
    assert!(env_a.is_some() && env_b.is_some() && env_a < env_b, "{unit}");
    assert!(unit.ends_with('\n'));
}

// -- launchd --

#[test]
fn plist_contains_core_fields() {
    let plist = plist_without_env();
    assert!(plist.contains(LAUNCHD_LABEL), "plist should contain label");
    assert!(plist.contains("/usr/local/bin/capsule"), "plist should contain binary path");
    assert!(plist.contains("daemon"), "plist should contain 'daemon' argument");
    assert!(plist.contains(LAUNCHD_SOCKET_NAME), "plist should contain socket name");
    assert!(plist.contains("/Users/test/.capsule/capsule.sock"), "plist should contain socket path");
    assert!(plist.contains("SockPathMode"), "plist should set socket permissions");
}

#[test]
fn plist_is_valid_xml() {
    let plist = plist_without_env();
    assert!(plist.starts_with("<?xml"), "plist should start with XML declaration");
    assert!(plist.contains("</plist>"), "plist should be well-formed");
}

#[test]
fn plist_omits_environment_variables_when_empty() {
    let plist = plist_without_env();
    assert!(!plist.contains("EnvironmentVariables"), "plist should not contain EnvironmentVariables when empty: {plist}");
}

#[test]
fn plist_embeds_environment_variables() {
    let plist = generate_plist(
        "/usr/local/bin/capsule",
        "/Users/test/.capsule/capsule.sock",
        &[("XDG_CONFIG_HOME", "/Users/test/.config".to_owned())],
    );
    assert!(plist.contains("EnvironmentVariables"), "plist should contain EnvironmentVariables: {plist}");
    assert!(plist.contains("<key>XDG_CONFIG_HOME</key>"), "plist should contain XDG_CONFIG_HOME key: {plist}");
    assert!(plist.contains("<string>/Users/test/.config</string>"), "plist should contain XDG_CONFIG_HOME value: {plist}");
}

#[test]
fn plist_has_no_inetd_compatibility() {
    let plist = plist_without_env();
    assert!(!plist.contains("inetdCompatibility"), "plist should not use inetdCompatibility");
}

#[test]
fn plist_path_uses_launch_agents_dir() {
    assert_eq!(plist_path_for("/Users/test"), "/Users/test/Library/LaunchAgents/com.github.shuymn.capsule.plist");
}

#[test]
fn plist_escapes_xml_special_characters() {
    assert_eq!(escape_xml("a<b>&\"c'"), "a&lt;b&gt;&amp;&quot;c&apos;");
    let plist = generate_plist("/opt/capsule", "/tmp/s.sock", &[("K<1>", "v&w".to_owned())]);
    assert!(plist.contains("<key>K&lt;1&gt;</key>"), "{plist}");
    assert!(plist.contains("<string>v&amp;w</string>"), "{plist}");
    assert!(!plist.contains("v&w"), "{plist}");
}

#[test]
fn environment_block_is_empty_without_vars() {
    assert_eq!(format_environment_variables(&[]), "");
    let block = format_environment_variables(&[("X", "1".to_owned())]);
    assert!(block.contains("<key>EnvironmentVariables</key>"), "{block}");
    assert!(block.contains("<key>X</key>") && block.contains("<string>1</string>"), "{block}");
}

#[test]
fn launchctl_target_names_gui_domain() {
    assert_eq!(service_target(501), "gui/501/com.github.shuymn.capsule");
}

// -- nix detection --

#[test]
fn test_nix_managed_definition_detects_marker() {
    let content = format!("<key>{NIX_MANAGED_MARKER}</key>\n<string>1</string>\n");
    assert!(contains_nix_marker(&content), "definition containing the Nix marker should be treated as Nix-managed");
}

#[test]
fn test_nix_managed_definition_ignores_regular_home_file() {
    let content = "[Service]\nExecStart=/usr/local/bin/capsule daemon\n";
    assert!(!contains_nix_marker(content));
    assert!(!is_nix_store_path("/home/user/.config/systemd/user/capsule.service"));
}

#[test]
fn nix_store_paths_are_recognized_by_component() {
    assert!(is_nix_store_path("/nix/store/example-capsule.service"));
    assert!(is_nix_store_path("/nix/store"));
    assert!(!is_nix_store_path("/nix/storage/x"));
    assert!(!is_nix_store_path("nix/store/x"));
}

// -- installation decisions --

#[test]
fn install_refused_when_nix_manages_the_definition() {
    let step = install_step(Some("/nix/store/abc-capsule.service"), true, true);
    assert_eq!(step, InstallStep::Refuse("/nix/store/abc-capsule.service".to_owned()));
    assert_eq!(step.outcome(), None);
}

#[test]
fn install_writes_outdated_definitions() {
    let step = install_step(None, false, true);
    assert_eq!(step, InstallStep::Write);
    assert_eq!(step.outcome(), Some(InstallOutcome::Installed));
}

#[test]
fn install_restarts_outdated_daemon_with_current_definitions() {
    let step = install_step(None, true, true);
    assert_eq!(step, InstallStep::Restart);
    assert_eq!(step.outcome(), Some(InstallOutcome::Restarted));
}

#[test]
fn install_keeps_current_setup() {
    let step = install_step(None, true, false);
    assert_eq!(step, InstallStep::Keep);
    assert_eq!(step.outcome(), Some(InstallOutcome::AlreadyCurrent));
}

#[test]
fn definition_is_current_only_when_identical() {
    let unit = socket_unit();
    assert!(definition_current(Some(unit.as_str()), &unit));
    assert!(!definition_current(Some("[Socket]\n"), &unit));
    assert!(!definition_current(None, &unit));
}

#[test]
fn first_nix_managed_candidate_wins() {
    let paths = vec![
        "/home/user/.config/systemd/user/capsule.service".to_owned(),
        "/home/user/.local/share/systemd/user/capsule.service".to_owned(),
        "/etc/systemd/user/capsule.service".to_owned(),
    ];
    assert_eq!(
        nix_managed_service_definition(&paths, &[false, true, true]),
        Some("/home/user/.local/share/systemd/user/capsule.service".to_owned())
    );
    assert_eq!(nix_managed_service_definition(&paths, &[false, false, false]), None);
}

#[test]
fn launchd_reads_uid_from_id_output() {
    let launchd = Launchd::new("/tmp/capsule.sock", "501\n").expect("uid");
    assert_eq!(launchd.uid, 501);
    assert_eq!(launchd.socket_path, "/tmp/capsule.sock");
    assert_eq!(launchd.service_target(), format!("gui/501/{LAUNCHD_LABEL}"));
    assert!(Launchd::new("/tmp/capsule.sock", "not a number\n").is_none());
    assert!(Launchd::new("/tmp/capsule.sock", "").is_none());
    assert!(Launchd::new("/tmp/capsule.sock", "4294967296").is_none());
    assert_eq!(Launchd::new("/tmp/capsule.sock", " 4294967295 ").map(|l| l.uid), Some(u32::MAX));
}

#[test]
fn systemd_keeps_socket_path() {
    assert_eq!(Systemd::new("/run/user/1000/capsule.sock").socket_path, "/run/user/1000/capsule.sock");
}
