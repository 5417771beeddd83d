use capsule::config::{Arbitration, Config, ModuleDef, ModuleSlot, ModuleWhen, SourceDef, StyleConfig};
use capsule::daemon::prompt::{compose_prompt, FastOutputs, SlowOutput};
use capsule::daemon::request::{
    admit_request, cache_key_for_request, candidates_from_slots, dependency_hash, hash_chars, matching_dependency_inputs,
    should_detect_inline, slow_update_lines, SESSION_TTL_MS,
};
use capsule::daemon::session::SessionMap;
use capsule::daemon::stats::DaemonStats;
use capsule::module::custom::compile::resolve_modules;
use capsule::module::custom::{CustomModuleInfo, ModuleDependencyInputs};
use capsule::module::ModuleSpeed;
use capsule::render::style::Style;

fn source(env: Option<&str>, file: Option<&str>, command: Option<&[&str]>) -> SourceDef {
    SourceDef {
        name: "value".to_owned(),
        env: env.map(str::to_owned),
        file: file.map(str::to_owned),
        command: command.map(|c| c.iter().map(|s| (*s).to_owned()).collect()),
        regex: None,
    }
}

fn module(name: &str, when: ModuleWhen, source: Vec<SourceDef>, arbitration: Option<Arbitration>) -> ModuleDef {
    ModuleDef {
        name: name.to_owned(),
        when,
        source,
        format: "{value}".to_owned(),
        icon: None,
        style: StyleConfig::default(),
        connector: None,
        arbitration,
        slot: ModuleSlot::default(),
    }
}

fn info(name: &str) -> CustomModuleInfo {
    CustomModuleInfo { name: name.to_owned(), value: "1".to_owned(), icon: None, style: Style::new(), connector: None }
}

fn fast() -> FastOutputs {
    FastOutputs {
        directory: Some("~/repo".to_owned()),
        cmd_duration: None,
        time: None,
        character: Some("\u{276f}".to_owned()),
        last_exit_code: 0,
        read_only: false,
        custom_modules: vec![],
    }
}

#[test]
fn stale_generations_are_not_admitted() {
    let mut sessions = SessionMap::new();
    let mut stats = DaemonStats::new(1, 0);
    assert!(admit_request(&mut sessions, &mut stats, 7, 1, 0));
    assert!(!admit_request(&mut sessions, &mut stats, 7, 1, 10));
    assert!(admit_request(&mut sessions, &mut stats, 7, 2, 20));
}

#[test]
fn stale_request_leaves_session_and_counts_discard() {
    let mut sessions = SessionMap::new();
    let mut stats = DaemonStats::new(1, 0);
    assert!(admit_request(&mut sessions, &mut stats, 7, 5, 0));
    assert!(admit_request(&mut sessions, &mut stats, 8, 1, 0));
    assert!(!admit_request(&mut sessions, &mut stats, 7, 3, 1));
    assert_eq!(sessions.get(7).and_then(|s| s.last_generation()), Some(5));
    assert_eq!(sessions.get(8).and_then(|s| s.last_generation()), Some(1));
    assert_eq!(stats.stale_discards, 1);
    assert!(!admit_request(&mut sessions, &mut stats, 7, 4, 2));
    assert_eq!(stats.stale_discards, 2);
    assert!(admit_request(&mut sessions, &mut stats, 7, 6, 3));
    assert_eq!(sessions.get(7).and_then(|s| s.last_generation()), Some(6));
    assert_eq!(stats.requests_total, 5);
    assert_eq!(stats.stale_discards, 2);
}

#[test]
fn idle_sessions_are_forgotten_before_admission() {
    let mut sessions = SessionMap::new();
    let mut stats = DaemonStats::new(1, 0);
    assert!(admit_request(&mut sessions, &mut stats, 7, 5, 0));
    // within the TTL an older generation stays stale
    assert!(!admit_request(&mut sessions, &mut stats, 7, 3, SESSION_TTL_MS));
    // once idle past the TTL the session restarts
    assert!(admit_request(&mut sessions, &mut stats, 7, 3, 2 * SESSION_TTL_MS + 1));
    assert_eq!(stats.sessions_pruned, 1);
    assert_eq!(SESSION_TTL_MS, 30 * 60 * 1000);
}

#[test]
fn test_new_initialises_counters_to_zero() {
    let stats = DaemonStats::new(4242, 0);
    assert_eq!(stats.cache_hits, 0);
    assert_eq!(stats.requests_total, 0);
    assert_eq!(stats.connections_active, 0);
    assert!(stats.pid > 0);
}

#[test]
fn inline_detection_needs_fast_env_only_modules() {
    let defs = resolve_modules(vec![
        module("env", ModuleWhen::default(), vec![source(Some("A"), None, None)], None),
        module("file", ModuleWhen::default(), vec![source(None, Some("f"), None)], None),
        module("cmd", ModuleWhen::default(), vec![source(None, None, Some(&["echo", "x"]))], None),
    ]);
    let find = |n: &str| defs.iter().find(|d| d.name == n).expect("module resolved");
    assert!(should_detect_inline(ModuleSpeed::Fast, find("env")));
    assert!(!should_detect_inline(ModuleSpeed::Slow, find("env")));
    assert!(!should_detect_inline(ModuleSpeed::Fast, find("file")));
    assert!(!should_detect_inline(ModuleSpeed::Fast, find("cmd")));
}

#[test]
fn candidates_keep_detected_modules_with_their_arbitration() {
    let defs = resolve_modules(vec![
        module("a", ModuleWhen::default(), vec![source(Some("A"), None, None)], None),
        module(
            "b",
            ModuleWhen::default(),
            vec![source(Some("B"), None, None)],
            Some(Arbitration { group: "g".to_owned(), priority: 3 }),
        ),
    ]);
    let ia = defs.iter().position(|d| d.name == "a").expect("a");
    let ib = defs.iter().position(|d| d.name == "b").expect("b");
    let cands = candidates_from_slots(&defs, &[ia, ib, ia], vec![None, Some(info("b")), Some(info("a"))]);
    assert_eq!(cands.len(), 2);
    assert_eq!(cands[0].info, info("b"));
    assert_eq!(cands[0].arbitration, Some(Arbitration { group: "g".to_owned(), priority: 3 }));
    assert_eq!(cands[1].info, info("a"));
    assert_eq!(cands[1].arbitration, None);
}

#[test]
fn dependency_inputs_of_matching_modules() {
    let defs = resolve_modules(vec![
        module(
            "node",
            ModuleWhen { files: vec!["package.json".to_owned()], env: vec![] },
            vec![source(None, Some(".node-version"), None)],
            None,
        ),
        module(
            "terraform",
            ModuleWhen { files: vec!["main.tf".to_owned()], env: vec!["TF_WORKSPACE".to_owned()] },
            vec![source(Some("TF_WORKSPACE"), None, None), source(None, Some(".terraform-version"), None)],
            None,
        ),
    ]);
    let files = vec!["package.json".to_owned(), ".node-version".to_owned()];
    let inputs = matching_dependency_inputs(&defs, ModuleSpeed::Fast, &[], &files);
    assert_eq!(inputs.env_vars, Vec::<String>::new());
    assert_eq!(inputs.trigger_files, vec!["package.json".to_owned()]);
    assert_eq!(inputs.source_files, vec![".node-version".to_owned()]);
    assert!(!inputs.uses_command_path);
}

fn env(pairs: &[(&str, &str)]) -> Vec<(String, String)> {
    pairs.iter().map(|(k, v)| ((*k).to_owned(), (*v).to_owned())).collect()
}

#[test]
fn cache_key_names_directory_generation_and_dependency_state() {
    let none = ModuleDependencyInputs::default();
    let key = cache_key_for_request("/repo", 4, &none, &[], &[], &[], None);
    assert_eq!(key.cwd, "/repo");
    assert_eq!(key.config_generation, 4);
    assert_eq!(key.dep_hash, 0);
}

#[test]
fn dep_hash_empty_inputs() {
    let inputs = ModuleDependencyInputs::default();
    let h1 = dependency_hash(&inputs, &[], &[], &[], None);
    let h2 = dependency_hash(&inputs, &[], &[], &[], None);
    assert_eq!(h1, h2);
}

#[test]
fn dep_hash_same_env() {
    let facts = env(&[("MY_VAR", "val")]);
    let mut inputs = ModuleDependencyInputs::default();
    inputs.env_vars.push("MY_VAR".to_owned());
    let h1 = dependency_hash(&inputs, &facts, &[], &[], None);
    let h2 = dependency_hash(&inputs, &facts, &[], &[], None);
    assert_eq!(h1, h2);
}

#[test]
fn dep_hash_different_env() {
    let mut inputs = ModuleDependencyInputs::default();
    inputs.env_vars.push("MY_VAR".to_owned());
    assert_ne!(
        dependency_hash(&inputs, &env(&[("MY_VAR", "a")]), &[], &[], None),
        dependency_hash(&inputs, &env(&[("MY_VAR", "b")]), &[], &[], None),
    );
}

#[test]
fn dep_hash_env_present_absent() {
    let mut inputs = ModuleDependencyInputs::default();
    inputs.env_vars.push("MY_VAR".to_owned());
    assert_ne!(
        dependency_hash(&inputs, &env(&[("MY_VAR", "x")]), &[], &[], None),
        dependency_hash(&inputs, &[], &[], &[], None),
    );
}

#[test]
fn dep_hash_file_existence_changes() {
    let mut inputs = ModuleDependencyInputs::default();
    inputs.trigger_files.push("marker".to_owned());
    let h_without = dependency_hash(&inputs, &[], &[], &[], None);
    let h_with = dependency_hash(&inputs, &[], &["marker".to_owned()], &[], None);
    assert_ne!(h_without, h_with);
}

#[test]
fn dep_hash_source_file_content_changes() {
    let mut inputs = ModuleDependencyInputs::default();
    inputs.source_files.push(".runtime-version".to_owned());
    let h_v1 = dependency_hash(&inputs, &[], &[], &env(&[(".runtime-version", "1.0.0\n")]), None);
    let h_v2 = dependency_hash(&inputs, &[], &[], &env(&[(".runtime-version", "2.0.0\n")]), None);
    assert_ne!(h_v1, h_v2, "source file content must participate in slow cache keys");
}

#[test]
fn dep_hash_command_path_changes() {
    let inputs = ModuleDependencyInputs { uses_command_path: true, ..ModuleDependencyInputs::default() };
    assert_ne!(
        dependency_hash(&inputs, &[], &[], &[], Some("/bin:/usr/bin")),
        dependency_hash(&inputs, &[], &[], &[], Some("/opt/tools:/bin")),
        "forwarded PATH must participate when command sources are configured"
    );
}

#[test]
fn dep_hash_insertion_order_irrelevant() {
    let facts = env(&[("A", "1"), ("B", "2")]);
    let mut inputs_ab = ModuleDependencyInputs::default();
    inputs_ab.env_vars.push("A".to_owned());
    inputs_ab.env_vars.push("B".to_owned());
    let mut inputs_ba = ModuleDependencyInputs::default();
    inputs_ba.env_vars.push("B".to_owned());
    inputs_ba.env_vars.push("A".to_owned());
    assert_eq!(
        dependency_hash(&inputs_ab, &facts, &[], &[], None),
        dependency_hash(&inputs_ba, &facts, &[], &[], None),
    );
}

#[test]
fn dependency_hash_is_the_sum_of_entry_hashes() {
    let mut inputs = ModuleDependencyInputs::default();
    inputs.env_vars.push("A".to_owned());
    inputs.trigger_files.push("marker".to_owned());
    let entry_a: Vec<char> = "eA\0\u{1}1".chars().collect();
    let entry_marker: Vec<char> = "tmarker\0\u{1}".chars().collect();
    assert_eq!(
        dependency_hash(&inputs, &env(&[("A", "1")]), &["marker".to_owned()], &[], None),
        hash_chars(&entry_a).wrapping_add(hash_chars(&entry_marker)),
    );
}

#[test]
fn fnv_hash_of_known_text() {
    // FNV-1a 64 of "a" is 0xaf63dc4c8601ec8c.
    assert_eq!(hash_chars(&vec!['a']), 0xaf63_dc4c_8601_ec8c);
}

#[test]
fn slow_update_sent_only_when_current_and_changed() {
    let config = Config::default();
    let f = fast();
    let first = compose_prompt(&f, None, 80, &config);
    let slow = SlowOutput { git: Some("main".to_owned()), custom_modules: vec![] };
    let empty = SlowOutput { git: None, custom_modules: vec![] };
    let update = slow_update_lines(Some(3), 3, &f, &slow, &first.left1, &first.left2, 80, &config);
    assert_eq!(update, Some(compose_prompt(&f, Some(&slow), 80, &config)));
    assert!(slow_update_lines(Some(4), 3, &f, &slow, &first.left1, &first.left2, 80, &config).is_none());
    assert!(slow_update_lines(None, 3, &f, &slow, &first.left1, &first.left2, 80, &config).is_none());
    assert!(slow_update_lines(Some(3), 3, &f, &empty, &first.left1, &first.left2, 80, &config).is_none());
}
