use capsule::config::{Arbitration, ModuleDef, ModuleSlot, ModuleWhen, RegexPattern, SourceDef, StyleConfig};
use capsule::module::custom::builtins::preset_module_defs;
use capsule::module::custom::compile::{compile_source, resolve_modules};
use capsule::module::custom::detect::arbitrate_detected_modules;
use capsule::module::custom::format::{parse_format, render_format, FormatSegment};
use capsule::module::custom::{
    apply_regex, check_when, command_output_value, find_env_value, format_module, needs_slow_sources, group_value, matching_modules, push_unique, required_env_var_names,
    validate_file_content, CustomModuleInfo, DetectedModuleCandidate, ModuleDependencyInputs, ResolvedSource,
};
use capsule::module::ModuleSpeed;
use capsule::render::style::{Color, Style};

fn values(pairs: &[(&str, &str)]) -> Vec<(String, String)> {
    pairs.iter().map(|(k, v)| ((*k).to_owned(), (*v).to_owned())).collect()
}

fn arbitration(group: &str, priority: u32) -> Arbitration {
    Arbitration { group: group.to_owned(), priority }
}

fn env_source(var: &str) -> SourceDef {
    SourceDef { name: "value".to_owned(), env: Some(var.to_owned()), file: None, command: None, regex: None }
}

fn module(name: &str, source: Vec<SourceDef>) -> ModuleDef {
    ModuleDef {
        name: name.to_owned(),
        when: ModuleWhen::default(),
        source,
        format: "{value}".to_owned(),
        icon: None,
        style: StyleConfig::default(),
        connector: None,
        arbitration: None,
        slot: ModuleSlot::default(),
    }
}

fn info(name: &str) -> CustomModuleInfo {
    CustomModuleInfo {
        name: name.to_owned(),
        value: format!("{name}-v"),
        icon: None,
        style: Style::new(),
        connector: None,
    }
}

fn candidate(name: &str, arb: Option<Arbitration>) -> DetectedModuleCandidate {
    DetectedModuleCandidate { arbitration: arb, info: info(name) }
}

// -- format strings --

#[test]
fn test_parse_literal_only() {
    let segments = parse_format("hello world");
    assert_eq!(segments, vec![FormatSegment::Literal("hello world".to_owned())]);
}

#[test]
fn test_parse_single_variable() {
    let segments = parse_format("{version}");
    assert_eq!(segments, vec![FormatSegment::Variable("version".to_owned())]);
}

#[test]
fn test_parse_variable_with_surrounding_text() {
    let segments = parse_format("v{version}!");
    assert_eq!(
        segments,
        vec![
            FormatSegment::Literal("v".to_owned()),
            FormatSegment::Variable("version".to_owned()),
            FormatSegment::Literal("!".to_owned()),
        ]
    );
}

#[test]
fn test_parse_multiple_variables() {
    let segments = parse_format("{profile} ({region})");
    assert_eq!(
        segments,
        vec![
            FormatSegment::Variable("profile".to_owned()),
            FormatSegment::Literal(" (".to_owned()),
            FormatSegment::Variable("region".to_owned()),
            FormatSegment::Literal(")".to_owned()),
        ]
    );
}

#[test]
fn test_parse_optional_section() {
    let segments = parse_format("{profile}[ ({region})]");
    assert_eq!(
        segments,
        vec![
            FormatSegment::Variable("profile".to_owned()),
            FormatSegment::Optional(vec![
                FormatSegment::Literal(" (".to_owned()),
                FormatSegment::Variable("region".to_owned()),
                FormatSegment::Literal(")".to_owned()),
            ]),
        ]
    );
}

#[test]
fn test_parse_escaped_braces() {
    let segments = parse_format("{{literal}}");
    assert_eq!(segments, vec![FormatSegment::Literal("{literal}}".to_owned())]);
}

#[test]
fn test_parse_escaped_brackets() {
    let segments = parse_format("[[literal]]");
    assert_eq!(segments, vec![FormatSegment::Literal("[literal]]".to_owned())]);
}

#[test]
fn test_parse_empty_string() {
    let segments = parse_format("");
    assert!(segments.is_empty());
}

#[test]
fn test_render_all_variables_resolved() {
    let segments = parse_format("{profile} ({region})");
    let values = values(&[("profile", "prod"), ("region", "us-east-1")]);
    assert_eq!(render_format(&segments, &values), Some("prod (us-east-1)".to_owned()));
}

#[test]
fn test_render_required_variable_missing_returns_none() {
    let segments = parse_format("{profile} ({region})");
    let values = values(&[("profile", "prod")]);
    assert_eq!(render_format(&segments, &values), None);
}

#[test]
fn test_render_optional_section_with_resolved_variable() {
    let segments = parse_format("{profile}[ ({region})]");
    let values = values(&[("profile", "prod"), ("region", "us-east-1")]);
    assert_eq!(render_format(&segments, &values), Some("prod (us-east-1)".to_owned()));
}

#[test]
fn test_render_optional_section_with_missing_variable() {
    let segments = parse_format("{profile}[ ({region})]");
    let values = values(&[("profile", "prod")]);
    assert_eq!(render_format(&segments, &values), Some("prod".to_owned()));
}

#[test]
fn test_render_all_optional_missing_required_present() {
    let segments = parse_format("{name}[ v{version}][ @{scope}]");
    let values = values(&[("name", "capsule")]);
    assert_eq!(render_format(&segments, &values), Some("capsule".to_owned()));
}

#[test]
fn test_render_literal_only() {
    let segments = parse_format("static text");
    let values: Vec<(String, String)> = Vec::new();
    assert_eq!(render_format(&segments, &values), Some("static text".to_owned()));
}

#[test]
fn test_render_no_recursive_expansion() {
    let segments = parse_format("prefix-{value}-suffix");
    let values = values(&[("value", "{value}")]);
    assert_eq!(render_format(&segments, &values), Some("prefix-{value}-suffix".to_owned()));
}

#[test]
fn parse_nested_optional_and_unclosed_parts() {
    assert_eq!(
        parse_format("a[b[{c}]]"),
        vec![
            FormatSegment::Literal("a".to_owned()),
            FormatSegment::Optional(vec![
                FormatSegment::Literal("b".to_owned()),
                FormatSegment::Optional(vec![FormatSegment::Variable("c".to_owned())]),
            ]),
        ]
    );
    let nested = parse_format("{x}[ [{y}]]");
    // a section nested in a section is never shown
    assert_eq!(render_format(&nested, &values(&[("x", "1")])), Some("1 ".to_owned()));
    assert_eq!(render_format(&nested, &values(&[("x", "1"), ("y", "2")])), Some("1 ".to_owned()));
}

#[test]
fn first_binding_of_a_name_wins() {
    let values = values(&[("v", "first"), ("v", "second")]);
    assert_eq!(render_format(&parse_format("{v}"), &values), Some("first".to_owned()));
    assert_eq!(find_env_value(&values, "v"), Some(&"first".to_owned()));
    assert_eq!(find_env_value(&values, "w"), None);
}

// -- module resolution --

#[test]
fn resolve_modules_keeps_arbitration() {
    let mut user = module("deno", vec![env_source("DENO_VERSION")]);
    user.arbitration = Some(arbitration("javascript", 30));
    let resolved = resolve_modules(vec![user]);
    let deno = resolved.iter().find(|module| module.name == "deno");
    assert_eq!(deno.and_then(|module| module.arbitration.as_ref()), Some(&arbitration("javascript", 30)));
}

#[test]
fn resolve_modules_fast_env() {
    let resolved = resolve_modules(vec![module("env_only", vec![env_source("FOO")])]);
    let m = resolved.iter().find(|r| r.name == "env_only");
    assert_eq!(m.map(|m| m.speed), Some(ModuleSpeed::Fast));
}

#[test]
fn resolve_modules_slow_command() {
    let user = module(
        "mixed",
        vec![
            env_source("FOO"),
            SourceDef {
                name: "value".to_owned(),
                env: None,
                file: None,
                command: Some(vec!["echo".to_owned(), "bar".to_owned()]),
                regex: None,
            },
        ],
    );
    let resolved = resolve_modules(vec![user]);
    let m = resolved.iter().find(|r| r.name == "mixed");
    assert_eq!(m.map(|m| m.speed), Some(ModuleSpeed::Slow));
}

#[test]
fn resolve_modules_filters_empty_command() {
    let defs = resolve_modules(vec![module(
        "empty_cmd",
        vec![SourceDef { name: "value".to_owned(), env: None, file: None, command: Some(vec![]), regex: None }],
    )]);
    let m = defs.iter().find(|r| r.name == "empty_cmd");
    assert!(m.is_some_and(|m| m.source_groups.is_empty()), "empty command args must be filtered during compilation");
}

#[test]
fn resolve_modules_empty() {
    let resolved = resolve_modules(vec![]);
    assert!(matches!(resolved.as_slice(), []));
}

#[test]
fn resolve_modules_single() {
    let user = vec![ModuleDef {
        name: "aws".to_owned(),
        when: ModuleWhen { files: vec![], env: vec!["AWS_PROFILE".to_owned()] },
        source: vec![SourceDef {
            name: "value".to_owned(),
            env: Some("AWS_PROFILE".to_owned()),
            file: None,
            command: None,
            regex: None,
        }],
        format: "{value}".to_owned(),
        icon: None,
        style: StyleConfig::fg(Color::Yellow),
        connector: None,
        arbitration: None,
        slot: ModuleSlot::default(),
    }];
    let resolved = resolve_modules(user);
    assert_eq!(resolved.len(), 1);
    assert_eq!(resolved[0].name, "aws");
    assert_eq!(resolved[0].speed, ModuleSpeed::Fast);
    assert_eq!(resolved[0].arbitration, None);
}

#[test]
fn resolve_modules_with_command() {
    let user = vec![ModuleDef {
        name: "zig".to_owned(),
        when: ModuleWhen { files: vec!["build.zig".to_owned()], env: vec![] },
        source: vec![SourceDef {
            name: "value".to_owned(),
            env: None,
            file: None,
            command: Some(vec!["zig".to_owned(), "version".to_owned()]),
            regex: Some(RegexPattern::new_unchecked(r"(\d[\d.]*)".to_owned())),
        }],
        format: "v{value}".to_owned(),
        icon: Some("Z".to_owned()),
        style: StyleConfig::fg(Color::Yellow),
        connector: Some("via".to_owned()),
        arbitration: None,
        slot: ModuleSlot::default(),
    }];
    let resolved = resolve_modules(user);
    assert_eq!(resolved.len(), 1);
    assert_eq!(resolved[0].name, "zig");
    assert_eq!(resolved[0].connector.as_deref(), Some("via"));
    assert_eq!(
        resolved[0].format_segments,
        vec![FormatSegment::Literal("v".to_owned()), FormatSegment::Variable("value".to_owned())]
    );
    assert_eq!(resolved[0].speed, ModuleSpeed::Slow);
}

#[test]
fn resolve_modules_keeps_user_order() {
    let resolved = resolve_modules(vec![
        module("terraform", vec![env_source("TF_WORKSPACE")]),
        module("aws", vec![env_source("AWS_PROFILE")]),
    ]);
    let names: Vec<&str> = resolved.iter().map(|m| m.name.as_str()).collect();
    assert_eq!(names, vec!["terraform", "aws"]);
}

#[test]
fn later_module_replaces_earlier_in_place() {
    let a = module("aws", vec![env_source("AWS_PROFILE")]);
    let b = module("go", vec![env_source("GOVERSION")]);
    let mut c = module("aws", vec![env_source("AWS_VAULT")]);
    c.style = StyleConfig::fg(Color::Blue);
    let resolved = resolve_modules(vec![a, b, c]);
    let names: Vec<&str> = resolved.iter().map(|m| m.name.as_str()).collect();
    assert_eq!(names, vec!["aws", "go"]);
    assert_eq!(resolved[0].style, Style::new().fg(Color::Blue).bold());
}

#[test]
fn later_user_definition_of_a_name_wins() {
    let a = module("aws", vec![env_source("AWS_PROFILE")]);
    let mut b = module("aws", vec![env_source("AWS_VAULT")]);
    b.connector = Some("on".to_owned());
    let resolved = resolve_modules(vec![a, b]);
    let aws: Vec<_> = resolved.iter().filter(|m| m.name == "aws").collect();
    assert_eq!(aws.len(), 1);
    assert_eq!(aws[0].connector.as_deref(), Some("on"));
}

#[test]
fn compile_source_variants() {
    assert!(matches!(compile_source(env_source("HOME")), Some(ResolvedSource::Env { .. })));
    assert!(compile_source(SourceDef {
        name: "value".to_owned(),
        env: None,
        file: None,
        command: Some(vec![]),
        regex: None
    })
    .is_none());
    let cmd = compile_source(SourceDef {
        name: "value".to_owned(),
        env: None,
        file: None,
        command: Some(vec!["go".to_owned(), "version".to_owned()]),
        regex: None,
    });
    assert!(cmd.as_ref().is_some_and(|s| !s.is_fast()));
}

#[test]
fn preset_modules_are_named_and_valid() {
    let presets = preset_module_defs();
    assert!(!presets.is_empty());
    for p in &presets {
        assert!(!p.name.is_empty());
        assert!(!p.source.is_empty(), "{}", p.name);
    }
}

// -- detection helpers --

#[test]
fn when_conditions_combine_files_and_env() {
    let env = values(&[("AWS_PROFILE", "prod")]);
    let files = vec!["package.json".to_owned()];
    assert!(check_when(&ModuleWhen::default(), &env, &files));
    assert!(check_when(&ModuleWhen { files: vec!["package.json".to_owned()], env: vec![] }, &env, &files));
    assert!(!check_when(&ModuleWhen { files: vec!["Cargo.toml".to_owned()], env: vec![] }, &env, &files));
    assert!(check_when(&ModuleWhen { files: vec![], env: vec!["AWS_PROFILE".to_owned()] }, &env, &files));
    assert!(!check_when(
        &ModuleWhen { files: vec!["package.json".to_owned()], env: vec!["TF_WORKSPACE".to_owned()] },
        &env,
        &files
    ));
}

#[test]
fn matching_modules_selects_by_speed_and_trigger() {
    let mut node = module("node", vec![env_source("NODE_VERSION")]);
    node.when = ModuleWhen { files: vec!["package.json".to_owned()], env: vec![] };
    let mut tf = module("terraform", vec![env_source("TF_WORKSPACE")]);
    tf.when = ModuleWhen { files: vec!["main.tf".to_owned()], env: vec!["TF_WORKSPACE".to_owned()] };
    let defs = resolve_modules(vec![node, tf]);
    let files = vec!["package.json".to_owned()];
    let fast = matching_modules(&defs, ModuleSpeed::Fast, &[], &files);
    let names: Vec<&str> = fast.iter().map(|&i| defs[i].name.as_str()).collect();
    assert_eq!(names, vec!["node"]);
    let slow = matching_modules(&defs, ModuleSpeed::Slow, &[], &files);
    assert!(slow.iter().all(|&i| defs[i].speed == ModuleSpeed::Slow));
}

#[test]
fn format_module_renders_value_and_keeps_presentation() {
    let mut m = module("aws", vec![env_source("AWS_PROFILE")]);
    m.format = "{value}[ ({region})]".to_owned();
    m.icon = Some("A".to_owned());
    m.connector = Some("on".to_owned());
    m.style = StyleConfig::fg(Color::Yellow);
    let resolved = resolve_modules(vec![m]);
    let def = resolved.iter().find(|d| d.name == "aws").expect("aws resolved");
    let out = format_module(def, &values(&[("value", "prod")]));
    assert_eq!(
        out,
        Some(CustomModuleInfo {
            name: "aws".to_owned(),
            value: "prod".to_owned(),
            icon: Some("A".to_owned()),
            style: Style::new().fg(Color::Yellow).bold(),
            connector: Some("on".to_owned()),
        })
    );
    assert_eq!(format_module(def, &[]), None);
}

#[test]
fn regex_extracts_first_capture_group() {
    let re = RegexPattern::new_unchecked(r"rustc\s+(\S+)".to_owned());
    assert_eq!(apply_regex("rustc 1.82.0 (f6e511eec 2024-10-15)", Some(&re)), Some("1.82.0".to_owned()));
    assert_eq!(apply_regex("cargo 1.0", Some(&re)), None);
    assert_eq!(apply_regex("raw text", None), Some("raw text".to_owned()));
}

#[test]
fn file_content_is_trimmed_and_rejects_paths() {
    assert_eq!(validate_file_content("22.0.0\n", None), Some("22.0.0".to_owned()));
    assert_eq!(validate_file_content("  \n", None), None);
    assert_eq!(validate_file_content("/usr/local/bin/node", None), None);
    let re = RegexPattern::new_unchecked(r"v?(\d[\d.]*)".to_owned());
    assert_eq!(validate_file_content("v20.1.0\n", Some(&re)), Some("20.1.0".to_owned()));
}

#[test]
fn push_unique_skips_duplicates() {
    let mut v = vec!["a".to_owned()];
    push_unique(&mut v, "a");
    push_unique(&mut v, "b");
    push_unique(&mut v, "b");
    assert_eq!(v, vec!["a".to_owned(), "b".to_owned()]);
}

#[test]
fn required_env_names_are_unique_and_ordered() {
    let mut a = module("a", vec![env_source("X"), env_source("Y")]);
    a.when = ModuleWhen { files: vec![], env: vec!["T".to_owned()] };
    let b = module("b", vec![env_source("Y"), env_source("Z")]);
    let defs = resolve_modules(vec![a, b]);
    let user: Vec<_> = defs.into_iter().filter(|d| d.name == "a" || d.name == "b").collect();
    assert_eq!(
        required_env_var_names(&user),
        vec!["T".to_owned(), "X".to_owned(), "Y".to_owned(), "Z".to_owned()]
    );
}

#[test]
fn dependency_inputs_collect_env_and_files() {
    let mut m = module(
        "node",
        vec![SourceDef { name: "value".to_owned(), env: None, file: Some(".node-version".to_owned()), command: None, regex: None }],
    );
    m.when = ModuleWhen { files: vec!["package.json".to_owned()], env: vec!["NODE_ENV".to_owned()] };
    let defs = resolve_modules(vec![m]);
    let def = defs.iter().find(|d| d.name == "node").expect("node resolved");
    let mut inputs = ModuleDependencyInputs::default();
    inputs.add_module(def);
    inputs.add_module(def);
    assert_eq!(inputs.env_vars, vec!["NODE_ENV".to_owned()]);
    assert_eq!(inputs.trigger_files, vec!["package.json".to_owned()]);
    assert_eq!(inputs.source_files, vec![".node-version".to_owned()]);
    assert!(!inputs.uses_command_path);
    let cmd = resolve_modules(vec![module(
        "go",
        vec![SourceDef {
            name: "value".to_owned(),
            env: None,
            file: None,
            command: Some(vec!["go".to_owned(), "version".to_owned()]),
            regex: None,
        }],
    )]);
    inputs.add_module(&cmd[0]);
    assert!(inputs.uses_command_path);
}

// -- arbitration --

#[test]
fn arbitration_keeps_lowest_priority_per_group() {
    let detected = vec![
        candidate("node", Some(arbitration("runtime", 20))),
        candidate("aws", None),
        candidate("bun", Some(arbitration("runtime", 10))),
        candidate("deno", Some(arbitration("runtime", 30))),
    ];
    let kept: Vec<String> = arbitrate_detected_modules(detected).into_iter().map(|m| m.name).collect();
    assert_eq!(kept, vec!["aws".to_owned(), "bun".to_owned()]);
}

#[test]
fn arbitration_tie_keeps_earliest() {
    let detected = vec![
        candidate("first", Some(arbitration("g", 5))),
        candidate("second", Some(arbitration("g", 5))),
        candidate("other", Some(arbitration("h", 99))),
    ];
    let kept: Vec<String> = arbitrate_detected_modules(detected).into_iter().map(|m| m.name).collect();
    assert_eq!(kept, vec!["first".to_owned(), "other".to_owned()]);
}

#[test]
fn arbitration_without_groups_keeps_everything_in_order() {
    let detected = vec![candidate("a", None), candidate("b", None), candidate("c", None)];
    let kept: Vec<CustomModuleInfo> = arbitrate_detected_modules(detected);
    assert_eq!(kept, vec![info("a"), info("b"), info("c")]);
    assert!(arbitrate_detected_modules(vec![]).is_empty());
}

#[test]
fn group_value_prefers_fast_sources_in_order() {
    let m = module(
        "v",
        vec![
            SourceDef {
                name: "value".to_owned(),
                env: None,
                file: None,
                command: Some(vec!["tool".to_owned(), "--version".to_owned()]),
                regex: None,
            },
            env_source("A"),
            env_source("B"),
        ],
    );
    let resolved = resolve_modules(vec![m]);
    let def = resolved.iter().find(|d| d.name == "v").expect("resolved");
    let group = &def.source_groups[0];
    let r = |xs: [Option<&str>; 3]| xs.iter().map(|x| x.map(str::to_owned)).collect::<Vec<_>>();
    assert_eq!(group_value(group, &r([Some("cmd"), Some("a"), Some("b")])), Some("a".to_owned()));
    assert_eq!(group_value(group, &r([Some("cmd"), None, Some("b")])), Some("b".to_owned()));
    assert_eq!(group_value(group, &r([Some("cmd"), None, None])), Some("cmd".to_owned()));
    assert_eq!(group_value(group, &r([None, None, None])), None);
}

#[test]
fn command_output_is_trimmed_before_the_regex() {
    assert_eq!(command_output_value("  1.2.3\n", None), Some("1.2.3".to_owned()));
    assert_eq!(command_output_value("\n\t ", None), None);
    let re = RegexPattern::new_unchecked(r"go(\d[\d.]*)".to_owned());
    assert_eq!(command_output_value("go version go1.22.0 linux/amd64\n", Some(&re)), Some("1.22.0".to_owned()));
    // unlike file contents, command output may contain a slash
    assert_eq!(command_output_value("a/b\n", None), Some("a/b".to_owned()));
}

#[test]
fn commands_run_only_when_fast_sources_give_nothing() {
    let resolved = resolve_modules(vec![module(
        "go",
        vec![
            env_source("GOVERSION"),
            SourceDef {
                name: "value".to_owned(),
                env: None,
                file: None,
                command: Some(vec!["go".to_owned(), "version".to_owned()]),
                regex: None,
            },
        ],
    )]);
    let group = &resolved[0].source_groups[0];
    assert_eq!(group.sources.len(), 2);
    assert!(needs_slow_sources(group, &vec![None, None]));
    assert!(!needs_slow_sources(group, &vec![Some("1.22".to_owned()), None]));
}

#[test]
fn written_segments_parse_back() {
    // `{{` and `[[` are escaped literal braces; `{name}` and `[...]` are as written.
    let segments = parse_format("{{a [[b{name}[ x{v}]]");
    assert_eq!(
        segments,
        vec![
            FormatSegment::Literal("{a [b".to_owned()),
            FormatSegment::Variable("name".to_owned()),
            FormatSegment::Optional(vec![
                FormatSegment::Literal(" x".to_owned()),
                FormatSegment::Variable("v".to_owned()),
            ]),
            FormatSegment::Literal("]".to_owned()),
        ]
    );
}
