use capsule::bench::{build_path_env, which_candidates, RunMetadata};

#[test]
fn path_env_deduplicates_directories() {
    let path = build_path_env("/opt/homebrew/bin/capsule", "/opt/homebrew/bin/starship", "/opt/homebrew/bin/git", None);
    let parts: Vec<&str> = path.split(':').collect();
    assert!(parts.contains(&"/bin"));
    assert!(parts.contains(&"/usr/bin"));
    let mut unique = parts.clone();
    unique.sort_unstable();
    unique.dedup();
    assert_eq!(unique.len(), parts.len());
}

#[test]
fn path_env_exact_order() {
    assert_eq!(
        build_path_env("/a/capsule", "/b/starship", "/usr/bin/git", Some("/a/rustc")),
        "/a:/b:/usr/bin:/bin"
    );
    assert_eq!(build_path_env("/x/c", "/x/s", "/x//g", None), "/x:/usr/bin:/bin");
}

#[test]
fn binaries_are_looked_up_by_file_name_on_each_path_entry() {
    assert_eq!(
        which_candidates("/usr/local/bin/starship", "/a:/b/:"),
        Some(vec!["/a/starship".to_owned(), "/b/starship".to_owned(), "starship".to_owned()])
    );
    assert_eq!(which_candidates("git", ""), Some(vec!["git".to_owned()]));
    assert_eq!(which_candidates("..", "/bin"), None);
    assert_eq!(which_candidates("", "/bin"), None);
}

#[test]
fn run_metadata_holds_its_fields() {
    let m = RunMetadata {
        iterations: 30,
        capsule_bin: "capsule".to_owned(),
        starship_bin: "starship".to_owned(),
        git_bin: "git".to_owned(),
        rustc: "rustc 1.90".to_owned(),
        macos: "15.0".to_owned(),
        kernel: "24.0".to_owned(),
        cpu: "arm64".to_owned(),
    };
    assert_eq!(m.clone(), m);
    assert_eq!(m.iterations, 30);
}
