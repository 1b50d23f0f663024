use rand_explorer::build_info::{parse_dependency_list, BuildEnvironment, BuildInfo};

fn empty_env() -> BuildEnvironment<'static> {
    BuildEnvironment {
        git_sha: None,
        git_branch: None,
        git_timestamp: None,
        rustc_version: None,
        target_triple: None,
        cargo_profile: None,
        package_version: None,
        dependency_list: None,
    }
}

#[test]
fn missing_values_read_unknown() {
    let info = BuildInfo::new(&empty_env());
    assert_eq!(info.git_sha, "unknown");
    assert_eq!(info.git_branch, "unknown");
    assert_eq!(info.git_timestamp, "unknown");
    assert_eq!(info.rustc_version, "unknown");
    assert_eq!(info.target_triple, "unknown");
    assert_eq!(info.cargo_profile, "unknown");
    assert_eq!(info.package_version, "unknown");
    assert_eq!(info.dependency_versions, vec!["unknown=unknown".to_string()]);
}

#[test]
fn present_values_are_kept() {
    let env = BuildEnvironment {
        git_sha: Some("abc123"),
        git_branch: Some("main"),
        git_timestamp: Some("2024-01-01T00:00:00Z"),
        rustc_version: Some("1.80.0"),
        target_triple: Some("x86_64-unknown-linux-gnu"),
        cargo_profile: Some("release"),
        package_version: Some("0.1.0"),
        dependency_list: Some("rand=0.10.3 | serde=1.0.0"),
    };
    let info = BuildInfo::new(&env);
    assert_eq!(info.git_sha, "abc123");
    assert_eq!(info.git_branch, "main");
    assert_eq!(info.git_timestamp, "2024-01-01T00:00:00Z");
    assert_eq!(info.rustc_version, "1.80.0");
    assert_eq!(info.target_triple, "x86_64-unknown-linux-gnu");
    assert_eq!(info.cargo_profile, "release");
    assert_eq!(info.package_version, "0.1.0");
    assert_eq!(
        info.dependency_versions,
        vec!["rand=0.10.3".to_string(), "serde=1.0.0".to_string()]
    );
}

#[test]
fn dependency_list_is_split_trimmed_and_filtered() {
    let entries = parse_dependency_list("  a=1 |  | b=2\t |c=3 | ");
    assert_eq!(entries, vec!["a=1".to_string(), "b=2\t |c=3".to_string()]);
}

#[test]
fn dependency_list_edge_cases() {
    assert_eq!(parse_dependency_list(""), Vec::<String>::new());
    assert_eq!(parse_dependency_list(" | "), Vec::<String>::new());
    assert_eq!(parse_dependency_list("x"), vec!["x".to_string()]);
    assert_eq!(parse_dependency_list(" |  | "), Vec::<String>::new());
    assert_eq!(parse_dependency_list("a | | b"), vec!["a".to_string(), "| b".to_string()]);
    assert_eq!(parse_dependency_list("é=1 | ü=2"), vec!["é=1".to_string(), "ü=2".to_string()]);
}

#[test]
fn dependency_list_matches_std_split() {
    let inputs = ["rand=1 | egui=2", "a |  | b", "  | x | y |", "p | | q | r", "one"];
    for input in inputs {
        let expected: Vec<String> = input
            .split(" | ")
            .map(str::trim)
            .filter(|s| !s.is_empty())
            .map(str::to_owned)
            .collect();
        assert_eq!(parse_dependency_list(input), expected, "input {input:?}");
    }
}

#[test]
fn dependency_version_takes_first_match() {
    let env = BuildInfo::new(&BuildEnvironment {
        dependency_list: Some("rand=0.10.3 | rand_core=0.10.1 | rand=0.9.0 | broken | serde=1.0=x"),
        ..empty_env()
    });
    assert_eq!(env.dependency_version("rand"), Some("0.10.3".to_string()));
    assert_eq!(env.dependency_version("rand_core"), Some("0.10.1".to_string()));
    assert_eq!(env.dependency_version("serde"), Some("1.0=x".to_string()));
    assert_eq!(env.dependency_version("broken"), None);
    assert_eq!(env.dependency_version("egui"), None);
    assert_eq!(env.dependency_version("ran"), None);
}

#[test]
fn main_dependency_lines_follow_the_main_list() {
    let info = BuildInfo::new(&BuildEnvironment {
        dependency_list: Some("serde=1.0.1 | zzz=9 | eframe=0.37.0 | rand=0.10.3 | egui=0.37.0"),
        ..empty_env()
    });
    assert_eq!(
        info.main_dependency_lines(),
        vec![
            "eframe=0.37.0".to_string(),
            "egui=0.37.0".to_string(),
            "rand=0.10.3".to_string(),
            "serde=1.0.1".to_string(),
        ]
    );
    let unknown = BuildInfo::new(&empty_env());
    assert_eq!(unknown.main_dependency_lines(), Vec::<String>::new());
}

#[test]
fn joined_entries_read_back() {
    let entries = vec![
        "eframe=0.37.0".to_string(),
        "rand=0.10.3".to_string(),
        "a b=1 2".to_string(),
        "x".to_string(),
    ];
    let joined = entries.join(" | ");
    assert_eq!(parse_dependency_list(&joined), entries);
    assert_eq!(parse_dependency_list(&Vec::<String>::new().join(" | ")), Vec::<String>::new());
}
