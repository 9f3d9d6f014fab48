use cargo_valgrind::source::space;
use cargo_valgrind::{
    build_arguments, build_type, command_outcome, failure_message, metadata_arguments, specified_target, Build,
    Target,
};

#[test]
fn failure_message_strips_prefix_and_trailing_space() {
    assert_eq!(
        failure_message("error: could not find `Cargo.toml`\n"),
        "cargo command failed: could not find `Cargo.toml`"
    );
    assert_eq!(failure_message("error: error: twice \t\r\n"), "cargo command failed: twice");
    assert_eq!(failure_message("  error: kept"), "cargo command failed:   error: kept");
    assert_eq!(failure_message("error:no space"), "cargo command failed: error:no space");
    assert_eq!(failure_message(""), "cargo command failed: ");
    assert_eq!(failure_message("error: "), "cargo command failed: ");
    assert_eq!(failure_message("error: \n"), "cargo command failed: ");
    assert_eq!(failure_message("a\u{a0}\u{3000}"), "cargo command failed: a");
    assert_eq!(failure_message("line\nerror: more\n\n"), "cargo command failed: line\nerror: more");
}

#[test]
fn failure_message_agrees_with_std_trimming() {
    let samples = [
        "error: manifest path `x` does not exist\n",
        "error: error: error: \n x \n",
        "warning: unused\nerror: failed\n",
        "\u{2003}\u{205f}",
        "error: caf\u{e9} \u{1680}",
    ];
    for sample in samples {
        let expected =
            format!("cargo command failed: {}", sample.trim_start_matches("error: ").trim_end());
        assert_eq!(failure_message(sample), expected);
    }
}

#[test]
fn space_agrees_with_std() {
    for code in 0u32..0x3100 {
        if let Some(c) = char::from_u32(code) {
            assert_eq!(space(c), c.is_whitespace(), "{:x}", code);
        }
    }
    assert!(!space('\u{feff}'));
    assert!(!space('\u{10ffff}'));
}

#[test]
fn metadata_command_arguments() {
    assert_eq!(
        metadata_arguments("/proj/Cargo.toml"),
        vec!["metadata", "--format-version=1", "--no-deps", "--offline", "--manifest-path", "/proj/Cargo.toml"]
    );
}

#[test]
fn build_command_arguments() {
    assert_eq!(
        build_arguments("/proj/Cargo.toml", Build::Debug, &Target::Binary("a".to_string())),
        vec!["build", "--manifest-path", "/proj/Cargo.toml", "--bin", "a"]
    );
    assert_eq!(
        build_arguments("/proj/Cargo.toml", Build::Release, &Target::Example("b".to_string())),
        vec!["build", "--manifest-path", "/proj/Cargo.toml", "--release", "--example", "b"]
    );
    assert_eq!(
        build_arguments("m", Build::Release, &Target::Benchmark("c".to_string())),
        vec!["build", "--manifest-path", "m", "--release", "--bench", "c"]
    );
    assert_eq!(Target::Binary("a".to_string()).build_flag(), "--bin");
}

#[test]
fn build_type_follows_the_flag() {
    assert_eq!(build_type(true), Build::Release);
    assert_eq!(build_type(false), Build::Debug);
}

#[test]
fn specified_target_prefers_binary_then_example() {
    let name = |text: &str| Some(text.to_string());
    assert_eq!(specified_target(None, None, None), None);
    assert_eq!(specified_target(name("a"), None, None), Some(Target::Binary("a".to_string())));
    assert_eq!(specified_target(None, name("b"), None), Some(Target::Example("b".to_string())));
    assert_eq!(specified_target(None, None, name("c")), Some(Target::Benchmark("c".to_string())));
    assert_eq!(
        specified_target(name("a"), name("b"), name("c")),
        Some(Target::Binary("a".to_string()))
    );
    assert_eq!(
        specified_target(None, name("b"), name("c")),
        Some(Target::Example("b".to_string()))
    );
}

#[test]
fn outcome_of_the_metadata_command() {
    assert_eq!(
        command_outcome(true, Some("{}".to_string()), "warning: ignored\n"),
        Ok("{}".to_string())
    );
    assert_eq!(command_outcome(true, None, ""), Err("Non-UTF-8 string".to_string()));
    assert_eq!(
        command_outcome(false, Some("{}".to_string()), "error: no manifest\n"),
        Err("cargo command failed: no manifest".to_string())
    );
    assert_eq!(
        command_outcome(false, None, "error: no manifest\n"),
        Err("cargo command failed: no manifest".to_string())
    );
}
