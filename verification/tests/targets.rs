use cargo_valgrind::path::join;
use cargo_valgrind::{
    binaries_from, binaries_in, enumerate_executables, pick_one, resolve, Build, CrateType, Kind,
    Metadata, MetadataError, Package, PackageTarget, ResolveError, Target,
};

fn unit(name: &str, crate_type: CrateType, kind: Kind) -> PackageTarget {
    PackageTarget { name: name.to_string(), crate_types: vec![crate_type], kind: vec![kind] }
}

fn project(targets: Vec<PackageTarget>) -> Metadata {
    Metadata {
        packages: vec![Package { manifest_path: "/proj/Cargo.toml".to_string(), targets }],
        target_directory: "/proj/target".to_string(),
    }
}

fn two_targets() -> Metadata {
    project(vec![
        unit("a", CrateType::Binary, Kind::Binary),
        unit("b", CrateType::Binary, Kind::Example),
    ])
}

#[test]
fn default_build_is_debug() {
    assert_eq!(Build::default(), Build::Debug);
    assert_eq!(Build::Debug.as_str(), "debug");
    assert_eq!(Build::Release.as_str(), "release");
}

#[test]
fn join_follows_path_rules() {
    assert_eq!(join("/r/target", "release"), "/r/target/release");
    assert_eq!(join("/r/target/", "release"), "/r/target/release");
    assert_eq!(join("/r/target", ""), "/r/target/");
    assert_eq!(join("", "release"), "release");
    assert_eq!(join("/r/target", "/abs"), "/abs");
}

#[test]
fn paths_of_each_kind_under_release() {
    let root = "/r/target";
    assert_eq!(Target::Binary("foo".to_string()).path(root, Build::Release), "/r/target/release/foo");
    assert_eq!(
        Target::Example("bar".to_string()).path(root, Build::Release),
        "/r/target/release/examples/bar"
    );
    assert_eq!(
        Target::Benchmark("baz".to_string()).path(root, Build::Release),
        "/r/target/release/benches/baz"
    );
    assert_eq!(Target::Binary("foo".to_string()).path(root, Build::Debug), "/r/target/debug/foo");
}

#[test]
fn target_names_and_subdirectories() {
    let example = Target::Example("bar".to_string());
    assert_eq!(example.name(), "bar");
    assert_eq!(example.subdirectory(), "examples");
    assert_eq!(Target::Binary("x".to_string()).subdirectory(), "");
    assert_eq!(Target::Benchmark("x".to_string()).subdirectory(), "benches");
    assert_eq!(example.clone(), example);
    assert_ne!(example, Target::Binary("bar".to_string()));
    assert_ne!(example, Target::Example("baz".to_string()));
}

#[test]
fn binaries_from_lists_executables_in_order() {
    let metadata = project(vec![
        unit("foo", CrateType::Binary, Kind::Binary),
        unit("foo", CrateType::Library, Kind::Library),
        unit("bar", CrateType::Binary, Kind::Example),
        unit("baz", CrateType::Binary, Kind::Bench),
        unit("mac", CrateType::ProcMacro, Kind::ProcMacro),
    ]);
    assert!(metadata.is_resolvable("/proj/Cargo.toml"));
    let paths = binaries_from(&metadata, "/proj/Cargo.toml", Build::Release);
    assert_eq!(
        paths,
        vec![
            "/proj/target/release/foo".to_string(),
            "/proj/target/release/examples/bar".to_string(),
            "/proj/target/release/benches/baz".to_string(),
        ]
    );
    let found = enumerate_executables(&metadata, "/proj/Cargo.toml");
    assert_eq!(
        found,
        vec![
            Target::Binary("foo".to_string()),
            Target::Example("bar".to_string()),
            Target::Benchmark("baz".to_string()),
        ]
    );
}

#[test]
fn sibling_packages_are_excluded() {
    let mut metadata = two_targets();
    metadata.packages.push(Package {
        manifest_path: "/proj/other/Cargo.toml".to_string(),
        targets: vec![unit("c", CrateType::Binary, Kind::Binary)],
    });
    assert!(metadata.is_resolvable("/elsewhere/Cargo.toml"));
    assert!(enumerate_executables(&metadata, "/elsewhere/Cargo.toml").is_empty());
    assert!(binaries_from(&metadata, "/proj", Build::Debug).is_empty());
    assert_eq!(
        binaries_from(&metadata, "/proj/other/Cargo.toml", Build::Debug),
        vec!["/proj/target/debug/c".to_string()]
    );
    assert_eq!(
        enumerate_executables(&metadata, "/proj/Cargo.toml"),
        vec![Target::Binary("a".to_string()), Target::Example("b".to_string())]
    );
}

#[test]
fn unsupported_kinds_are_told_apart() {
    let metadata = project(vec![unit("t", CrateType::Binary, Kind::Test)]);
    assert!(!metadata.is_resolvable("/proj/Cargo.toml"));
    assert!(metadata.is_resolvable("/other/Cargo.toml"));
    assert_eq!(
        binaries_in(&metadata, "/proj/Cargo.toml", Build::Debug),
        Err(MetadataError::UnsupportedTarget)
    );
    assert_eq!(binaries_in(&metadata, "/other/Cargo.toml", Build::Debug), Ok(vec![]));
    let script = project(vec![unit("build-script-build", CrateType::Binary, Kind::CustomBuild)]);
    assert!(!script.is_resolvable("/proj/Cargo.toml"));
    let library = project(vec![unit("l", CrateType::Binary, Kind::Library)]);
    assert!(!library.is_resolvable("/proj/Cargo.toml"));
    let kindless = project(vec![PackageTarget {
        name: "k".to_string(),
        crate_types: vec![CrateType::Library, CrateType::Binary],
        kind: vec![],
    }]);
    assert!(!kindless.is_resolvable("/proj/Cargo.toml"));
    let fine = project(vec![unit("t", CrateType::Library, Kind::Test)]);
    assert!(fine.is_resolvable("/proj/Cargo.toml"));
    assert_eq!(binaries_in(&fine, "/proj/Cargo.toml", Build::Debug), Ok(vec![]));
}

#[test]
fn sole_candidate_is_picked_without_selector() {
    let metadata = project(vec![
        unit("only", CrateType::Binary, Kind::Binary),
        unit("only", CrateType::Library, Kind::Library),
    ]);
    let candidates = enumerate_executables(&metadata, "/proj/Cargo.toml");
    assert_eq!(pick_one(None, &candidates), Ok(Target::Binary("only".to_string())));
}

#[test]
fn no_candidate_without_selector_is_not_found() {
    let metadata = project(vec![unit("only", CrateType::Library, Kind::Library)]);
    let candidates = enumerate_executables(&metadata, "/proj/Cargo.toml");
    assert!(candidates.is_empty());
    assert_eq!(pick_one(None, &candidates), Err(ResolveError::TargetNotFound));
}

#[test]
fn several_candidates_without_selector_are_ambiguous() {
    let candidates = enumerate_executables(&two_targets(), "/proj/Cargo.toml");
    assert_eq!(candidates.len(), 2);
    assert_eq!(pick_one(None, &candidates), Err(ResolveError::AmbiguousTarget));
    assert_eq!(
        resolve(&two_targets(), "/proj/Cargo.toml", Build::Debug, None),
        Err(ResolveError::AmbiguousTarget)
    );
}

#[test]
fn selected_example_is_resolved() {
    let selector = Some(Target::Example("b".to_string()));
    let resolved = resolve(&two_targets(), "/proj/Cargo.toml", Build::Debug, selector);
    assert_eq!(
        resolved,
        Ok((Target::Example("b".to_string()), "/proj/target/debug/examples/b".to_string()))
    );
}

#[test]
fn selector_must_name_a_candidate() {
    let candidates = enumerate_executables(&two_targets(), "/proj/Cargo.toml");
    assert_eq!(
        pick_one(Some(Target::Example("missing".to_string())), &candidates),
        Err(ResolveError::TargetNotFound)
    );
    assert_eq!(
        pick_one(Some(Target::Binary("b".to_string())), &candidates),
        Err(ResolveError::TargetNotFound)
    );
    assert_eq!(
        pick_one(Some(Target::Binary("a".to_string())), &candidates),
        Ok(Target::Binary("a".to_string()))
    );
    assert_eq!(
        pick_one(Some(Target::Binary("a".to_string())), &Vec::new()),
        Err(ResolveError::TargetNotFound)
    );
}

#[test]
fn resolve_errors_have_messages() {
    assert_eq!(
        ResolveError::AmbiguousTarget.message(),
        "Multiple possible targets, please specify more precise"
    );
    assert_eq!(ResolveError::TargetNotFound.message(), "Could not find selected binary");
}

#[test]
fn build_is_a_directory_name() {
    let debug: &str = Build::Debug.as_ref();
    let release: &str = Build::Release.as_ref();
    assert_eq!(debug, "debug");
    assert_eq!(release, "release");
}

#[test]
fn executable_kinds_and_crate_types() {
    assert!(Kind::Binary.executable());
    assert!(Kind::Example.executable());
    assert!(Kind::Bench.executable());
    for kind in [
        Kind::Library,
        Kind::ProcMacro,
        Kind::DyLib,
        Kind::CDyLib,
        Kind::StaticLib,
        Kind::RLib,
        Kind::Test,
        Kind::CustomBuild,
    ] {
        assert!(!kind.executable());
    }
    let mixed = PackageTarget {
        name: "m".to_string(),
        crate_types: vec![CrateType::RLib, CrateType::Binary],
        kind: vec![Kind::Example, Kind::Test],
    };
    assert!(mixed.is_binary());
    assert!(mixed.is_resolvable());
    assert!(!unit("l", CrateType::CDyLib, Kind::CDyLib).is_binary());
    assert_eq!(
        binaries_from(&project(vec![mixed]), "/proj/Cargo.toml", Build::Debug),
        vec!["/proj/target/debug/examples/m".to_string()]
    );
}
