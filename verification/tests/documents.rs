use cargo_valgrind::document::{array_field, field, kind_from_name, crate_type_from_name, parse, text_field};
use cargo_valgrind::{
    binaries, metadata, metadata_from, Build, CrateType, Json, Kind, MetadataError,
};

const DOCUMENT: &str = r#"{
    "packages": [
        {
            "name": "proj",
            "manifest_path": "/proj/Cargo.toml",
            "targets": [
                {"kind": ["lib"], "crate_types": ["lib"], "name": "proj", "src_path": "/proj/src/lib.rs"},
                {"kind": ["bin"], "crate_types": ["bin"], "name": "a"},
                {"kind": ["example"], "crate_types": ["bin"], "name": "b"},
                {"kind": ["bench"], "crate_types": ["bin"], "name": "c"}
            ]
        },
        {
            "name": "sibling",
            "manifest_path": "/proj/sibling/Cargo.toml",
            "targets": [
                {"kind": ["bin"], "crate_types": ["bin"], "name": "s"},
                {"kind": ["test"], "crate_types": ["bin"], "name": "t"}
            ]
        }
    ],
    "target_directory": "/proj/target",
    "version": 1,
    "workspace_root": "/proj"
}"#;

fn text(value: &str) -> Json {
    Json::Text(value.to_string())
}

fn object(members: Vec<(&str, Json)>) -> Json {
    Json::Object(members.into_iter().map(|(key, value)| (key.to_string(), value)).collect())
}

fn target(name: &str, kind: &str, crate_type: &str) -> Json {
    object(vec![
        ("name", text(name)),
        ("kind", Json::Array(vec![text(kind)])),
        ("crate_types", Json::Array(vec![text(crate_type)])),
    ])
}

fn document(version: Json, targets: Vec<Json>) -> Json {
    object(vec![
        ("version", version),
        ("target_directory", text("/proj/target")),
        (
            "packages",
            Json::Array(vec![object(vec![
                ("manifest_path", text("/proj/Cargo.toml")),
                ("targets", Json::Array(targets)),
            ])]),
        ),
    ])
}

#[test]
fn parse_reads_json_values() {
    assert!(matches!(parse("null"), Some(Json::Null)));
    assert!(matches!(parse("true"), Some(Json::Bool(true))));
    assert!(matches!(parse("17"), Some(Json::Number(Some(17)))));
    assert!(matches!(parse("-17"), Some(Json::Number(None))));
    match parse("\"bin\"") {
        Some(Json::Text(value)) => assert_eq!(value, "bin"),
        other => panic!("{:?}", other),
    }
    match parse("[1, [2]]") {
        Some(Json::Array(items)) => {
            assert_eq!(items.len(), 2);
            assert!(matches!(items[0], Json::Number(Some(1))));
            assert!(matches!(items[1], Json::Array(_)));
        }
        other => panic!("{:?}", other),
    }
    match parse("{\"k\": \"v\"}") {
        Some(Json::Object(members)) => {
            assert_eq!(members.len(), 1);
            assert_eq!(members[0].0, "k");
            assert!(matches!(&members[0].1, Json::Text(value) if value == "v"));
        }
        other => panic!("{:?}", other),
    }
    assert!(parse("{").is_none());
    assert!(parse("").is_none());
    assert!(parse("1 2").is_none());
}

#[test]
fn fields_are_looked_up_by_key() {
    let json = object(vec![("a", text("x")), ("b", Json::Array(vec![Json::Null]))]);
    assert!(matches!(field(&json, "a"), Some(Json::Text(value)) if value == "x"));
    assert!(field(&json, "c").is_none());
    assert!(field(&Json::Null, "a").is_none());
    assert_eq!(text_field(&json, "a"), Some("x".to_string()));
    assert_eq!(text_field(&json, "b"), None);
    assert_eq!(array_field(&json, "b").map(|items| items.len()), Some(1));
    assert!(array_field(&json, "a").is_none());
    let twice = object(vec![("a", text("first")), ("a", text("last"))]);
    assert_eq!(text_field(&twice, "a"), Some("last".to_string()));
}

#[test]
fn names_of_kinds_and_crate_types() {
    assert_eq!(kind_from_name("bin"), Some(Kind::Binary));
    assert_eq!(kind_from_name("example"), Some(Kind::Example));
    assert_eq!(kind_from_name("bench"), Some(Kind::Bench));
    assert_eq!(kind_from_name("lib"), Some(Kind::Library));
    assert_eq!(kind_from_name("proc-macro"), Some(Kind::ProcMacro));
    assert_eq!(kind_from_name("dylib"), Some(Kind::DyLib));
    assert_eq!(kind_from_name("cdylib"), Some(Kind::CDyLib));
    assert_eq!(kind_from_name("staticlib"), Some(Kind::StaticLib));
    assert_eq!(kind_from_name("rlib"), Some(Kind::RLib));
    assert_eq!(kind_from_name("test"), Some(Kind::Test));
    assert_eq!(kind_from_name("custom-build"), Some(Kind::CustomBuild));
    assert_eq!(kind_from_name("Bin"), None);
    assert_eq!(crate_type_from_name("bin"), Some(CrateType::Binary));
    assert_eq!(crate_type_from_name("lib"), Some(CrateType::Library));
    assert_eq!(crate_type_from_name("proc-macro"), Some(CrateType::ProcMacro));
    assert_eq!(crate_type_from_name("dylib"), Some(CrateType::DyLib));
    assert_eq!(crate_type_from_name("cdylib"), Some(CrateType::CDyLib));
    assert_eq!(crate_type_from_name("staticlib"), Some(CrateType::StaticLib));
    assert_eq!(crate_type_from_name("rlib"), Some(CrateType::RLib));
    assert_eq!(crate_type_from_name("example"), None);
}

#[test]
fn metadata_is_read_from_a_document() {
    let read = metadata(DOCUMENT).unwrap();
    assert_eq!(read.target_directory, "/proj/target");
    assert_eq!(read.packages.len(), 2);
    assert_eq!(read.packages[0].manifest_path, "/proj/Cargo.toml");
    assert_eq!(read.packages[0].targets.len(), 4);
    assert_eq!(read.packages[0].targets[2].name, "b");
    assert_eq!(read.packages[0].targets[2].kind, vec![Kind::Example]);
    assert_eq!(read.packages[0].targets[2].crate_types, vec![CrateType::Binary]);
    assert_eq!(read.packages[1].targets[1].kind, vec![Kind::Test]);
}

#[test]
fn binaries_of_a_document() {
    assert_eq!(
        binaries(DOCUMENT, "/proj/Cargo.toml", Build::Debug),
        Ok(vec![
            "/proj/target/debug/a".to_string(),
            "/proj/target/debug/examples/b".to_string(),
            "/proj/target/debug/benches/c".to_string(),
        ])
    );
    assert_eq!(
        binaries(DOCUMENT, "/proj/Cargo.toml", Build::Release),
        Ok(vec![
            "/proj/target/release/a".to_string(),
            "/proj/target/release/examples/b".to_string(),
            "/proj/target/release/benches/c".to_string(),
        ])
    );
    assert_eq!(binaries(DOCUMENT, "/nowhere/Cargo.toml", Build::Debug), Ok(vec![]));
    assert_eq!(
        binaries(DOCUMENT, "/proj/sibling/Cargo.toml", Build::Debug),
        Err(MetadataError::UnsupportedTarget)
    );
}

#[test]
fn malformed_documents_are_refused() {
    assert_eq!(binaries("{ not json", "/proj/Cargo.toml", Build::Debug), Err(MetadataError::Malformed));
    assert_eq!(metadata("").err(), Some(MetadataError::Malformed));
    assert_eq!(metadata("[]").err(), Some(MetadataError::MissingField));
    assert_eq!(metadata("{}").err(), Some(MetadataError::MissingField));
    assert_eq!(
        metadata("{\"version\": 2, \"packages\": [], \"target_directory\": \"/t\"}").err(),
        Some(MetadataError::UnsupportedVersion)
    );
    assert_eq!(
        metadata("{\"version\": 1, \"packages\": []}").err(),
        Some(MetadataError::MissingField)
    );
    assert_eq!(
        metadata("{\"version\": 1, \"target_directory\": \"/t\"}").err(),
        Some(MetadataError::MissingField)
    );
    assert!(metadata("{\"version\": 1, \"packages\": [], \"target_directory\": \"/t\"}").is_ok());
}

#[test]
fn metadata_from_plain_values() {
    let read = metadata_from(&document(
        Json::Number(Some(1)),
        vec![target("a", "bin", "bin"), target("b", "example", "bin")],
    ))
    .unwrap();
    assert_eq!(read.packages.len(), 1);
    assert_eq!(read.packages[0].targets[1].name, "b");
    assert_eq!(read.packages[0].targets[1].kind, vec![Kind::Example]);

    let unversioned = metadata_from(&document(Json::Null, vec![]));
    assert_eq!(unversioned.err(), Some(MetadataError::MissingField));
    let newer = metadata_from(&document(Json::Number(Some(2)), vec![]));
    assert_eq!(newer.err(), Some(MetadataError::UnsupportedVersion));
    let negative = metadata_from(&document(Json::Number(None), vec![]));
    assert_eq!(negative.err(), Some(MetadataError::UnsupportedVersion));
    let unknown_kind =
        metadata_from(&document(Json::Number(Some(1)), vec![target("a", "binary", "bin")]));
    assert_eq!(unknown_kind.err(), Some(MetadataError::MissingField));
    let unknown_type =
        metadata_from(&document(Json::Number(Some(1)), vec![target("a", "bin", "exe")]));
    assert_eq!(unknown_type.err(), Some(MetadataError::MissingField));
    let nameless = metadata_from(&document(
        Json::Number(Some(1)),
        vec![object(vec![("kind", Json::Array(vec![])), ("crate_types", Json::Array(vec![]))])],
    ));
    assert_eq!(nameless.err(), Some(MetadataError::MissingField));
}

#[test]
fn metadata_errors_have_messages() {
    assert_eq!(MetadataError::Malformed.message(), "Invalid metadata: not a JSON document");
    assert_eq!(MetadataError::MissingField.message(), "Invalid metadata: missing field");
    assert_eq!(MetadataError::UnsupportedVersion.message(), "Invalid metadata: unsupported version");
    assert_eq!(
        MetadataError::UnsupportedTarget.message(),
        "Invalid metadata: unsupported target kind"
    );
}
