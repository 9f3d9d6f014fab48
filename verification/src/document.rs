//! Reading the metadata of a workspace from its JSON document.

use vstd::prelude::*;
use vstd::string::*;
use crate::metadata::{
    CrateType, Kind, Metadata, MetadataView, Package, PackageTarget, PackageTargetView,
    PackageView,
};
use crate::path::same_text;

verus! {

/// A JSON value as plain data.
#[derive(Debug)]
pub enum Json {
    /// `null`.
    Null,
    /// `true` or `false`.
    Bool(bool),
    /// A number; its value where it is an unsigned integer of 64 bits.
    Number(Option<u64>),
    /// A string.
    Text(String),
    /// An array, in order.
    Array(Vec<Json>),
    /// An object: its members, each a key and a value.
    Object(Vec<(String, Json)>),
}

/// Why a metadata document was refused.
#[derive(Debug, Clone, Copy, PartialEq, Eq, Structural)]
pub enum MetadataError {
    /// The document is not well-formed JSON.
    Malformed,
    /// A required field is absent, or is not of the expected form.
    MissingField,
    /// The document declares another format version than the supported one.
    UnsupportedVersion,
    /// An executable target of the requested package is of a kind that has
    /// no executable path. This is a breach of what the metadata promises,
    /// not a fault of the user's input: a caller is to abort on it.
    UnsupportedTarget,
}

impl MetadataError {
    /// A message for the user.
    pub fn message(&self) -> (text: &'static str)
        ensures
            text@ == match self {
                MetadataError::Malformed => "Invalid metadata: not a JSON document"@,
                MetadataError::MissingField => "Invalid metadata: missing field"@,
                MetadataError::UnsupportedVersion => "Invalid metadata: unsupported version"@,
                MetadataError::UnsupportedTarget => "Invalid metadata: unsupported target kind"@,
            },
    {
        match self {
            MetadataError::Malformed => "Invalid metadata: not a JSON document",
            MetadataError::MissingField => "Invalid metadata: missing field",
            MetadataError::UnsupportedVersion => "Invalid metadata: unsupported version",
            MetadataError::UnsupportedTarget => "Invalid metadata: unsupported target kind",
        }
    }
}

/// The format version of the metadata document that is understood.
pub const SUPPORTED_VERSION: u64 = 1;

/// `serde_json::Value`, a parsed JSON value. Nothing inside it is visible
/// here; it is only carried from the parser to the copy into plain data.
#[verifier::external_type_specification]
#[verifier::external_body]
pub struct ExValue(serde_json::Value);

/// `serde_json::Error`, the reason for which a text was refused. Nothing
/// inside it is visible here.
#[verifier::external_type_specification]
#[verifier::external_body]
pub struct ExError(serde_json::Error);

/// The value that the JSON text `text` denotes, as plain data; none where
/// `text` is not one well-formed JSON value.
pub uninterp spec fn json_document(text: Seq<char>) -> Option<Json>;

/// What a parsed JSON value holds, as plain data.
pub uninterp spec fn value_content(value: serde_json::Value) -> Json;

/// Calls `serde_json::from_str` for a `serde_json::Value`. Nothing is proved
/// of it: the contract only gives the outcome its name, the value where the
/// text is accepted and none where it is refused.
#[verifier::external_body]
fn parse_value(text: &str) -> (parsed: Result<serde_json::Value, serde_json::Error>)
    ensures
        match parsed {
            Ok(value) => json_document(text@) == Some(value_content(value)),
            Err(_) => json_document(text@) is None,
        },
{
    serde_json::from_str::<serde_json::Value>(text)
}

/// Copies a `serde_json::Value` into plain data, variant by variant; a number
/// is read with `serde_json::Number::as_u64`, an object's members are taken
/// in the order of `serde_json::Map::iter`. Nothing is proved of it: the
/// contract only gives the copy its name.
#[verifier::external_body]
fn json_from(value: &serde_json::Value) -> (json: Json)
    ensures
        json == value_content(*value),
{
    match value {
        serde_json::Value::Null => Json::Null,
        serde_json::Value::Bool(flag) => Json::Bool(*flag),
        serde_json::Value::Number(number) => Json::Number(number.as_u64()),
        serde_json::Value::String(text) => Json::Text(text.clone()),
        serde_json::Value::Array(items) => Json::Array(items.iter().map(json_from).collect()),
        serde_json::Value::Object(members) => Json::Object(
            members.iter().map(|(key, item)| (key.clone(), json_from(item))).collect(),
        ),
    }
}

/// Reads a JSON text into plain data.
pub fn parse(text: &str) -> (parsed: Option<Json>)
    ensures
        parsed == json_document(text@),
{
    match parse_value(text) {
        Ok(value) => Some(json_from(&value)),
        Err(_) => None,
    }
}

/// The value of the last member of `members` with the key `key`.
pub open spec fn member_of(members: Seq<(String, Json)>, key: Seq<char>) -> Option<Json>
    decreases members.len(),
{
    if members.len() == 0 {
        None
    } else if members.last().0@ == key {
        Some(members.last().1)
    } else {
        member_of(members.drop_last(), key)
    }
}

/// The member `key` of the object `json`; none where `json` is no object or
/// has no such member.
pub open spec fn field_of(json: Json, key: Seq<char>) -> Option<Json> {
    match json {
        Json::Object(members) => member_of(members@, key),
        _ => None,
    }
}

/// The text of the member `key` of the object `json`.
pub open spec fn text_field_of(json: Json, key: Seq<char>) -> Option<Seq<char>> {
    match field_of(json, key) {
        Some(Json::Text(text)) => Some(text@),
        _ => None,
    }
}

/// The items of the member `key` of the object `json`.
pub open spec fn array_field_of(json: Json, key: Seq<char>) -> Option<Seq<Json>> {
    match field_of(json, key) {
        Some(Json::Array(items)) => Some(items@),
        _ => None,
    }
}

/// The kind that a name of the metadata format stands for.
pub open spec fn kind_named(name: Seq<char>) -> Option<Kind> {
    if name == "bin"@ {
        Some(Kind::Binary)
    } else if name == "example"@ {
        Some(Kind::Example)
    } else if name == "bench"@ {
        Some(Kind::Bench)
    } else if name == "lib"@ {
        Some(Kind::Library)
    } else if name == "proc-macro"@ {
        Some(Kind::ProcMacro)
    } else if name == "dylib"@ {
        Some(Kind::DyLib)
    } else if name == "cdylib"@ {
        Some(Kind::CDyLib)
    } else if name == "staticlib"@ {
        Some(Kind::StaticLib)
    } else if name == "rlib"@ {
        Some(Kind::RLib)
    } else if name == "test"@ {
        Some(Kind::Test)
    } else if name == "custom-build"@ {
        Some(Kind::CustomBuild)
    } else {
        None
    }
}

/// The crate type that a name of the metadata format stands for.
pub open spec fn crate_type_named(name: Seq<char>) -> Option<CrateType> {
    if name == "bin"@ {
        Some(CrateType::Binary)
    } else if name == "lib"@ {
        Some(CrateType::Library)
    } else if name == "proc-macro"@ {
        Some(CrateType::ProcMacro)
    } else if name == "dylib"@ {
        Some(CrateType::DyLib)
    } else if name == "cdylib"@ {
        Some(CrateType::CDyLib)
    } else if name == "staticlib"@ {
        Some(CrateType::StaticLib)
    } else if name == "rlib"@ {
        Some(CrateType::RLib)
    } else {
        None
    }
}

/// The kind that the JSON value `json` stands for.
pub open spec fn kind_of(json: Json) -> Option<Kind> {
    match json {
        Json::Text(name) => kind_named(name@),
        _ => None,
    }
}

/// The crate type that the JSON value `json` stands for.
pub open spec fn crate_type_of(json: Json) -> Option<CrateType> {
    match json {
        Json::Text(name) => crate_type_named(name@),
        _ => None,
    }
}

/// The kinds that `items` stand for, in order; none where one item stands
/// for no kind.
pub open spec fn kinds_of(items: Seq<Json>) -> Option<Seq<Kind>> {
    if forall|i: int| 0 <= i < items.len() ==> (#[trigger] kind_of(items[i])) is Some {
        Some(Seq::new(items.len(), |i: int| kind_of(items[i])->Some_0))
    } else {
        None
    }
}

/// The crate types that `items` stand for, in order; none where one item
/// stands for no crate type.
pub open spec fn crate_types_of(items: Seq<Json>) -> Option<Seq<CrateType>> {
    if forall|i: int| 0 <= i < items.len() ==> (#[trigger] crate_type_of(items[i])) is Some {
        Some(Seq::new(items.len(), |i: int| crate_type_of(items[i])->Some_0))
    } else {
        None
    }
}

/// The target that the JSON value `json` describes: an object with the text
/// `name` and the arrays `crate_types` and `kind`.
pub open spec fn target_of(json: Json) -> Option<PackageTargetView> {
    match (
        text_field_of(json, "name"@),
        array_field_of(json, "crate_types"@),
        array_field_of(json, "kind"@),
    ) {
        (Some(name), Some(crate_types), Some(kinds)) => match (
            crate_types_of(crate_types),
            kinds_of(kinds),
        ) {
            (Some(crate_types), Some(kind)) => Some(
                PackageTargetView { name, crate_types, kind },
            ),
            _ => None,
        },
        _ => None,
    }
}

/// The targets that `items` describe, in order; none where one item
/// describes no target.
pub open spec fn targets_of(items: Seq<Json>) -> Option<Seq<PackageTargetView>> {
    if forall|i: int| 0 <= i < items.len() ==> (#[trigger] target_of(items[i])) is Some {
        Some(Seq::new(items.len(), |i: int| target_of(items[i])->Some_0))
    } else {
        None
    }
}

/// The package that the JSON value `json` describes: an object with the text
/// `manifest_path` and the array `targets`.
pub open spec fn package_of(json: Json) -> Option<PackageView> {
    match (text_field_of(json, "manifest_path"@), array_field_of(json, "targets"@)) {
        (Some(manifest_path), Some(targets)) => match targets_of(targets) {
            Some(targets) => Some(PackageView { manifest_path, targets }),
            None => None,
        },
        _ => None,
    }
}

/// The packages that `items` describe, in order; none where one item
/// describes no package.
pub open spec fn packages_of(items: Seq<Json>) -> Option<Seq<PackageView>> {
    if forall|i: int| 0 <= i < items.len() ==> (#[trigger] package_of(items[i])) is Some {
        Some(Seq::new(items.len(), |i: int| package_of(items[i])->Some_0))
    } else {
        None
    }
}

/// The metadata that the JSON value `json` describes: an object with the
/// number `version`, which is the supported one, the text `target_directory`
/// and the array `packages`. The version is looked at first.
pub open spec fn metadata_of(json: Json) -> Result<MetadataView, MetadataError> {
    match field_of(json, "version"@) {
        Some(Json::Number(version)) => if version != Some(SUPPORTED_VERSION) {
            Err(MetadataError::UnsupportedVersion)
        } else {
            match (text_field_of(json, "target_directory"@), array_field_of(json, "packages"@)) {
                (Some(target_directory), Some(packages)) => match packages_of(packages) {
                    Some(packages) => Ok(MetadataView { packages, target_directory }),
                    None => Err(MetadataError::MissingField),
                },
                _ => Err(MetadataError::MissingField),
            }
        },
        _ => Err(MetadataError::MissingField),
    }
}

/// The metadata that the JSON text `text` describes.
pub open spec fn metadata_in(text: Seq<char>) -> Result<MetadataView, MetadataError> {
    match json_document(text) {
        Some(json) => metadata_of(json),
        None => Err(MetadataError::Malformed),
    }
}

/// Looks up the member `key` of the object `json`.
pub fn field<'a>(json: &'a Json, key: &str) -> (found: Option<&'a Json>)
    ensures
        match found {
            Some(value) => field_of(*json, key@) == Some(*value),
            None => field_of(*json, key@) is None,
        },
{
    match json {
        Json::Object(members) => {
            let mut i: usize = members.len();
            assert(members@.take(i as int) =~= members@);
            while i > 0
                invariant
                    i <= members.len(),
                    field_of(*json, key@) == member_of(members@, key@),
                    member_of(members@, key@) == member_of(members@.take(i as int), key@),
                decreases i,
            {
                proof {
                    let upto = members@.take(i as int);
                    assert(upto.last() == members@[i - 1]);
                    assert(upto.drop_last() =~= members@.take(i - 1));
                }
                let entry = &members[i - 1];
                if same_text(entry.0.as_str(), key) {
                    assert(member_of(members@.take(i as int), key@) == Some(entry.1));
                    return Some(&entry.1);
                }
                i -= 1;
            }
            None
        },
        _ => None,
    }
}

/// Reads the text of the member `key` of the object `json`.
pub fn text_field(json: &Json, key: &str) -> (found: Option<String>)
    ensures
        match found {
            Some(text) => text_field_of(*json, key@) == Some(text@),
            None => text_field_of(*json, key@) is None,
        },
{
    match field(json, key) {
        Some(Json::Text(text)) => Some(text.clone()),
        _ => None,
    }
}

/// Looks up the items of the member `key` of the object `json`.
pub fn array_field<'a>(json: &'a Json, key: &str) -> (found: Option<&'a Vec<Json>>)
    ensures
        match found {
            Some(items) => array_field_of(*json, key@) == Some(items@),
            None => array_field_of(*json, key@) is None,
        },
{
    match field(json, key) {
        Some(Json::Array(items)) => Some(items),
        _ => None,
    }
}

/// Reads the kind that `name` stands for.
pub fn kind_from_name(name: &str) -> (kind: Option<Kind>)
    ensures
        kind == kind_named(name@),
{
    if same_text(name, "bin") {
        Some(Kind::Binary)
    } else if same_text(name, "example") {
        Some(Kind::Example)
    } else if same_text(name, "bench") {
        Some(Kind::Bench)
    } else if same_text(name, "lib") {
        Some(Kind::Library)
    } else if same_text(name, "proc-macro") {
        Some(Kind::ProcMacro)
    } else if same_text(name, "dylib") {
        Some(Kind::DyLib)
    } else if same_text(name, "cdylib") {
        Some(Kind::CDyLib)
    } else if same_text(name, "staticlib") {
        Some(Kind::StaticLib)
    } else if same_text(name, "rlib") {
        Some(Kind::RLib)
    } else if same_text(name, "test") {
        Some(Kind::Test)
    } else if same_text(name, "custom-build") {
        Some(Kind::CustomBuild)
    } else {
        None
    }
}

/// Reads the crate type that `name` stands for.
pub fn crate_type_from_name(name: &str) -> (crate_type: Option<CrateType>)
    ensures
        crate_type == crate_type_named(name@),
{
    if same_text(name, "bin") {
        Some(CrateType::Binary)
    } else if same_text(name, "lib") {
        Some(CrateType::Library)
    } else if same_text(name, "proc-macro") {
        Some(CrateType::ProcMacro)
    } else if same_text(name, "dylib") {
        Some(CrateType::DyLib)
    } else if same_text(name, "cdylib") {
        Some(CrateType::CDyLib)
    } else if same_text(name, "staticlib") {
        Some(CrateType::StaticLib)
    } else if same_text(name, "rlib") {
        Some(CrateType::RLib)
    } else {
        None
    }
}

/// Reads the kinds that `items` stand for.
fn kinds_from(items: &Vec<Json>) -> (kinds: Option<Vec<Kind>>)
    ensures
        match kinds {
            Some(kinds) => kinds_of(items@) == Some(kinds@),
            None => kinds_of(items@) is None,
        },
{
    let mut kinds: Vec<Kind> = Vec::new();
    let mut i: usize = 0;
    while i < items.len()
        invariant
            i <= items.len(),
            kinds@.len() == i,
            forall|j: int|
                0 <= j < i ==> (#[trigger] kind_of(items@[j])) == Some(kinds@[j]),
        decreases items.len() - i,
    {
        let kind = match &items[i] {
            Json::Text(name) => kind_from_name(name.as_str()),
            _ => None,
        };
        assert(kind == kind_of(items@[i as int]));
        match kind {
            Some(kind) => kinds.push(kind),
            None => {
                return None;
            },
        }
        i += 1;
    }
    assert(kinds@ =~= Seq::new(items@.len(), |i: int| kind_of(items@[i])->Some_0));
    Some(kinds)
}

/// Reads the crate types that `items` stand for.
fn crate_types_from(items: &Vec<Json>) -> (crate_types: Option<Vec<CrateType>>)
    ensures
        match crate_types {
            Some(crate_types) => crate_types_of(items@) == Some(crate_types@),
            None => crate_types_of(items@) is None,
        },
{
    let mut crate_types: Vec<CrateType> = Vec::new();
    let mut i: usize = 0;
    while i < items.len()
        invariant
            i <= items.len(),
            crate_types@.len() == i,
            forall|j: int|
                0 <= j < i ==> (#[trigger] crate_type_of(items@[j])) == Some(crate_types@[j]),
        decreases items.len() - i,
    {
        let crate_type = match &items[i] {
            Json::Text(name) => crate_type_from_name(name.as_str()),
            _ => None,
        };
        assert(crate_type == crate_type_of(items@[i as int]));
        match crate_type {
            Some(crate_type) => crate_types.push(crate_type),
            None => {
                return None;
            },
        }
        i += 1;
    }
    assert(crate_types@ =~= Seq::new(
        items@.len(),
        |i: int| crate_type_of(items@[i])->Some_0,
    ));
    Some(crate_types)
}

/// Reads the target that `json` describes.
pub fn target_from(json: &Json) -> (target: Option<PackageTarget>)
    ensures
        match target {
            Some(target) => target_of(*json) == Some(target@),
            None => target_of(*json) is None,
        },
{
    let name = match text_field(json, "name") {
        Some(name) => name,
        None => {
            return None;
        },
    };
    let crate_types = match array_field(json, "crate_types") {
        Some(items) => items,
        None => {
            return None;
        },
    };
    let kinds = match array_field(json, "kind") {
        Some(items) => items,
        None => {
            return None;
        },
    };
    let crate_types = match crate_types_from(crate_types) {
        Some(crate_types) => crate_types,
        None => {
            return None;
        },
    };
    let kind = match kinds_from(kinds) {
        Some(kind) => kind,
        None => {
            return None;
        },
    };
    Some(PackageTarget { name, crate_types, kind })
}

/// Reads the targets that `items` describe.
fn targets_from(items: &Vec<Json>) -> (targets: Option<Vec<PackageTarget>>)
    ensures
        match targets {
            Some(targets) => targets_of(items@) == Some(
                Seq::new(targets@.len(), |i: int| targets@[i]@),
            ),
            None => targets_of(items@) is None,
        },
{
    let mut targets: Vec<PackageTarget> = Vec::new();
    let mut i: usize = 0;
    while i < items.len()
        invariant
            i <= items.len(),
            targets@.len() == i,
            forall|j: int|
                0 <= j < i ==> (#[trigger] target_of(items@[j])) == Some(targets@[j]@),
        decreases items.len() - i,
    {
        match target_from(&items[i]) {
            Some(target) => targets.push(target),
            None => {
                return None;
            },
        }
        i += 1;
    }
    assert(Seq::new(targets@.len(), |i: int| targets@[i]@) =~= Seq::new(
        items@.len(),
        |i: int| target_of(items@[i])->Some_0,
    ));
    Some(targets)
}

/// Reads the package that `json` describes.
pub fn package_from(json: &Json) -> (package: Option<Package>)
    ensures
        match package {
            Some(package) => package_of(*json) == Some(package@),
            None => package_of(*json) is None,
        },
{
    let manifest_path = match text_field(json, "manifest_path") {
        Some(path) => path,
        None => {
            return None;
        },
    };
    let items = match array_field(json, "targets") {
        Some(items) => items,
        None => {
            return None;
        },
    };
    match targets_from(items) {
        Some(targets) => Some(Package { manifest_path, targets }),
        None => None,
    }
}

/// Reads the packages that `items` describe.
fn packages_from(items: &Vec<Json>) -> (packages: Option<Vec<Package>>)
    ensures
        match packages {
            Some(packages) => packages_of(items@) == Some(
                Seq::new(packages@.len(), |i: int| packages@[i]@),
            ),
            None => packages_of(items@) is None,
        },
{
    let mut packages: Vec<Package> = Vec::new();
    let mut i: usize = 0;
    while i < items.len()
        invariant
            i <= items.len(),
            packages@.len() == i,
            forall|j: int|
                0 <= j < i ==> (#[trigger] package_of(items@[j])) == Some(packages@[j]@),
        decreases items.len() - i,
    {
        match package_from(&items[i]) {
            Some(package) => packages.push(package),
            None => {
                return None;
            },
        }
        i += 1;
    }
    assert(Seq::new(packages@.len(), |i: int| packages@[i]@) =~= Seq::new(
        items@.len(),
        |i: int| package_of(items@[i])->Some_0,
    ));
    Some(packages)
}

/// The view of the outcome of reading metadata.
pub open spec fn read_view(outcome: Result<Metadata, MetadataError>) -> Result<
    MetadataView,
    MetadataError,
> {
    match outcome {
        Ok(metadata) => Ok(metadata@),
        Err(error) => Err(error),
    }
}

/// Reads the metadata that the JSON value `json` describes. Nothing is
/// given where a part is refused.
pub fn metadata_from(json: &Json) -> (outcome: Result<Metadata, MetadataError>)
    ensures
        read_view(outcome) == metadata_of(*json),
{
    match field(json, "version") {
        Some(Json::Number(version)) => {
            match version {
                Some(number) => {
                    if *number != SUPPORTED_VERSION {
                        return Err(MetadataError::UnsupportedVersion);
                    }
                },
                None => {
                    return Err(MetadataError::UnsupportedVersion);
                },
            }
        },
        _ => {
            return Err(MetadataError::MissingField);
        },
    }
    let target_directory = match text_field(json, "target_directory") {
        Some(path) => path,
        None => {
            return Err(MetadataError::MissingField);
        },
    };
    let items = match array_field(json, "packages") {
        Some(items) => items,
        None => {
            return Err(MetadataError::MissingField);
        },
    };
    match packages_from(items) {
        Some(packages) => Ok(Metadata { packages, target_directory }),
        None => Err(MetadataError::MissingField),
    }
}

/// Reads the metadata that the JSON text `document` describes.
pub fn metadata(document: &str) -> (outcome: Result<Metadata, MetadataError>)
    ensures
        read_view(outcome) == metadata_in(document@),
{
    match parse(document) {
        Some(json) => metadata_from(&json),
        None => Err(MetadataError::Malformed),
    }
}

} // verus!
