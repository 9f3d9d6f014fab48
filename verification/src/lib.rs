//! Target resolution and leak reporting for running a workspace's executables
//! under a memory-analysis tool.
//!
//! The crate reads the build metadata of a workspace, resolves which
//! executable of a package is to be built and analysed, reads the report of
//! the analysis tool into leak records, and tells which stage of a run
//! follows which. Every function is stated over mathematical views of its
//! data.

pub mod display;
pub mod document;
pub mod metadata;
pub mod path;
pub mod profile;
pub mod report;
pub mod run;
pub mod scan;
pub mod source;
pub mod target;

pub use display::{decimal, describe, lines};
pub use document::{metadata, metadata_from, Json, MetadataError};
pub use metadata::{CrateType, Kind, Metadata, Package, PackageTarget};
pub use profile::{build_type, Build};
pub use report::{parse_report, report_from, Frame, Leak, LeakEntry, ReportParseError};
pub use run::{advance, exit_code, Action, Event, Failure, Stage};
pub use source::{build_arguments, command_outcome, failure_message, metadata_arguments};
pub use target::{
    binaries, binaries_from, binaries_in, enumerate_executables, pick_one, resolve,
    specified_target, ResolveError, Target,
};
