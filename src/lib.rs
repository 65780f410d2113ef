//! Daily work reports kept in one directory: a report per day made from a
//! template, and copies of the dated reports filed under `Archive/YYYY/MM`.
//!
//! The library decides; the caller touches the disk. Each operation looks at
//! plain values (which files exist, what two files hold) and returns the
//! filesystem steps to perform, as `FsOp` values.

pub mod date;
pub mod digest;
pub mod generator;
pub mod laws;
pub mod model;
pub mod naming;
pub mod text;

pub use text::{file_name_of, join_path};
pub use naming::{generate_partial_path_for_archive_dir, is_dated_report_name, ArchiveError};
pub use model::{listed, FsOp};
pub use digest::{digests_differ, updated};
pub use date::stamp_of;
pub use generator::WorkReportGenerator;
