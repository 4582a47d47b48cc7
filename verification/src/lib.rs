//! Line-history tracing for version-controlled files.
//!
//! The engine walks a stream of commit facts, filters them by ignore lists
//! and date bounds, keeps the commits relevant to one file, classifies each
//! as a creation or a modification, and returns them in a chronological
//! order chosen by the caller.

pub mod cli;
pub mod colored;
pub mod dates;
pub mod domain;
pub mod engine;
pub mod errors;
pub mod json;
pub mod laws;
pub mod policy;
pub mod render;
pub mod sorting;
pub mod strutil;
pub mod table;
pub mod yaml;

pub use cli::Cli;
pub use cli::CliError;
pub use cli::Format;
pub use colored::ColoredFormatter;
pub use dates::parse_date;
pub use domain::ChangeType;
pub use domain::LineEntry;
pub use domain::LineHistory;
pub use domain::SortOrder;
pub use engine::extract_history;
pub use engine::CommitRecord;
pub use errors::HistoryError;
pub use json::JsonFormatter;
pub use policy::LineHistoryProvider;
pub use policy::LineHistoryUseCase;
pub use policy::OutputFormatter;
pub use table::TableFormatter;
pub use yaml::YamlFormatter;
