//! The error taxonomy of the library.

use vstd::prelude::*;

verus! {

/// Why a query failed. Each variant carries the value it complains about.
#[derive(Debug, Clone, PartialEq)]
pub enum HistoryError {
    /// The given path is not a repository.
    RepositoryNotFound(String),
    /// The repository has no reachable history.
    RepositoryEmpty,
    /// The queried file is absent from the head tree and no commit touched
    /// it.
    FileNotFound(String),
    /// A `since`/`until` bound matched none of the supported date formats.
    InvalidDateFormat(String),
    /// An unexpected read failure from the backend.
    BackendIo(String),
}

/// The text of each error, as the program prints it.
pub open spec fn error_message_spec(e: HistoryError) -> Seq<char> {
    match e {
        HistoryError::RepositoryNotFound(p) => "Repository not found: "@ + p@,
        HistoryError::RepositoryEmpty => "Repository has no reachable history"@,
        HistoryError::FileNotFound(p) => "File not found in repository: "@ + p@,
        HistoryError::InvalidDateFormat(d) => "Unable to parse date '"@ + d@
            + "'. Supported formats: ISO 8601 (YYYY-MM-DDTHH:MM:SSZ), RFC 2822, YYYY-MM-DD, YYYY-MM-DD HH:MM:SS"@,
        HistoryError::BackendIo(m) => "Backend error: "@ + m@,
    }
}

impl HistoryError {
    /// A human-readable description of the failure.
    pub fn message(&self) -> (r: String)
        ensures
            r@ == error_message_spec(*self),
    {
        match self {
            HistoryError::RepositoryNotFound(p) => {
                let mut s = String::from_str("Repository not found: ");
                s.append(p.as_str());
                s
            },
            HistoryError::RepositoryEmpty => String::from_str(
                "Repository has no reachable history",
            ),
            HistoryError::FileNotFound(p) => {
                let mut s = String::from_str("File not found in repository: ");
                s.append(p.as_str());
                s
            },
            HistoryError::InvalidDateFormat(d) => {
                let mut s = String::from_str("Unable to parse date '");
                s.append(d.as_str());
                s.append(
                    "'. Supported formats: ISO 8601 (YYYY-MM-DDTHH:MM:SSZ), RFC 2822, YYYY-MM-DD, YYYY-MM-DD HH:MM:SS",
                );
                s
            },
            HistoryError::BackendIo(m) => {
                let mut s = String::from_str("Backend error: ");
                s.append(m.as_str());
                s
            },
        }
    }
}

} // verus!
