//! The boundary contracts: the backend capability the engine consumes and
//! the rendering capability the callers consume, with the use case that
//! ties a provider to its callers.

use vstd::prelude::*;

use crate::domain::LineHistory;
use crate::domain::SortOrder;
use crate::errors::HistoryError;

verus! {

/// A read-only source of line histories. The library's callers supply the
/// backend — a repository adapter, or a stub in tests — as an
/// implementation of this trait.
pub trait LineHistoryProvider {
    fn get_line_history(
        &self,
        file_path: &str,
        line_number: u32,
        sort_order: SortOrder,
        ignore_revs: &Vec<String>,
        since: Option<&str>,
        until: Option<&str>,
    ) -> Result<LineHistory, HistoryError>;
}

/// Renders a history to text. Implementations must not fail: an internal
/// rendering problem falls back to a fixed placeholder string.
pub trait OutputFormatter {
    fn format(&self, history: &LineHistory) -> String;
}

/// The application-facing entry point: it owns a provider and forwards
/// queries to it.
pub struct LineHistoryUseCase<P: LineHistoryProvider> {
    provider: P,
}

impl<P: LineHistoryProvider> LineHistoryUseCase<P> {
    /// The provider this use case owns.
    pub closed spec fn prov(&self) -> P {
        self.provider
    }

    /// Wraps a provider.
    pub fn new(provider: P) -> (r: Self)
        ensures
            r.prov() == provider,
    {
        Self { provider }
    }

    /// Queries the provider for the history of one line: one call to the
    /// owned provider, with exactly the caller's arguments, whose result —
    /// `Ok` or `Err` alike — is handed back unchanged.
    pub fn get_line_history(
        &self,
        file_path: &str,
        line_number: u32,
        sort_order: SortOrder,
        ignore_revs: &Vec<String>,
        since: Option<&str>,
        until: Option<&str>,
    ) -> (r: Result<LineHistory, HistoryError>)
        ensures
            call_ensures(
                P::get_line_history,
                (&self.prov(), file_path, line_number, sort_order, ignore_revs, since, until),
                r,
            ),
    {
        self.provider.get_line_history(
            file_path,
            line_number,
            sort_order,
            ignore_revs,
            since,
            until,
        )
    }
}

} // verus!
