//! Where a finished task's result goes: a content read to the extension that
//! asked for it, a search result of a Select that is gone nowhere, everything
//! else to the reducer. And which purposes run one task at a time.

use vstd::prelude::*;
use crate::event::{AsyncResult, AsyncStatus, Payload, Purpose, ReadResult};
use crate::mode::Mode;
use crate::state::AppState;

verus! {

/// What to do with a finished task's result.
#[derive(Debug, Clone, PartialEq)]
pub enum Route {
    /// A content read: hand it to the owning extension, then reset the view.
    ToOwner { owner: String, path: String, result: ReadResult },
    /// Nothing: a failed or cancelled content read, or a stale search.
    Drop,
    /// Consume it in the reducer.
    Reduce(AsyncResult),
}

/// Whether a search result still belongs to the state: it was spawned for
/// the mode instance on top, and that is a Select.
pub open spec fn search_bound(s: AppState, r: AsyncResult) -> bool {
    &&& r.mode_generation == s.modes@.last().generation
    &&& s.modes@.last().mode is Select
}

/// The route of a result.
pub open spec fn route_spec(s: AppState, r: AsyncResult) -> Route {
    if r.purpose == Purpose::Content {
        match (r.status, r.payload) {
            (AsyncStatus::Done, Payload::Read { owner, path, result }) => Route::ToOwner { owner, path, result },
            _ => Route::Drop,
        }
    } else if r.purpose == Purpose::Search && !search_bound(s, r) {
        Route::Drop
    } else {
        Route::Reduce(r)
    }
}

/// Route a finished task's result: content reads bypass the reducer and go
/// to their owner (only when the read succeeded), a search result for a
/// Select that is no longer on top is stale and dropped, and the rest is
/// reduced.
pub fn route_result(state: &AppState, r: AsyncResult) -> (out: Route)
    requires
        state.modes@.len() >= 1,
    ensures
        out == route_spec(*state, r),
{
    match r.purpose {
        Purpose::Content => {
            match (r.status, r.payload) {
                (AsyncStatus::Done, Payload::Read { owner, path, result }) => Route::ToOwner { owner, path, result },
                _ => Route::Drop,
            }
        },
        Purpose::Search => {
            let on_top = match state.mode() {
                Mode::Select(_) => true,
                _ => false,
            };
            if r.mode_generation == state.mode_generation() && on_top {
                Route::Reduce(r)
            } else {
                Route::Drop
            }
        },
        _ => Route::Reduce(r),
    }
}

/// Purposes that run one task at a time: a new task cancels the one before.
pub fn unique_purpose(p: Purpose) -> (r: bool)
    ensures
        r == (p == Purpose::Content || p == Purpose::Search || p == Purpose::Refresh),
{
    match p {
        Purpose::Content | Purpose::Search | Purpose::Refresh => true,
        _ => false,
    }
}

} // verus!
