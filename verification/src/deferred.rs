//! Deferred values: the suspend-until-ready cells that route data embeds.
//!
//! A deferred value starts `Pending` and moves exactly once to `Ready` or
//! `Failed`; it never reverts. Each one is owned by the route entry that
//! created it; when that entry exits the active chain the cell is marked
//! cancelled, after which a late resolution is discarded.

use vstd::prelude::*;
use crate::comments::Comment;

verus! {

/// Why a deferred value failed to produce its payload.
#[derive(Clone, Copy, Debug, PartialEq, Eq, Structural)]
pub enum LoadError {
    /// The HTTP fetch collaborator reported an error.
    FetchFailed,
    /// The deserialization collaborator could not parse the fetched text.
    DeserializeFailed,
}

/// What a successfully resolved deferred value holds.
#[derive(Clone, Debug)]
pub enum DataPayload {
    /// Plain fetched text, shown as-is.
    Text(String),
    /// A parsed comment list.
    Comments(Vec<Comment>),
}

/// The state of one deferred value: `Pending` until resolution, then
/// terminally `Ready` or `Failed`.
#[derive(Clone, Debug)]
pub enum DeferredState {
    Pending,
    Ready(DataPayload),
    Failed(LoadError),
}

/// One deferred-value cell in the router's slot table.
#[derive(Clone, Debug)]
pub struct DeferredSlot {
    pub state: DeferredState,
    /// Set when the owning route entry exits the active chain; a cancelled
    /// cell accepts no further observable effect.
    pub cancelled: bool,
    /// True when a successful fetch must still pass through the
    /// deserialization step before the cell becomes `Ready`.
    pub parse_step: bool,
}

impl DeferredSlot {
    /// A freshly created pending cell.
    pub open spec fn spec_pending(parse_step: bool) -> DeferredSlot {
        DeferredSlot { state: DeferredState::Pending, cancelled: false, parse_step }
    }

    pub fn pending(parse_step: bool) -> (r: DeferredSlot)
        ensures
            r == DeferredSlot::spec_pending(parse_step),
    {
        DeferredSlot { state: DeferredState::Pending, cancelled: false, parse_step }
    }
}

/// The data value a matched route owns for one navigation: at most one
/// deferred cell, identified by its index in the router's slot table.
#[derive(Clone, Debug)]
pub struct RouteData {
    pub deferred: Option<usize>,
}

} // verus!
