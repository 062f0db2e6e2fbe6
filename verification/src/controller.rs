//! Per-document cancellation: a restartable scope that invalidates stale
//! in-flight request groups.

use vstd::prelude::*;

verus! {

/// Lightweight handle tied to one generation of a document's cancellation
/// scope. A task holding a handle from a superseded generation observes
/// invalidation the next time it checks.
#[derive(Debug, Clone, Copy, PartialEq, Eq, Structural)]
pub struct CancelHandle {
    pub generation: u64,
}

/// Restartable cancellation scope bound to one document: a generation counter
/// plus a validity flag for the current generation. Cancellation is
/// cooperative: running tasks check their handle at each suspension point and
/// stop silently on invalidation.
#[derive(Debug, Clone, Copy, PartialEq, Eq, Structural)]
pub struct PullDiagnosticController {
    pub generation: u64,
    pub active: bool,
}

impl PullDiagnosticController {
    pub fn new() -> (r: PullDiagnosticController)
        ensures
            r.generation == 0,
            !r.active,
    {
        PullDiagnosticController { generation: 0, active: false }
    }

    /// True when the scope that issued `handle` is no longer the live one:
    /// either a later generation was opened, or the current one was cancelled.
    pub open spec fn spec_is_cancelled(&self, handle: CancelHandle) -> bool {
        !(self.active && handle.generation == self.generation)
    }

    pub fn is_cancelled(&self, handle: &CancelHandle) -> (r: bool)
        ensures
            r == self.spec_is_cancelled(*handle),
    {
        !(self.active && handle.generation == self.generation)
    }

    /// Invalidates the current generation and opens a fresh one, returning a
    /// handle tied to it. Every handle issued before this call is invalid
    /// afterwards: at most one live request group exists per document.
    pub fn restart(&mut self) -> (handle: CancelHandle)
        requires
            old(self).generation < u64::MAX,
        ensures
            final(self).generation == old(self).generation + 1,
            final(self).active,
            handle.generation == final(self).generation,
            !final(self).spec_is_cancelled(handle),
            forall|h: CancelHandle|
                h.generation <= old(self).generation ==> final(self).spec_is_cancelled(h),
    {
        self.generation = self.generation + 1;
        self.active = true;
        CancelHandle { generation: self.generation }
    }

    /// Invalidates the current generation without opening a new one: until the
    /// next restart, no handle is live for this document.
    pub fn cancel(&mut self)
        ensures
            final(self).generation == old(self).generation,
            !final(self).active,
            forall|h: CancelHandle| final(self).spec_is_cancelled(h),
    {
        self.active = false;
    }
}

} // verus!
