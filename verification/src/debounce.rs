//! Debounced schedulers: one coalescing rapid edits on individual documents,
//! one coalescing a periodic sweep across all open documents.
//!
//! Each handler is the decision half of a debounce loop. The surrounding
//! runtime owns the timer: it hands each event to `handle_event` together
//! with the current time and arms (or re-arms) its timer at the returned
//! deadline; when the deadline passes without a further event it calls
//! `finish_debounce` and issues the returned requests.

use vstd::prelude::*;
use crate::diagnostic::DocumentId;

verus! {

/// Debounce delay for per-document re-requests, in milliseconds.
pub const PULL_DEBOUNCE_MILLIS: u64 = 250;

/// Debounce delay for the global sweep, in milliseconds.
pub const SWEEP_DEBOUNCE_MILLIS: u64 = 1000;

/// One order for the orchestrator: pull diagnostics for `document_id`,
/// restricting to inter-file-dependent providers when `sweep_mode` is set.
#[derive(Debug, Clone, Copy, PartialEq, Eq, Structural)]
pub struct PullRequest {
    pub document_id: DocumentId,
    pub sweep_mode: bool,
}

/// Coalesces rapid edits on individual documents: collects the edited
/// document ids and keeps pushing one shared deadline out while edits arrive.
#[derive(Debug)]
pub struct PullDiagnosticsHandler {
    pub document_ids: Vec<DocumentId>,
}

impl PullDiagnosticsHandler {
    /// No two collected ids are the same document.
    pub open spec fn wf(&self) -> bool {
        forall|i: int, j: int|
            0 <= i < j < self.document_ids@.len() ==> self.document_ids@[i] != self.document_ids@[j]
    }

    pub fn new() -> (r: PullDiagnosticsHandler)
        ensures
            r.document_ids@.len() == 0,
            r.wf(),
    {
        PullDiagnosticsHandler { document_ids: Vec::new() }
    }

    /// Records one qualifying edit: inserts the document into the pending set
    /// and returns the re-armed deadline, replacing any earlier one.
    pub fn handle_event(&mut self, document_id: DocumentId, now_millis: u64) -> (deadline: u64)
        requires
            old(self).wf(),
            now_millis + PULL_DEBOUNCE_MILLIS <= u64::MAX,
        ensures
            final(self).wf(),
            deadline == now_millis + PULL_DEBOUNCE_MILLIS,
            final(self).document_ids@.contains(document_id),
            forall|d: DocumentId|
                final(self).document_ids@.contains(d) == (old(self).document_ids@.contains(d)
                    || d == document_id),
    {
        let mut present = false;
        let mut i: usize = 0;
        while i < self.document_ids.len()
            invariant
                i <= self.document_ids@.len(),
                present == exists|j: int| 0 <= j < i && self.document_ids@[j] == document_id,
            decreases self.document_ids@.len() - i,
        {
            if self.document_ids[i].value == document_id.value {
                present = true;
            }
            i = i + 1;
        }
        if !present {
            self.document_ids.push(document_id);
            proof {
                broadcast use vstd::seq_lib::lemma_seq_contains_after_push;

                assert(self.document_ids@ == old(self).document_ids@.push(document_id));
            }
        }
        now_millis + PULL_DEBOUNCE_MILLIS
    }

    /// Flushes the pending set on deadline expiry: one non-sweep request per
    /// collected document, and the set is cleared.
    pub fn finish_debounce(&mut self) -> (requests: Vec<PullRequest>)
        ensures
            final(self).document_ids@.len() == 0,
            final(self).wf(),
            requests@.len() == old(self).document_ids@.len(),
            forall|i: int|
                0 <= i < requests@.len() ==> requests@[i] == (PullRequest {
                    document_id: old(self).document_ids@[i],
                    sweep_mode: false,
                }),
    {
        let mut requests: Vec<PullRequest> = Vec::new();
        let mut i: usize = 0;
        while i < self.document_ids.len()
            invariant
                i <= self.document_ids@.len(),
                self.document_ids@ == old(self).document_ids@,
                requests@.len() == i,
                forall|j: int|
                    0 <= j < i ==> requests@[j] == (PullRequest {
                        document_id: old(self).document_ids@[j],
                        sweep_mode: false,
                    }),
            decreases self.document_ids@.len() - i,
        {
            let document_id = self.document_ids[i];
            requests.push(PullRequest { document_id, sweep_mode: false });
            i = i + 1;
        }
        self.document_ids = Vec::new();
        requests
    }
}

/// Coalesces the periodic global sweep: any qualifying edit re-arms one
/// shared deadline; no payload is accumulated.
#[derive(Debug)]
pub struct PullAllDocumentsDiagnosticHandler {}

impl PullAllDocumentsDiagnosticHandler {
    pub fn new() -> (r: PullAllDocumentsDiagnosticHandler) {
        PullAllDocumentsDiagnosticHandler {}
    }

    /// Records one qualifying edit: returns the re-armed sweep deadline,
    /// replacing any earlier one.
    pub fn handle_event(&mut self, now_millis: u64) -> (deadline: u64)
        requires
            now_millis + SWEEP_DEBOUNCE_MILLIS <= u64::MAX,
        ensures
            deadline == now_millis + SWEEP_DEBOUNCE_MILLIS,
    {
        now_millis + SWEEP_DEBOUNCE_MILLIS
    }

    /// Flushes on deadline expiry: one sweep-mode request for every currently
    /// open document.
    pub fn finish_debounce(&mut self, open_documents: &Vec<DocumentId>) -> (requests: Vec<
        PullRequest,
    >)
        ensures
            requests@.len() == open_documents@.len(),
            forall|i: int|
                0 <= i < requests@.len() ==> requests@[i] == (PullRequest {
                    document_id: open_documents@[i],
                    sweep_mode: true,
                }),
    {
        let mut requests: Vec<PullRequest> = Vec::new();
        let mut i: usize = 0;
        while i < open_documents.len()
            invariant
                i <= open_documents@.len(),
                requests@.len() == i,
                forall|j: int|
                    0 <= j < i ==> requests@[j] == (PullRequest {
                        document_id: open_documents@[j],
                        sweep_mode: true,
                    }),
            decreases open_documents@.len() - i,
        {
            let document_id = open_documents[i];
            requests.push(PullRequest { document_id, sweep_mode: true });
            i = i + 1;
        }
        requests
    }
}

} // verus!
