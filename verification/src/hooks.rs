//! Event hook bindings: reactions to editor lifecycle events, each a small
//! decision from the event to the work the surrounding runtime must perform.

use vstd::prelude::*;
use crate::controller::PullDiagnosticController;
use crate::diagnostic::DocumentId;
use crate::orchestrator::{same_documents, PullEngine};

verus! {

/// The editor input modes these hooks distinguish.
#[derive(Debug, Clone, Copy, PartialEq, Eq, Structural)]
pub enum Mode {
    Normal,
    Select,
    Insert,
}

/// One editor lifecycle event these hooks react to.
pub enum EditorEvent {
    /// A document was opened.
    DocumentDidOpen { document_id: DocumentId },
    /// A document changed; `ghost_transaction` marks a transient edit that
    /// must not trigger new requests, and `has_pull_capable_server` says
    /// whether any attached server advertises pull diagnostics.
    DocumentDidChange {
        document_id: DocumentId,
        ghost_transaction: bool,
        has_pull_capable_server: bool,
    },
    /// A language server finished initializing.
    LanguageServerInitialized,
    /// The stored diagnostics changed; `mode` is the editor's current mode.
    DiagnosticsDidChange { mode: Mode },
    /// The editor switched input modes.
    ModeSwitch { new_mode: Mode },
}

/// What a hook asks the surrounding runtime to do.
#[derive(Debug, Clone, Copy, PartialEq, Eq, Structural)]
pub enum HookAction {
    /// Run the orchestrator for this document now, without debounce.
    RequestDiagnostics { document_id: DocumentId, sweep_mode: bool },
    /// Feed this edit to both debounce aggregators.
    FeedDebounce { document_id: DocumentId },
    /// Signal every open view to refresh its rendered diagnostics.
    RefreshViews,
    /// Set every view's diagnostics-active flag.
    SetViewsActive { active: bool },
}

/// The work each lifecycle event leads to: an opened document is requested
/// immediately without debounce; a qualifying edit feeds the debounce
/// aggregators; a freshly initialized server triggers an immediate non-sweep
/// request for every open document; a diagnostics change refreshes the views
/// unless the editor is in text-entry mode; a mode switch turns the views'
/// diagnostics on exactly when leaving text-entry mode.
pub open spec fn spec_hook_actions(event: EditorEvent, open_documents: Seq<DocumentId>) -> Seq<
    HookAction,
> {
    match event {
        EditorEvent::DocumentDidOpen { document_id } => seq![
            HookAction::RequestDiagnostics { document_id, sweep_mode: false },
        ],
        EditorEvent::DocumentDidChange {
            document_id,
            ghost_transaction,
            has_pull_capable_server,
        } => {
            if has_pull_capable_server && !ghost_transaction {
                seq![HookAction::FeedDebounce { document_id }]
            } else {
                Seq::empty()
            }
        },
        EditorEvent::LanguageServerInitialized => open_documents.map_values(
            |d: DocumentId| HookAction::RequestDiagnostics { document_id: d, sweep_mode: false },
        ),
        EditorEvent::DiagnosticsDidChange { mode } => {
            if mode != Mode::Insert {
                seq![HookAction::RefreshViews]
            } else {
                Seq::empty()
            }
        },
        EditorEvent::ModeSwitch { new_mode } => seq![
            HookAction::SetViewsActive { active: new_mode != Mode::Insert },
        ],
    }
}

/// Dispatches one lifecycle event: registers newly opened documents, cancels
/// the in-flight group of an edited document before the debounce aggregators
/// are fed, and hands back the actions the runtime must perform.
pub fn handle_editor_event(
    engine: &mut PullEngine,
    event: &EditorEvent,
    open_documents: &Vec<DocumentId>,
) -> (actions: Vec<HookAction>)
    requires
        old(engine).wf(),
    ensures
        final(engine).wf(),
        final(engine).store.contents() == old(engine).store.contents(),
        actions@ == spec_hook_actions(*event, open_documents@),
        match *event {
            EditorEvent::DocumentDidOpen { document_id } => {
                &&& final(engine).spec_has_doc(document_id)
                &&& old(engine).spec_has_doc(document_id) ==> same_documents(
                    old(engine).documents@,
                    final(engine).documents@,
                )
                &&& !old(engine).spec_has_doc(document_id) ==> {
                    &&& final(engine).documents@.len() == old(engine).documents@.len() + 1
                    &&& forall|j: int|
                        0 <= j < old(engine).documents@.len() ==> final(engine).documents@[j]
                            == old(engine).documents@[j]
                    &&& final(engine).documents@.last().document_id == document_id
                    &&& final(engine).documents@.last().controller == (PullDiagnosticController {
                        generation: 0,
                        active: false,
                    })
                    &&& final(engine).documents@.last().cursors.view_map() =~= Map::<
                        (int, Option<Seq<char>>),
                        Option<Seq<char>>,
                    >::empty()
                }
            },
            EditorEvent::DocumentDidChange {
                document_id,
                ghost_transaction,
                has_pull_capable_server,
            } => {
                &&& final(engine).documents@.len() == old(engine).documents@.len()
                &&& (has_pull_capable_server && !ghost_transaction && old(engine).spec_has_doc(
                    document_id,
                )) ==> ({
                    let i = old(engine).spec_doc_index(document_id);
                    forall|h: crate::controller::CancelHandle|
                        final(engine).documents@[i].controller.spec_is_cancelled(h)
                })
                &&& !(has_pull_capable_server && !ghost_transaction) ==> same_documents(
                    old(engine).documents@,
                    final(engine).documents@,
                )
            },
            _ => same_documents(old(engine).documents@, final(engine).documents@),
        },
{
    match event {
        EditorEvent::DocumentDidOpen { document_id } => {
            engine.open_document(*document_id);
            let mut actions: Vec<HookAction> = Vec::new();
            actions.push(
                HookAction::RequestDiagnostics { document_id: *document_id, sweep_mode: false },
            );
            proof {
                assert(actions@ =~= spec_hook_actions(*event, open_documents@));
            }
            actions
        },
        EditorEvent::DocumentDidChange {
            document_id,
            ghost_transaction,
            has_pull_capable_server,
        } => {
            let mut actions: Vec<HookAction> = Vec::new();
            if *has_pull_capable_server && !*ghost_transaction {
                engine.cancel_document(*document_id);
                actions.push(HookAction::FeedDebounce { document_id: *document_id });
            }
            proof {
                assert(actions@ =~= spec_hook_actions(*event, open_documents@));
            }
            actions
        },
        EditorEvent::LanguageServerInitialized => {
            let mut actions: Vec<HookAction> = Vec::new();
            let mut i: usize = 0;
            while i < open_documents.len()
                invariant
                    i <= open_documents@.len(),
                    actions@.len() == i,
                    forall|j: int|
                        0 <= j < i ==> actions@[j] == (HookAction::RequestDiagnostics {
                            document_id: open_documents@[j],
                            sweep_mode: false,
                        }),
                decreases open_documents@.len() - i,
            {
                actions.push(
                    HookAction::RequestDiagnostics {
                        document_id: open_documents[i],
                        sweep_mode: false,
                    },
                );
                i = i + 1;
            }
            proof {
                assert(actions@ =~= spec_hook_actions(*event, open_documents@));
            }
            actions
        },
        EditorEvent::DiagnosticsDidChange { mode } => {
            let mut actions: Vec<HookAction> = Vec::new();
            if !matches!(mode, Mode::Insert) {
                actions.push(HookAction::RefreshViews);
            }
            proof {
                assert(actions@ =~= spec_hook_actions(*event, open_documents@));
            }
            actions
        },
        EditorEvent::ModeSwitch { new_mode } => {
            let mut actions: Vec<HookAction> = Vec::new();
            actions.push(HookAction::SetViewsActive { active: !matches!(new_mode, Mode::Insert) });
            proof {
                assert(actions@ =~= spec_hook_actions(*event, open_documents@));
            }
            actions
        },
    }
}

} // verus!
