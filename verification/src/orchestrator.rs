//! Request orchestration: building one ordered group of concurrent requests
//! per document, draining results in submission order under cooperative
//! cancellation, reconciling each, and deciding server-driven retries.

use vstd::prelude::*;
use crate::controller::{CancelHandle, PullDiagnosticController};
use crate::diagnostic::{provider_key, Diagnostic, DiagnosticProvider, DocumentId, LanguageServerId, Uri};
use crate::reconcile::{
    handle_pull_diagnostics_response, opt_str_view, report_changed_uris, report_cursor_effect,
    report_store_effect, CursorTable, ReportResult,
};
use crate::store::{DiagnosticsStore, StoreKey};
use lsp_types::DiagnosticServerCancellationData;

verus! {

/// Fixed delay before a server-requested re-issue, in milliseconds.
pub const RETRY_DELAY_MILLIS: u64 = 500;

/// Snapshot of one server attached to a document, in attachment order, as
/// the surrounding editor reports it.
pub struct ServerInfo {
    pub id: LanguageServerId,
    /// The server advertises the pull-diagnostics feature.
    pub supports_pull_diagnostics: bool,
    /// Optional sub-identifier from the server's diagnostic capability.
    pub identifier: Option<String>,
    /// The capability's inter-file-dependencies flag.
    pub inter_file_dependencies: bool,
    /// The call site can actually build a request against this server.
    pub offers_request: bool,
}

/// One planned request of a group, in submission order: the provider it will
/// resolve to, the uri its report applies to, and the cursor echoed back so
/// the server may answer "unchanged".
pub struct RequestSpec {
    pub provider: DiagnosticProvider,
    pub uri: Uri,
    pub previous_result_id: Option<String>,
}

/// The servers a request group is built from, in attachment order:
/// pull-capable servers, de-duplicated by server identity (a server attached
/// under several registrations consumes its identity on first sight, even if
/// that sight is filtered out), restricted in sweep mode to those with the
/// inter-file-dependencies capability, and offering a request at the call
/// site.
pub open spec fn group_plan(servers: Seq<ServerInfo>, sweep_mode: bool, seen: Set<int>) -> Seq<
    ServerInfo,
>
    decreases servers.len(),
{
    if servers.len() == 0 {
        Seq::empty()
    } else {
        let s = servers.first();
        let rest = servers.drop_first();
        if !s.supports_pull_diagnostics {
            group_plan(rest, sweep_mode, seen)
        } else if seen.contains(s.id.value as int) {
            group_plan(rest, sweep_mode, seen)
        } else {
            let seen2 = seen.insert(s.id.value as int);
            if (sweep_mode && !s.inter_file_dependencies) || !s.offers_request {
                group_plan(rest, sweep_mode, seen2)
            } else {
                seq![s] + group_plan(rest, sweep_mode, seen2)
            }
        }
    }
}

/// Every server of a plan advertises pull diagnostics, offers a request, and,
/// in sweep mode, has the inter-file-dependencies capability; its identity is
/// new to the plan.
pub proof fn lemma_group_plan_sound(servers: Seq<ServerInfo>, sweep_mode: bool, seen: Set<int>)
    ensures
        forall|i: int|
            0 <= i < group_plan(servers, sweep_mode, seen).len() ==> {
                let p = #[trigger] group_plan(servers, sweep_mode, seen)[i];
                &&& p.supports_pull_diagnostics
                &&& p.offers_request
                &&& (sweep_mode ==> p.inter_file_dependencies)
                &&& !seen.contains(p.id.value as int)
            },
        forall|i: int, j: int|
            0 <= i < j < group_plan(servers, sweep_mode, seen).len()
                ==> group_plan(servers, sweep_mode, seen)[i].id.value != group_plan(
                servers,
                sweep_mode,
                seen,
            )[j].id.value,
    decreases servers.len(),
{
    if servers.len() > 0 {
        let s = servers.first();
        let rest = servers.drop_first();
        if !s.supports_pull_diagnostics || seen.contains(s.id.value as int) {
            lemma_group_plan_sound(rest, sweep_mode, seen);
        } else {
            let seen2 = seen.insert(s.id.value as int);
            lemma_group_plan_sound(rest, sweep_mode, seen2);
            if !((sweep_mode && !s.inter_file_dependencies) || !s.offers_request) {
                let plan = group_plan(servers, sweep_mode, seen);
                let restplan = group_plan(rest, sweep_mode, seen2);
                assert(plan == seq![s] + restplan);
                assert(plan[0] == s);
                assert(forall|i: int| 1 <= i < plan.len() ==> plan[i] == restplan[i - 1]);
            }
        }
    }
}

/// A sweep-mode request group never includes a server lacking the
/// inter-file-dependencies capability, even one that otherwise supports pull
/// diagnostics.
pub proof fn lemma_sweep_excludes_single_file_servers(servers: Seq<ServerInfo>)
    ensures
        forall|i: int|
            0 <= i < group_plan(servers, true, Set::empty()).len() ==> group_plan(
                servers,
                true,
                Set::empty(),
            )[i].inter_file_dependencies,
{
    lemma_group_plan_sound(servers, true, Set::empty());
}

/// The server identities a list holds.
pub open spec fn ids_of(s: Seq<LanguageServerId>) -> Set<int> {
    Set::new(|id: int| exists|l: int| 0 <= l < s.len() && s[l].value as int == id)
}

proof fn lemma_ids_of_push(s: Seq<LanguageServerId>, v: LanguageServerId)
    ensures
        ids_of(s.push(v)) =~= ids_of(s).insert(v.value as int),
{
    assert forall|x: int| #[trigger] ids_of(s.push(v)).contains(x) implies ids_of(s).insert(
        v.value as int,
    ).contains(x) by {
        let l = choose|l: int| 0 <= l < s.push(v).len() && s.push(v)[l].value as int == x;
        if l < s.len() {
            assert(s[l].value as int == x);
        }
    };
    assert forall|x: int| #[trigger] ids_of(s).insert(v.value as int).contains(x) implies ids_of(
        s.push(v),
    ).contains(x) by {
        if x == v.value as int {
            assert(s.push(v)[s.len() as int].value as int == x);
        } else {
            let l = choose|l: int| 0 <= l < s.len() && s[l].value as int == x;
            assert(s.push(v)[l].value as int == x);
        }
    };
}

/// An owned copy of an optional text value.
fn duplicate_opt_string(s: &Option<String>) -> (r: Option<String>)
    ensures
        r == *s,
{
    match s {
        Some(x) => Some(x.clone()),
        None => None,
    }
}

/// Builds the ordered request list for one document: one request per
/// planned server, carrying the document uri and that provider's current
/// cursor.
pub fn build_request_group(
    servers: &Vec<ServerInfo>,
    sweep_mode: bool,
    uri: Uri,
    cursors: &CursorTable,
) -> (specs: Vec<RequestSpec>)
    requires
        cursors.wf(),
    ensures
        ({
            let plan = group_plan(servers@, sweep_mode, Set::empty());
            &&& specs@.len() == plan.len()
            &&& forall|i: int|
                0 <= i < plan.len() ==> {
                    &&& specs@[i].uri == uri
                    &&& specs@[i].provider == (DiagnosticProvider::Lsp {
                        server_id: plan[i].id,
                        identifier: plan[i].identifier,
                    })
                    &&& opt_str_view(specs@[i].previous_result_id) == cursors.spec_cursor(
                        provider_key(specs@[i].provider),
                    )
                }
        }),
{
    let ghost full_plan = group_plan(servers@, sweep_mode, Set::empty());
    let mut specs: Vec<RequestSpec> = Vec::new();
    let mut seen: Vec<LanguageServerId> = Vec::new();
    let ghost mut chosen = Seq::<ServerInfo>::empty();
    proof {
        assert(servers@.skip(0) =~= servers@);
        assert(ids_of(seen@) =~= Set::<int>::empty());
        assert(chosen + group_plan(servers@, sweep_mode, ids_of(seen@)) =~= group_plan(
            servers@,
            sweep_mode,
            ids_of(seen@),
        ));
    }
    let mut i: usize = 0;
    while i < servers.len()
        invariant
            cursors.wf(),
            i <= servers@.len(),
            full_plan == chosen + group_plan(servers@.skip(i as int), sweep_mode, ids_of(seen@)),
            specs@.len() == chosen.len(),
            forall|j: int|
                0 <= j < chosen.len() ==> {
                    &&& specs@[j].uri == uri
                    &&& specs@[j].provider == (DiagnosticProvider::Lsp {
                        server_id: chosen[j].id,
                        identifier: chosen[j].identifier,
                    })
                    &&& opt_str_view(specs@[j].previous_result_id) == cursors.spec_cursor(
                        provider_key(specs@[j].provider),
                    )
                },
        decreases servers@.len() - i,
    {
        let ghost remaining = servers@.skip(i as int);
        proof {
            assert(remaining.first() == servers@[i as int]);
            assert(remaining.drop_first() =~= servers@.skip(i as int + 1));
        }
        let server = &servers[i];
        if server.supports_pull_diagnostics {
            let mut already = false;
            let mut j: usize = 0;
            while j < seen.len()
                invariant
                    j <= seen@.len(),
                    already == exists|l: int| 0 <= l < j && seen@[l].value == server.id.value,
                decreases seen@.len() - j,
            {
                if seen[j].value == server.id.value {
                    already = true;
                }
                j = j + 1;
            }
            proof {
                assert(already <==> ids_of(seen@).contains(server.id.value as int));
            }
            if !already {
                let ghost seen_before = ids_of(seen@);
                let ghost seen_vec_before = seen@;
                seen.push(server.id);
                proof {
                    assert(seen@ == seen_vec_before.push(server.id));
                    lemma_ids_of_push(seen_vec_before, server.id);
                }
                let eligible = (!sweep_mode || server.inter_file_dependencies)
                    && server.offers_request;
                if eligible {
                    let provider = DiagnosticProvider::from_server_and_identifier(
                        server.id,
                        duplicate_opt_string(&server.identifier),
                    );
                    let previous_result_id = cursors.previous_result_id(&provider);
                    specs.push(RequestSpec { provider, uri, previous_result_id });
                    proof {
                        let chosen_before = chosen;
                        assert(group_plan(remaining, sweep_mode, seen_before) == seq![
                            remaining.first(),
                        ] + group_plan(remaining.drop_first(), sweep_mode, ids_of(seen@)));
                        chosen = chosen.push(remaining.first());
                        assert(chosen =~= chosen_before + seq![remaining.first()]);
                        assert((chosen_before + seq![remaining.first()]) + group_plan(
                            remaining.drop_first(),
                            sweep_mode,
                            ids_of(seen@),
                        ) =~= chosen_before + (seq![remaining.first()] + group_plan(
                            remaining.drop_first(),
                            sweep_mode,
                            ids_of(seen@),
                        )));
                    }
                } else {
                    proof {
                        assert(group_plan(remaining, sweep_mode, seen_before) == group_plan(
                            remaining.drop_first(),
                            sweep_mode,
                            ids_of(seen@),
                        ));
                    }
                }
            }
        }
        i = i + 1;
    }
    proof {
        assert(servers@.skip(servers@.len() as int) =~= Seq::<ServerInfo>::empty());
        assert(full_plan == chosen);
    }
    specs
}

/// Why a request failed.
pub enum RequestError {
    /// A protocol-level error; `data` carries the raw text of the error's
    /// payload, if it had one.
    Rpc { data: Option<String> },
    /// A transport-level or other failure.
    Other,
}

/// What one request of a group resolved to.
pub enum RequestOutcome {
    Success(ReportResult),
    Failure(RequestError),
}

/// What a server's cancellation payload asked, as a function of its text
/// alone: `Some(b)` when the text parses as the protocol's cancellation data
/// with retrigger flag `b`, `None` when it does not parse as that shape.
pub uninterp spec fn cancellation_retrigger_of(s: Seq<char>) -> Option<bool>;

/// Relies on serde_json::from_str deserializing
/// lsp_types::DiagnosticServerCancellationData (a single boolean field,
/// `retriggerRequest` on the wire): the parse depends on the text alone; the
/// flag is handed back, `None` when the text does not parse as that shape.
#[verifier::external_body]
fn parse_cancellation_payload(data: &str) -> (r: Option<bool>)
    ensures
        r == cancellation_retrigger_of(data@),
{
    serde_json::from_str::<DiagnosticServerCancellationData>(data).ok().map(
        |d| d.retrigger_request,
    )
}

/// The retrigger flag of a failure's payload: a missing payload asks nothing.
pub open spec fn spec_rpc_retrigger(data: Option<String>) -> Option<bool> {
    match data {
        Some(s) => cancellation_retrigger_of(s@),
        None => None,
    }
}

/// Side effect the surrounding runtime must perform after a drain step.
#[derive(Debug, Clone, Copy, PartialEq, Eq, Structural)]
pub enum Action {
    /// Notify the editor that stored diagnostics changed for `uri`.
    DiagnosticsChanged { uri: Uri },
    /// Re-issue the whole request for the document after the fixed delay.
    ScheduleRetry { document_id: DocumentId, sweep_mode: bool, delay_millis: u64 },
}

/// One "diagnostics changed" notification per changed uri, in order.
pub open spec fn uris_to_actions(uris: Seq<Uri>) -> Seq<Action> {
    uris.map_values(|u: Uri| Action::DiagnosticsChanged { uri: u })
}

fn changed_to_actions(changed: Vec<Uri>) -> (r: Vec<Action>)
    ensures
        r@ == uris_to_actions(changed@),
{
    let mut r: Vec<Action> = Vec::new();
    let mut i: usize = 0;
    while i < changed.len()
        invariant
            i <= changed@.len(),
            r@.len() == i,
            forall|j: int| 0 <= j < i ==> r@[j] == (Action::DiagnosticsChanged { uri: changed@[j] }),
        decreases changed@.len() - i,
    {
        r.push(Action::DiagnosticsChanged { uri: changed[i] });
        i = i + 1;
    }
    proof {
        assert(r@ =~= uris_to_actions(changed@));
    }
    r
}

/// The actions a failed request earns: a well-formed cancellation payload
/// asking to retrigger earns exactly one delayed re-issue for the same
/// document and sweep mode; anything else earns nothing. Retries carry no
/// local budget: each such cancellation earns one fresh re-issue; the cycle
/// ends on a success, a failure that does not ask to retrigger, or a
/// superseding edit that cancels the group.
pub open spec fn spec_retry_actions(
    retrigger: Option<bool>,
    document_id: DocumentId,
    sweep_mode: bool,
) -> Seq<Action> {
    if retrigger == Some(true) {
        seq![
            Action::ScheduleRetry { document_id, sweep_mode, delay_millis: RETRY_DELAY_MILLIS },
        ]
    } else {
        Seq::empty()
    }
}

/// Decides the retry for one failed request from the parsed retrigger flag:
/// exactly one re-issue after the fixed delay when, and only when, the
/// server asked for it.
pub fn retry_actions(retrigger: Option<bool>, document_id: DocumentId, sweep_mode: bool) -> (r:
    Vec<Action>)
    ensures
        r@ == spec_retry_actions(retrigger, document_id, sweep_mode),
{
    match retrigger {
        Some(true) => {
            let mut v: Vec<Action> = Vec::new();
            v.push(
                Action::ScheduleRetry { document_id, sweep_mode, delay_millis: RETRY_DELAY_MILLIS },
            );
            proof {
                assert(v@ =~= spec_retry_actions(retrigger, document_id, sweep_mode));
            }
            v
        },
        _ => Vec::new(),
    }
}

/// The pull state this engine owns for one document: its cancellation scope
/// and its per-provider result cursors.
pub struct DocumentPullState {
    pub document_id: DocumentId,
    pub controller: PullDiagnosticController,
    pub cursors: CursorTable,
}

/// Two document-state lists that agree on everything observable.
pub open spec fn same_documents(a: Seq<DocumentPullState>, b: Seq<DocumentPullState>) -> bool {
    &&& a.len() == b.len()
    &&& forall|i: int|
        0 <= i < a.len() ==> {
            &&& (#[trigger] b[i]).document_id == a[i].document_id
            &&& b[i].controller == a[i].controller
            &&& b[i].cursors.view_map() == a[i].cursors.view_map()
        }
}

/// The orchestration engine: the shared diagnostics store plus the pull
/// state of every open document.
pub struct PullEngine {
    pub store: DiagnosticsStore,
    pub documents: Vec<DocumentPullState>,
}

impl PullEngine {
    pub open spec fn wf(&self) -> bool {
        &&& self.store.wf()
        &&& forall|i: int|
            0 <= i < self.documents@.len() ==> (#[trigger] self.documents@[i]).cursors.wf()
        &&& forall|i: int, j: int|
            0 <= i < j < self.documents@.len() ==> self.documents@[i].document_id
                != self.documents@[j].document_id
    }

    pub open spec fn spec_has_doc(&self, document_id: DocumentId) -> bool {
        exists|i: int|
            0 <= i < self.documents@.len() && self.documents@[i].document_id == document_id
    }

    pub open spec fn spec_doc_index(&self, document_id: DocumentId) -> int {
        choose|i: int|
            0 <= i < self.documents@.len() && self.documents@[i].document_id == document_id
    }

    pub fn new() -> (r: PullEngine)
        ensures
            r.wf(),
            r.store.contents() =~= Map::<StoreKey, Seq<Diagnostic>>::empty(),
            r.documents@.len() == 0,
    {
        PullEngine { store: DiagnosticsStore::new(), documents: Vec::new() }
    }

    fn find_document(&self, document_id: DocumentId) -> (r: Option<usize>)
        ensures
            match r {
                Some(i) => i < self.documents@.len() && self.documents@[i as int].document_id
                    == document_id,
                None => !self.spec_has_doc(document_id),
            },
    {
        let mut i: usize = 0;
        while i < self.documents.len()
            invariant
                i <= self.documents@.len(),
                forall|j: int| 0 <= j < i ==> self.documents@[j].document_id != document_id,
            decreases self.documents@.len() - i,
        {
            if self.documents[i].document_id.value == document_id.value {
                return Some(i);
            }
            i = i + 1;
        }
        None
    }

    /// Registers fresh pull state for a newly opened document; opening a
    /// document twice changes nothing.
    pub fn open_document(&mut self, document_id: DocumentId)
        requires
            old(self).wf(),
        ensures
            final(self).wf(),
            final(self).store.contents() == old(self).store.contents(),
            final(self).spec_has_doc(document_id),
            old(self).spec_has_doc(document_id) ==> same_documents(
                old(self).documents@,
                final(self).documents@,
            ),
            !old(self).spec_has_doc(document_id) ==> {
                &&& final(self).documents@.len() == old(self).documents@.len() + 1
                &&& forall|j: int|
                    0 <= j < old(self).documents@.len() ==> final(self).documents@[j] == old(self).documents@[j]
                &&& final(self).documents@.last().document_id == document_id
                &&& final(self).documents@.last().controller == (PullDiagnosticController {
                    generation: 0,
                    active: false,
                })
                &&& final(self).documents@.last().cursors.view_map() =~= Map::<
                    (int, Option<Seq<char>>),
                    Option<Seq<char>>,
                >::empty()
            },
    {
        match self.find_document(document_id) {
            Some(_) => {},
            None => {
                let state = DocumentPullState {
                    document_id,
                    controller: PullDiagnosticController::new(),
                    cursors: CursorTable::new(),
                };
                self.documents.push(state);
                proof {
                    assert(self.documents@.last().document_id == document_id);
                }
            },
        }
    }

    /// Starts one pull cycle for a document: resolve the document, plan the
    /// eligible servers, build one request per planned server, and, if any
    /// was built, restart the document's cancellation scope — invalidating
    /// any still-running previous group — and hand back the new group. With
    /// no known document, no uri, or no eligible server, nothing happens at
    /// all: a no-op sweep does not restart the scope.
    pub fn request_document_diagnostics(
        &mut self,
        document_id: DocumentId,
        servers: &Vec<ServerInfo>,
        uri: Option<Uri>,
        sweep_mode: bool,
    ) -> (group: Option<RequestGroup>)
        requires
            old(self).wf(),
            forall|i: int|
                0 <= i < old(self).documents@.len() && (#[trigger] old(self).documents@[i]).document_id == document_id ==> old(self).documents@[i].controller.generation < u64::MAX,
        ensures
            final(self).wf(),
            final(self).store.contents() == old(self).store.contents(),
            final(self).documents@.len() == old(self).documents@.len(),
            forall|j: int|
                0 <= j < old(self).documents@.len() ==> {
                    &&& (#[trigger] final(self).documents@[j]).document_id == old(self).documents@[j].document_id
                    &&& final(self).documents@[j].cursors.view_map() == old(self).documents@[j].cursors.view_map()
                },
            group is None ==> same_documents(old(self).documents@, final(self).documents@),
            group is None <==> (!old(self).spec_has_doc(document_id) || uri is None || group_plan(
                servers@,
                sweep_mode,
                Set::empty(),
            ).len() == 0),
            group is Some ==> ({
                let g = group.unwrap();
                let i = old(self).spec_doc_index(document_id);
                let plan = group_plan(servers@, sweep_mode, Set::empty());
                &&& g.document_id == document_id
                &&& g.sweep_mode == sweep_mode
                &&& g.next == 0
                &&& !g.stopped
                &&& g.outcomes@.len() == g.requests@.len()
                &&& forall|j: int| 0 <= j < g.outcomes@.len() ==> g.outcomes@[j] is None
                &&& g.requests@.len() == plan.len()
                &&& forall|j: int|
                    0 <= j < plan.len() ==> {
                        &&& (#[trigger] g.requests@[j]).uri == uri.unwrap()
                        &&& g.requests@[j].provider == (DiagnosticProvider::Lsp {
                            server_id: plan[j].id,
                            identifier: plan[j].identifier,
                        })
                        &&& opt_str_view(g.requests@[j].previous_result_id) == old(self).documents@[i].cursors.spec_cursor(provider_key(g.requests@[j].provider))
                    }
                &&& forall|j: int|
                    0 <= j < final(self).documents@.len() && j != i ==> (#[trigger] final(self).documents@[j]).controller == old(self).documents@[j].controller
                &&& final(self).documents@[i].controller.generation == old(self).documents@[i].controller.generation + 1
                &&& final(self).documents@[i].controller.active
                &&& g.handle.generation == final(self).documents@[i].controller.generation
                &&& !final(self).documents@[i].controller.spec_is_cancelled(g.handle)
                &&& forall|h: CancelHandle|
                    h.generation <= old(self).documents@[i].controller.generation ==> final(self).documents@[i].controller.spec_is_cancelled(h)
            }),
    {
        let idx = match self.find_document(document_id) {
            Some(i) => i,
            None => {
                return None;
            },
        };
        proof {
            assert(self.spec_has_doc(document_id));
            let i0 = self.spec_doc_index(document_id);
            assert(0 <= i0 < self.documents@.len() && self.documents@[i0].document_id
                == document_id);
            assert(i0 == idx as int);
        }
        let u = match uri {
            Some(u) => u,
            None => {
                return None;
            },
        };
        let specs = build_request_group(servers, sweep_mode, u, &self.documents[idx].cursors);
        if specs.len() == 0 {
            return None;
        }
        let mut st = self.documents.remove(idx);
        let handle = st.controller.restart();
        self.documents.insert(idx, st);
        proof {
            let s = old(self).documents@;
            assert(forall|j: int| 0 <= j < idx ==> self.documents@[j] == s[j]);
            assert(forall|j: int|
                idx < j < self.documents@.len() ==> self.documents@[j] == s[j]);
            assert(self.documents@[idx as int].document_id == s[idx as int].document_id);
            assert(self.documents@[idx as int].cursors == s[idx as int].cursors);
        }
        let mut outcomes: Vec<Option<RequestOutcome>> = Vec::new();
        let n = specs.len();
        let mut k: usize = 0;
        while k < n
            invariant
                k <= n,
                outcomes@.len() == k,
                forall|j: int| 0 <= j < k ==> outcomes@[j] is None,
            decreases n - k,
        {
            outcomes.push(None);
            k = k + 1;
        }
        Some(
            RequestGroup {
                document_id,
                sweep_mode,
                handle,
                requests: specs,
                outcomes,
                next: 0,
                stopped: false,
            },
        )
    }

    /// Cancels the document's in-flight request group without opening a new
    /// scope: any task still holding the current handle observes
    /// invalidation at its next check. Unknown documents are left alone.
    pub fn cancel_document(&mut self, document_id: DocumentId)
        requires
            old(self).wf(),
        ensures
            final(self).wf(),
            final(self).store.contents() == old(self).store.contents(),
            final(self).documents@.len() == old(self).documents@.len(),
            forall|j: int|
                0 <= j < old(self).documents@.len() ==> {
                    &&& (#[trigger] final(self).documents@[j]).document_id == old(self).documents@[j].document_id
                    &&& final(self).documents@[j].cursors.view_map() == old(self).documents@[j].cursors.view_map()
                },
            !old(self).spec_has_doc(document_id) ==> same_documents(
                old(self).documents@,
                final(self).documents@,
            ),
            old(self).spec_has_doc(document_id) ==> ({
                let i = old(self).spec_doc_index(document_id);
                &&& final(self).documents@[i].controller.generation == old(self).documents@[i].controller.generation
                &&& !final(self).documents@[i].controller.active
                &&& forall|h: CancelHandle|
                    final(self).documents@[i].controller.spec_is_cancelled(h)
                &&& forall|j: int|
                    0 <= j < final(self).documents@.len() && j != i ==> (#[trigger] final(self).documents@[j]).controller == old(self).documents@[j].controller
            }),
    {
        let idx = match self.find_document(document_id) {
            Some(i) => i,
            None => {
                return ;
            },
        };
        proof {
            assert(self.spec_has_doc(document_id));
            let i0 = self.spec_doc_index(document_id);
            assert(0 <= i0 < self.documents@.len() && self.documents@[i0].document_id
                == document_id);
            assert(i0 == idx as int);
        }
        let mut st = self.documents.remove(idx);
        st.controller.cancel();
        self.documents.insert(idx, st);
        proof {
            let s = old(self).documents@;
            assert(forall|j: int| 0 <= j < idx ==> self.documents@[j] == s[j]);
            assert(forall|j: int| idx < j < self.documents@.len() ==> self.documents@[j] == s[j]);
            assert(self.documents@[idx as int].document_id == s[idx as int].document_id);
            assert(self.documents@[idx as int].cursors == s[idx as int].cursors);
        }
    }

    /// Drops the pull state of a closed document; closing an unknown
    /// document changes nothing.
    pub fn close_document(&mut self, document_id: DocumentId)
        requires
            old(self).wf(),
        ensures
            final(self).wf(),
            final(self).store.contents() == old(self).store.contents(),
            !final(self).spec_has_doc(document_id),
            !old(self).spec_has_doc(document_id) ==> final(self).documents@ == old(self).documents@,
    {
        match self.find_document(document_id) {
            Some(i) => {
                self.documents.remove(i);
                proof {
                    let s = old(self).documents@;
                    assert(forall|j: int| 0 <= j < i ==> self.documents@[j] == s[j]);
                    assert(forall|j: int|
                        i <= j < self.documents@.len() ==> self.documents@[j] == s[j + 1]);
                }
            },
            None => {},
        }
    }
}

/// One ordered group of concurrent requests for one document. Results may
/// arrive in any completion order and are recorded per slot; draining
/// consumes them strictly in submission order, so that of two providers
/// reporting for the same uri the one submitted later deterministically
/// overwrites the one submitted earlier.
pub struct RequestGroup {
    pub document_id: DocumentId,
    pub sweep_mode: bool,
    /// Handle of the cancellation-scope generation this group runs under.
    pub handle: CancelHandle,
    /// The planned requests, in submission order.
    pub requests: Vec<RequestSpec>,
    /// One completion slot per request; a drained slot is cleared.
    pub outcomes: Vec<Option<RequestOutcome>>,
    /// Index of the next result to drain, in submission order.
    pub next: usize,
    /// The group stopped early: it observed its cancellation, or its
    /// document disappeared.
    pub stopped: bool,
}

impl RequestGroup {
    pub open spec fn wf(&self) -> bool {
        &&& self.outcomes@.len() == self.requests@.len()
        &&& self.next <= self.requests@.len()
    }

    /// Records the completion of the request in slot `index`, in whatever
    /// order the network resolved it.
    pub fn record_completion(&mut self, index: usize, outcome: RequestOutcome)
        requires
            old(self).wf(),
            index < old(self).outcomes@.len(),
            old(self).outcomes@[index as int] is None,
        ensures
            final(self).wf(),
            final(self).outcomes@ == old(self).outcomes@.update(index as int, Some(outcome)),
            final(self).document_id == old(self).document_id,
            final(self).sweep_mode == old(self).sweep_mode,
            final(self).handle == old(self).handle,
            final(self).requests == old(self).requests,
            final(self).next == old(self).next,
            final(self).stopped == old(self).stopped,
    {
        self.outcomes[index] = Some(outcome);
    }
}

/// What one drain step observed.
pub enum DrainStep {
    /// The next result in submission order has not arrived yet.
    NotReady,
    /// The queue is fully drained, or the group had already stopped.
    Finished,
    /// The group observed its cancellation, or its document disappeared: it
    /// stopped silently, reconciling nothing further.
    Cancelled,
    /// The head-of-line result was consumed; the returned actions are for
    /// the surrounding runtime to perform.
    Processed { actions: Vec<Action> },
}

impl PullEngine {
    /// Drains a group's queued results, one at a time in submission order:
    /// before acting, the group's cancellation handle is checked, and a
    /// superseded or cancelled group reconciles nothing further; a drained
    /// success is reconciled into the store and cursors; a drained failure
    /// earns a retry exactly when it carries a well-formed cancellation
    /// payload asking for one, and is otherwise dropped with no retry while
    /// the drain goes on to the remaining queued results.
    pub fn drain_step(&mut self, group: &mut RequestGroup) -> (r: DrainStep)
        requires
            old(self).wf(),
            old(group).wf(),
        ensures
            final(self).wf(),
            final(group).wf(),
            final(group).document_id == old(group).document_id,
            final(group).sweep_mode == old(group).sweep_mode,
            final(group).handle == old(group).handle,
            final(group).requests == old(group).requests,
            match r {
                DrainStep::Finished => {
                    &&& (old(group).stopped || old(group).next == old(group).requests@.len())
                    &&& *final(self) == *old(self)
                    &&& *final(group) == *old(group)
                },
                DrainStep::NotReady => {
                    &&& !old(group).stopped
                    &&& old(group).next < old(group).requests@.len()
                    &&& old(group).outcomes@[old(group).next as int] is None
                    &&& *final(self) == *old(self)
                    &&& *final(group) == *old(group)
                },
                DrainStep::Cancelled => {
                    &&& !old(group).stopped
                    &&& old(group).next < old(group).requests@.len()
                    &&& old(group).outcomes@[old(group).next as int] is Some
                    &&& (!old(self).spec_has_doc(old(group).document_id) || old(self).documents@[old(self).spec_doc_index(old(group).document_id)].controller.spec_is_cancelled(
                        old(group).handle,
                    ))
                    &&& *final(self) == *old(self)
                    &&& final(group).stopped
                    &&& final(group).next == old(group).next
                    &&& final(group).outcomes == old(group).outcomes
                },
                DrainStep::Processed { actions } => ({
                    let head = old(group).requests@[old(group).next as int];
                    let oc = old(group).outcomes@[old(group).next as int];
                    let i = old(self).spec_doc_index(old(group).document_id);
                    &&& !old(group).stopped
                    &&& old(group).next < old(group).requests@.len()
                    &&& oc is Some
                    &&& old(self).spec_has_doc(old(group).document_id)
                    &&& !old(self).documents@[i].controller.spec_is_cancelled(old(group).handle)
                    &&& final(group).next == old(group).next + 1
                    &&& final(group).outcomes@ == old(group).outcomes@.update(
                        old(group).next as int,
                        None,
                    )
                    &&& final(self).documents@.len() == old(self).documents@.len()
                    &&& forall|j: int|
                        0 <= j < final(self).documents@.len() ==> {
                            &&& (#[trigger] final(self).documents@[j]).document_id == old(self).documents@[j].document_id
                            &&& final(self).documents@[j].controller == old(self).documents@[j].controller
                        }
                    &&& match oc.unwrap() {
                        RequestOutcome::Success(result) => {
                            &&& final(self).store.contents() == report_store_effect(
                                old(self).store.contents(),
                                head.provider,
                                head.uri,
                                result,
                            )
                            &&& final(self).documents@[i].cursors.view_map()
                                == report_cursor_effect(
                                old(self).documents@[i].cursors.view_map(),
                                head.provider,
                                result,
                            )
                            &&& forall|j: int|
                                0 <= j < final(self).documents@.len() && j != i ==> (
                                #[trigger] final(self).documents@[j]).cursors.view_map() == old(self).documents@[j].cursors.view_map()
                            &&& actions@ == uris_to_actions(
                                report_changed_uris(head.uri, result),
                            )
                            &&& !final(group).stopped
                        },
                        RequestOutcome::Failure(e) => {
                            &&& *final(self) == *old(self)
                            &&& match e {
                                RequestError::Rpc { data } => {
                                    &&& actions@ == spec_retry_actions(
                                        spec_rpc_retrigger(data),
                                        old(group).document_id,
                                        old(group).sweep_mode,
                                    )
                                    &&& !final(group).stopped
                                },
                                RequestError::Other => {
                                    &&& actions@.len() == 0
                                    &&& !final(group).stopped
                                },
                            }
                        },
                    }
                }),
            },
    {
        if group.stopped || group.next == group.requests.len() {
            return DrainStep::Finished;
        }
        let ready = match &group.outcomes[group.next] {
            Some(_) => true,
            None => false,
        };
        if !ready {
            return DrainStep::NotReady;
        }
        let idx = match self.find_document(group.document_id) {
            Some(i) => i,
            None => {
                group.stopped = true;
                return DrainStep::Cancelled;
            },
        };
        proof {
            assert(self.spec_has_doc(group.document_id));
            let i0 = self.spec_doc_index(group.document_id);
            assert(0 <= i0 < self.documents@.len() && self.documents@[i0].document_id
                == group.document_id);
            assert(i0 == idx as int);
        }
        if self.documents[idx].controller.is_cancelled(&group.handle) {
            group.stopped = true;
            return DrainStep::Cancelled;
        }
        let n = group.next;
        let outcome_opt = group.outcomes.remove(n);
        group.outcomes.insert(n, None);
        proof {
            assert(group.outcomes@ =~= old(group).outcomes@.update(n as int, None));
        }
        group.next = n + 1;
        let outcome = outcome_opt.unwrap();
        match outcome {
            RequestOutcome::Success(result) => {
                let head_provider = group.requests[n].provider.duplicate();
                let head_uri = group.requests[n].uri;
                let mut st = self.documents.remove(idx);
                let changed = handle_pull_diagnostics_response(
                    &mut self.store,
                    &mut st.cursors,
                    result,
                    head_provider,
                    head_uri,
                );
                self.documents.insert(idx, st);
                proof {
                    let s = old(self).documents@;
                    assert(forall|j: int| 0 <= j < idx ==> self.documents@[j] == s[j]);
                    assert(forall|j: int|
                        idx < j < self.documents@.len() ==> self.documents@[j] == s[j]);
                    assert(self.documents@[idx as int].document_id == s[idx as int].document_id);
                    assert(self.documents@[idx as int].controller == s[idx as int].controller);
                }
                let actions = changed_to_actions(changed);
                DrainStep::Processed { actions }
            },
            RequestOutcome::Failure(e) => {
                match e {
                    RequestError::Rpc { data } => {
                        let parsed = match &data {
                            Some(s) => parse_cancellation_payload(s.as_str()),
                            None => None,
                        };
                        let actions = retry_actions(parsed, group.document_id, group.sweep_mode);
                        DrainStep::Processed { actions }
                    },
                    RequestError::Other => DrainStep::Processed { actions: Vec::new() },
                }
            },
        }
    }
}

/// Draining in submission order makes the later submission win: wholesale-
/// replacing a set `a` and then a set `b` under the same (uri, provider) key
/// leaves exactly `b`, whatever order the two requests completed in.
pub proof fn lemma_later_submission_wins(
    m: Map<StoreKey, Seq<Diagnostic>>,
    k: StoreKey,
    a: Seq<Diagnostic>,
    b: Seq<Diagnostic>,
)
    ensures
        m.insert(k, a).insert(k, b) =~= m.insert(k, b),
{
}

} // verus!
