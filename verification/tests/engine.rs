use pull_diagnostics::diagnostic::{
    Diagnostic, DiagnosticProvider, DocumentId, LanguageServerId, Range, Uri,
};
use pull_diagnostics::orchestrator::{
    Action, DrainStep, PullEngine, RequestError, RequestOutcome, ServerInfo, RETRY_DELAY_MILLIS,
};
use pull_diagnostics::reconcile::{DocumentReport, RelatedDocumentReport, RelatedReport, ReportResult};

fn server(id: u64, inter_file_dependencies: bool) -> ServerInfo {
    ServerInfo {
        id: LanguageServerId::new(id),
        supports_pull_diagnostics: true,
        identifier: None,
        inter_file_dependencies,
        offers_request: true,
    }
}

fn diag(server_id: u64, line: usize) -> Diagnostic {
    Diagnostic {
        range: Range { start: 0, end: 1 },
        ends_at_word: false,
        starts_at_word: false,
        zero_width: false,
        line,
        message: "finding".to_string(),
        severity: None,
        code: None,
        provider: DiagnosticProvider::from_server_id(LanguageServerId::new(server_id)),
        tags: Vec::new(),
        source: None,
        data: None,
    }
}

fn full(result_id: Option<&str>, items: Vec<Diagnostic>) -> ReportResult {
    ReportResult::Report(DocumentReport::Full {
        result_id: result_id.map(|s| s.to_string()),
        items,
        related_documents: Vec::new(),
    })
}

fn unchanged(result_id: &str) -> ReportResult {
    ReportResult::Report(DocumentReport::Unchanged {
        result_id: result_id.to_string(),
        related_documents: Vec::new(),
    })
}

#[test]
fn document_open_requests_only_the_attached_server() {
    let mut engine = PullEngine::new();
    let doc = DocumentId { value: 1 };
    let uri = Uri { value: 10 };
    engine.open_document(doc);

    let servers = vec![server(7, false)];
    let group = engine
        .request_document_diagnostics(doc, &servers, Some(uri), false)
        .unwrap();

    assert_eq!(group.requests.len(), 1);
    assert!(group.requests[0]
        .provider
        .has_server_id(&LanguageServerId::new(7)));
    assert_eq!(group.requests[0].uri, uri);
    assert_eq!(group.requests[0].previous_result_id, None);
}

#[test]
fn sweep_mode_excludes_single_file_servers() {
    let mut engine = PullEngine::new();
    let doc = DocumentId { value: 1 };
    let uri = Uri { value: 10 };
    engine.open_document(doc);

    let servers = vec![server(1, true), server(2, false), server(3, true)];

    let sweep_group = engine
        .request_document_diagnostics(doc, &servers, Some(uri), true)
        .unwrap();
    assert_eq!(sweep_group.requests.len(), 2);
    assert!(sweep_group.requests[0]
        .provider
        .has_server_id(&LanguageServerId::new(1)));
    assert!(sweep_group.requests[1]
        .provider
        .has_server_id(&LanguageServerId::new(3)));

    let plain_group = engine
        .request_document_diagnostics(doc, &servers, Some(uri), false)
        .unwrap();
    assert_eq!(plain_group.requests.len(), 3);
}

#[test]
fn duplicate_server_registrations_are_requested_once() {
    let mut engine = PullEngine::new();
    let doc = DocumentId { value: 1 };
    engine.open_document(doc);

    let servers = vec![server(5, false), server(5, false), server(6, false)];
    let group = engine
        .request_document_diagnostics(doc, &servers, Some(Uri { value: 3 }), false)
        .unwrap();

    assert_eq!(group.requests.len(), 2);
}

#[test]
fn no_eligible_server_means_no_group() {
    let mut engine = PullEngine::new();
    let doc = DocumentId { value: 1 };
    engine.open_document(doc);

    let mut no_pull = server(4, false);
    no_pull.supports_pull_diagnostics = false;
    assert!(engine
        .request_document_diagnostics(doc, &vec![no_pull], Some(Uri { value: 3 }), false)
        .is_none());
    assert!(engine
        .request_document_diagnostics(doc, &vec![server(4, false)], None, false)
        .is_none());
    assert!(engine
        .request_document_diagnostics(
            DocumentId { value: 99 },
            &vec![server(4, false)],
            Some(Uri { value: 3 }),
            false
        )
        .is_none());
}

#[test]
fn overlapping_requests_cancel_the_first_group() {
    let mut engine = PullEngine::new();
    let doc = DocumentId { value: 1 };
    let uri = Uri { value: 10 };
    let provider = DiagnosticProvider::from_server_id(LanguageServerId::new(7));
    engine.open_document(doc);
    let servers = vec![server(7, false)];

    let mut first = engine
        .request_document_diagnostics(doc, &servers, Some(uri), false)
        .unwrap();
    let mut second = engine
        .request_document_diagnostics(doc, &servers, Some(uri), false)
        .unwrap();

    // The first group's response arrives only after the second group began.
    first.record_completion(0, RequestOutcome::Success(full(Some("a"), vec![diag(7, 1)])));
    assert!(matches!(engine.drain_step(&mut first), DrainStep::Cancelled));
    assert!(engine.store.get(&uri, &provider).is_none());

    second.record_completion(
        0,
        RequestOutcome::Success(full(Some("b"), vec![diag(7, 2), diag(7, 3)])),
    );
    assert!(matches!(engine.drain_step(&mut second), DrainStep::Processed { .. }));
    assert_eq!(engine.store.get(&uri, &provider).unwrap().len(), 2);
}

#[test]
fn results_drain_in_submission_order_not_completion_order() {
    let mut engine = PullEngine::new();
    let doc = DocumentId { value: 1 };
    let uri = Uri { value: 10 };
    engine.open_document(doc);
    let servers = vec![server(1, false), server(2, false), server(3, false)];
    let provider_a = DiagnosticProvider::from_server_id(LanguageServerId::new(1));
    let provider_b = DiagnosticProvider::from_server_id(LanguageServerId::new(2));
    let provider_c = DiagnosticProvider::from_server_id(LanguageServerId::new(3));

    let mut group = engine
        .request_document_diagnostics(doc, &servers, Some(uri), false)
        .unwrap();

    // C resolves first, then B; nothing can drain before A resolves.
    group.record_completion(2, RequestOutcome::Success(full(None, vec![diag(3, 30)])));
    assert!(matches!(engine.drain_step(&mut group), DrainStep::NotReady));
    group.record_completion(1, RequestOutcome::Success(full(None, vec![diag(2, 20)])));
    assert!(matches!(engine.drain_step(&mut group), DrainStep::NotReady));
    assert!(engine.store.get(&uri, &provider_c).is_none());

    // A resolves last; reconciliation now runs in submission order A, B, C.
    group.record_completion(0, RequestOutcome::Success(full(None, vec![diag(1, 10)])));
    assert!(matches!(engine.drain_step(&mut group), DrainStep::Processed { .. }));
    assert!(engine.store.get(&uri, &provider_a).is_some());
    assert!(engine.store.get(&uri, &provider_b).is_none());
    assert!(matches!(engine.drain_step(&mut group), DrainStep::Processed { .. }));
    assert!(matches!(engine.drain_step(&mut group), DrainStep::Processed { .. }));
    assert!(matches!(engine.drain_step(&mut group), DrainStep::Finished));

    assert_eq!(engine.store.get(&uri, &provider_a).unwrap()[0].line, 10);
    assert_eq!(engine.store.get(&uri, &provider_b).unwrap()[0].line, 20);
    assert_eq!(engine.store.get(&uri, &provider_c).unwrap()[0].line, 30);
}

#[test]
fn later_report_for_the_same_key_overwrites_the_earlier() {
    let mut engine = PullEngine::new();
    let doc = DocumentId { value: 1 };
    let uri = Uri { value: 10 };
    let provider = DiagnosticProvider::from_server_id(LanguageServerId::new(7));
    engine.open_document(doc);
    let servers = vec![server(7, false)];

    // A full report whose related-document sub-report targets the same uri:
    // the sub-report is applied after the main set and wins wholesale.
    let report = ReportResult::Report(DocumentReport::Full {
        result_id: None,
        items: vec![diag(7, 1), diag(7, 2)],
        related_documents: vec![RelatedDocumentReport {
            uri,
            report: RelatedReport::Full { result_id: None, items: vec![diag(7, 9)] },
        }],
    });

    let mut group = engine
        .request_document_diagnostics(doc, &servers, Some(uri), false)
        .unwrap();
    group.record_completion(0, RequestOutcome::Success(report));
    let step = engine.drain_step(&mut group);
    match step {
        DrainStep::Processed { actions } => assert_eq!(actions.len(), 2),
        _ => panic!("head-of-line result should have been processed"),
    }

    let stored = engine.store.get(&uri, &provider).unwrap();
    assert_eq!(stored.len(), 1);
    assert_eq!(stored[0].line, 9);
}

#[test]
fn related_documents_are_applied_under_the_same_provider() {
    let mut engine = PullEngine::new();
    let doc = DocumentId { value: 1 };
    let uri = Uri { value: 10 };
    let other_uri = Uri { value: 11 };
    let provider = DiagnosticProvider::from_server_id(LanguageServerId::new(7));
    engine.open_document(doc);
    let servers = vec![server(7, false)];

    let report = ReportResult::Report(DocumentReport::Full {
        result_id: None,
        items: vec![diag(7, 1)],
        related_documents: vec![RelatedDocumentReport {
            uri: other_uri,
            report: RelatedReport::Full { result_id: None, items: vec![diag(7, 5)] },
        }],
    });

    let mut group = engine
        .request_document_diagnostics(doc, &servers, Some(uri), false)
        .unwrap();
    group.record_completion(0, RequestOutcome::Success(report));
    match engine.drain_step(&mut group) {
        DrainStep::Processed { actions } => {
            assert_eq!(actions.len(), 2);
            assert!(matches!(actions[0], Action::DiagnosticsChanged { uri: Uri { value: 10 } }));
            assert!(matches!(actions[1], Action::DiagnosticsChanged { uri: Uri { value: 11 } }));
        }
        _ => panic!("head-of-line result should have been processed"),
    }

    assert_eq!(engine.store.get(&uri, &provider).unwrap()[0].line, 1);
    assert_eq!(engine.store.get(&other_uri, &provider).unwrap()[0].line, 5);
}

#[test]
fn full_report_result_id_becomes_the_cursor() {
    let mut engine = PullEngine::new();
    let doc = DocumentId { value: 1 };
    let uri = Uri { value: 10 };
    engine.open_document(doc);
    let servers = vec![server(7, false)];

    let mut group = engine
        .request_document_diagnostics(doc, &servers, Some(uri), false)
        .unwrap();
    group.record_completion(0, RequestOutcome::Success(full(Some("abc"), vec![diag(7, 1)])));
    assert!(matches!(engine.drain_step(&mut group), DrainStep::Processed { .. }));

    // The next request on that document echoes the stored cursor.
    let next = engine
        .request_document_diagnostics(doc, &servers, Some(uri), false)
        .unwrap();
    assert_eq!(next.requests[0].previous_result_id, Some("abc".to_string()));
}

#[test]
fn unchanged_report_updates_cursor_without_touching_diagnostics() {
    let mut engine = PullEngine::new();
    let doc = DocumentId { value: 1 };
    let uri = Uri { value: 10 };
    let provider = DiagnosticProvider::from_server_id(LanguageServerId::new(7));
    engine.open_document(doc);
    let servers = vec![server(7, false)];

    let mut first = engine
        .request_document_diagnostics(doc, &servers, Some(uri), false)
        .unwrap();
    first.record_completion(0, RequestOutcome::Success(full(Some("v1"), vec![diag(7, 1)])));
    assert!(matches!(engine.drain_step(&mut first), DrainStep::Processed { .. }));

    let mut second = engine
        .request_document_diagnostics(doc, &servers, Some(uri), false)
        .unwrap();
    second.record_completion(0, RequestOutcome::Success(unchanged("v2")));
    match engine.drain_step(&mut second) {
        DrainStep::Processed { actions } => assert_eq!(actions.len(), 0),
        _ => panic!("head-of-line result should have been processed"),
    }

    // Diagnostics untouched, cursor advanced.
    assert_eq!(engine.store.get(&uri, &provider).unwrap()[0].line, 1);
    let third = engine
        .request_document_diagnostics(doc, &servers, Some(uri), false)
        .unwrap();
    assert_eq!(third.requests[0].previous_result_id, Some("v2".to_string()));
}

#[test]
fn partial_result_is_a_no_op() {
    let mut engine = PullEngine::new();
    let doc = DocumentId { value: 1 };
    let uri = Uri { value: 10 };
    let provider = DiagnosticProvider::from_server_id(LanguageServerId::new(7));
    engine.open_document(doc);
    let servers = vec![server(7, false)];

    let mut group = engine
        .request_document_diagnostics(doc, &servers, Some(uri), false)
        .unwrap();
    group.record_completion(0, RequestOutcome::Success(ReportResult::Partial));
    match engine.drain_step(&mut group) {
        DrainStep::Processed { actions } => assert_eq!(actions.len(), 0),
        _ => panic!("head-of-line result should have been processed"),
    }
    assert!(engine.store.get(&uri, &provider).is_none());
    let next = engine
        .request_document_diagnostics(doc, &servers, Some(uri), false)
        .unwrap();
    assert_eq!(next.requests[0].previous_result_id, None);
}

#[test]
fn retrigger_cancellation_earns_exactly_one_delayed_retry() {
    let mut engine = PullEngine::new();
    let doc = DocumentId { value: 1 };
    let uri = Uri { value: 10 };
    engine.open_document(doc);
    let servers = vec![server(7, false)];

    let mut group = engine
        .request_document_diagnostics(doc, &servers, Some(uri), false)
        .unwrap();
    group.record_completion(
        0,
        RequestOutcome::Failure(RequestError::Rpc {
            data: Some("{\"retriggerRequest\":true}".to_string()),
        }),
    );
    match engine.drain_step(&mut group) {
        DrainStep::Processed { actions } => {
            assert_eq!(actions.len(), 1);
            assert!(matches!(
                actions[0],
                Action::ScheduleRetry {
                    document_id: DocumentId { value: 1 },
                    sweep_mode: false,
                    delay_millis: RETRY_DELAY_MILLIS,
                }
            ));
        }
        _ => panic!("head-of-line result should have been processed"),
    }
    assert!(matches!(engine.drain_step(&mut group), DrainStep::Finished));
}

#[test]
fn non_retrigger_and_malformed_payloads_earn_no_retry() {
    let mut engine = PullEngine::new();
    let doc = DocumentId { value: 1 };
    let uri = Uri { value: 10 };
    engine.open_document(doc);
    let servers = vec![server(7, false), server(8, false), server(9, false)];

    let mut group = engine
        .request_document_diagnostics(doc, &servers, Some(uri), false)
        .unwrap();
    group.record_completion(
        0,
        RequestOutcome::Failure(RequestError::Rpc {
            data: Some("{\"retriggerRequest\":false}".to_string()),
        }),
    );
    group.record_completion(
        1,
        RequestOutcome::Failure(RequestError::Rpc { data: Some("not json".to_string()) }),
    );
    group.record_completion(2, RequestOutcome::Failure(RequestError::Rpc { data: None }));

    for _ in 0..3 {
        match engine.drain_step(&mut group) {
            DrainStep::Processed { actions } => assert_eq!(actions.len(), 0),
            _ => panic!("head-of-line result should have been processed"),
        }
    }
    assert!(matches!(engine.drain_step(&mut group), DrainStep::Finished));
}

#[test]
fn transport_failure_drops_the_response_and_draining_continues() {
    let mut engine = PullEngine::new();
    let doc = DocumentId { value: 1 };
    let uri = Uri { value: 10 };
    let provider_a = DiagnosticProvider::from_server_id(LanguageServerId::new(7));
    let provider_b = DiagnosticProvider::from_server_id(LanguageServerId::new(8));
    engine.open_document(doc);
    let servers = vec![server(7, false), server(8, false)];

    let mut group = engine
        .request_document_diagnostics(doc, &servers, Some(uri), false)
        .unwrap();
    group.record_completion(0, RequestOutcome::Failure(RequestError::Other));
    group.record_completion(1, RequestOutcome::Success(full(None, vec![diag(8, 1)])));

    // The failed response is dropped with no retry and no store change.
    match engine.drain_step(&mut group) {
        DrainStep::Processed { actions } => assert_eq!(actions.len(), 0),
        _ => panic!("head-of-line result should have been processed"),
    }
    assert!(engine.store.get(&uri, &provider_a).is_none());

    // The queued second response is still reconciled.
    assert!(matches!(engine.drain_step(&mut group), DrainStep::Processed { .. }));
    assert_eq!(engine.store.get(&uri, &provider_b).unwrap()[0].line, 1);
    assert!(matches!(engine.drain_step(&mut group), DrainStep::Finished));
}

#[test]
fn closing_a_document_orphans_its_group() {
    let mut engine = PullEngine::new();
    let doc = DocumentId { value: 1 };
    let uri = Uri { value: 10 };
    engine.open_document(doc);
    let servers = vec![server(7, false)];

    let mut group = engine
        .request_document_diagnostics(doc, &servers, Some(uri), false)
        .unwrap();
    engine.close_document(doc);
    group.record_completion(0, RequestOutcome::Success(full(None, vec![diag(7, 1)])));
    assert!(matches!(engine.drain_step(&mut group), DrainStep::Cancelled));
    assert!(engine
        .store
        .get(&uri, &DiagnosticProvider::from_server_id(LanguageServerId::new(7)))
        .is_none());
}
