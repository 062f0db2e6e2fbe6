use pull_diagnostics::diagnostic::{
    Diagnostic, DiagnosticProvider, LanguageServerId, Range, Severity,
};

#[test]
fn can_compare_equal_diagnostic_provider() {
    let first_provider = DiagnosticProvider::from_server_id(LanguageServerId::new(1));
    let second_provider = DiagnosticProvider::from_server_id(LanguageServerId::new(1));

    assert!(first_provider.equals(&second_provider));
}

#[test]
fn can_compare_equal_diagnostic_provider_with_identifier() {
    let first_provider = DiagnosticProvider::from_server_and_identifier(
        LanguageServerId::new(1),
        Some("provider".to_string()),
    );
    let second_provider = DiagnosticProvider::from_server_and_identifier(
        LanguageServerId::new(1),
        Some("provider".to_string()),
    );

    assert!(first_provider.equals(&second_provider));
}

#[test]
fn can_distinguish_diagnostic_provider() {
    let first_provider = DiagnosticProvider::from_server_id(LanguageServerId::new(1));
    let second_provider = DiagnosticProvider::from_server_id(LanguageServerId::new(2));

    assert!(!first_provider.equals(&second_provider));
}

#[test]
fn can_distinguish_diagnostic_provider_by_identifier() {
    let first_provider = DiagnosticProvider::from_server_and_identifier(
        LanguageServerId::new(1),
        Some("provider".to_string()),
    );
    let second_provider =
        DiagnosticProvider::from_server_and_identifier(LanguageServerId::new(1), None);

    assert!(!first_provider.equals(&second_provider));
}

#[test]
fn can_distinguish_diagnostic_provider_by_language_server_id() {
    let first_provider = DiagnosticProvider::from_server_and_identifier(
        LanguageServerId::new(1),
        Some("provider".to_string()),
    );
    let second_provider = DiagnosticProvider::from_server_and_identifier(
        LanguageServerId::new(2),
        Some("provider".to_string()),
    );

    assert!(!first_provider.equals(&second_provider));
}

#[test]
fn can_compare_language_server_id() {
    let provider = DiagnosticProvider::from_server_and_identifier(
        LanguageServerId::new(1),
        Some("provider".to_string()),
    );

    let language_server_id = LanguageServerId::new(1);

    assert!(provider.has_server_id(&language_server_id));
}

#[test]
fn server_id_accessor_returns_the_identity() {
    let provider = DiagnosticProvider::from_server_and_identifier(
        LanguageServerId::new(9),
        Some("provider".to_string()),
    );

    assert_eq!(*provider.server_id(), LanguageServerId::new(9));
    assert_eq!(LanguageServerId::from(provider), LanguageServerId::new(9));
}

#[test]
fn effective_severity_defaults_to_warning() {
    let diagnostic = Diagnostic {
        range: Range { start: 0, end: 1 },
        ends_at_word: false,
        starts_at_word: false,
        zero_width: false,
        line: 0,
        message: "unused variable".to_string(),
        severity: None,
        code: None,
        provider: DiagnosticProvider::from_server_id(LanguageServerId::new(1)),
        tags: Vec::new(),
        source: None,
        data: None,
    };

    assert_eq!(diagnostic.severity(), Severity::Warning);
}

#[test]
fn stored_severity_default_is_hint() {
    assert_eq!(Severity::default(), Severity::Hint);
    assert!(Severity::default() != Severity::Warning);
}

#[test]
fn explicit_severity_wins_over_the_default() {
    let diagnostic = Diagnostic {
        range: Range { start: 3, end: 4 },
        ends_at_word: true,
        starts_at_word: true,
        zero_width: false,
        line: 2,
        message: "syntax error".to_string(),
        severity: Some(Severity::Error),
        code: None,
        provider: DiagnosticProvider::from_server_id(LanguageServerId::new(1)),
        tags: Vec::new(),
        source: Some("checker".to_string()),
        data: None,
    };

    assert_eq!(diagnostic.severity(), Severity::Error);
}

#[test]
fn severity_levels_are_ordered() {
    assert!(Severity::Hint < Severity::Info);
    assert!(Severity::Info < Severity::Warning);
    assert!(Severity::Warning < Severity::Error);
}
