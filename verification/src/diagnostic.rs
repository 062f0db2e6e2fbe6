//! Diagnostic value types: severity, codes, tags, provider identity.

use vstd::prelude::*;

verus! {

/// Stable per-session identity of a connected language server.
///
/// Connection lifecycle lives outside this crate; the identity is an opaque
/// number handed out by the surrounding session.
#[derive(Debug, Clone, Copy, PartialEq, Eq, PartialOrd, Ord, Hash, Structural)]
pub struct LanguageServerId {
    pub value: u64,
}

impl LanguageServerId {
    pub fn new(value: u64) -> (r: LanguageServerId)
        ensures
            r.value == value,
    {
        LanguageServerId { value }
    }
}

/// Identity of a document location, as interned by the surrounding editor.
#[derive(Debug, Clone, Copy, PartialEq, Eq, Hash, Structural)]
pub struct Uri {
    pub value: u64,
}

/// Identity of an open document in the surrounding editor.
#[derive(Debug, Clone, Copy, PartialEq, Eq, Hash, Structural)]
pub struct DocumentId {
    pub value: u64,
}

/// Severity level of a [`Diagnostic`], ordered `Hint < Info < Warning < Error`.
#[derive(Debug, Clone, Copy, PartialEq, Eq, PartialOrd, Ord, Hash, Structural)]
pub enum Severity {
    Hint,
    Info,
    Warning,
    Error,
}

impl Default for Severity {
    /// The stored default severity is `Hint`; the *effective* display default
    /// for a diagnostic without a severity is `Warning` (see
    /// [`Diagnostic::severity`]). The two defaults differ on purpose.
    fn default() -> (r: Self)
        ensures
            r == Severity::Hint,
    {
        Severity::Hint
    }
}

/// A diagnostic code: either numeric or free text.
#[derive(Debug, Clone, PartialEq, Eq, Hash)]
pub enum NumberOrString {
    Number(i32),
    String(String),
}

/// Extra classification of a diagnostic; a diagnostic may carry several.
#[derive(Debug, Clone)]
pub enum DiagnosticTag {
    Unnecessary,
    Deprecated,
}

/// Start and end position of a diagnostic in the document's coordinate space.
#[derive(Debug, Clone, Copy, PartialEq, Eq, Structural)]
pub struct Range {
    pub start: usize,
    pub end: usize,
}

/// Origin of a diagnostic set: a server identity plus an optional
/// sub-identifier that distinguishes several diagnostic categories emitted by
/// one server.
#[derive(Debug, Clone, PartialEq, Eq, PartialOrd, Ord)]
pub enum DiagnosticProvider {
    Lsp { server_id: LanguageServerId, identifier: Option<String> },
}

/// Mathematical identity of a provider: the server id and the text of the
/// optional sub-identifier. Two providers are the same origin exactly when
/// their keys are equal.
pub open spec fn provider_key(p: DiagnosticProvider) -> (int, Option<Seq<char>>) {
    match p {
        DiagnosticProvider::Lsp { server_id, identifier } => (
            server_id.value as int,
            match identifier {
                Some(s) => Some(s@),
                None => None,
            },
        ),
    }
}

impl DiagnosticProvider {
    pub open spec fn spec_server_id(&self) -> LanguageServerId {
        match *self {
            DiagnosticProvider::Lsp { server_id, .. } => server_id,
        }
    }

    pub fn from_server_id(server_id: LanguageServerId) -> (r: DiagnosticProvider)
        ensures
            r == (DiagnosticProvider::Lsp { server_id, identifier: None }),
    {
        DiagnosticProvider::Lsp { server_id, identifier: None }
    }

    pub fn from_server_and_identifier(
        server_id: LanguageServerId,
        identifier: Option<String>,
    ) -> (r: DiagnosticProvider)
        ensures
            r == (DiagnosticProvider::Lsp { server_id, identifier }),
    {
        DiagnosticProvider::Lsp { server_id, identifier }
    }

    pub fn server_id(&self) -> (r: &LanguageServerId)
        ensures
            *r == self.spec_server_id(),
    {
        match self {
            DiagnosticProvider::Lsp { server_id, identifier: _ } => server_id,
        }
    }

    pub fn has_server_id(&self, server_id: &LanguageServerId) -> (r: bool)
        ensures
            r == (self.spec_server_id() == *server_id),
    {
        match self {
            DiagnosticProvider::Lsp { server_id: id, identifier: _ } => id.value == server_id.value,
        }
    }

    /// An owned copy equal to this provider.
    pub fn duplicate(&self) -> (r: DiagnosticProvider)
        ensures
            r == *self,
    {
        match self {
            DiagnosticProvider::Lsp { server_id, identifier } => DiagnosticProvider::Lsp {
                server_id: *server_id,
                identifier: match identifier {
                    Some(s) => Some(s.clone()),
                    None => None,
                },
            },
        }
    }

    /// Provider identity: equal exactly when both the server id and the
    /// sub-identifier match.
    pub fn equals(&self, diagnostic_provider: &DiagnosticProvider) -> (r: bool)
        ensures
            r == (provider_key(*self) == provider_key(*diagnostic_provider)),
    {
        let (other_identifier, other_server_id) = match diagnostic_provider {
            DiagnosticProvider::Lsp { server_id, identifier } => (identifier, server_id),
        };

        let (identifier, server_id) = match self {
            DiagnosticProvider::Lsp { server_id, identifier } => (identifier, server_id),
        };

        let ids_equal = server_id.value == other_server_id.value;
        let identifiers_equal = match (identifier, other_identifier) {
            (None, None) => true,
            (Some(a), Some(b)) => *a == *b,
            _ => false,
        };
        ids_equal && identifiers_equal
    }
}

impl From<DiagnosticProvider> for LanguageServerId {
    fn from(value: DiagnosticProvider) -> (r: Self) {
        match value {
            DiagnosticProvider::Lsp { server_id, identifier: _ } => server_id,
        }
    }
}

impl vstd::std_specs::convert::FromSpecImpl<DiagnosticProvider> for LanguageServerId {
    open spec fn obeys_from_spec() -> bool {
        true
    }

    open spec fn from_spec(t: DiagnosticProvider) -> Self {
        t.spec_server_id()
    }
}

/// One diagnostic record, immutable once constructed; owned by the
/// diagnostics store, keyed by (document uri, provider).
#[derive(Debug, Clone)]
pub struct Diagnostic {
    pub range: Range,
    /// Whether this diagnostic ends at the end of (or inside) a word.
    pub ends_at_word: bool,
    pub starts_at_word: bool,
    pub zero_width: bool,
    pub line: usize,
    pub message: String,
    pub severity: Option<Severity>,
    pub code: Option<NumberOrString>,
    pub provider: DiagnosticProvider,
    pub tags: Vec<DiagnosticTag>,
    pub source: Option<String>,
    /// Opaque provider-defined payload, carried as its serialized text;
    /// populated faithfully, never interpreted here.
    pub data: Option<String>,
}

impl Diagnostic {
    /// Effective severity for display: a diagnostic without an explicit
    /// severity counts as `Warning` here, although the stored type default is
    /// `Hint`.
    pub fn severity(&self) -> (r: Severity)
        ensures
            r == (match self.severity {
                Some(s) => s,
                None => Severity::Warning,
            }),
    {
        match self.severity {
            Some(s) => s,
            None => Severity::Warning,
        }
    }
}

} // verus!
