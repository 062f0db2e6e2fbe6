//! Response reconciliation: applying one provider's report for one document
//! to the diagnostics store and to the per-document result cursors.

use vstd::prelude::*;
use crate::diagnostic::{provider_key, Diagnostic, DiagnosticProvider, Uri};
use crate::store::{store_key, DiagnosticsStore, StoreKey};

verus! {

/// The text of an optional result id.
pub open spec fn opt_str_view(s: Option<String>) -> Option<Seq<char>> {
    match s {
        Some(x) => Some(x@),
        None => None,
    }
}

/// One provider's cursor: the opaque result id it last supplied for this
/// document, echoed back on the next request so it may reply "unchanged".
pub struct CursorEntry {
    pub provider: DiagnosticProvider,
    pub previous_result_id: Option<String>,
}

/// The cursors a sequence of entries holds, later entries overwriting
/// earlier ones with the same provider.
pub open spec fn cursor_map(s: Seq<CursorEntry>) -> Map<(int, Option<Seq<char>>), Option<Seq<char>>>
    decreases s.len(),
{
    if s.len() == 0 {
        Map::empty()
    } else {
        cursor_map(s.drop_last()).insert(
            provider_key(s.last().provider),
            opt_str_view(s.last().previous_result_id),
        )
    }
}

proof fn lemma_cursor_map_dom(s: Seq<CursorEntry>, k: (int, Option<Seq<char>>))
    ensures
        cursor_map(s).contains_key(k) <==> exists|i: int|
            0 <= i < s.len() && provider_key(s[i].provider) == k,
    decreases s.len(),
{
    if s.len() > 0 {
        lemma_cursor_map_dom(s.drop_last(), k);
        if cursor_map(s).contains_key(k) {
            if provider_key(s.last().provider) == k {
                assert(provider_key(s[s.len() - 1].provider) == k);
            } else {
                let i = choose|i: int|
                    0 <= i < s.drop_last().len() && provider_key(s.drop_last()[i].provider) == k;
                assert(provider_key(s[i].provider) == k);
            }
        }
        if exists|i: int| 0 <= i < s.len() && provider_key(s[i].provider) == k {
            let i = choose|i: int| 0 <= i < s.len() && provider_key(s[i].provider) == k;
            if i < s.len() - 1 {
                assert(provider_key(s.drop_last()[i].provider) == k);
            }
        }
    }
}

proof fn lemma_cursor_map_update(s: Seq<CursorEntry>, i: int, e: CursorEntry)
    requires
        0 <= i < s.len(),
        provider_key(e.provider) == provider_key(s[i].provider),
        forall|j: int, l: int|
            0 <= j < l < s.len() ==> provider_key(s[j].provider) != provider_key(s[l].provider),
    ensures
        cursor_map(s.update(i, e)) =~= cursor_map(s).insert(
            provider_key(e.provider),
            opt_str_view(e.previous_result_id),
        ),
    decreases s.len(),
{
    let t = s.update(i, e);
    if i == s.len() - 1 {
        assert(t.drop_last() =~= s.drop_last());
        assert(t.last() == e);
    } else {
        assert(t.last() == s.last());
        assert(t.drop_last() =~= s.drop_last().update(i, e));
        lemma_cursor_map_update(s.drop_last(), i, e);
        assert(provider_key(s[i].provider) != provider_key(s[s.len() - 1].provider));
    }
}

proof fn lemma_cursor_map_at(s: Seq<CursorEntry>, i: int)
    requires
        0 <= i < s.len(),
        forall|j: int, l: int|
            0 <= j < l < s.len() ==> provider_key(s[j].provider) != provider_key(s[l].provider),
    ensures
        cursor_map(s).contains_key(provider_key(s[i].provider)),
        cursor_map(s)[provider_key(s[i].provider)] == opt_str_view(s[i].previous_result_id),
    decreases s.len(),
{
    if i == s.len() - 1 {
    } else {
        lemma_cursor_map_at(s.drop_last(), i);
        assert(s.drop_last()[i] == s[i]);
        assert(provider_key(s[i].provider) != provider_key(s[s.len() - 1].provider));
    }
}

/// One document's result cursors, per provider. A provider without an entry
/// has no cursor, the same as an entry holding `None`.
pub struct CursorTable {
    pub entries: Vec<CursorEntry>,
}

impl CursorTable {
    /// No two entries are for the same provider.
    pub open spec fn wf(&self) -> bool {
        forall|i: int, j: int|
            0 <= i < j < self.entries@.len() ==> provider_key(self.entries@[i].provider)
                != provider_key(self.entries@[j].provider)
    }

    pub open spec fn view_map(&self) -> Map<(int, Option<Seq<char>>), Option<Seq<char>>> {
        cursor_map(self.entries@)
    }

    /// The cursor currently held for a provider key.
    pub open spec fn spec_cursor(&self, k: (int, Option<Seq<char>>)) -> Option<Seq<char>> {
        if self.view_map().contains_key(k) {
            self.view_map()[k]
        } else {
            None
        }
    }

    pub fn new() -> (r: CursorTable)
        ensures
            r.wf(),
            r.view_map() =~= Map::<(int, Option<Seq<char>>), Option<Seq<char>>>::empty(),
    {
        CursorTable { entries: Vec::new() }
    }

    fn position(&self, provider: &DiagnosticProvider) -> (r: Option<usize>)
        ensures
            match r {
                Some(i) => i < self.entries@.len() && provider_key(
                    self.entries@[i as int].provider,
                ) == provider_key(*provider),
                None => forall|i: int|
                    0 <= i < self.entries@.len() ==> provider_key(self.entries@[i].provider)
                        != provider_key(*provider),
            },
    {
        let mut i: usize = 0;
        while i < self.entries.len()
            invariant
                i <= self.entries@.len(),
                forall|j: int|
                    0 <= j < i ==> provider_key(self.entries@[j].provider) != provider_key(
                        *provider,
                    ),
            decreases self.entries@.len() - i,
        {
            if self.entries[i].provider.equals(provider) {
                return Some(i);
            }
            i = i + 1;
        }
        None
    }

    /// Stores `result_id` as the provider's cursor, replacing the previous
    /// one; every other provider's cursor is untouched.
    pub fn set_cursor(&mut self, provider: DiagnosticProvider, result_id: Option<String>)
        requires
            old(self).wf(),
        ensures
            final(self).wf(),
            final(self).view_map() =~= old(self).view_map().insert(
                provider_key(provider),
                opt_str_view(result_id),
            ),
    {
        let pos = self.position(&provider);
        let entry = CursorEntry { provider, previous_result_id: result_id };
        match pos {
            Some(i) => {
                proof {
                    lemma_cursor_map_update(self.entries@, i as int, entry);
                }
                self.entries[i] = entry;
            },
            None => {
                proof {
                    lemma_cursor_map_dom(self.entries@, provider_key(entry.provider));
                    assert(self.entries@.push(entry).drop_last() =~= self.entries@);
                    assert(forall|j: int|
                        0 <= j < self.entries@.len() ==> self.entries@.push(entry)[j] == self
                            .entries@[j]);
                }
                self.entries.push(entry);
            },
        }
    }

    /// The cursor to echo back on the next request for this provider.
    pub fn previous_result_id(&self, provider: &DiagnosticProvider) -> (r: Option<String>)
        requires
            self.wf(),
        ensures
            opt_str_view(r) == self.spec_cursor(provider_key(*provider)),
    {
        proof {
            lemma_cursor_map_dom(self.entries@, provider_key(*provider));
        }
        match self.position(provider) {
            Some(i) => {
                proof {
                    lemma_cursor_map_at(self.entries@, i as int);
                }
                match &self.entries[i].previous_result_id {
                    Some(s) => Some(s.clone()),
                    None => None,
                }
            },
            None => None,
        }
    }
}

/// A sub-report pushed proactively by the server for another document it
/// considers related (for instance a dependent file).
pub enum RelatedReport {
    Full { result_id: Option<String>, items: Vec<Diagnostic> },
    Unchanged { result_id: String },
}

pub struct RelatedDocumentReport {
    pub uri: Uri,
    pub report: RelatedReport,
}

/// One provider's answer for one document: a full item list, or confirmation
/// that the previously supplied result id is still valid. Either may carry
/// reports for related documents.
pub enum DocumentReport {
    Full {
        result_id: Option<String>,
        items: Vec<Diagnostic>,
        related_documents: Vec<RelatedDocumentReport>,
    },
    Unchanged { result_id: String, related_documents: Vec<RelatedDocumentReport> },
}

/// The overall response shape: a report, or a partial result, which this
/// engine deliberately does not reconcile.
pub enum ReportResult {
    Report(DocumentReport),
    Partial,
}

/// Effect of one related-document sub-report on the store contents: a Full
/// sub-report wholesale-replaces the set for (its uri, the same provider); an
/// Unchanged one leaves the store as it is.
pub open spec fn apply_one_related(
    m: Map<StoreKey, Seq<Diagnostic>>,
    provider: DiagnosticProvider,
    r: RelatedDocumentReport,
) -> Map<StoreKey, Seq<Diagnostic>> {
    match r.report {
        RelatedReport::Full { items, .. } => m.insert(store_key(r.uri, provider), items@),
        RelatedReport::Unchanged { .. } => m,
    }
}

/// Effect of a list of related-document sub-reports, applied in order: a
/// later sub-report for the same uri overwrites an earlier one.
pub open spec fn apply_related(
    m: Map<StoreKey, Seq<Diagnostic>>,
    provider: DiagnosticProvider,
    rel: Seq<RelatedDocumentReport>,
) -> Map<StoreKey, Seq<Diagnostic>>
    decreases rel.len(),
{
    if rel.len() == 0 {
        m
    } else {
        apply_related(apply_one_related(m, provider, rel.first()), provider, rel.drop_first())
    }
}

/// Effect of a whole report on the store contents: Full wholesale-replaces
/// the set for (uri, provider), Unchanged and Partial leave it untouched, and
/// any related-document sub-reports are applied in order afterwards.
pub open spec fn report_store_effect(
    m: Map<StoreKey, Seq<Diagnostic>>,
    provider: DiagnosticProvider,
    uri: Uri,
    result: ReportResult,
) -> Map<StoreKey, Seq<Diagnostic>> {
    match result {
        ReportResult::Report(DocumentReport::Full { items, related_documents, .. }) =>
            apply_related(
            m.insert(store_key(uri, provider), items@),
            provider,
            related_documents@,
        ),
        ReportResult::Report(DocumentReport::Unchanged { related_documents, .. }) => apply_related(
            m,
            provider,
            related_documents@,
        ),
        ReportResult::Partial => m,
    }
}

/// Effect of a whole report on the document's cursors: an accepted Full or
/// Unchanged report stores its result id as the provider's cursor (a Full
/// report without one clears it); a Partial result changes nothing.
pub open spec fn report_cursor_effect(
    c: Map<(int, Option<Seq<char>>), Option<Seq<char>>>,
    provider: DiagnosticProvider,
    result: ReportResult,
) -> Map<(int, Option<Seq<char>>), Option<Seq<char>>> {
    match result {
        ReportResult::Report(DocumentReport::Full { result_id, .. }) => c.insert(
            provider_key(provider),
            opt_str_view(result_id),
        ),
        ReportResult::Report(DocumentReport::Unchanged { result_id, .. }) => c.insert(
            provider_key(provider),
            Some(result_id@),
        ),
        ReportResult::Partial => c,
    }
}

/// The uris whose stored diagnostics a list of related sub-reports changes.
pub open spec fn related_changed_uris(rel: Seq<RelatedDocumentReport>) -> Seq<Uri>
    decreases rel.len(),
{
    if rel.len() == 0 {
        Seq::empty()
    } else {
        (match rel.first().report {
            RelatedReport::Full { .. } => seq![rel.first().uri],
            RelatedReport::Unchanged { .. } => Seq::<Uri>::empty(),
        }) + related_changed_uris(rel.drop_first())
    }
}

/// The uris whose stored diagnostics a report changes, in application order.
pub open spec fn report_changed_uris(uri: Uri, result: ReportResult) -> Seq<Uri> {
    match result {
        ReportResult::Report(DocumentReport::Full { related_documents, .. }) => seq![uri]
            + related_changed_uris(related_documents@),
        ReportResult::Report(DocumentReport::Unchanged { related_documents, .. }) =>
            related_changed_uris(
            related_documents@,
        ),
        ReportResult::Partial => Seq::empty(),
    }
}

/// Applies the related-document sub-reports of a report, in order.
fn apply_related_reports(
    store: &mut DiagnosticsStore,
    provider: &DiagnosticProvider,
    related: Vec<RelatedDocumentReport>,
    changed: &mut Vec<Uri>,
)
    requires
        old(store).wf(),
    ensures
        final(store).wf(),
        final(store).contents() == apply_related(old(store).contents(), *provider, related@),
        final(changed)@ == old(changed)@ + related_changed_uris(related@),
{
    let ghost orig_rel = related@;
    let ghost start_contents = store.contents();
    let ghost start_changed = changed@;
    let mut rel = related;
    while rel.len() > 0
        invariant
            store.wf(),
            apply_related(store.contents(), *provider, rel@) == apply_related(
                start_contents,
                *provider,
                orig_rel,
            ),
            changed@ + related_changed_uris(rel@) == start_changed + related_changed_uris(
                orig_rel,
            ),
        decreases rel@.len(),
    {
        let ghost rel_before = rel@;
        let ghost contents_before = store.contents();
        let ghost changed_before = changed@;
        let r = rel.remove(0);
        proof {
            assert(rel_before.first() == r);
            assert(rel@ =~= rel_before.drop_first());
            assert(apply_related(contents_before, *provider, rel_before) == apply_related(
                apply_one_related(contents_before, *provider, rel_before.first()),
                *provider,
                rel_before.drop_first(),
            ));
            assert(related_changed_uris(rel_before) == (match rel_before.first().report {
                RelatedReport::Full { .. } => seq![rel_before.first().uri],
                RelatedReport::Unchanged { .. } => Seq::<Uri>::empty(),
            }) + related_changed_uris(rel_before.drop_first()));
        }
        match r {
            RelatedDocumentReport { uri, report: RelatedReport::Full { result_id: _, items } } => {
                store.replace(uri, provider.duplicate(), items);
                changed.push(uri);
                proof {
                    assert(store.contents() == apply_one_related(
                        contents_before,
                        *provider,
                        rel_before.first(),
                    ));
                    assert(changed@ =~= changed_before + seq![rel_before.first().uri]);
                    assert(changed@ + related_changed_uris(rel@) =~= changed_before + (
                    seq![rel_before.first().uri] + related_changed_uris(rel@)));
                }
            },
            RelatedDocumentReport { uri: _, report: RelatedReport::Unchanged { .. } } => {
                proof {
                    assert(Seq::<Uri>::empty() + related_changed_uris(rel@) =~= related_changed_uris(
                        rel@,
                    ));
                }
            },
        }
    }
    proof {
        assert(rel@.len() == 0);
        assert(apply_related(store.contents(), *provider, rel@) == store.contents());
        assert(related_changed_uris(rel@) == Seq::<Uri>::empty());
        assert(changed@ + related_changed_uris(rel@) =~= changed@);
    }
}

/// Applies one provider's report for one document: Full wholesale-replaces
/// the stored set and records its result id as the provider's cursor;
/// Unchanged leaves the store untouched but still advances the cursor;
/// Partial is a deliberate no-op; related-document sub-reports are applied
/// with the same Full/Unchanged rule under the same provider. Returns the
/// uris whose stored diagnostics changed, for "diagnostics changed"
/// notifications.
pub fn handle_pull_diagnostics_response(
    store: &mut DiagnosticsStore,
    cursors: &mut CursorTable,
    result: ReportResult,
    provider: DiagnosticProvider,
    uri: Uri,
) -> (changed: Vec<Uri>)
    requires
        old(store).wf(),
        old(cursors).wf(),
    ensures
        final(store).wf(),
        final(cursors).wf(),
        final(store).contents() == report_store_effect(
            old(store).contents(),
            provider,
            uri,
            result,
        ),
        final(cursors).view_map() == report_cursor_effect(
            old(cursors).view_map(),
            provider,
            result,
        ),
        changed@ == report_changed_uris(uri, result),
{
    let mut changed: Vec<Uri> = Vec::new();
    match result {
        ReportResult::Report(DocumentReport::Full { result_id, items, related_documents }) => {
            store.replace(uri, provider.duplicate(), items);
            changed.push(uri);
            apply_related_reports(store, &provider, related_documents, &mut changed);
            cursors.set_cursor(provider, result_id);
        },
        ReportResult::Report(DocumentReport::Unchanged { result_id, related_documents }) => {
            apply_related_reports(store, &provider, related_documents, &mut changed);
            cursors.set_cursor(provider, Some(result_id));
        },
        ReportResult::Partial => {},
    }
    changed
}

} // verus!
