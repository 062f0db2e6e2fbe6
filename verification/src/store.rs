//! Shared diagnostics store: diagnostic sets keyed by (document uri,
//! provider), wholesale-replaced on a Full report and never merged.

use vstd::prelude::*;
use crate::diagnostic::{provider_key, Diagnostic, DiagnosticProvider, Uri};

verus! {

/// Mathematical key of one stored diagnostic set: the document uri and the
/// provider identity it came from.
pub ghost struct StoreKey {
    pub uri: int,
    pub provider: (int, Option<Seq<char>>),
}

pub open spec fn store_key(uri: Uri, provider: DiagnosticProvider) -> StoreKey {
    StoreKey { uri: uri.value as int, provider: provider_key(provider) }
}

/// One diagnostic set: all current diagnostics reported for `uri` by
/// `provider`.
pub struct StoreEntry {
    pub uri: Uri,
    pub provider: DiagnosticProvider,
    pub items: Vec<Diagnostic>,
}

pub open spec fn entry_key(e: StoreEntry) -> StoreKey {
    store_key(e.uri, e.provider)
}

/// The sets held by a sequence of entries, later entries overwriting earlier
/// ones with the same key.
pub open spec fn entries_map(s: Seq<StoreEntry>) -> Map<StoreKey, Seq<Diagnostic>>
    decreases s.len(),
{
    if s.len() == 0 {
        Map::empty()
    } else {
        entries_map(s.drop_last()).insert(entry_key(s.last()), s.last().items@)
    }
}

/// A key is in the map exactly when some entry carries it.
proof fn lemma_entries_map_dom(s: Seq<StoreEntry>, k: StoreKey)
    ensures
        entries_map(s).contains_key(k) <==> exists|i: int|
            0 <= i < s.len() && entry_key(s[i]) == k,
    decreases s.len(),
{
    if s.len() > 0 {
        lemma_entries_map_dom(s.drop_last(), k);
        if entries_map(s).contains_key(k) {
            if entry_key(s.last()) == k {
                assert(entry_key(s[s.len() - 1]) == k);
            } else {
                let i = choose|i: int| 0 <= i < s.drop_last().len() && entry_key(
                    s.drop_last()[i],
                ) == k;
                assert(entry_key(s[i]) == k);
            }
        }
        if exists|i: int| 0 <= i < s.len() && entry_key(s[i]) == k {
            let i = choose|i: int| 0 <= i < s.len() && entry_key(s[i]) == k;
            if i < s.len() - 1 {
                assert(entry_key(s.drop_last()[i]) == k);
            }
        }
    }
}

/// Overwriting the entry at `i` with one of the same key is exactly a map
/// insert at that key, provided no later entry shadows it.
proof fn lemma_entries_map_update(s: Seq<StoreEntry>, i: int, e: StoreEntry)
    requires
        0 <= i < s.len(),
        entry_key(e) == entry_key(s[i]),
        forall|j: int, l: int| 0 <= j < l < s.len() ==> entry_key(s[j]) != entry_key(s[l]),
    ensures
        entries_map(s.update(i, e)) =~= entries_map(s).insert(entry_key(e), e.items@),
    decreases s.len(),
{
    let t = s.update(i, e);
    if i == s.len() - 1 {
        assert(t.drop_last() =~= s.drop_last());
        assert(t.last() == e);
    } else {
        assert(t.last() == s.last());
        assert(t.drop_last() =~= s.drop_last().update(i, e));
        lemma_entries_map_update(s.drop_last(), i, e);
        assert(entry_key(s.last()) != entry_key(e)) by {
            assert(entry_key(s[i]) != entry_key(s[s.len() - 1]));
        }
    }
}

/// The diagnostics store. Sets are wholesale-replaced per key; keys are
/// unique among the entries.
pub struct DiagnosticsStore {
    pub entries: Vec<StoreEntry>,
}

impl DiagnosticsStore {
    /// No two entries share a (uri, provider) key.
    pub open spec fn wf(&self) -> bool {
        forall|i: int, j: int|
            0 <= i < j < self.entries@.len() ==> entry_key(self.entries@[i]) != entry_key(
                self.entries@[j],
            )
    }

    /// The store as a map from (uri, provider) to the held diagnostic set.
    pub open spec fn contents(&self) -> Map<StoreKey, Seq<Diagnostic>> {
        entries_map(self.entries@)
    }

    pub fn new() -> (r: DiagnosticsStore)
        ensures
            r.wf(),
            r.contents() =~= Map::<StoreKey, Seq<Diagnostic>>::empty(),
    {
        DiagnosticsStore { entries: Vec::new() }
    }

    /// Index of the entry for (uri, provider), if one is held.
    fn position(&self, uri: &Uri, provider: &DiagnosticProvider) -> (r: Option<usize>)
        ensures
            match r {
                Some(i) => i < self.entries@.len() && entry_key(self.entries@[i as int])
                    == store_key(*uri, *provider),
                None => forall|i: int|
                    0 <= i < self.entries@.len() ==> entry_key(self.entries@[i]) != store_key(
                        *uri,
                        *provider,
                    ),
            },
    {
        let mut i: usize = 0;
        while i < self.entries.len()
            invariant
                i <= self.entries@.len(),
                forall|j: int|
                    0 <= j < i ==> entry_key(self.entries@[j]) != store_key(*uri, *provider),
            decreases self.entries@.len() - i,
        {
            let entry = &self.entries[i];
            if entry.uri.value == uri.value && entry.provider.equals(provider) {
                return Some(i);
            }
            i = i + 1;
        }
        None
    }

    /// Wholesale-replaces the diagnostic set for (uri, provider) with
    /// `items`; every other set is untouched.
    pub fn replace(&mut self, uri: Uri, provider: DiagnosticProvider, items: Vec<Diagnostic>)
        requires
            old(self).wf(),
        ensures
            final(self).wf(),
            final(self).contents() =~= old(self).contents().insert(
                store_key(uri, provider),
                items@,
            ),
    {
        let pos = self.position(&uri, &provider);
        let entry = StoreEntry { uri, provider, items };
        match pos {
            Some(i) => {
                proof {
                    lemma_entries_map_update(self.entries@, i as int, entry);
                }
                self.entries[i] = entry;
            },
            None => {
                proof {
                    lemma_entries_map_dom(self.entries@, entry_key(entry));
                    assert(self.entries@.push(entry).drop_last() =~= self.entries@);
                    assert(forall|j: int|
                        0 <= j < self.entries@.len() ==> self.entries@.push(entry)[j] == self
                            .entries@[j]);
                }
                self.entries.push(entry);
            },
        }
    }

    /// The diagnostic set held for (uri, provider): `Some` exactly when one
    /// is held, with exactly the held items.
    pub fn get(&self, uri: &Uri, provider: &DiagnosticProvider) -> (r: Option<&Vec<Diagnostic>>)
        requires
            self.wf(),
        ensures
            match r {
                Some(items) => self.contents().contains_key(store_key(*uri, *provider))
                    && items@ == self.contents()[store_key(*uri, *provider)],
                None => !self.contents().contains_key(store_key(*uri, *provider)),
            },
    {
        proof {
            lemma_entries_map_dom(self.entries@, store_key(*uri, *provider));
        }
        match self.position(uri, provider) {
            Some(i) => {
                proof {
                    lemma_entries_map_at(self.entries@, i as int);
                }
                Some(&self.entries[i].items)
            },
            None => None,
        }
    }
}

/// Under unique keys, the map holds each entry's items at its key.
proof fn lemma_entries_map_at(s: Seq<StoreEntry>, i: int)
    requires
        0 <= i < s.len(),
        forall|j: int, l: int| 0 <= j < l < s.len() ==> entry_key(s[j]) != entry_key(s[l]),
    ensures
        entries_map(s).contains_key(entry_key(s[i])),
        entries_map(s)[entry_key(s[i])] == s[i].items@,
    decreases s.len(),
{
    if i == s.len() - 1 {
    } else {
        lemma_entries_map_at(s.drop_last(), i);
        assert(s.drop_last()[i] == s[i]);
        assert(entry_key(s[i]) != entry_key(s[s.len() - 1]));
    }
}

} // verus!
