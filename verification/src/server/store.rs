//! The tracked documents and their cached semantic tokens.
//!
//! A document is tracked either because the editor opened it or because a
//! workspace scan loaded it from disk. The editor owns open documents: disk
//! events and file operations never touch them. Whenever a document is
//! installed afresh or dropped, the semantic tokens cached for its URL go
//! too, so no cached stream describes text the store no longer holds.

use vstd::prelude::*;

use super::fallback::FallbackCache;
use super::keyed::KeyedList;
use super::stamp::{FileStamp, stamp_unchanged};
use crate::text_utils::sorting::seq_less;
use crate::text_utils::strings::str_equal;
use crate::workspace::diagnostics::WorkspaceDiagnosticsState;

verus! {

/// Why a document is tracked.
#[derive(Debug, Clone, Copy, PartialEq, Eq, Structural)]
pub enum DocumentOrigin {
    /// The editor opened it; the editor owns its text.
    Open,
    /// A workspace scan loaded it from disk.
    Workspace,
}

/// A tracked document with its version, origin and the disk stamp it was
/// loaded under.
#[derive(Debug)]
pub struct TrackedDocument<D> {
    pub document: D,
    pub version: i32,
    pub origin: DocumentOrigin,
    pub stamp: Option<FileStamp>,
}

/// The tracked documents, keyed by URL, and the semantic tokens cached per
/// URL.
#[derive(Debug)]
pub struct DocumentStore<D, T> {
    documents: KeyedList<TrackedDocument<D>>,
    tokens: KeyedList<T>,
}

/// What closing a document calls for.
#[derive(Debug, Clone, Copy, PartialEq, Eq, Structural)]
pub enum CloseStep {
    /// The document was not tracked.
    Untracked,
    /// The document was dropped.
    Removed,
    /// The document stays tracked as a workspace document: read it again
    /// from disk and hand the result to [`DocumentStore::finish_close`].
    Reread,
}

/// What a watched-file event calls for.
#[derive(Debug, Clone, Copy, PartialEq, Eq, Structural)]
pub enum WatchedStep {
    /// Nothing: the URL is untracked, or the editor owns the document.
    Skipped,
    /// The workspace document was dropped.
    Removed,
    /// Read the workspace document again; if that succeeds, install it.
    Reread,
}

/// Whether `after` and `tokens_after` are `before` and `tokens_before`
/// with every workspace document dropped, and its tokens with it.
pub open spec fn workspace_dropped<D, T>(
    before: Map<Seq<char>, TrackedDocument<D>>,
    tokens_before: Map<Seq<char>, T>,
    after: Map<Seq<char>, TrackedDocument<D>>,
    tokens_after: Map<Seq<char>, T>,
) -> bool {
    &&& forall|url: Seq<char>| #[trigger]
        after.contains_key(url) <==> before.contains_key(url) && before[url].origin
            == DocumentOrigin::Open
    &&& forall|url: Seq<char>| #[trigger] after.contains_key(url) ==> after[url] == before[url]
    &&& forall|url: Seq<char>| #[trigger]
        tokens_after.contains_key(url) <==> tokens_before.contains_key(url) && !(before.contains_key(
            url,
        ) && before[url].origin == DocumentOrigin::Workspace)
    &&& forall|url: Seq<char>| #[trigger]
        tokens_after.contains_key(url) ==> tokens_after[url] == tokens_before[url]
}

/// Whether `url` is among `urls`.
pub open spec fn listed(urls: Seq<String>, url: Seq<char>) -> bool {
    exists|i: int| 0 <= i < urls.len() && #[trigger] urls[i]@ == url
}

/// Whether a document survives a workspace scan: the editor owns it, it
/// lies outside the scanned roots, or the scan found it.
pub open spec fn survives_scan(
    origin: DocumentOrigin,
    url: Seq<char>,
    in_roots: Seq<String>,
    walked: Seq<String>,
) -> bool {
    origin == DocumentOrigin::Open || !listed(in_roots, url) || listed(walked, url)
}

fn is_listed(urls: &[String], url: &str) -> (r: bool)
    ensures
        r == listed(urls@, url@),
{
    let mut i: usize = 0;
    while i < urls.len()
        invariant
            0 <= i <= urls@.len(),
            forall|j: int| 0 <= j < i ==> urls@[j]@ != url@,
        decreases urls@.len() - i,
    {
        if str_equal(urls[i].as_str(), url) {
            return true;
        }
        i = i + 1;
    }
    false
}

impl<D, T> DocumentStore<D, T> {
    /// The tracked documents by URL.
    pub closed spec fn documents(&self) -> Map<Seq<char>, TrackedDocument<D>> {
        self.documents.map()
    }

    /// The cached semantic tokens by URL.
    pub closed spec fn tokens(&self) -> Map<Seq<char>, T> {
        self.tokens.map()
    }

    /// The store's invariant: each URL is held at most once.
    pub closed spec fn wf(&self) -> bool {
        self.documents.wf() && self.tokens.wf()
    }

    /// An empty store.
    pub fn new() -> (r: Self)
        ensures
            r.wf(),
            r.documents() == Map::<Seq<char>, TrackedDocument<D>>::empty(),
            r.tokens() == Map::<Seq<char>, T>::empty(),
    {
        DocumentStore { documents: KeyedList::new(), tokens: KeyedList::new() }
    }

    /// The tracked document at `url`, if any.
    pub fn document(&self, url: &str) -> (r: Option<&D>)
        requires
            self.wf(),
        ensures
            match r {
                Some(document) => self.documents().contains_key(url@)
                    && self.documents()[url@].document == *document,
                None => !self.documents().contains_key(url@),
            },
    {
        match self.documents.get(url) {
            Some(entry) => Some(&entry.document),
            None => None,
        }
    }

    /// The version of the tracked document at `url`, if any.
    pub fn document_version(&self, url: &str) -> (r: Option<i32>)
        requires
            self.wf(),
        ensures
            r == (if self.documents().contains_key(url@) {
                Some(self.documents()[url@].version)
            } else {
                None
            }),
    {
        match self.documents.get(url) {
            Some(entry) => Some(entry.version),
            None => None,
        }
    }

    /// The version reported with workspace diagnostics: an open document's
    /// version; none for a document loaded from disk or not tracked.
    pub fn document_workspace_version(&self, url: &str) -> (r: Option<i64>)
        requires
            self.wf(),
        ensures
            r == (if self.documents().contains_key(url@) && self.documents()[url@].origin
                == DocumentOrigin::Open {
                Some(self.documents()[url@].version as i64)
            } else {
                None
            }),
    {
        match self.documents.get(url) {
            Some(entry) => match entry.origin {
                DocumentOrigin::Open => Some(entry.version as i64),
                DocumentOrigin::Workspace => None,
            },
            None => None,
        }
    }

    /// The sole tracked document, when exactly one is tracked.
    pub fn sole_document(&self) -> (r: Option<&D>)
        requires
            self.wf(),
        ensures
            match r {
                Some(document) => exists|url: Seq<char>|
                    self.documents().dom() == set![url] && self.documents()[url].document
                        == *document,
                None => forall|url: Seq<char>| self.documents().dom() != set![url],
            },
    {
        match self.documents.sole() {
            Some(entry) => Some(&entry.document),
            None => None,
        }
    }

    /// The URLs of all tracked documents, in increasing order.
    pub fn document_urls(&self) -> (r: Vec<String>)
        requires
            self.wf(),
        ensures
            forall|i: int, j: int| 0 <= i < j < r@.len() ==> seq_less(#[trigger] r@[i]@, #[trigger] r@[j]@),
            forall|url: Seq<char>| self.documents().contains_key(url) <==> listed(r@, url),
    {
        self.documents.sorted_keys()
    }

    /// The semantic tokens cached for `url`, if any.
    pub fn cached_semantic_tokens(&self, url: &str) -> (r: Option<&T>)
        requires
            self.wf(),
        ensures
            match r {
                Some(tokens) => self.tokens().contains_key(url@) && self.tokens()[url@] == *tokens,
                None => !self.tokens().contains_key(url@),
            },
    {
        self.tokens.get(url)
    }

    /// Caches semantic tokens for `url`, replacing earlier ones.
    pub fn store_semantic_tokens(&mut self, url: String, tokens: T)
        requires
            old(self).wf(),
        ensures
            final(self).wf(),
            final(self).documents() == old(self).documents(),
            final(self).tokens() == old(self).tokens().insert(url@, tokens),
    {
        self.tokens.insert(url, tokens);
    }

    /// Installs a document afresh (an editor open, a disk read): it replaces
    /// whatever the URL tracked, carries no disk stamp, and the tokens
    /// cached for the URL are dropped.
    pub fn insert_document(&mut self, url: String, document: D, version: i32, origin: DocumentOrigin)
        requires
            old(self).wf(),
        ensures
            final(self).wf(),
            final(self).documents() == old(self).documents().insert(
                url@,
                TrackedDocument { document, version, origin, stamp: None },
            ),
            final(self).tokens() == old(self).tokens().remove(url@),
    {
        self.tokens.remove(url.as_str());
        self.documents.insert(url, TrackedDocument { document, version, origin, stamp: None });
    }

    /// Drops the document at `url` and its cached tokens.
    pub fn remove_document(&mut self, url: &str)
        requires
            old(self).wf(),
        ensures
            final(self).wf(),
            final(self).documents() == old(self).documents().remove(url@),
            final(self).tokens() == old(self).tokens().remove(url@),
    {
        self.documents.remove(url);
        self.tokens.remove(url);
    }

    /// Closes the document at `url`. One that should stay tracked as a
    /// workspace document (`keep_as_workspace`: workspace diagnostics are
    /// enabled, a matcher claims the URL and it lies in a workspace root)
    /// is kept until [`DocumentStore::finish_close`] gets its disk text;
    /// any other is dropped with its tokens.
    pub fn close_document(&mut self, url: &str, keep_as_workspace: bool) -> (r: CloseStep)
        requires
            old(self).wf(),
        ensures
            final(self).wf(),
            !old(self).documents().contains_key(url@) ==> r == CloseStep::Untracked && final(self).documents() == old(self).documents() && final(self).tokens() == old(self).tokens(),
            old(self).documents().contains_key(url@) && !keep_as_workspace ==> r
                == CloseStep::Removed && final(self).documents() == old(self).documents().remove(
                url@,
            ) && final(self).tokens() == old(self).tokens().remove(url@),
            old(self).documents().contains_key(url@) && keep_as_workspace ==> r == CloseStep::Reread
                && final(self).documents() == old(self).documents() && final(self).tokens() == old(self).tokens(),
    {
        if !self.documents.contains(url) {
            return CloseStep::Untracked;
        }
        if !keep_as_workspace {
            self.remove_document(url);
            return CloseStep::Removed;
        }
        CloseStep::Reread
    }

    /// Completes a close that kept the document: the disk text installs it
    /// as a workspace document with no version; when the file could not be
    /// read, the document is dropped.
    pub fn finish_close(&mut self, url: String, reread: Option<D>)
        requires
            old(self).wf(),
        ensures
            final(self).wf(),
            final(self).tokens() == old(self).tokens().remove(url@),
            final(self).documents() == match reread {
                Some(document) => old(self).documents().insert(
                    url@,
                    TrackedDocument {
                        document,
                        version: 0,
                        origin: DocumentOrigin::Workspace,
                        stamp: None,
                    },
                ),
                None => old(self).documents().remove(url@),
            },
    {
        match reread {
            Some(document) => self.insert_document(url, document, 0, DocumentOrigin::Workspace),
            None => self.remove_document(url.as_str()),
        }
    }

    /// Applies an edit of a tracked document: the editor now owns it, at the
    /// given version, with the edited document. Returns whether the URL was
    /// tracked; an untracked URL changes nothing.
    pub fn change_document(&mut self, url: &str, version: i32, document: D) -> (r: bool)
        requires
            old(self).wf(),
        ensures
            final(self).wf(),
            r == old(self).documents().contains_key(url@),
            final(self).tokens() == old(self).tokens(),
            final(self).documents() == if r {
                old(self).documents().insert(
                    url@,
                    TrackedDocument {
                        document,
                        version,
                        origin: DocumentOrigin::Open,
                        stamp: old(self).documents()[url@].stamp,
                    },
                )
            } else {
                old(self).documents()
            },
    {
        match self.documents.remove(url) {
            Some(entry) => {
                self.documents.insert(
                    url.to_owned(),
                    TrackedDocument {
                        document,
                        version,
                        origin: DocumentOrigin::Open,
                        stamp: entry.stamp,
                    },
                );
                proof {
                    assert(self.documents.map() =~= old(self).documents().insert(
                        url@,
                        TrackedDocument {
                            document,
                            version,
                            origin: DocumentOrigin::Open,
                            stamp: old(self).documents()[url@].stamp,
                        },
                    ));
                }
                true
            },
            None => {
                proof {
                    assert(self.documents.map() =~= old(self).documents());
                }
                false
            },
        }
    }

    /// Settles a change batch that failed part way, once the batch's applied
    /// prefix was installed with [`DocumentStore::change_document`]: when the
    /// file could be read again (`reread`), its text replaces the document
    /// as the editor's at `version`, with no stamp, and the cached tokens
    /// go; otherwise `kept` (the applied prefix, its tree parsed afresh)
    /// stays at `version`, keeping the stamp and the tokens. Returns whether
    /// the URL was tracked; an untracked URL changes nothing.
    pub fn settle_failed_change(&mut self, url: &str, version: i32, reread: Option<D>, kept: D) -> (r:
        bool)
        requires
            old(self).wf(),
        ensures
            final(self).wf(),
            r == old(self).documents().contains_key(url@),
            !r ==> final(self).documents() == old(self).documents() && final(self).tokens() == old(self).tokens(),
            r ==> final(self).documents() == old(self).documents().insert(
                url@,
                match reread {
                    Some(document) => TrackedDocument {
                        document,
                        version,
                        origin: DocumentOrigin::Open,
                        stamp: None,
                    },
                    None => TrackedDocument {
                        document: kept,
                        version,
                        origin: DocumentOrigin::Open,
                        stamp: old(self).documents()[url@].stamp,
                    },
                },
            ),
            r ==> final(self).tokens() == match reread {
                Some(_) => old(self).tokens().remove(url@),
                None => old(self).tokens(),
            },
    {
        match self.documents.remove(url) {
            Some(entry) => {
                match reread {
                    Some(document) => {
                        self.tokens.remove(url);
                        self.documents.insert(
                            url.to_owned(),
                            TrackedDocument {
                                document,
                                version,
                                origin: DocumentOrigin::Open,
                                stamp: None,
                            },
                        );
                        proof {
                            assert(self.documents.map() =~= old(self).documents().insert(
                                url@,
                                TrackedDocument {
                                    document,
                                    version,
                                    origin: DocumentOrigin::Open,
                                    stamp: None,
                                },
                            ));
                        }
                    },
                    None => {
                        self.documents.insert(
                            url.to_owned(),
                            TrackedDocument {
                                document: kept,
                                version,
                                origin: DocumentOrigin::Open,
                                stamp: entry.stamp,
                            },
                        );
                        proof {
                            assert(self.documents.map() =~= old(self).documents().insert(
                                url@,
                                TrackedDocument {
                                    document: kept,
                                    version,
                                    origin: DocumentOrigin::Open,
                                    stamp: entry.stamp,
                                },
                            ));
                        }
                    },
                }
                true
            },
            None => {
                proof {
                    assert(self.documents.map() =~= old(self).documents());
                }
                false
            },
        }
    }

    /// Applies a save: the saved text (from the notification, or failing
    /// that from disk) replaces the document, keeping its version, origin
    /// and stamp; without any text the document is dropped. Either way the
    /// cached tokens go. An untracked URL changes nothing.
    pub fn save_document(&mut self, url: &str, saved: Option<D>) -> (r: bool)
        requires
            old(self).wf(),
        ensures
            final(self).wf(),
            r == old(self).documents().contains_key(url@),
            !r ==> final(self).documents() == old(self).documents() && final(self).tokens() == old(self).tokens(),
            r ==> final(self).tokens() == old(self).tokens().remove(url@),
            r ==> final(self).documents() == match saved {
                Some(document) => old(self).documents().insert(
                    url@,
                    TrackedDocument { document, ..old(self).documents()[url@] },
                ),
                None => old(self).documents().remove(url@),
            },
    {
        match self.documents.remove(url) {
            Some(entry) => {
                self.tokens.remove(url);
                match saved {
                    Some(document) => {
                        self.documents.insert(
                            url.to_owned(),
                            TrackedDocument {
                                document,
                                version: entry.version,
                                origin: entry.origin,
                                stamp: entry.stamp,
                            },
                        );
                        proof {
                            assert(self.documents.map() =~= old(self).documents().insert(
                                url@,
                                TrackedDocument { document, ..old(self).documents()[url@] },
                            ));
                        }
                    },
                    None => {},
                }
                true
            },
            None => {
                proof {
                    assert(self.documents.map() =~= old(self).documents());
                }
                false
            },
        }
    }

    /// Handles a watched-file event for `url`: untracked URLs and open
    /// documents are left alone; a deleted workspace document is dropped
    /// with its tokens; a created or changed one is to be read again.
    pub fn watched_file_event(&mut self, url: &str, deleted: bool) -> (r: WatchedStep)
        requires
            old(self).wf(),
        ensures
            final(self).wf(),
            r == (if !old(self).documents().contains_key(url@) || old(self).documents()[url@].origin
                == DocumentOrigin::Open {
                WatchedStep::Skipped
            } else if deleted {
                WatchedStep::Removed
            } else {
                WatchedStep::Reread
            }),
            r == WatchedStep::Removed ==> final(self).documents() == old(self).documents().remove(
                url@,
            ) && final(self).tokens() == old(self).tokens().remove(url@),
            r != WatchedStep::Removed ==> final(self).documents() == old(self).documents()
                && final(self).tokens() == old(self).tokens(),
    {
        let origin = match self.documents.get(url) {
            Some(entry) => entry.origin,
            None => return WatchedStep::Skipped,
        };
        match origin {
            DocumentOrigin::Open => WatchedStep::Skipped,
            DocumentOrigin::Workspace => {
                if deleted {
                    self.remove_document(url);
                    WatchedStep::Removed
                } else {
                    WatchedStep::Reread
                }
            },
        }
    }

    /// Drops the workspace document at `url` (a file was renamed away or
    /// deleted); an open document is never touched. Returns whether a
    /// document was dropped; its tokens go with it.
    pub fn remove_workspace_document(&mut self, url: &str) -> (r: bool)
        requires
            old(self).wf(),
        ensures
            final(self).wf(),
            r == (old(self).documents().contains_key(url@) && old(self).documents()[url@].origin
                == DocumentOrigin::Workspace),
            r ==> final(self).documents() == old(self).documents().remove(url@) && final(self).tokens() == old(self).tokens().remove(url@),
            !r ==> final(self).documents() == old(self).documents() && final(self).tokens() == old(self).tokens(),
    {
        let workspace = match self.documents.get(url) {
            Some(entry) => entry.origin == DocumentOrigin::Workspace,
            None => false,
        };
        if workspace {
            self.remove_document(url);
        }
        workspace
    }

    /// Whether the workspace scan must load `url` again under the disk stamp
    /// `stamp`: unless it is tracked as an open document, or as a workspace
    /// document read under exactly that stamp.
    pub open spec fn needs_load_spec(&self, url: Seq<char>, stamp: Option<FileStamp>) -> bool {
        !(self.documents().contains_key(url) && (self.documents()[url].origin
            == DocumentOrigin::Open || (self.documents()[url].stamp is Some
            && self.documents()[url].stamp == stamp)))
    }

    /// Whether the workspace scan must load `url` again, given its current
    /// disk stamp: not for an open document, nor for a workspace document
    /// whose recorded stamp matches exactly.
    pub fn needs_load(&self, url: &str, stamp: Option<FileStamp>) -> (r: bool)
        requires
            self.wf(),
        ensures
            r == !(self.documents().contains_key(url@) && (self.documents()[url@].origin
                == DocumentOrigin::Open || (self.documents()[url@].stamp is Some
                && self.documents()[url@].stamp == stamp))),
    {
        match self.documents.get(url) {
            Some(entry) => match entry.origin {
                DocumentOrigin::Open => false,
                DocumentOrigin::Workspace => !stamp_unchanged(entry.stamp, stamp),
            },
            None => true,
        }
    }

    /// Installs a document the workspace scan loaded, under the disk stamp
    /// probed before the read.
    pub fn install_loaded(&mut self, url: String, document: D, stamp: Option<FileStamp>)
        requires
            old(self).wf(),
        ensures
            final(self).wf(),
            final(self).documents() == old(self).documents().insert(
                url@,
                TrackedDocument { document, version: 0, origin: DocumentOrigin::Workspace, stamp },
            ),
            final(self).tokens() == old(self).tokens().remove(url@),
    {
        self.tokens.remove(url.as_str());
        self.documents.insert(
            url,
            TrackedDocument { document, version: 0, origin: DocumentOrigin::Workspace, stamp },
        );
    }

    /// Settles one file of a workspace scan, given its disk stamp and, when
    /// the scan had to read it ([`DocumentStore::needs_load`]), what the read
    /// gave. A file that needs no load stays as it is tracked; a loaded one
    /// is installed under the stamp; one that could not be read changes
    /// nothing. Returns whether the file stays in the scan: a file that
    /// could not be read is left out of it, so that the scan drops whatever
    /// was tracked for it.
    pub fn settle_load(&mut self, url: &str, stamp: Option<FileStamp>, loaded: Option<D>) -> (r: bool)
        requires
            old(self).wf(),
        ensures
            final(self).wf(),
            r == (!old(self).needs_load_spec(url@, stamp) || loaded is Some),
            old(self).needs_load_spec(url@, stamp) && loaded is Some ==> final(self).documents()
                == old(self).documents().insert(
                url@,
                TrackedDocument {
                    document: loaded->0,
                    version: 0,
                    origin: DocumentOrigin::Workspace,
                    stamp,
                },
            ) && final(self).tokens() == old(self).tokens().remove(url@),
            !(old(self).needs_load_spec(url@, stamp) && loaded is Some) ==> final(self).documents()
                == old(self).documents() && final(self).tokens() == old(self).tokens(),
    {
        if !self.needs_load(url, stamp) {
            return true;
        }
        match loaded {
            Some(document) => {
                self.install_loaded(url.to_owned(), document, stamp);
                true
            },
            None => false,
        }
    }

    /// Drops every workspace document (workspace diagnostics were turned
    /// off), with its tokens; open documents stay.
    pub fn remove_workspace_documents(&mut self)
        requires
            old(self).wf(),
        ensures
            final(self).wf(),
            workspace_dropped(
                old(self).documents(),
                old(self).tokens(),
                final(self).documents(),
                final(self).tokens(),
            ),
    {
        let none: Vec<String> = Vec::new();
        self.retain_scanned_inner(&none, &none, true);
    }

    /// Drops what a workspace scan no longer finds: a workspace document in
    /// the scanned roots (`in_roots`: the tracked URLs that lie in them) that
    /// the scan did not walk (`walked`) goes, with its tokens.
    pub fn retain_scanned(&mut self, in_roots: &[String], walked: &[String])
        requires
            old(self).wf(),
        ensures
            final(self).wf(),
            forall|url: Seq<char>| #[trigger]
                final(self).documents().contains_key(url) <==> old(self).documents().contains_key(
                    url,
                ) && survives_scan(old(self).documents()[url].origin, url, in_roots@, walked@),
            forall|url: Seq<char>| #[trigger]
                final(self).documents().contains_key(url) ==> final(self).documents()[url] == old(self).documents()[url],
            forall|url: Seq<char>| #[trigger]
                final(self).tokens().contains_key(url) <==> old(self).tokens().contains_key(url)
                    && !(old(self).documents().contains_key(url) && !survives_scan(
                    old(self).documents()[url].origin,
                    url,
                    in_roots@,
                    walked@,
                )),
            forall|url: Seq<char>| #[trigger]
                final(self).tokens().contains_key(url) ==> final(self).tokens()[url] == old(self).tokens()[url],
    {
        self.retain_scanned_inner(in_roots, walked, false);
    }

    /// Keeps a document when the editor owns it, or (unless
    /// `everywhere`) when it lies outside `in_roots` or was walked.
    fn retain_scanned_inner(&mut self, in_roots: &[String], walked: &[String], everywhere: bool)
        requires
            old(self).wf(),
        ensures
            final(self).wf(),
            forall|url: Seq<char>| #[trigger]
                final(self).documents().contains_key(url) <==> old(self).documents().contains_key(
                    url,
                ) && kept(old(self).documents()[url].origin, url, in_roots@, walked@, everywhere),
            forall|url: Seq<char>| #[trigger]
                final(self).documents().contains_key(url) ==> final(self).documents()[url] == old(self).documents()[url],
            forall|url: Seq<char>| #[trigger]
                final(self).tokens().contains_key(url) <==> old(self).tokens().contains_key(url)
                    && !(old(self).documents().contains_key(url) && !kept(
                    old(self).documents()[url].origin,
                    url,
                    in_roots@,
                    walked@,
                    everywhere,
                )),
            forall|url: Seq<char>| #[trigger]
                final(self).tokens().contains_key(url) ==> final(self).tokens()[url] == old(self).tokens()[url],
    {
        let ghost docs = self.documents.map();
        let documents = &self.documents;
        let keep_tokens = |url: &String, tokens: &T| -> (b: bool)
            requires
                documents.wf(),
            ensures
                b == !(documents.map().contains_key(url@) && !kept(
                    documents.map()[url@].origin,
                    url@,
                    in_roots@,
                    walked@,
                    everywhere,
                )),
            {
                match documents.get(url.as_str()) {
                    Some(entry) => keeps(entry.origin, url.as_str(), in_roots, walked, everywhere),
                    None => true,
                }
            };
        self.tokens.retain(
            keep_tokens,
            Ghost(
                |url: Seq<char>, tokens: T|
                    !(docs.contains_key(url) && !kept(docs[url].origin, url, in_roots@, walked@, everywhere)),
            ),
        );
        let keep_document = |url: &String, entry: &TrackedDocument<D>| -> (b: bool)
            ensures
                b == kept(entry.origin, url@, in_roots@, walked@, everywhere),
            { keeps(entry.origin, url.as_str(), in_roots, walked, everywhere) };
        self.documents.retain(
            keep_document,
            Ghost(
                |url: Seq<char>, entry: TrackedDocument<D>|
                    kept(entry.origin, url, in_roots@, walked@, everywhere),
            ),
        );
    }
}

/// Whether a scan keeps a document: the editor owns it, or (unless the
/// scan drops workspace documents `everywhere`) it lies outside `in_roots`
/// or was walked.
pub open spec fn kept(
    origin: DocumentOrigin,
    url: Seq<char>,
    in_roots: Seq<String>,
    walked: Seq<String>,
    everywhere: bool,
) -> bool {
    origin == DocumentOrigin::Open || (!everywhere && (!listed(in_roots, url) || listed(walked, url)))
}

fn keeps(origin: DocumentOrigin, url: &str, in_roots: &[String], walked: &[String], everywhere: bool) -> (r:
    bool)
    ensures
        r == kept(origin, url@, in_roots@, walked@, everywhere),
{
    match origin {
        DocumentOrigin::Open => true,
        DocumentOrigin::Workspace => !everywhere && (!is_listed(in_roots, url) || is_listed(walked, url)),
    }
}

/// The URLs a workspace scan reports: each walked URL once, in increasing
/// order.
pub fn scanned_urls(walked: &[String]) -> (r: Vec<String>)
    ensures
        forall|i: int, j: int| 0 <= i < j < r@.len() ==> seq_less(#[trigger] r@[i]@, #[trigger] r@[j]@),
        forall|url: Seq<char>| listed(r@, url) <==> listed(walked@, url),
{
    let mut seen: KeyedList<()> = KeyedList::new();
    let mut i: usize = 0;
    while i < walked.len()
        invariant
            0 <= i <= walked@.len(),
            seen.wf(),
            forall|url: Seq<char>| #[trigger] seen.map().contains_key(url) <==> listed(
                walked@.take(i as int),
                url,
            ),
        decreases walked@.len() - i,
    {
        let ghost before = seen.map();
        seen.insert(walked[i].clone(), ());
        proof {
            assert forall|url: Seq<char>| #[trigger] seen.map().contains_key(url) <==> listed(
                walked@.take(i + 1),
                url,
            ) by {
                if listed(walked@.take(i + 1), url) {
                    let k = choose|k: int| 0 <= k < walked@.take(i + 1).len() && #[trigger] walked@.take(
                        i + 1,
                    )[k]@ == url;
                    if k < i {
                        assert(walked@.take(i as int)[k]@ == url);
                    }
                }
                if listed(walked@.take(i as int), url) {
                    let k = choose|k: int| 0 <= k < walked@.take(i as int).len() && #[trigger] walked@.take(
                        i as int,
                    )[k]@ == url;
                    assert(walked@.take(i + 1)[k]@ == url);
                }
                if url == walked@[i as int]@ {
                    assert(walked@.take(i + 1)[i as int]@ == url);
                }
            }
        }
        i = i + 1;
    }
    proof {
        assert(walked@.take(i as int) =~= walked@);
    }
    let r = seen.sorted_keys();
    proof {
        assert forall|url: Seq<char>| listed(r@, url) <==> listed(walked@, url) by {
            assert(seen.map().contains_key(url) <==> listed(walked@, url));
        }
    }
    r
}

/// Turns workspace diagnostics on or off; turning them off drops every
/// workspace document with its tokens. Returns whether the flag changed.
pub fn set_workspace_diagnostics_enabled<D, T>(
    state: &mut WorkspaceDiagnosticsState,
    store: &mut DocumentStore<D, T>,
    enabled: bool,
) -> (r: bool)
    requires
        old(state).wf(),
        old(store).wf(),
    ensures
        final(state).wf(),
        final(store).wf(),
        r == (old(state)@.enabled != enabled),
        final(state)@.enabled == enabled,
        final(state)@.options == old(state)@.options,
        final(state)@.supported == old(state)@.supported,
        final(state)@.generation == old(state)@.generation,
        final(state)@.client_configuration == old(state)@.client_configuration,
        final(state)@.client_dynamic_configuration == old(state)@.client_dynamic_configuration,
        final(state)@.client_refresh == old(state)@.client_refresh,
        !(r && !enabled) ==> final(store).documents() == old(store).documents() && final(store).tokens() == old(store).tokens(),
        r && !enabled ==> workspace_dropped(
            old(store).documents(),
            old(store).tokens(),
            final(store).documents(),
            final(store).tokens(),
        ),
{
    let changed = state.set_enabled(enabled);
    if changed && !enabled {
        store.remove_workspace_documents();
    }
    changed
}

/// The document a request's conversions run against: for a request about
/// `url`, the tracked document, else the disk snapshot cached for it; for a
/// request about no document, the sole tracked document, if exactly one is
/// tracked.
pub fn conversion_document<'a, D, T>(
    store: &'a DocumentStore<D, T>,
    fallback: &'a FallbackCache<D>,
    url: Option<&str>,
) -> (r: Option<&'a D>)
    requires
        store.wf(),
        fallback.wf(),
    ensures
        match url {
            None => match r {
                Some(document) => exists|u: Seq<char>|
                    store.documents().dom() == set![u] && store.documents()[u].document == *document,
                None => forall|u: Seq<char>| store.documents().dom() != set![u],
            },
            Some(url) => if store.documents().contains_key(url@) {
                r == Some(&store.documents()[url@].document)
            } else if fallback.snapshots().contains_key(url@) {
                r == Some(&fallback.snapshots()[url@].document)
            } else {
                r is None
            },
        },
{
    match url {
        None => store.sole_document(),
        Some(url) => match store.document(url) {
            Some(document) => Some(document),
            None => fallback.get(url),
        },
    }
}

/// Whether a handler's answer is stale: the document it was computed on
/// (at version `before`) is still tracked, at another version.
pub fn answer_is_stale(before: Option<i32>, now: Option<i32>) -> (r: bool)
    ensures
        r == (before is Some && now is Some && before != now),
{
    match (before, now) {
        (Some(v), Some(w)) => v != w,
        _ => false,
    }
}

} // verus!
