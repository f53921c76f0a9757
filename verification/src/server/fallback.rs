//! Disk snapshots of files the server does not track, kept for converting
//! requests about them.
//!
//! The cache is a pure optimization whose entries may be dropped at any
//! time, so reaching its bound clears it whole rather than paying for an
//! eviction policy.

use vstd::prelude::*;

use super::keyed::KeyedList;
use super::stamp::FileStamp;

verus! {

/// How many snapshots the cache holds at most.
pub const FALLBACK_BOUND: usize = 128;

/// A snapshot read from disk under the stamp the file had.
#[derive(Debug)]
pub struct Snapshot<D> {
    pub stamp: Option<FileStamp>,
    pub document: D,
}

/// Disk snapshots by URL, never more than [`FALLBACK_BOUND`].
#[derive(Debug)]
pub struct FallbackCache<D> {
    snapshots: KeyedList<Snapshot<D>>,
}

impl<D> FallbackCache<D> {
    /// The snapshots by URL.
    pub closed spec fn snapshots(&self) -> Map<Seq<char>, Snapshot<D>> {
        self.snapshots.map()
    }

    /// The cache's invariant: each URL at most once, and within the bound.
    pub closed spec fn wf(&self) -> bool {
        &&& self.snapshots.wf()
        &&& self.snapshots.map().dom().finite()
        &&& self.snapshots.map().dom().len() <= FALLBACK_BOUND
    }

    /// An empty cache.
    pub fn new() -> (r: Self)
        ensures
            r.wf(),
            r.snapshots() == Map::<Seq<char>, Snapshot<D>>::empty(),
    {
        FallbackCache { snapshots: KeyedList::new() }
    }

    /// The snapshot held for `url`, if any.
    pub fn get(&self, url: &str) -> (r: Option<&D>)
        requires
            self.wf(),
        ensures
            match r {
                Some(document) => self.snapshots().contains_key(url@)
                    && self.snapshots()[url@].document == *document,
                None => !self.snapshots().contains_key(url@),
            },
    {
        match self.snapshots.get(url) {
            Some(snapshot) => Some(&snapshot.document),
            None => None,
        }
    }

    /// Whether the snapshot for `url` was read under exactly `stamp`, so
    /// that reading the file again can be skipped.
    pub fn is_fresh(&self, url: &str, stamp: Option<FileStamp>) -> (r: bool)
        requires
            self.wf(),
        ensures
            r == (self.snapshots().contains_key(url@) && self.snapshots()[url@].stamp == stamp),
    {
        match self.snapshots.get(url) {
            Some(snapshot) => snapshot.stamp == stamp,
            None => false,
        }
    }

    /// Installs a snapshot read under `stamp`. A cache at its bound is
    /// cleared first.
    pub fn install(&mut self, url: String, stamp: Option<FileStamp>, document: D)
        requires
            old(self).wf(),
        ensures
            final(self).wf(),
            final(self).snapshots() == if old(self).snapshots().dom().len() >= FALLBACK_BOUND {
                Map::<Seq<char>, Snapshot<D>>::empty().insert(url@, Snapshot { stamp, document })
            } else {
                old(self).snapshots().insert(url@, Snapshot { stamp, document })
            },
    {
        if self.snapshots.len() >= FALLBACK_BOUND {
            self.snapshots.clear();
        }
        let ghost before = self.snapshots.map();
        self.snapshots.insert(url, Snapshot { stamp, document });
        proof {
            let after = self.snapshots.map();
            if before.contains_key(url@) {
                assert(after.dom() =~= before.dom());
            } else {
                assert(after.dom() =~= before.dom().insert(url@));
            }
        }
    }
}

/// The cache never holds more than its bound, whatever was installed.
pub proof fn law_fallback_bounded<D>(cache: &FallbackCache<D>)
    requires
        cache.wf(),
    ensures
        cache.snapshots().dom().finite(),
        cache.snapshots().dom().len() <= FALLBACK_BOUND,
{
}

} // verus!
