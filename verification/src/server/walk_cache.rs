//! The workspace file list kept between invalidation events.

use vstd::prelude::*;

use crate::server::store::listed;
use crate::text_utils::strings::str_equal;

verus! {

/// Where the last segment of a path or URL starts: just after its last
/// `/`, or at its start when it has none.
pub open spec fn segment_start(path: Seq<char>) -> nat
    decreases path.len(),
{
    if path.len() == 0 {
        0
    } else if path.last() == '/' {
        path.len()
    } else {
        segment_start(path.drop_last())
    }
}

/// The last segment of a path or URL: the file's name.
pub open spec fn file_name(path: Seq<char>) -> Seq<char> {
    path.skip(segment_start(path) as int)
}

/// Whether a file of this name holds ignore rules that govern the walk:
/// `.gitignore`, `.ignore`, or one of the configured ignore file names.
pub open spec fn is_ignore_file(name: Seq<char>, ignore_filenames: Seq<String>) -> bool {
    name == ".gitignore"@ || name == ".ignore"@ || listed(ignore_filenames, name)
}

/// Whether a watched-file event may change what a walk finds: a file was
/// created or deleted, or an ignore file changed in any way.
pub open spec fn stales_walk(path: Seq<char>, created_or_deleted: bool, ignore_filenames: Seq<String>) -> bool {
    created_or_deleted || is_ignore_file(file_name(path), ignore_filenames)
}

/// The last segment of `path`.
fn last_segment(path: &str) -> (r: &str)
    ensures
        r@ == file_name(path@),
{
    let n = path.unicode_len();
    let mut i = n;
    proof {
        assert(path@.take(n as int) =~= path@);
    }
    while i > 0 && path.get_char(i - 1) != '/'
        invariant
            i <= n,
            n == path@.len(),
            segment_start(path@.take(i as int)) == segment_start(path@),
        decreases i,
    {
        proof {
            assert(path@.take(i as int).drop_last() =~= path@.take(i - 1));
        }
        i = i - 1;
    }
    proof {
        assert(path@.take(0) =~= Seq::<char>::empty());
    }
    path.substring_char(i, n)
}

fn is_listed_name(names: &[String], name: &str) -> (r: bool)
    ensures
        r == listed(names@, name@),
{
    let mut i: usize = 0;
    while i < names.len()
        invariant
            0 <= i <= names@.len(),
            forall|j: int| 0 <= j < i ==> names@[j]@ != name@,
        decreases names@.len() - i,
    {
        if str_equal(names[i].as_str(), name) {
            return true;
        }
        i = i + 1;
    }
    false
}

/// A call that changes a walk cache, as the law of this module reads a
/// history of them.
pub enum WalkCall<T> {
    /// `store(entries)`.
    Store(Seq<T>),
    /// `record(watchers_registered, entries)`.
    Record(bool, Seq<T>),
    /// `invalidate()`.
    Invalidate,
    /// `clear()`.
    Clear,
    /// `note_file_event(path, created_or_deleted, ignore_filenames)`.
    FileEvent(Seq<char>, bool, Seq<String>),
}

/// A walk cache's state: the stored list, if any, and whether it is stale.
pub type WalkState<T> = (Option<Seq<T>>, bool);

/// The state after one call.
pub open spec fn walk_step<T>(state: WalkState<T>, call: WalkCall<T>) -> WalkState<T> {
    match call {
        WalkCall::Store(entries) => (Some(entries), false),
        WalkCall::Record(registered, entries) => if registered {
            (Some(entries), false)
        } else {
            state
        },
        WalkCall::Invalidate => (state.0, true),
        WalkCall::Clear => (None, true),
        WalkCall::FileEvent(path, created_or_deleted, names) => (
            state.0,
            state.1 || stales_walk(path, created_or_deleted, names),
        ),
    }
}

/// The state after a history of calls, made in order.
pub open spec fn walk_after<T>(state: WalkState<T>, calls: Seq<WalkCall<T>>) -> WalkState<T>
    decreases calls.len(),
{
    if calls.len() == 0 {
        state
    } else {
        walk_step(walk_after(state, calls.drop_last()), calls.last())
    }
}

/// What a refresh is served in a state: the stored list when a registration
/// stands behind it and it is not stale.
pub open spec fn serves<T>(state: WalkState<T>, watchers_registered: bool) -> Option<Seq<T>> {
    if watchers_registered && state.0 is Some && !state.1 {
        state.0
    } else {
        None
    }
}

/// Whether a call stores a fresh walk.
pub open spec fn refreshes<T>(call: WalkCall<T>) -> bool {
    match call {
        WalkCall::Store(_) => true,
        WalkCall::Record(registered, _) => registered,
        _ => false,
    }
}

/// Whether a call makes the stored walk stale or drops it.
pub open spec fn stales<T>(call: WalkCall<T>) -> bool {
    match call {
        WalkCall::Invalidate => true,
        WalkCall::Clear => true,
        WalkCall::FileEvent(path, created_or_deleted, names) => stales_walk(
            path,
            created_or_deleted,
            names,
        ),
        _ => false,
    }
}

proof fn lemma_quiet_calls_keep_the_state<T>(state: WalkState<T>, calls: Seq<WalkCall<T>>)
    requires
        forall|i: int| 0 <= i < calls.len() ==> !refreshes(#[trigger] calls[i]) && !stales(calls[i]),
    ensures
        walk_after(state, calls) == state,
    decreases calls.len(),
{
    if calls.len() > 0 {
        let prefix = calls.drop_last();
        assert forall|i: int| 0 <= i < prefix.len() implies !refreshes(#[trigger] prefix[i]) && !stales(
            prefix[i],
        ) by {
            assert(prefix[i] == calls[i]);
        }
        lemma_quiet_calls_keep_the_state(state, prefix);
        assert(!refreshes(calls[calls.len() - 1]) && !stales(calls[calls.len() - 1]));
    }
}

proof fn lemma_stale_until_refreshed<T>(state: WalkState<T>, calls: Seq<WalkCall<T>>, i: int)
    requires
        0 <= i < calls.len(),
        stales(calls[i]),
        forall|j: int| i < j < calls.len() ==> !refreshes(#[trigger] calls[j]),
    ensures
        serves(walk_after(state, calls), true) is None,
    decreases calls.len(),
{
    let prefix = calls.drop_last();
    let last = calls[calls.len() - 1];
    if i < calls.len() - 1 {
        assert forall|j: int| i < j < prefix.len() implies !refreshes(#[trigger] prefix[j]) by {
            assert(prefix[j] == calls[j]);
        }
        assert(prefix[i] == calls[i]);
        lemma_stale_until_refreshed(state, prefix, i);
        assert(!refreshes(last));
    }
}

/// A stored walk serves until something stales it. After a walk is stored
/// (by `store`, or by `record` under an accepted watcher registration), a
/// refresh under that registration is served exactly that list through any
/// later calls that neither store another walk nor invalidate, clear, or
/// take a created, deleted or ignore-file event; and once one of those
/// stales it, no refresh is served until another walk is stored.
pub proof fn law_stored_walk_serves_until_stale<T>(entries: Seq<T>, calls: Seq<WalkCall<T>>)
    ensures
        (forall|i: int| 0 <= i < calls.len() ==> !refreshes(#[trigger] calls[i]) && !stales(calls[i]))
            ==> serves(walk_after((Some(entries), false), calls), true) == Some(entries),
        (exists|i: int|
            0 <= i < calls.len() && #[trigger] stales(calls[i]) && forall|j: int|
                i < j < calls.len() ==> !refreshes(#[trigger] calls[j])) ==> serves(
            walk_after((Some(entries), false), calls),
            true,
        ) is None,
{
    if forall|i: int| 0 <= i < calls.len() ==> !refreshes(#[trigger] calls[i]) && !stales(calls[i]) {
        lemma_quiet_calls_keep_the_state((Some(entries), false), calls);
    }
    if exists|i: int|
        0 <= i < calls.len() && #[trigger] stales(calls[i]) && forall|j: int|
            i < j < calls.len() ==> !refreshes(#[trigger] calls[j]) {
        let i = choose|i: int|
            0 <= i < calls.len() && #[trigger] stales(calls[i]) && forall|j: int|
                i < j < calls.len() ==> !refreshes(#[trigger] calls[j]);
        lemma_stale_until_refreshed((Some(entries), false), calls, i);
    }
}

/// The workspace file list between invalidation events: when `dirty` is
/// set, or no list is stored, the next refresh walks again.
#[derive(Debug)]
pub struct WalkCache<T> {
    entries: Option<Vec<T>>,
    dirty: bool,
}

impl<T: Clone> WalkCache<T> {
    /// The stored list, if any.
    pub closed spec fn stored(&self) -> Option<Seq<T>> {
        match self.entries {
            Some(entries) => Some(entries@),
            None => None,
        }
    }

    /// Whether the stored list is stale.
    pub closed spec fn is_dirty(&self) -> bool {
        self.dirty
    }

    /// The cache's state, as the law of this module reads it.
    pub open spec fn walk_state(&self) -> WalkState<T> {
        (self.stored(), self.is_dirty())
    }

    /// An empty cache: the first refresh walks.
    pub fn new() -> (r: Self)
        ensures
            r.stored() is None,
            !r.is_dirty(),
    {
        WalkCache { entries: None, dirty: false }
    }

    /// A copy of the stored list when it is fresh enough to serve: present
    /// and not dirty.
    pub fn get_valid(&self) -> (r: Option<Vec<T>>)
        ensures
            r is Some <==> (self.stored() is Some && !self.is_dirty()),
            r matches Some(list) ==> list@.len() == self.stored()->0.len() && forall|i: int|
                0 <= i < list@.len() ==> cloned::<T>(self.stored()->0[i], #[trigger] list@[i]),
    {
        match &self.entries {
            Some(entries) => {
                if !self.dirty {
                    let list = entries.clone();
                    proof {
                        assert forall|i: int| 0 <= i < list@.len() implies cloned::<T>(
                            entries@[i],
                            #[trigger] list@[i],
                        ) by {
                            assert(cloned::<T>(entries[i], list[i]));
                        }
                    }
                    Some(list)
                } else {
                    None
                }
            },
            None => None,
        }
    }

    /// Stores a freshly walked list.
    pub fn store(&mut self, entries: Vec<T>)
        ensures
            final(self).stored() == Some(entries@),
            !final(self).is_dirty(),
            final(self).walk_state() == walk_step(old(self).walk_state(), WalkCall::Store(entries@)),
    {
        self.entries = Some(entries);
        self.dirty = false;
    }

    /// Marks the stored list stale: a watched file changed.
    pub fn invalidate(&mut self)
        ensures
            final(self).stored() == old(self).stored(),
            final(self).is_dirty(),
            final(self).walk_state() == walk_step(old(self).walk_state(), WalkCall::<T>::Invalidate),
    {
        self.dirty = true;
    }

    /// Drops the stored list: the workspace folders changed, so its root
    /// premise moved.
    pub fn clear(&mut self)
        ensures
            final(self).stored() is None,
            final(self).is_dirty(),
            final(self).walk_state() == walk_step(old(self).walk_state(), WalkCall::<T>::Clear),
    {
        self.entries = None;
        self.dirty = true;
    }

    /// The list a workspace refresh serves in place of walking the roots:
    /// the stored list while an accepted watcher registration reports the
    /// events that would make it stale and none has since; without such a
    /// registration, none, and every refresh walks.
    pub fn served(&self, watchers_registered: bool) -> (r: Option<Vec<T>>)
        ensures
            !watchers_registered ==> r is None,
            watchers_registered ==> (r is Some <==> (self.stored() is Some && !self.is_dirty())),
            r is Some <==> serves(self.walk_state(), watchers_registered) is Some,
            r matches Some(list) ==> list@.len() == self.stored()->0.len() && forall|i: int|
                0 <= i < list@.len() ==> cloned::<T>(self.stored()->0[i], #[trigger] list@[i]),
    {
        if watchers_registered {
            self.get_valid()
        } else {
            None
        }
    }

    /// Records what a refresh walked: stored while an accepted watcher
    /// registration can keep it current, left alone otherwise.
    pub fn record(&mut self, watchers_registered: bool, entries: Vec<T>)
        ensures
            watchers_registered ==> final(self).stored() == Some(entries@) && !final(self).is_dirty(),
            !watchers_registered ==> final(self).stored() == old(self).stored() && final(self).is_dirty()
                == old(self).is_dirty(),
            final(self).walk_state() == walk_step(
                old(self).walk_state(),
                WalkCall::Record(watchers_registered, entries@),
            ),
    {
        if watchers_registered {
            self.store(entries);
        }
    }

    /// Takes a watched-file event on `path`: a created or deleted file, or
    /// any event on an ignore file, makes the stored list stale.
    pub fn note_file_event(&mut self, path: &str, created_or_deleted: bool, ignore_filenames: &[String])
        ensures
            final(self).stored() == old(self).stored(),
            final(self).is_dirty() == (old(self).is_dirty() || stales_walk(
                path@,
                created_or_deleted,
                ignore_filenames@,
            )),
            final(self).walk_state() == walk_step(
                old(self).walk_state(),
                WalkCall::<T>::FileEvent(path@, created_or_deleted, ignore_filenames@),
            ),
    {
        if created_or_deleted {
            self.invalidate();
            return;
        }
        let name = last_segment(path);
        if str_equal(name, ".gitignore") || str_equal(name, ".ignore") || is_listed_name(
            ignore_filenames,
            name,
        ) {
            self.invalidate();
        }
    }
}

} // verus!
