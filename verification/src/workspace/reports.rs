//! The accumulator of workspace diagnostic reports.

use vstd::prelude::*;

use crate::text_utils::sorting::{keys_increasing, keys_of, keys_unique, sort_by_key};
use crate::text_utils::strings::str_equal;

verus! {

/// Ordered report accumulator keyed by document URI: each URI holds one
/// report, kept in insertion order, together with the `replace` flag it was
/// pushed with.
#[derive(Debug)]
pub struct WorkspaceReportSink<R> {
    entries: Vec<(String, R, bool)>,
}

/// The model of one entry: URI, report and `replace` flag.
pub type ReportEntry<R> = (Seq<char>, R, bool);

/// The views of a sink's entries.
pub open spec fn entries_view<R>(entries: Seq<(String, R, bool)>) -> Seq<ReportEntry<R>> {
    entries.map_values(|e: (String, R, bool)| (e.0@, e.1, e.2))
}

/// Position of the entry for `uri`, if any.
pub open spec fn entry_index<R>(entries: Seq<ReportEntry<R>>, uri: Seq<char>) -> Option<int> {
    if exists|i: int| 0 <= i < entries.len() && entries[i].0 == uri {
        Some(choose|i: int| 0 <= i < entries.len() && entries[i].0 == uri)
    } else {
        None
    }
}

/// The entries after pushing `report` for `uri`: an existing entry is
/// replaced only when `replace` is set; a new URI is appended.
pub open spec fn pushed<R>(entries: Seq<ReportEntry<R>>, uri: Seq<char>, report: R, replace: bool) -> Seq<
    ReportEntry<R>,
> {
    match entry_index(entries, uri) {
        Some(i) => if replace {
            entries.update(i, (uri, report, replace))
        } else {
            entries
        },
        None => entries.push((uri, report, replace)),
    }
}

/// The views of related reports: URI and report.
pub open spec fn related_view<R>(related: Seq<(String, R)>) -> Seq<(Seq<char>, R)> {
    related.map_values(|e: (String, R)| (e.0@, e.1))
}

/// The entries after pushing each related report in turn, never replacing.
pub open spec fn pushed_related<R>(entries: Seq<ReportEntry<R>>, related: Seq<(Seq<char>, R)>) -> Seq<
    ReportEntry<R>,
>
    decreases related.len(),
{
    if related.len() == 0 {
        entries
    } else {
        pushed_related(pushed(entries, related[0].0, related[0].1, false), related.drop_first())
    }
}

/// The entries after pushing each of `pushes` in turn, each with its own
/// `replace` flag.
pub open spec fn replayed<R>(entries: Seq<ReportEntry<R>>, pushes: Seq<ReportEntry<R>>) -> Seq<
    ReportEntry<R>,
>
    decreases pushes.len(),
{
    if pushes.len() == 0 {
        entries
    } else {
        replayed(pushed(entries, pushes[0].0, pushes[0].1, pushes[0].2), pushes.drop_first())
    }
}

/// The entries after replaying the pushes of each sink in turn.
pub open spec fn merged<R>(entries: Seq<ReportEntry<R>>, sinks: Seq<Seq<ReportEntry<R>>>) -> Seq<
    ReportEntry<R>,
>
    decreases sinks.len(),
{
    if sinks.len() == 0 {
        entries
    } else {
        merged(replayed(entries, sinks[0]), sinks.drop_first())
    }
}

/// Whether `entries` hold `report` for `uri`.
pub open spec fn holds_report<R>(entries: Seq<ReportEntry<R>>, uri: Seq<char>, report: R) -> bool {
    exists|j: int| 0 <= j < entries.len() && entries[j].0 == uri && entries[j].1 == report
}

/// Whether a list of URI and report pairs holds `report` for `uri`.
pub open spec fn holds_pair<R>(pairs: Seq<(String, R)>, uri: Seq<char>, report: R) -> bool {
    exists|i: int| 0 <= i < pairs.len() && pairs[i].0@ == uri && pairs[i].1 == report
}

/// No URI occurs twice.
pub open spec fn uris_unique<R>(entries: Seq<ReportEntry<R>>) -> bool {
    forall|i: int, j: int|
        0 <= i < entries.len() && 0 <= j < entries.len() && i != j ==> entries[i].0 != entries[j].0
}

impl<R> WorkspaceReportSink<R> {
    /// The sink's entries, in insertion order.
    pub closed spec fn entries(&self) -> Seq<ReportEntry<R>> {
        entries_view(self.entries@)
    }

    /// An empty sink.
    pub fn new() -> (r: Self)
        ensures
            r.entries().len() == 0,
    {
        let r = WorkspaceReportSink { entries: Vec::new() };
        proof {
            assert(entries_view(r.entries@) =~= Seq::<ReportEntry<R>>::empty());
        }
        r
    }

    /// Number of reports held.
    pub fn len(&self) -> (r: usize)
        ensures
            r == self.entries().len(),
    {
        self.entries.len()
    }

    /// Pushes a report for `uri`: replaces the report already held for that
    /// URI when `replace` is set, keeps it otherwise, and appends a report
    /// for a new URI.
    pub fn push(&mut self, uri: String, report: R, replace: bool)
        requires
            uris_unique(old(self).entries()),
        ensures
            final(self).entries() == pushed(old(self).entries(), uri@, report, replace),
            uris_unique(final(self).entries()),
    {
        let ghost before = self.entries();
        let mut i: usize = 0;
        while i < self.entries.len()
            invariant
                0 <= i <= self.entries@.len(),
                before == entries_view(self.entries@),
                uris_unique(before),
                forall|j: int| 0 <= j < i ==> before[j].0 != uri@,
                before == old(self).entries(),
            decreases self.entries@.len() - i,
        {
            if str_equal(self.entries[i].0.as_str(), uri.as_str()) {
                proof {
                    assert(before[i as int].0 == uri@);
                    assert(entry_index(before, uri@) == Some(i as int));
                }
                let ghost u = uri@;
                if replace {
                    self.entries.set(i, (uri, report, replace));
                    proof {
                        assert(entries_view(self.entries@) =~= before.update(
                            i as int,
                            (u, report, replace),
                        ));
                        let after = entries_view(self.entries@);
                        assert forall|a: int, b: int|
                            0 <= a < after.len() && 0 <= b < after.len() && a != b implies after[a].0
                            != after[b].0 by {
                            assert(after[a].0 == before[a].0);
                            assert(after[b].0 == before[b].0);
                        }
                    }
                }
                return;
            }
            i = i + 1;
        }
        proof {
            assert(entry_index(before, uri@) is None);
        }
        let ghost u = uri@;
        self.entries.push((uri, report, replace));
        proof {
            assert(entries_view(self.entries@) =~= before.push((u, report, replace)));
        }
    }

    /// Pushes the reports of related documents: they never replace a
    /// report already held for their URI.
    pub fn push_related(&mut self, related: Vec<(String, R)>)
        requires
            uris_unique(old(self).entries()),
        ensures
            final(self).entries() == pushed_related(old(self).entries(), related_view(related@)),
            uris_unique(final(self).entries()),
            final(self).entries().len() >= old(self).entries().len(),
            forall|i: int|
                0 <= i < old(self).entries().len() ==> #[trigger] final(self).entries()[i]
                    == old(self).entries()[i],
    {
        let mut related = related;
        let ghost all = related_view(related@);
        while related.len() > 0
            invariant
                pushed_related(self.entries(), related_view(related@)) == pushed_related(
                    old(self).entries(),
                    all,
                ),
                uris_unique(self.entries()),
                self.entries().len() >= old(self).entries().len(),
                forall|i: int|
                    0 <= i < old(self).entries().len() ==> #[trigger] self.entries()[i] == old(
                        self,
                    ).entries()[i],
            decreases related@.len(),
        {
            let ghost rest = related@;
            let (uri, report) = related.remove(0);
            proof {
                assert(related_view(related@) =~= related_view(rest).drop_first());
            }
            let ghost before = self.entries();
            self.push(uri, report, false);
            proof {
                assert forall|i: int| 0 <= i < before.len() implies #[trigger] self.entries()[i]
                    == before[i] by {
                    if let Some(k) = entry_index(before, uri@) {
                    } else {
                    }
                }
            }
        }
    }

    /// The entries, in insertion order: URI, report and `replace` flag.
    pub fn into_entries(self) -> (r: Vec<(String, R, bool)>)
        ensures
            entries_view(r@) == self.entries(),
    {
        self.entries
    }

    /// The reports, in insertion order.
    pub fn into_reports(self) -> (r: Vec<R>)
        ensures
            r@.len() == self.entries().len(),
            forall|i: int| 0 <= i < r@.len() ==> #[trigger] r@[i] == self.entries()[i].1,
    {
        let mut entries = self.entries;
        let ghost all = entries_view(entries@);
        let mut reversed: Vec<R> = Vec::new();
        while entries.len() > 0
            invariant
                entries_view(entries@) == all.take(entries@.len() as int),
                entries@.len() <= all.len(),
                reversed@.len() == all.len() - entries@.len(),
                forall|i: int|
                    0 <= i < reversed@.len() ==> #[trigger] reversed@[i] == all[all.len() - 1 - i].1,
            decreases entries@.len(),
        {
            let ghost n = entries@.len() as int;
            proof {
                assert(entries_view(entries@)[n - 1] == all[n - 1]);
            }
            let (_, report, _) = entries.pop().unwrap();
            proof {
                assert(report == all[n - 1].1);
            }
            reversed.push(report);
            proof {
                assert(entries_view(entries@) =~= all.take(entries@.len() as int));
            }
        }
        let mut r: Vec<R> = Vec::new();
        while reversed.len() > 0
            invariant
                r@.len() + reversed@.len() == all.len(),
                forall|i: int|
                    0 <= i < reversed@.len() ==> #[trigger] reversed@[i] == all[all.len() - 1 - i].1,
                forall|i: int| 0 <= i < r@.len() ==> #[trigger] r@[i] == all[i].1,
            decreases reversed@.len(),
        {
            let report = reversed.pop().unwrap();
            r.push(report);
        }
        r
    }

    /// Pushes every entry of `entries` in turn, each with its own flag.
    fn replay(&mut self, entries: Vec<(String, R, bool)>)
        requires
            uris_unique(old(self).entries()),
        ensures
            uris_unique(final(self).entries()),
            final(self).entries() == replayed(old(self).entries(), entries_view(entries@)),
    {
        let mut entries = entries;
        let ghost all = entries_view(entries@);
        while entries.len() > 0
            invariant
                uris_unique(self.entries()),
                replayed(self.entries(), entries_view(entries@)) == replayed(
                    old(self).entries(),
                    all,
                ),
            decreases entries@.len(),
        {
            let ghost rest = entries@;
            let (uri, report, replace) = entries.remove(0);
            proof {
                assert(entries_view(entries@) =~= entries_view(rest).drop_first());
                assert(entries_view(rest)[0] == (uri@, report, replace));
            }
            self.push(uri, report, replace);
        }
    }

    /// Folds per-document sinks into one, in order: every entry is pushed
    /// again with the flag it was pushed with.
    pub fn merge(sinks: Vec<WorkspaceReportSink<R>>) -> (r: Self)
        requires
            forall|i: int| 0 <= i < sinks@.len() ==> uris_unique(#[trigger] sinks@[i].entries()),
        ensures
            uris_unique(r.entries()),
            r.entries() == merged(
                Seq::empty(),
                sinks@.map_values(|sink: WorkspaceReportSink<R>| sink.entries()),
            ),
    {
        let mut sink = Self::new();
        let mut sinks = sinks;
        let ghost all = sinks@.map_values(|sink: WorkspaceReportSink<R>| sink.entries());
        proof {
            assert(sink.entries() =~= Seq::<ReportEntry<R>>::empty());
        }
        while sinks.len() > 0
            invariant
                uris_unique(sink.entries()),
                forall|i: int| 0 <= i < sinks@.len() ==> uris_unique(#[trigger] sinks@[i].entries()),
                merged(
                    sink.entries(),
                    sinks@.map_values(|s: WorkspaceReportSink<R>| s.entries()),
                ) == merged(Seq::<ReportEntry<R>>::empty(), all),
            decreases sinks@.len(),
        {
            let ghost rest = sinks@;
            let next = sinks.remove(0);
            proof {
                assert(sinks@.map_values(|s: WorkspaceReportSink<R>| s.entries()) =~= rest.map_values(
                    |s: WorkspaceReportSink<R>| s.entries(),
                ).drop_first());
                assert(forall|i: int| 0 <= i < sinks@.len() ==> sinks@[i] == rest[i + 1]);
            }
            let entries = next.into_entries();
            sink.replay(entries);
        }
        sink
    }

    /// The reports with their URIs, sorted by URI.
    pub fn into_sorted(self) -> (r: Vec<(String, R)>)
        requires
            uris_unique(self.entries()),
        ensures
            r@.len() == self.entries().len(),
            keys_increasing(keys_of(r@)),
            forall|i: int|
                0 <= i < r@.len() ==> holds_report(self.entries(), #[trigger] r@[i].0@, r@[i].1),
            forall|j: int|
                0 <= j < self.entries().len() ==> holds_pair(
                    r@,
                    #[trigger] self.entries()[j].0,
                    self.entries()[j].1,
                ),
    {
        let ghost all = self.entries();
        let ghost n = all.len();
        let mut entries = self.entries;
        let mut pairs: Vec<(String, R)> = Vec::new();
        while entries.len() > 0
            invariant
                n == all.len(),
                entries_view(entries@) == all.take(entries@.len() as int),
                entries@.len() <= n,
                pairs@.len() + entries@.len() == n,
                forall|i: int|
                    0 <= i < pairs@.len() ==> #[trigger] pairs@[i].0@ == all[n - 1 - i].0
                        && pairs@[i].1 == all[n - 1 - i].1,
            decreases entries@.len(),
        {
            let ghost k = entries@.len() as int;
            proof {
                assert(entries_view(entries@)[k - 1] == all[k - 1]);
            }
            let (uri, report, _) = entries.pop().unwrap();
            proof {
                assert(entries_view(entries@) =~= all.take(k - 1));
            }
            pairs.push((uri, report));
        }
        proof {
            assert forall|a: int, b: int|
                0 <= a < keys_of(pairs@).len() && 0 <= b < keys_of(pairs@).len() && a != b implies keys_of(
                pairs@,
            )[a] != keys_of(pairs@)[b] by {
                assert(keys_of(pairs@)[a] == pairs@[a].0@);
                assert(keys_of(pairs@)[b] == pairs@[b].0@);
                assert(pairs@[a].0@ == all[n - 1 - a].0);
                assert(pairs@[b].0@ == all[n - 1 - b].0);
            }
        }
        let ghost unsorted = pairs@;
        let sorted = sort_by_key(pairs);
        proof {
            let es = self.entries();
            assert forall|i: int| 0 <= i < sorted@.len() implies holds_report(
                es,
                #[trigger] sorted@[i].0@,
                sorted@[i].1,
            ) by {
                assert(sorted@.contains(sorted@[i]));
                let p = choose|p: int| 0 <= p < unsorted.len() && unsorted[p] == sorted@[i];
                assert(unsorted[p].0@ == all[n - 1 - p].0);
                assert(es[n - 1 - p].0 == sorted@[i].0@);
            }
            assert forall|j: int| 0 <= j < es.len() implies holds_pair(
                sorted@,
                #[trigger] es[j].0,
                es[j].1,
            ) by {
                let p = n - 1 - j;
                assert(unsorted[p].0@ == all[j].0);
                assert(unsorted.contains(unsorted[p]));
                assert(sorted@.contains(unsorted[p]));
                let i = choose|i: int| 0 <= i < sorted@.len() && sorted@[i] == unsorted[p];
                assert(sorted@[i].0@ == es[j].0);
            }
        }
        sorted
    }
}

/// The merged reports of per-document sinks, in URI order: the sinks are
/// folded in order, each entry pushed again with its own flag, and the
/// result sorted by URI.
pub fn collect_workspace_reports<R>(sinks: Vec<WorkspaceReportSink<R>>) -> (r: Vec<(String, R)>)
    requires
        forall|i: int| 0 <= i < sinks@.len() ==> uris_unique(#[trigger] sinks@[i].entries()),
    ensures
        ({
            let all = merged(
                Seq::<ReportEntry<R>>::empty(),
                sinks@.map_values(|sink: WorkspaceReportSink<R>| sink.entries()),
            );
            &&& r@.len() == all.len()
            &&& keys_increasing(keys_of(r@))
            &&& forall|i: int|
                0 <= i < r@.len() ==> holds_report(all, #[trigger] r@[i].0@, r@[i].1)
            &&& forall|j: int| 0 <= j < all.len() ==> holds_pair(r@, #[trigger] all[j].0, all[j].1)
        }),
{
    let sink = WorkspaceReportSink::merge(sinks);
    sink.into_sorted()
}

/// The reports of one document's diagnostics result: the document's own
/// report, when the result carries one, is pushed replacing; the related
/// documents' reports follow without replacing.
pub fn document_result_sink<R>(uri: String, report: Option<R>, related: Vec<(String, R)>) -> (r:
    WorkspaceReportSink<R>)
    ensures
        uris_unique(r.entries()),
        r.entries() == pushed_related(
            match report {
                Some(report) => seq![(uri@, report, true)],
                None => Seq::<ReportEntry<R>>::empty(),
            },
            related_view(related@),
        ),
{
    let mut sink = WorkspaceReportSink::new();
    match report {
        Some(report) => {
            sink.push(uri, report, true);
            proof {
                assert(sink.entries() =~= seq![(uri@, report, true)]);
            }
        },
        None => {
            proof {
                assert(sink.entries() =~= Seq::<ReportEntry<R>>::empty());
            }
        },
    }
    sink.push_related(related);
    sink
}

proof fn lemma_pushed_keeps_prefix<R>(entries: Seq<ReportEntry<R>>, uri: Seq<char>, report: R)
    requires
        uris_unique(entries),
    ensures
        uris_unique(pushed(entries, uri, report, false)),
        pushed(entries, uri, report, false).len() >= entries.len(),
        forall|i: int|
            0 <= i < entries.len() ==> #[trigger] pushed(entries, uri, report, false)[i]
                == entries[i],
{
    let after = pushed(entries, uri, report, false);
    if entry_index(entries, uri) is None {
        assert forall|i: int, j: int|
            0 <= i < after.len() && 0 <= j < after.len() && i != j implies after[i].0
            != after[j].0 by {
            if i == entries.len() as int && j < entries.len() {
                assert(entries[j].0 != uri);
            } else if j == entries.len() as int && i < entries.len() {
                assert(entries[i].0 != uri);
            }
        }
    }
}

/// Reports of related documents never replace a report already held:
/// after pushing them, every report held before is still held, unchanged,
/// in its place.
pub proof fn law_related_reports_never_replace<R>(
    entries: Seq<ReportEntry<R>>,
    related: Seq<(Seq<char>, R)>,
)
    requires
        uris_unique(entries),
    ensures
        uris_unique(pushed_related(entries, related)),
        pushed_related(entries, related).len() >= entries.len(),
        forall|i: int|
            0 <= i < entries.len() ==> #[trigger] pushed_related(entries, related)[i] == entries[i],
    decreases related.len(),
{
    if related.len() > 0 {
        let next = pushed(entries, related[0].0, related[0].1, false);
        lemma_pushed_keeps_prefix(entries, related[0].0, related[0].1);
        law_related_reports_never_replace(next, related.drop_first());
        assert forall|i: int| 0 <= i < entries.len() implies #[trigger] pushed_related(
            entries,
            related,
        )[i] == entries[i] by {
            assert(next[i] == entries[i]);
        }
    }
}

} // verus!
