//! The performance timeline: the entry buffer, the registered observers and
//! the resource-timing bookkeeping.

use std::collections::VecDeque;

use vstd::multiset::Multiset;
use vstd::prelude::*;

verus! {

/// One entry of the performance timeline.
///
/// Times are the embedder's monotonic clock readings; the library never
/// reads a clock itself, callers pass the current time in.
#[derive(Debug)]
pub struct PerformanceEntry {
    pub name: String,
    pub entry_type: String,
    pub start_time: u64,
    pub duration: i128,
}

impl Clone for PerformanceEntry {
    fn clone(&self) -> (r: Self)
        ensures
            r == *self,
    {
        PerformanceEntry {
            name: self.name.clone(),
            entry_type: self.entry_type.clone(),
            start_time: self.start_time,
            duration: self.duration,
        }
    }
}

/// Does `e` pass a name/type filter?  An omitted side of the filter matches
/// everything.
pub open spec fn entry_matches(
    e: PerformanceEntry,
    name: Option<Seq<char>>,
    entry_type: Option<Seq<char>>,
) -> bool {
    &&& (name matches Some(n) ==> e.name@ == n)
    &&& (entry_type matches Some(t) ==> e.entry_type@ == t)
}

/// The name/type filter that an optional string argument denotes.
pub open spec fn opt_view(o: Option<String>) -> Option<Seq<char>> {
    match o {
        Some(s) => Some(s@),
        None => None,
    }
}

/// The subsequence of `entries` that passes a name/type filter, in its
/// original order.
pub open spec fn filtered(
    entries: Seq<PerformanceEntry>,
    name: Option<Seq<char>>,
    entry_type: Option<Seq<char>>,
) -> Seq<PerformanceEntry>
    decreases entries.len(),
{
    if entries.len() == 0 {
        Seq::empty()
    } else {
        let rest = filtered(entries.drop_last(), name, entry_type);
        if entry_matches(entries.last(), name, entry_type) {
            rest.push(entries.last())
        } else {
            rest
        }
    }
}

/// Does a clearing pass drop `e`?  Clearing is wider than querying: an entry
/// goes when its name equals a given name or its type equals a given type.
pub open spec fn entry_removed(
    e: PerformanceEntry,
    name: Option<Seq<char>>,
    entry_type: Option<Seq<char>>,
) -> bool {
    ||| name matches Some(n) && e.name@ == n
    ||| entry_type matches Some(t) && e.entry_type@ == t
}

/// The subsequence of `entries` that a clearing pass keeps, in its original
/// order.
pub open spec fn retained(
    entries: Seq<PerformanceEntry>,
    name: Option<Seq<char>>,
    entry_type: Option<Seq<char>>,
) -> Seq<PerformanceEntry>
    decreases entries.len(),
{
    if entries.len() == 0 {
        Seq::empty()
    } else {
        let rest = retained(entries.drop_last(), name, entry_type);
        if entry_removed(entries.last(), name, entry_type) {
            rest
        } else {
            rest.push(entries.last())
        }
    }
}

/// `e` inserted into `s` before the longest suffix of entries whose start
/// time is strictly later: the step of a stable insertion sort.
pub open spec fn sorted_insert(s: Seq<PerformanceEntry>, e: PerformanceEntry) -> Seq<
    PerformanceEntry,
>
    decreases s.len(),
{
    if s.len() == 0 {
        seq![e]
    } else if s.last().start_time > e.start_time {
        sorted_insert(s.drop_last(), e).push(s.last())
    } else {
        s.push(e)
    }
}

/// `s` stably sorted by start time: entries appear in start-time order, and
/// entries with equal start times keep their original order.
pub open spec fn stable_sorted(s: Seq<PerformanceEntry>) -> Seq<PerformanceEntry>
    decreases s.len(),
{
    if s.len() == 0 {
        Seq::empty()
    } else {
        sorted_insert(stable_sorted(s.drop_last()), s.last())
    }
}

/// Is `s` ordered by start time?
pub open spec fn sorted_by_start_time(s: Seq<PerformanceEntry>) -> bool {
    forall|i: int, j: int| 0 <= i < j < s.len() ==> s[i].start_time <= s[j].start_time
}

/// Where an insertion lands: splitting `s` at the position `p` that the
/// backward scan of `sorted_insert` stops at gives the inserted sequence.
proof fn lemma_sorted_insert_position(s: Seq<PerformanceEntry>, e: PerformanceEntry, p: int)
    requires
        0 <= p <= s.len(),
        forall|k: int| p <= k < s.len() ==> s[k].start_time > e.start_time,
        p > 0 ==> s[p - 1].start_time <= e.start_time,
    ensures
        sorted_insert(s, e) == s.subrange(0, p).push(e) + s.subrange(p, s.len() as int),
    decreases s.len(),
{
    if p == s.len() {
        if s.len() == 0 {
            assert(sorted_insert(s, e) =~= s.subrange(0, p).push(e) + s.subrange(
                p,
                s.len() as int,
            ));
        } else {
            assert(s.push(e) =~= s.subrange(0, p).push(e) + s.subrange(p, s.len() as int));
        }
    } else {
        let d = s.drop_last();
        lemma_sorted_insert_position(d, e, p);
        assert(d.subrange(0, p) =~= s.subrange(0, p));
        assert(sorted_insert(s, e) =~= s.subrange(0, p).push(e) + s.subrange(p, s.len() as int))
        by {
            assert(sorted_insert(s, e) == sorted_insert(d, e).push(s.last()));
            assert(sorted_insert(d, e) == d.subrange(0, p).push(e) + d.subrange(p, d.len() as int));
        }
    }
}

/// Inserting into a sequence ordered by start time keeps it ordered.
pub proof fn lemma_sorted_insert_sorted(s: Seq<PerformanceEntry>, e: PerformanceEntry)
    requires
        sorted_by_start_time(s),
    ensures
        sorted_by_start_time(sorted_insert(s, e)),
        sorted_insert(s, e).len() == s.len() + 1,
    decreases s.len(),
{
    if s.len() == 0 {
    } else if s.last().start_time > e.start_time {
        assert(sorted_by_start_time(s.drop_last()));
        lemma_sorted_insert_sorted(s.drop_last(), e);
        let r = sorted_insert(s.drop_last(), e).push(s.last());
        assert forall|i: int, j: int| 0 <= i < j < r.len() implies r[i].start_time
            <= r[j].start_time by {
            if j < r.len() - 1 {
            } else {
                lemma_sorted_insert_members(s.drop_last(), e, i);
            }
        }
    } else {
    }
}

/// Every entry of an insertion's result is either the inserted entry or an
/// entry of the original sequence.
proof fn lemma_sorted_insert_members(s: Seq<PerformanceEntry>, e: PerformanceEntry, i: int)
    requires
        0 <= i < sorted_insert(s, e).len(),
    ensures
        sorted_insert(s, e)[i] == e || exists|k: int|
            0 <= k < s.len() && sorted_insert(s, e)[i] == s[k],
    decreases s.len(),
{
    if s.len() == 0 {
    } else if s.last().start_time > e.start_time {
        if i < sorted_insert(s, e).len() - 1 {
            lemma_sorted_insert_members(s.drop_last(), e, i);
            if sorted_insert(s.drop_last(), e)[i] != e {
                let k = choose|k: int|
                    0 <= k < s.drop_last().len() && sorted_insert(s.drop_last(), e)[i]
                        == s.drop_last()[k];
                assert(sorted_insert(s, e)[i] == s[k]);
            }
        } else {
            assert(sorted_insert(s, e)[i] == s[s.len() - 1]);
        }
    } else {
    }
}

/// A stable sort yields a sequence ordered by start time, of the same
/// length.
pub proof fn lemma_stable_sorted_sorted(s: Seq<PerformanceEntry>)
    ensures
        sorted_by_start_time(stable_sorted(s)),
        stable_sorted(s).len() == s.len(),
    decreases s.len(),
{
    if s.len() > 0 {
        lemma_stable_sorted_sorted(s.drop_last());
        lemma_sorted_insert_sorted(stable_sorted(s.drop_last()), s.last());
    }
}

/// A stable sort loses and invents nothing: its result carries exactly the
/// entries of its input.
pub proof fn lemma_stable_sorted_permutes(s: Seq<PerformanceEntry>)
    ensures
        stable_sorted(s).to_multiset() == s.to_multiset(),
    decreases s.len(),
{
    broadcast use vstd::seq_lib::group_to_multiset_ensures;

    if s.len() > 0 {
        let d = s.drop_last();
        lemma_stable_sorted_permutes(d);
        lemma_sorted_insert_multiset(stable_sorted(d), s.last());
        assert(d.push(s.last()) =~= s);
    }
}

/// One insertion step adds exactly the inserted entry to the content.
proof fn lemma_sorted_insert_multiset(s: Seq<PerformanceEntry>, e: PerformanceEntry)
    ensures
        sorted_insert(s, e).to_multiset() == s.to_multiset().insert(e),
    decreases s.len(),
{
    broadcast use vstd::seq_lib::group_to_multiset_ensures;

    if s.len() == 0 {
        assert(seq![e] =~= Seq::<PerformanceEntry>::empty().push(e));
        assert(Seq::<PerformanceEntry>::empty().to_multiset() =~= Multiset::<
            PerformanceEntry,
        >::empty());
        assert(sorted_insert(s, e).to_multiset() =~= s.to_multiset().insert(e));
    } else if s.last().start_time > e.start_time {
        let d = s.drop_last();
        lemma_sorted_insert_multiset(d, e);
        assert(d.push(s.last()) =~= s);
        assert(sorted_insert(s, e).to_multiset() =~= sorted_insert(d, e).to_multiset().insert(
            s.last(),
        ));
        assert(d.to_multiset().insert(e).insert(s.last()) =~= d.to_multiset().insert(
            s.last(),
        ).insert(e));
    } else {
    }
}

/// The performance entry buffer shared by the `Performance` object and the
/// observer entry lists.
#[derive(Debug)]
pub struct PerformanceEntryList {
    pub entries: Vec<PerformanceEntry>,
}

impl PerformanceEntryList {
    pub fn new(entries: Vec<PerformanceEntry>) -> (l: PerformanceEntryList)
        ensures
            l.entries == entries,
    {
        PerformanceEntryList { entries }
    }

    /// The entries that pass the name/type filter, ordered by start time;
    /// entries with equal start times keep their buffer order.
    pub fn get_entries_by_name_and_type(
        &self,
        name: Option<String>,
        entry_type: Option<String>,
    ) -> (r: Vec<PerformanceEntry>)
        ensures
            r@ == stable_sorted(filtered(self.entries@, opt_view(name), opt_view(entry_type))),
    {
        let mut picked: Vec<PerformanceEntry> = Vec::new();
        let mut i: usize = 0;
        while i < self.entries.len()
            invariant
                i <= self.entries@.len(),
                picked@ == filtered(self.entries@.subrange(0, i as int), opt_view(name), opt_view(entry_type)),
            decreases self.entries@.len() - i,
        {
            let ghost prefix = self.entries@.subrange(0, i as int);
            let ghost prefix1 = self.entries@.subrange(0, i + 1);
            proof {
                assert(prefix1.drop_last() =~= prefix);
            }
            if entry_filter_matches(&self.entries[i], &name, &entry_type) {
                picked.push(self.entries[i].clone());
            }
            i += 1;
        }
        proof {
            assert(self.entries@.subrange(0, self.entries@.len() as int) =~= self.entries@);
        }
        let mut res: Vec<PerformanceEntry> = Vec::new();
        let mut j: usize = 0;
        while j < picked.len()
            invariant
                j <= picked@.len(),
                res@ == stable_sorted(picked@.subrange(0, j as int)),
            decreases picked@.len() - j,
        {
            let e = picked[j].clone();
            let mut p: usize = res.len();
            while p > 0 && res[p - 1].start_time > e.start_time
                invariant
                    p <= res@.len(),
                    forall|k: int| p <= k < res@.len() ==> res@[k].start_time > e.start_time,
                decreases p,
            {
                p -= 1;
            }
            proof {
                lemma_sorted_insert_position(res@, e, p as int);
                let prefix1 = picked@.subrange(0, j + 1);
                assert(prefix1.drop_last() =~= picked@.subrange(0, j as int));
            }
            res.insert(p, e);
            proof {
                assert(res@ =~= stable_sorted(picked@.subrange(0, j + 1)));
            }
            j += 1;
        }
        proof {
            assert(picked@.subrange(0, picked@.len() as int) =~= picked@);
        }
        res
    }

    /// Drop every entry whose name equals the given name or whose type
    /// equals the given type, keeping the rest in order.  An omitted side
    /// removes nothing by itself, so clearing with neither keeps everything.
    pub fn clear_entries_by_name_and_type(
        &mut self,
        name: Option<String>,
        entry_type: Option<String>,
    )
        ensures
            final(self).entries@ == retained(old(self).entries@, opt_view(name), opt_view(entry_type)),
    {
        let mut kept: Vec<PerformanceEntry> = Vec::new();
        let mut i: usize = 0;
        while i < self.entries.len()
            invariant
                i <= self.entries@.len(),
                self.entries == old(self).entries,
                kept@ == retained(self.entries@.subrange(0, i as int), opt_view(name), opt_view(entry_type)),
            decreases self.entries@.len() - i,
        {
            proof {
                assert(self.entries@.subrange(0, i + 1).drop_last() =~= self.entries@.subrange(
                    0,
                    i as int,
                ));
            }
            if !entry_clear_matches(&self.entries[i], &name, &entry_type) {
                kept.push(self.entries[i].clone());
            }
            i += 1;
        }
        proof {
            assert(self.entries@.subrange(0, self.entries@.len() as int) =~= self.entries@);
        }
        self.entries = kept;
    }

    /// The start time of the latest-buffered entry with this name and type,
    /// or zero when there is none.
    pub fn get_last_entry_start_time_with_name_and_type(
        &self,
        name: String,
        entry_type: String,
    ) -> (t: u64)
        ensures
            t == last_matching_start_time(self.entries@, name@, entry_type@),
    {
        let mut i: usize = self.entries.len();
        proof {
            assert(self.entries@.subrange(0, self.entries@.len() as int) =~= self.entries@);
        }
        while i > 0
            invariant
                i <= self.entries@.len(),
                last_matching_start_time(self.entries@, name@, entry_type@)
                    == last_matching_start_time(
                    self.entries@.subrange(0, i as int),
                    name@,
                    entry_type@,
                ),
            decreases i,
        {
            let e = &self.entries[i - 1];
            proof {
                assert(self.entries@.subrange(0, i as int).drop_last() =~= self.entries@.subrange(
                    0,
                    i - 1,
                ));
                assert(self.entries@.subrange(0, i as int).last() == self.entries@[i - 1]);
            }
            if e.entry_type == entry_type && e.name == name {
                return e.start_time;
            }
            i -= 1;
        }
        proof {
            assert(self.entries@.subrange(0, 0) =~= Seq::<PerformanceEntry>::empty());
        }
        0
    }

    /// The buffered entries, in buffer order, consuming the list.
    pub fn into_entries(self) -> (r: Vec<PerformanceEntry>)
        ensures
            r == self.entries,
    {
        self.entries
    }
}

/// The start time of the last entry of `entries` with this name and type;
/// zero when no entry matches.
pub open spec fn last_matching_start_time(
    entries: Seq<PerformanceEntry>,
    name: Seq<char>,
    entry_type: Seq<char>,
) -> u64
    decreases entries.len(),
{
    if entries.len() == 0 {
        0
    } else if entries.last().entry_type@ == entry_type && entries.last().name@ == name {
        entries.last().start_time
    } else {
        last_matching_start_time(entries.drop_last(), name, entry_type)
    }
}

/// A registered performance observer: the identity of the host observer
/// object, the entry types it watches, and the entries queued for it since
/// it was last notified.
#[derive(Debug)]
pub struct PerformanceObserver {
    pub observer: u64,
    pub entry_types: Vec<String>,
    pub queued_entries: Vec<PerformanceEntry>,
}

/// Does the watched-type list include this entry type?
pub open spec fn types_include(types: Seq<String>, entry_type: Seq<char>) -> bool {
    exists|i: int| 0 <= i < types.len() && types[i]@ == entry_type
}

/// The subsequence of `entries` whose type is watched by `types`.
pub open spec fn matching_entries(entries: Seq<PerformanceEntry>, types: Seq<String>) -> Seq<
    PerformanceEntry,
>
    decreases entries.len(),
{
    if entries.len() == 0 {
        Seq::empty()
    } else {
        let rest = matching_entries(entries.drop_last(), types);
        if types_include(types, entries.last().entry_type@) {
            rest.push(entries.last())
        } else {
            rest
        }
    }
}

/// Has every observer of `pre` received, in order, the entries of
/// `delivered` that it watches — and nothing else changed about it?
pub open spec fn observers_after_deliveries(
    pre: Seq<PerformanceObserver>,
    post: Seq<PerformanceObserver>,
    delivered: Seq<PerformanceEntry>,
) -> bool {
    &&& post.len() == pre.len()
    &&& forall|k: int|
        0 <= k < pre.len() ==> {
            &&& (#[trigger] post[k]).observer == pre[k].observer
            &&& post[k].entry_types == pre[k].entry_types
            &&& post[k].queued_entries@ == pre[k].queued_entries@ + matching_entries(
                delivered,
                pre[k].entry_types@,
            )
        }
}

/// Watching distributes over concatenation of the delivered entries.
proof fn lemma_matching_append(s1: Seq<PerformanceEntry>, s2: Seq<PerformanceEntry>, types: Seq<String>)
    ensures
        matching_entries(s1 + s2, types) == matching_entries(s1, types) + matching_entries(
            s2,
            types,
        ),
    decreases s2.len(),
{
    if s2.len() == 0 {
        assert(s1 + s2 =~= s1);
        assert(matching_entries(s1, types) + matching_entries(s2, types) =~= matching_entries(
            s1,
            types,
        ));
    } else {
        lemma_matching_append(s1, s2.drop_last(), types);
        assert((s1 + s2).drop_last() =~= s1 + s2.drop_last());
        assert((s1 + s2).last() == s2.last());
        if types_include(types, s2.last().entry_type@) {
            assert(matching_entries(s1 + s2, types) =~= matching_entries(s1, types)
                + matching_entries(s2, types));
        } else {
            assert(matching_entries(s1 + s2, types) =~= matching_entries(s1, types)
                + matching_entries(s2, types));
        }
    }
}

/// Two delivery rounds one after the other are one round of the
/// concatenated entries.
pub proof fn lemma_deliveries_compose(
    a: Seq<PerformanceObserver>,
    b: Seq<PerformanceObserver>,
    c: Seq<PerformanceObserver>,
    s1: Seq<PerformanceEntry>,
    s2: Seq<PerformanceEntry>,
)
    requires
        observers_after_deliveries(a, b, s1),
        observers_after_deliveries(b, c, s2),
    ensures
        observers_after_deliveries(a, c, s1 + s2),
{
    assert forall|k: int| 0 <= k < a.len() implies {
        &&& (#[trigger] c[k]).observer == a[k].observer
        &&& c[k].entry_types == a[k].entry_types
        &&& c[k].queued_entries@ == a[k].queued_entries@ + matching_entries(
            s1 + s2,
            a[k].entry_types@,
        )
    } by {
        lemma_matching_append(s1, s2, a[k].entry_types@);
        assert(c[k].queued_entries@ =~= a[k].queued_entries@ + matching_entries(
            s1 + s2,
            a[k].entry_types@,
        ));
    }
}

/// A delivery round of no entries changes no observer.
proof fn lemma_deliveries_empty(a: Seq<PerformanceObserver>)
    ensures
        observers_after_deliveries(a, a, Seq::<PerformanceEntry>::empty()),
{
    assert forall|k: int| 0 <= k < a.len() implies {
        &&& (#[trigger] a[k]).observer == a[k].observer
        &&& a[k].entry_types == a[k].entry_types
        &&& a[k].queued_entries@ == a[k].queued_entries@ + matching_entries(
            Seq::<PerformanceEntry>::empty(),
            a[k].entry_types@,
        )
    } by {
        assert(matching_entries(Seq::<PerformanceEntry>::empty(), a[k].entry_types@) =~= Seq::<
            PerformanceEntry,
        >::empty());
        assert(a[k].queued_entries@ + Seq::<PerformanceEntry>::empty() =~= a[k].queued_entries@);
    }
}

/// The first position of the observer with this identity, or -1 when it is
/// not registered.
pub open spec fn find_observer(observers: Seq<PerformanceObserver>, id: u64) -> int
    decreases observers.len(),
{
    if observers.len() == 0 {
        -1
    } else if observers.first().observer == id {
        0
    } else {
        let rest = find_observer(observers.drop_first(), id);
        if rest == -1 {
            -1
        } else {
            rest + 1
        }
    }
}

/// What `find_observer` finds: the first registered observer with the
/// identity, when there is one.
pub proof fn lemma_find_observer(observers: Seq<PerformanceObserver>, id: u64)
    ensures
        find_observer(observers, id) == -1 <==> forall|k: int|
            0 <= k < observers.len() ==> observers[k].observer != id,
        find_observer(observers, id) != -1 ==> {
            let f = find_observer(observers, id);
            &&& 0 <= f < observers.len()
            &&& observers[f].observer == id
            &&& forall|k: int| 0 <= k < f ==> observers[k].observer != id
        },
    decreases observers.len(),
{
    if observers.len() > 0 && observers.first().observer != id {
        let rest = observers.drop_first();
        lemma_find_observer(rest, id);
        assert forall|k: int| 0 <= k < rest.len() implies #[trigger] rest[k]
            == observers[k + 1] by {}
        let fr = find_observer(rest, id);
        if fr == -1 {
            assert forall|k: int| 0 <= k < observers.len() implies #[trigger] observers[k].observer
                != id by {
                if k > 0 {
                    assert(observers[k] == rest[k - 1]);
                }
            }
        } else {
            let f = find_observer(observers, id);
            assert(f == fr + 1);
            assert(observers[f] == rest[fr]);
            assert forall|k: int| 0 <= k < f implies #[trigger] observers[k].observer != id by {
                if k > 0 {
                    assert(observers[k] == rest[k - 1]);
                }
            }
        }
    }
}

/// Is `name` one of the legacy navigation-timing attribute names, which a
/// window context reserves and refuses as user-timing mark names?
pub open spec fn reserved_mark_name(name: Seq<char>) -> bool {
    ||| name == "navigationStart"@
    ||| name == "unloadEventStart"@
    ||| name == "unloadEventEnd"@
    ||| name == "redirectStart"@
    ||| name == "redirectEnd"@
    ||| name == "fetchStart"@
    ||| name == "domainLookupStart"@
    ||| name == "domainLookupEnd"@
    ||| name == "connectStart"@
    ||| name == "connectEnd"@
    ||| name == "secureConnectionStart"@
    ||| name == "requestStart"@
    ||| name == "responseStart"@
    ||| name == "responseEnd"@
    ||| name == "domLoading"@
    ||| name == "domInteractive"@
    ||| name == "domContentLoadedEventStart"@
    ||| name == "domContentLoadedEventEnd"@
    ||| name == "domComplete"@
    ||| name == "loadEventStart"@
    ||| name == "loadEventEnd"@
}

/// Is `name` a reserved mark name?  Decides `reserved_mark_name`.
fn is_reserved_mark_name(name: &String) -> (b: bool)
    ensures
        b == reserved_mark_name(name@),
{
    *name == "navigationStart".to_owned() || *name == "unloadEventStart".to_owned() || *name
        == "unloadEventEnd".to_owned() || *name == "redirectStart".to_owned() || *name
        == "redirectEnd".to_owned() || *name == "fetchStart".to_owned() || *name
        == "domainLookupStart".to_owned() || *name == "domainLookupEnd".to_owned() || *name
        == "connectStart".to_owned() || *name == "connectEnd".to_owned() || *name
        == "secureConnectionStart".to_owned() || *name == "requestStart".to_owned() || *name
        == "responseStart".to_owned() || *name == "responseEnd".to_owned() || *name
        == "domLoading".to_owned() || *name == "domInteractive".to_owned() || *name
        == "domContentLoadedEventStart".to_owned() || *name
        == "domContentLoadedEventEnd".to_owned() || *name == "domComplete".to_owned() || *name
        == "loadEventStart".to_owned() || *name == "loadEventEnd".to_owned()
}

/// Does the watched-type list include this entry type?  Decides
/// `types_include`.
fn types_contain(types: &Vec<String>, entry_type: &String) -> (b: bool)
    ensures
        b == types_include(types@, entry_type@),
{
    let mut i: usize = 0;
    while i < types.len()
        invariant
            i <= types@.len(),
            forall|k: int| 0 <= k < i ==> (#[trigger] types@[k])@ != entry_type@,
        decreases types@.len() - i,
    {
        if types[i] == *entry_type {
            return true;
        }
        i += 1;
    }
    false
}

/// Does a clearing pass drop `e`?  Decides `entry_removed`.
fn entry_clear_matches(
    e: &PerformanceEntry,
    name: &Option<String>,
    entry_type: &Option<String>,
) -> (b: bool)
    ensures
        b == entry_removed(*e, opt_view(*name), opt_view(*entry_type)),
{
    let name_hit = match name {
        Some(n) => e.name == *n,
        None => false,
    };
    let type_hit = match entry_type {
        Some(t) => e.entry_type == *t,
        None => false,
    };
    name_hit || type_hit
}

/// Does `e` pass the name/type filter?  Decides `entry_matches`.
fn entry_filter_matches(
    e: &PerformanceEntry,
    name: &Option<String>,
    entry_type: &Option<String>,
) -> (b: bool)
    ensures
        b == entry_matches(*e, opt_view(*name), opt_view(*entry_type)),
{
    let name_ok = match name {
        Some(n) => e.name == *n,
        None => true,
    };
    let type_ok = match entry_type {
        Some(t) => e.entry_type == *t,
        None => true,
    };
    name_ok && type_ok
}

/// The default capacity of the resource-timing buffer.
pub const DEFAULT_RESOURCE_TIMING_BUFFER_SIZE: usize = 250;

/// What queuing an entry asks of the embedder.
#[derive(Clone, Copy, PartialEq, Eq, Structural, Debug)]
pub struct QueueEntryOutcome {
    /// The new entry's buffer index, returned exactly when a notification
    /// task was newly scheduled: the embedder must then schedule one.
    pub index: Option<usize>,
    /// How many buffer-full events must be fired on the owning target.
    pub buffer_full_events: u64,
}

/// What firing the buffer-full event asks of the embedder.
#[derive(Clone, Copy, PartialEq, Eq, Structural, Debug)]
pub struct FireOutcome {
    /// How many buffer-full events must be fired on the owning target.
    pub buffer_full_events: u64,
    /// Whether a notification task must now be scheduled.
    pub task_queued: bool,
}

/// One observer to notify: the identity of the host observer object and the
/// entries queued for it since it was last notified.
#[derive(Debug)]
pub struct ObserverNotification {
    pub observer: u64,
    pub entries: Vec<PerformanceEntry>,
}

/// The error a caller-visible timeline operation can fail with.
#[derive(Clone, Copy, PartialEq, Eq, Structural, Debug)]
pub enum TimelineError {
    /// A reserved name was used for a user-timing mark.
    Syntax,
}

/// The performance timeline of one global: the entry buffer, the registered
/// observers, and the resource-timing bookkeeping.
///
/// Everything that reaches beyond the timeline — scheduling the observer
/// notification task, firing the buffer-full event, notifying an observer —
/// is returned to the caller as a value instead of being performed here.
#[derive(Debug)]
pub struct Performance {
    /// The performance entry buffer.
    pub buffer: PerformanceEntryList,
    /// The registered observers, in registration order.
    pub observers: Vec<PerformanceObserver>,
    /// Whether an observer notification task is already scheduled.
    pub pending_notification_observers_task: bool,
    /// The navigation start of the owning global, in the embedder's clock
    /// units.
    pub navigation_start_precise: u64,
    /// The capacity of the resource-timing buffer; zero once the owning
    /// pipeline exits.
    pub resource_timing_buffer_size_limit: usize,
    /// How many resource entries the buffer currently counts.
    pub resource_timing_buffer_current_size: usize,
    /// Whether a buffer-full event is being fired right now; true only
    /// transiently inside the operations of this type.
    pub resource_timing_buffer_pending_full_event: bool,
    /// Resource entries parked while the buffer is full.
    pub resource_timing_secondary_entries: VecDeque<PerformanceEntry>,
}

/// May another resource entry be counted into the buffer?
pub open spec fn can_add_resource_entry(p: Performance) -> bool {
    p.resource_timing_buffer_current_size <= p.resource_timing_buffer_size_limit
}

/// How many parked entries one copying pass moves out of the secondary
/// queue: entries are moved one at a time while the buffer can still take
/// one, so the pass moves the whole queue or fills the buffer one past its
/// capacity, whichever comes first.
pub open spec fn copy_count(p: Performance) -> int {
    let len = p.resource_timing_secondary_entries@.len() as int;
    let cur = p.resource_timing_buffer_current_size as int;
    let lim = p.resource_timing_buffer_size_limit as int;
    if cur > lim {
        0
    } else if len <= lim - cur + 1 {
        len
    } else {
        lim - cur + 1
    }
}

/// Is this the entry type of resource-timing entries?
pub open spec fn is_resource_entry(e: PerformanceEntry) -> bool {
    e.entry_type@ == "resource"@
}

impl Performance {
    /// A fresh timeline: empty buffer, no observers, no pending task, and
    /// the default resource-timing capacity.
    pub fn new_inherited(navigation_start_precise: u64) -> (p: Performance)
        ensures
            p.buffer.entries@ == Seq::<PerformanceEntry>::empty(),
            p.observers@ == Seq::<PerformanceObserver>::empty(),
            p.pending_notification_observers_task == false,
            p.navigation_start_precise == navigation_start_precise,
            p.resource_timing_buffer_size_limit == DEFAULT_RESOURCE_TIMING_BUFFER_SIZE,
            p.resource_timing_buffer_current_size == 0,
            p.resource_timing_buffer_pending_full_event == false,
            p.resource_timing_secondary_entries@ == Seq::<PerformanceEntry>::empty(),
    {
        Performance {
            buffer: PerformanceEntryList::new(Vec::new()),
            observers: Vec::new(),
            pending_notification_observers_task: false,
            navigation_start_precise,
            resource_timing_buffer_size_limit: DEFAULT_RESOURCE_TIMING_BUFFER_SIZE,
            resource_timing_buffer_current_size: 0,
            resource_timing_buffer_pending_full_event: false,
            resource_timing_secondary_entries: VecDeque::new(),
        }
    }

    /// A fresh timeline; same contract as `new_inherited`.
    pub fn new(navigation_start_precise: u64) -> (p: Performance)
        ensures
            p.buffer.entries@ == Seq::<PerformanceEntry>::empty(),
            p.observers@ == Seq::<PerformanceObserver>::empty(),
            p.pending_notification_observers_task == false,
            p.navigation_start_precise == navigation_start_precise,
            p.resource_timing_buffer_size_limit == DEFAULT_RESOURCE_TIMING_BUFFER_SIZE,
            p.resource_timing_buffer_current_size == 0,
            p.resource_timing_buffer_pending_full_event == false,
            p.resource_timing_secondary_entries@ == Seq::<PerformanceEntry>::empty(),
    {
        Performance::new_inherited(navigation_start_precise)
    }

    /// Empty the entry buffer and disable further resource-timing buffering,
    /// as done when the owning pipeline exits.
    pub fn clear_and_disable_performance_entry_buffer(&mut self)
        ensures
            final(self).buffer.entries@ == Seq::<PerformanceEntry>::empty(),
            final(self).resource_timing_buffer_size_limit == 0,
            (Performance {
                buffer: old(self).buffer,
                resource_timing_buffer_size_limit: old(self).resource_timing_buffer_size_limit,
                ..*final(self)
            }) == *old(self),
    {
        self.buffer.entries.clear();
        self.resource_timing_buffer_size_limit = 0;
    }

    /// The position of the observer with this identity, when registered.
    fn position_of_observer(&self, id: u64) -> (r: Option<usize>)
        ensures
            r matches Some(i) ==> find_observer(self.observers@, id) == i,
            r is None ==> find_observer(self.observers@, id) == -1,
    {
        proof {
            lemma_find_observer(self.observers@, id);
        }
        let mut i: usize = 0;
        while i < self.observers.len()
            invariant
                i <= self.observers@.len(),
                forall|k: int| 0 <= k < i ==> (#[trigger] self.observers@[k]).observer != id,
            decreases self.observers@.len() - i,
        {
            if self.observers[i].observer == id {
                proof {
                    lemma_find_observer(self.observers@, id);
                }
                return Some(i);
            }
            i += 1;
        }
        None
    }

    /// Register an observer for a whole set of entry types, or replace the
    /// watched set of one already registered.
    pub fn add_multiple_type_observer(&mut self, observer: u64, entry_types: Vec<String>)
        ensures
            (Performance { observers: old(self).observers, ..*final(self) }) == *old(self),
            find_observer(old(self).observers@, observer) == -1 ==> {
                &&& final(self).observers@.len() == old(self).observers@.len() + 1
                &&& final(self).observers@.subrange(0, old(self).observers@.len() as int) == old(
                    self,
                ).observers@
                &&& final(self).observers@.last().observer == observer
                &&& final(self).observers@.last().entry_types == entry_types
                &&& final(self).observers@.last().queued_entries@ == Seq::<
                    PerformanceEntry,
                >::empty()
            },
            find_observer(old(self).observers@, observer) >= 0 ==> {
                let f = find_observer(old(self).observers@, observer);
                &&& final(self).observers@.len() == old(self).observers@.len()
                &&& forall|k: int|
                    0 <= k < old(self).observers@.len() && k != f
                        ==> final(self).observers@[k] == old(self).observers@[k]
                &&& final(self).observers@[f].observer == old(self).observers@[f].observer
                &&& final(self).observers@[f].entry_types == entry_types
                &&& final(self).observers@[f].queued_entries == old(
                    self,
                ).observers@[f].queued_entries
            },
    {
        match self.position_of_observer(observer) {
            Some(i) => {
                proof {
                    lemma_find_observer(self.observers@, observer);
                }
                let mut tmp = PerformanceObserver {
                    observer: 0,
                    entry_types: Vec::new(),
                    queued_entries: Vec::new(),
                };
                self.observers.set_and_swap(i, &mut tmp);
                tmp.entry_types = entry_types;
                self.observers.set_and_swap(i, &mut tmp);
            },
            None => {
                self.observers.push(
                    PerformanceObserver { observer, entry_types, queued_entries: Vec::new() },
                );
            },
        }
    }

    /// Register an observer for one more entry type — creating its
    /// registration when it has none — and, when `buffered`, hand it the
    /// already-buffered entries of that type right away and make sure a
    /// notification task is scheduled.
    ///
    /// Returns whether a notification task must now be scheduled.
    pub fn add_single_type_observer(
        &mut self,
        observer: u64,
        entry_type: &String,
        buffered: bool,
    ) -> (task_queued: bool)
        ensures
            ({
                let backlog = stable_sorted(
                    filtered(
                        old(self).buffer.entries@,
                        Option::<Seq<char>>::None,
                        Some(entry_type@),
                    ),
                );
                let appended = if buffered {
                    backlog
                } else {
                    Seq::<PerformanceEntry>::empty()
                };
                let f = find_observer(old(self).observers@, observer);
                &&& task_queued == (buffered && !old(self).pending_notification_observers_task)
                &&& final(self).pending_notification_observers_task == (old(
                    self,
                ).pending_notification_observers_task || buffered)
                &&& (Performance {
                    observers: old(self).observers,
                    pending_notification_observers_task: old(
                        self,
                    ).pending_notification_observers_task,
                    ..*final(self)
                }) == *old(self)
                &&& (f == -1 ==> {
                    &&& final(self).observers@.len() == old(self).observers@.len() + 1
                    &&& final(self).observers@.subrange(0, old(self).observers@.len() as int)
                        == old(self).observers@
                    &&& final(self).observers@.last().observer == observer
                    &&& final(self).observers@.last().entry_types@ == seq![*entry_type]
                    &&& final(self).observers@.last().queued_entries@ == appended
                })
                &&& (f >= 0 ==> {
                    &&& final(self).observers@.len() == old(self).observers@.len()
                    &&& forall|k: int|
                        0 <= k < old(self).observers@.len() && k != f
                            ==> final(self).observers@[k] == old(self).observers@[k]
                    &&& final(self).observers@[f].observer == old(self).observers@[f].observer
                    &&& final(self).observers@[f].entry_types@ == (if types_include(
                        old(self).observers@[f].entry_types@,
                        entry_type@,
                    ) {
                        old(self).observers@[f].entry_types@
                    } else {
                        old(self).observers@[f].entry_types@.push(*entry_type)
                    })
                    &&& final(self).observers@[f].queued_entries@ == old(
                        self,
                    ).observers@[f].queued_entries@ + appended
                })
            }),
    {
        let mut appended: Vec<PerformanceEntry> = Vec::new();
        let mut task_queued = false;
        if buffered {
            appended = self.buffer.get_entries_by_name_and_type(None, Some(entry_type.clone()));
            if !self.pending_notification_observers_task {
                self.pending_notification_observers_task = true;
                task_queued = true;
            }
        }
        match self.position_of_observer(observer) {
            Some(i) => {
                proof {
                    lemma_find_observer(self.observers@, observer);
                }
                let mut tmp = PerformanceObserver {
                    observer: 0,
                    entry_types: Vec::new(),
                    queued_entries: Vec::new(),
                };
                self.observers.set_and_swap(i, &mut tmp);
                if !types_contain(&tmp.entry_types, entry_type) {
                    tmp.entry_types.push(entry_type.clone());
                }
                tmp.queued_entries.append(&mut appended);
                self.observers.set_and_swap(i, &mut tmp);
            },
            None => {
                let mut types: Vec<String> = Vec::new();
                types.push(entry_type.clone());
                self.observers.push(
                    PerformanceObserver { observer, entry_types: types, queued_entries: appended },
                );
            },
        }
        task_queued
    }

    /// Drop the observer with this identity from the registry; registering
    /// it again later starts it afresh.
    pub fn remove_observer(&mut self, observer: u64)
        ensures
            (Performance { observers: old(self).observers, ..*final(self) }) == *old(self),
            find_observer(old(self).observers@, observer) == -1 ==> final(self).observers == old(
                self,
            ).observers,
            find_observer(old(self).observers@, observer) >= 0 ==> final(self).observers@ == old(
                self,
            ).observers@.remove(find_observer(old(self).observers@, observer)),
    {
        match self.position_of_observer(observer) {
            Some(i) => {
                proof {
                    lemma_find_observer(self.observers@, observer);
                }
                self.observers.remove(i);
            },
            None => {},
        }
    }

    /// May another resource entry be counted into the buffer?
    pub fn can_add_resource_timing_entry(&self) -> (b: bool)
        ensures
            b == can_add_resource_entry(*self),
    {
        self.resource_timing_buffer_current_size <= self.resource_timing_buffer_size_limit
    }

    /// Replace the resource-timing buffer's capacity.
    pub fn SetResourceTimingBufferSize(&mut self, max_size: u32)
        ensures
            final(self).resource_timing_buffer_size_limit == max_size as usize,
            (Performance {
                resource_timing_buffer_size_limit: old(self).resource_timing_buffer_size_limit,
                ..*final(self)
            }) == *old(self),
    {
        self.resource_timing_buffer_size_limit = max_size as usize;
    }

    /// Append `entry` to the buffer and queue it for every observer that
    /// watches its type; schedule the notification task when none is
    /// scheduled yet.
    ///
    /// Returns the entry's buffer index exactly when a notification task was
    /// newly scheduled, as the signal that the caller must schedule one.
    fn deliver_entry(&mut self, entry: &PerformanceEntry) -> (r: Option<usize>)
        ensures
            final(self).buffer.entries@ == old(self).buffer.entries@.push(*entry),
            observers_after_deliveries(old(self).observers@, final(self).observers@, seq![*entry]),
            final(self).pending_notification_observers_task == true,
            r == (if old(self).pending_notification_observers_task {
                Option::<usize>::None
            } else {
                Option::<usize>::Some(old(self).buffer.entries@.len() as usize)
            }),
            (Performance {
                buffer: old(self).buffer,
                observers: old(self).observers,
                pending_notification_observers_task: old(
                    self,
                ).pending_notification_observers_task,
                ..*final(self)
            }) == *old(self),
    {
        let ghost single = seq![*entry];
        proof {
            assert(single.drop_last() =~= Seq::<PerformanceEntry>::empty());
        }
        let mut i: usize = 0;
        while i < self.observers.len()
            invariant
                i <= self.observers@.len(),
                self.observers@.len() == old(self).observers@.len(),
                single == seq![*entry],
                forall|k: int|
                    i <= k < self.observers@.len() ==> #[trigger] self.observers@[k] == old(
                        self,
                    ).observers@[k],
                forall|k: int|
                    0 <= k < i ==> {
                        &&& (#[trigger] self.observers@[k]).observer == old(
                            self,
                        ).observers@[k].observer
                        &&& self.observers@[k].entry_types == old(self).observers@[k].entry_types
                        &&& self.observers@[k].queued_entries@ == old(
                            self,
                        ).observers@[k].queued_entries@ + matching_entries(
                            single,
                            old(self).observers@[k].entry_types@,
                        )
                    },
                (Performance { observers: old(self).observers, ..*self }) == *old(self),
            decreases self.observers@.len() - i,
        {
            let mut tmp = PerformanceObserver {
                observer: 0,
                entry_types: Vec::new(),
                queued_entries: Vec::new(),
            };
            self.observers.set_and_swap(i, &mut tmp);
            if types_contain(&tmp.entry_types, &entry.entry_type) {
                tmp.queued_entries.push(entry.clone());
            }
            self.observers.set_and_swap(i, &mut tmp);
            proof {
                let pre = old(self).observers@[i as int];
                assert(single.drop_last() =~= Seq::<PerformanceEntry>::empty());
                assert(single.last() == *entry);
                assert(matching_entries(Seq::<PerformanceEntry>::empty(), pre.entry_types@)
                    =~= Seq::<PerformanceEntry>::empty());
                if types_include(pre.entry_types@, entry.entry_type@) {
                    assert(self.observers@[i as int].queued_entries@ =~= pre.queued_entries@
                        + matching_entries(single, pre.entry_types@));
                } else {
                    assert(self.observers@[i as int].queued_entries@ =~= pre.queued_entries@
                        + matching_entries(single, pre.entry_types@));
                }
            }
            i += 1;
        }
        self.buffer.entries.push(entry.clone());
        let r: Option<usize> = if self.pending_notification_observers_task {
            None
        } else {
            Some(self.buffer.entries.len() - 1)
        };
        self.pending_notification_observers_task = true;
        r
    }

    /// Move parked resource entries out of the secondary queue, one at a
    /// time, while the buffer can still take one; each moved entry is
    /// counted and delivered to the buffer and the observers.
    ///
    /// The pass moves what fits whether or not a buffer-full episode is
    /// open — deliberately so: sending a popped entry back through the
    /// episode's admission gate would only re-park it, and a pass that
    /// re-parks what it pops never ends once room returns mid-episode.  A
    /// moving pass always terminates, and outside an episode it does exactly
    /// what admission would.
    ///
    /// Returns whether a notification task was newly scheduled by the
    /// deliveries.
    pub fn copy_secondary_resource_timing_buffer(&mut self) -> (task_queued: bool)
        requires
            old(self).resource_timing_buffer_size_limit < usize::MAX,
        ensures
            ({
                let k = copy_count(*old(self));
                let moved = old(self).resource_timing_secondary_entries@.take(k);
                &&& final(self).buffer.entries@ == old(self).buffer.entries@ + moved
                &&& observers_after_deliveries(old(self).observers@, final(self).observers@, moved)
                &&& final(self).resource_timing_buffer_current_size == old(
                    self,
                ).resource_timing_buffer_current_size + k
                &&& final(self).resource_timing_secondary_entries@ == old(
                    self,
                ).resource_timing_secondary_entries@.skip(k)
                &&& final(self).pending_notification_observers_task == (old(
                    self,
                ).pending_notification_observers_task || k > 0)
                &&& task_queued == (k > 0 && !old(self).pending_notification_observers_task)
                &&& (k == 0 ==> *final(self) == *old(self))
                &&& (Performance {
                    buffer: old(self).buffer,
                    observers: old(self).observers,
                    pending_notification_observers_task: old(
                        self,
                    ).pending_notification_observers_task,
                    resource_timing_buffer_current_size: old(
                        self,
                    ).resource_timing_buffer_current_size,
                    resource_timing_secondary_entries: old(self).resource_timing_secondary_entries,
                    ..*final(self)
                }) == *old(self)
            }),
    {
        let ghost k = copy_count(*old(self));
        let ghost mut j: int = 0;
        let mut task_queued = false;
        proof {
            let sec = old(self).resource_timing_secondary_entries@;
            assert(sec.take(0) =~= Seq::<PerformanceEntry>::empty());
            assert(sec.skip(0) =~= sec);
            assert(old(self).buffer.entries@ + sec.take(0) =~= old(self).buffer.entries@);
            lemma_deliveries_empty(old(self).observers@);
        }
        while self.can_add_resource_timing_entry()
            invariant_except_break
                old(self).resource_timing_buffer_size_limit < usize::MAX,
                k == copy_count(*old(self)),
                0 <= j <= k,
                self.buffer.entries@ == old(self).buffer.entries@ + old(
                    self,
                ).resource_timing_secondary_entries@.take(j),
                observers_after_deliveries(
                    old(self).observers@,
                    self.observers@,
                    old(self).resource_timing_secondary_entries@.take(j),
                ),
                self.resource_timing_buffer_current_size == old(
                    self,
                ).resource_timing_buffer_current_size + j,
                self.resource_timing_secondary_entries@ == old(
                    self,
                ).resource_timing_secondary_entries@.skip(j),
                self.pending_notification_observers_task == (old(
                    self,
                ).pending_notification_observers_task || j > 0),
                task_queued == (j > 0 && !old(self).pending_notification_observers_task),
                j == 0 ==> *self == *old(self),
                (Performance {
                    buffer: old(self).buffer,
                    observers: old(self).observers,
                    pending_notification_observers_task: old(
                        self,
                    ).pending_notification_observers_task,
                    resource_timing_buffer_current_size: old(
                        self,
                    ).resource_timing_buffer_current_size,
                    resource_timing_secondary_entries: old(self).resource_timing_secondary_entries,
                    ..*self
                }) == *old(self),
            ensures
                j == k,
                j == 0 ==> *self == *old(self),
                self.buffer.entries@ == old(self).buffer.entries@ + old(
                    self,
                ).resource_timing_secondary_entries@.take(j),
                observers_after_deliveries(
                    old(self).observers@,
                    self.observers@,
                    old(self).resource_timing_secondary_entries@.take(j),
                ),
                self.resource_timing_buffer_current_size == old(
                    self,
                ).resource_timing_buffer_current_size + j,
                self.resource_timing_secondary_entries@ == old(
                    self,
                ).resource_timing_secondary_entries@.skip(j),
                self.pending_notification_observers_task == (old(
                    self,
                ).pending_notification_observers_task || j > 0),
                task_queued == (j > 0 && !old(self).pending_notification_observers_task),
                (Performance {
                    buffer: old(self).buffer,
                    observers: old(self).observers,
                    pending_notification_observers_task: old(
                        self,
                    ).pending_notification_observers_task,
                    resource_timing_buffer_current_size: old(
                        self,
                    ).resource_timing_buffer_current_size,
                    resource_timing_secondary_entries: old(self).resource_timing_secondary_entries,
                    ..*self
                }) == *old(self),
            decreases self.resource_timing_secondary_entries@.len(),
        {
            if self.resource_timing_secondary_entries.len() == 0 {
                proof {
                    assert(old(self).resource_timing_secondary_entries@.skip(j).len() == 0);
                    assert(j == k);
                }
                break ;
            }
            let popped = self.resource_timing_secondary_entries.pop_front();
            match popped {
                None => {
                    proof {
                        assert(false);
                    }
                    break ;
                },
                Some(e) => {
                    let ghost sec = old(self).resource_timing_secondary_entries@;
                    proof {
                        assert(e == sec.skip(j)[0]);
                        assert(e == sec[j]);
                        assert(j < k);
                    }
                    self.resource_timing_buffer_current_size += 1;
                    let ghost obs_before = self.observers@;
                    let idx = self.deliver_entry(&e);
                    if idx.is_some() {
                        task_queued = true;
                    }
                    proof {
                        lemma_deliveries_compose(
                            old(self).observers@,
                            obs_before,
                            self.observers@,
                            sec.take(j),
                            seq![e],
                        );
                        assert(sec.take(j) + seq![e] =~= sec.take(j + 1));
                        assert(self.buffer.entries@ =~= old(self).buffer.entries@ + sec.take(
                            j + 1,
                        ));
                        assert(self.resource_timing_secondary_entries@ =~= sec.skip(j + 1));
                        j = j + 1;
                    }
                },
            }
        }
        task_queued
    }

    /// Fire the buffer-full event: give the parked entries one chance to
    /// move into the buffer, drop whatever still does not fit with one
    /// buffer-full event, and end the full-event episode.
    ///
    /// Event dispatch is returned to the caller as a count, so nothing can
    /// refill the secondary queue while this runs; one copying pass
    /// therefore suffices, and anything left after it is dropped.
    pub fn fire_buffer_full_event(&mut self) -> (r: FireOutcome)
        requires
            old(self).resource_timing_buffer_size_limit < usize::MAX,
        ensures
            ({
                let k = copy_count(*old(self));
                let moved = old(self).resource_timing_secondary_entries@.take(k);
                &&& final(self).buffer.entries@ == old(self).buffer.entries@ + moved
                &&& observers_after_deliveries(old(self).observers@, final(self).observers@, moved)
                &&& final(self).resource_timing_buffer_current_size == old(
                    self,
                ).resource_timing_buffer_current_size + k
                &&& final(self).resource_timing_secondary_entries@ == Seq::<
                    PerformanceEntry,
                >::empty()
                &&& final(self).pending_notification_observers_task == (old(
                    self,
                ).pending_notification_observers_task || k > 0)
                &&& final(self).resource_timing_buffer_pending_full_event == false
                &&& r.task_queued == (k > 0 && !old(self).pending_notification_observers_task)
                &&& r.buffer_full_events == (
                if old(self).resource_timing_secondary_entries@.len() > k {
                    1u64
                } else {
                    0u64
                })
                &&& (k == 0 ==> final(self).buffer == old(self).buffer && final(self).observers
                    == old(self).observers)
                &&& (Performance {
                    buffer: old(self).buffer,
                    observers: old(self).observers,
                    pending_notification_observers_task: old(
                        self,
                    ).pending_notification_observers_task,
                    resource_timing_buffer_current_size: old(
                        self,
                    ).resource_timing_buffer_current_size,
                    resource_timing_buffer_pending_full_event: old(
                        self,
                    ).resource_timing_buffer_pending_full_event,
                    resource_timing_secondary_entries: old(self).resource_timing_secondary_entries,
                    ..*final(self)
                }) == *old(self)
            }),
    {
        let mut events: u64 = 0;
        let mut task_queued = false;
        if self.resource_timing_secondary_entries.len() > 0 {
            task_queued = self.copy_secondary_resource_timing_buffer();
            if self.resource_timing_secondary_entries.len() > 0 {
                events = 1;
                self.resource_timing_secondary_entries.clear();
            }
        } else {
            proof {
                let sec = old(self).resource_timing_secondary_entries@;
                assert(copy_count(*old(self)) == 0);
                assert(old(self).buffer.entries@ + sec.take(0) =~= old(self).buffer.entries@);
                lemma_deliveries_empty(old(self).observers@);
                assert(sec.take(0) =~= Seq::<PerformanceEntry>::empty());
                assert(sec =~= Seq::<PerformanceEntry>::empty());
            }
        }
        self.resource_timing_buffer_pending_full_event = false;
        FireOutcome { buffer_full_events: events, task_queued }
    }

    /// Decide whether a resource entry may enter the buffer.
    ///
    /// While no full-event episode is under way, an entry is admitted and
    /// counted while the buffer can take it; the first entry that does not
    /// fit opens the episode, fires the buffer-full event, and is parked in
    /// the secondary queue.  During an episode every further resource entry
    /// is parked.
    pub fn should_queue_resource_entry(&mut self, entry: &PerformanceEntry) -> (r: (bool, u64))
        requires
            old(self).resource_timing_buffer_size_limit < usize::MAX,
        ensures
            !old(self).resource_timing_buffer_pending_full_event && can_add_resource_entry(
                *old(self),
            ) ==> {
                &&& r == (true, 0u64)
                &&& final(self).resource_timing_buffer_current_size == old(
                    self,
                ).resource_timing_buffer_current_size + 1
                &&& (Performance {
                    resource_timing_buffer_current_size: old(
                        self,
                    ).resource_timing_buffer_current_size,
                    ..*final(self)
                }) == *old(self)
            },
            !old(self).resource_timing_buffer_pending_full_event && !can_add_resource_entry(
                *old(self),
            ) ==> {
                &&& r == (
                    false,
                    if old(self).resource_timing_secondary_entries@.len() > 0 {
                        1u64
                    } else {
                        0u64
                    },
                )
                &&& final(self).resource_timing_secondary_entries@ == seq![*entry]
                &&& final(self).resource_timing_buffer_pending_full_event == false
                &&& (Performance {
                    resource_timing_buffer_pending_full_event: old(
                        self,
                    ).resource_timing_buffer_pending_full_event,
                    resource_timing_secondary_entries: old(self).resource_timing_secondary_entries,
                    ..*final(self)
                }) == *old(self)
            },
            old(self).resource_timing_buffer_pending_full_event ==> {
                &&& r == (false, 0u64)
                &&& final(self).resource_timing_secondary_entries@ == old(
                    self,
                ).resource_timing_secondary_entries@.push(*entry)
                &&& (Performance {
                    resource_timing_secondary_entries: old(self).resource_timing_secondary_entries,
                    ..*final(self)
                }) == *old(self)
            },
    {
        if !self.resource_timing_buffer_pending_full_event {
            if self.can_add_resource_timing_entry() {
                self.resource_timing_buffer_current_size =
                    self.resource_timing_buffer_current_size + 1;
                return (true, 0);
            }
            self.resource_timing_buffer_pending_full_event = true;
            let fired = self.fire_buffer_full_event();
            self.resource_timing_secondary_entries.push_back(entry.clone());
            proof {
                assert(self.resource_timing_secondary_entries@ =~= seq![*entry]);
            }
            return (false, fired.buffer_full_events);
        }
        self.resource_timing_secondary_entries.push_back(entry.clone());
        (false, 0)
    }

    /// Queue a performance entry.
    ///
    /// A resource entry first passes the resource-timing admission above;
    /// once admitted — or for any other entry type — the entry enters the
    /// buffer and the queues of the observers that watch its type, and a
    /// notification task is scheduled when none is.  The returned index is
    /// the entry's slot in the buffer, present exactly when the task was
    /// newly scheduled.
    pub fn queue_entry(&mut self, entry: &PerformanceEntry) -> (r: QueueEntryOutcome)
        requires
            is_resource_entry(*entry) ==> old(self).resource_timing_buffer_size_limit
                < usize::MAX,
        ensures
            (!is_resource_entry(*entry) || (!old(
                self,
            ).resource_timing_buffer_pending_full_event && can_add_resource_entry(*old(self))))
                ==> {
                &&& final(self).buffer.entries@ == old(self).buffer.entries@.push(*entry)
                &&& observers_after_deliveries(
                    old(self).observers@,
                    final(self).observers@,
                    seq![*entry],
                )
                &&& final(self).pending_notification_observers_task == true
                &&& r.index == (if old(self).pending_notification_observers_task {
                    Option::<usize>::None
                } else {
                    Option::<usize>::Some(old(self).buffer.entries@.len() as usize)
                })
                &&& r.buffer_full_events == 0
                &&& final(self).resource_timing_buffer_current_size == old(
                    self,
                ).resource_timing_buffer_current_size + (if is_resource_entry(*entry) {
                    1int
                } else {
                    0int
                })
                &&& (Performance {
                    buffer: old(self).buffer,
                    observers: old(self).observers,
                    pending_notification_observers_task: old(
                        self,
                    ).pending_notification_observers_task,
                    resource_timing_buffer_current_size: old(
                        self,
                    ).resource_timing_buffer_current_size,
                    ..*final(self)
                }) == *old(self)
            },
            is_resource_entry(*entry) && !old(self).resource_timing_buffer_pending_full_event
                && !can_add_resource_entry(*old(self)) ==> {
                &&& r.index is None
                &&& r.buffer_full_events == (
                if old(self).resource_timing_secondary_entries@.len() > 0 {
                    1u64
                } else {
                    0u64
                })
                &&& final(self).resource_timing_secondary_entries@ == seq![*entry]
                &&& final(self).resource_timing_buffer_pending_full_event == false
                &&& (Performance {
                    resource_timing_buffer_pending_full_event: old(
                        self,
                    ).resource_timing_buffer_pending_full_event,
                    resource_timing_secondary_entries: old(self).resource_timing_secondary_entries,
                    ..*final(self)
                }) == *old(self)
            },
            is_resource_entry(*entry) && old(self).resource_timing_buffer_pending_full_event ==> {
                &&& r.index is None
                &&& r.buffer_full_events == 0
                &&& final(self).resource_timing_secondary_entries@ == old(
                    self,
                ).resource_timing_secondary_entries@.push(*entry)
                &&& (Performance {
                    resource_timing_secondary_entries: old(self).resource_timing_secondary_entries,
                    ..*final(self)
                }) == *old(self)
            },
    {
        let resource_type: String = "resource".to_owned();
        let mut events: u64 = 0;
        if entry.entry_type == resource_type {
            let decision = self.should_queue_resource_entry(entry);
            events = decision.1;
            if !decision.0 {
                return QueueEntryOutcome { index: None, buffer_full_events: events };
            }
        }
        let index = self.deliver_entry(entry);
        QueueEntryOutcome { index, buffer_full_events: events }
    }

    /// Run the notification task: hand every observer the entries queued for
    /// it, in registration order, and clear the task flag.
    pub fn notify_observers(&mut self) -> (r: Vec<ObserverNotification>)
        ensures
            final(self).pending_notification_observers_task == false,
            r@.len() == old(self).observers@.len(),
            forall|k: int|
                0 <= k < old(self).observers@.len() ==> {
                    &&& (#[trigger] r@[k]).observer == old(self).observers@[k].observer
                    &&& r@[k].entries@ == old(self).observers@[k].queued_entries@
                },
            final(self).observers@.len() == old(self).observers@.len(),
            forall|k: int|
                0 <= k < old(self).observers@.len() ==> {
                    &&& (#[trigger] final(self).observers@[k]).observer == old(
                        self,
                    ).observers@[k].observer
                    &&& final(self).observers@[k].entry_types == old(
                        self,
                    ).observers@[k].entry_types
                    &&& final(self).observers@[k].queued_entries@ == Seq::<
                        PerformanceEntry,
                    >::empty()
                },
            (Performance {
                observers: old(self).observers,
                pending_notification_observers_task: old(
                    self,
                ).pending_notification_observers_task,
                ..*final(self)
            }) == *old(self),
    {
        self.pending_notification_observers_task = false;
        let mut notifications: Vec<ObserverNotification> = Vec::new();
        let mut i: usize = 0;
        while i < self.observers.len()
            invariant
                i <= self.observers@.len(),
                self.observers@.len() == old(self).observers@.len(),
                notifications@.len() == i,
                forall|k: int|
                    i <= k < self.observers@.len() ==> #[trigger] self.observers@[k] == old(
                        self,
                    ).observers@[k],
                forall|k: int|
                    0 <= k < i ==> {
                        &&& (#[trigger] notifications@[k]).observer == old(
                            self,
                        ).observers@[k].observer
                        &&& notifications@[k].entries@ == old(self).observers@[k].queued_entries@
                    },
                forall|k: int|
                    0 <= k < i ==> {
                        &&& (#[trigger] self.observers@[k]).observer == old(
                            self,
                        ).observers@[k].observer
                        &&& self.observers@[k].entry_types == old(self).observers@[k].entry_types
                        &&& self.observers@[k].queued_entries@ == Seq::<PerformanceEntry>::empty()
                    },
                self.pending_notification_observers_task == false,
                (Performance {
                    observers: old(self).observers,
                    pending_notification_observers_task: old(
                        self,
                    ).pending_notification_observers_task,
                    ..*self
                }) == *old(self),
            decreases self.observers@.len() - i,
        {
            let mut tmp = PerformanceObserver {
                observer: 0,
                entry_types: Vec::new(),
                queued_entries: Vec::new(),
            };
            self.observers.set_and_swap(i, &mut tmp);
            let mut drained: Vec<PerformanceEntry> = Vec::new();
            core::mem::swap(&mut drained, &mut tmp.queued_entries);
            notifications.push(ObserverNotification { observer: tmp.observer, entries: drained });
            self.observers.set_and_swap(i, &mut tmp);
            i += 1;
        }
        notifications
    }

    /// Every buffered entry, ordered by start time.
    pub fn GetEntries(&self) -> (r: Vec<PerformanceEntry>)
        ensures
            r@ == stable_sorted(
                filtered(
                    self.buffer.entries@,
                    Option::<Seq<char>>::None,
                    Option::<Seq<char>>::None,
                ),
            ),
    {
        self.buffer.get_entries_by_name_and_type(None, None)
    }

    /// The buffered entries of one type, ordered by start time.
    pub fn GetEntriesByType(&self, entry_type: String) -> (r: Vec<PerformanceEntry>)
        ensures
            r@ == stable_sorted(
                filtered(
                    self.buffer.entries@,
                    Option::<Seq<char>>::None,
                    Some(entry_type@),
                ),
            ),
    {
        self.buffer.get_entries_by_name_and_type(None, Some(entry_type))
    }

    /// The buffered entries with one name, and optionally one type, ordered
    /// by start time.
    pub fn GetEntriesByName(&self, name: String, entry_type: Option<String>) -> (r: Vec<
        PerformanceEntry,
    >)
        ensures
            r@ == stable_sorted(
                filtered(self.buffer.entries@, Some(name@), opt_view(entry_type)),
            ),
    {
        self.buffer.get_entries_by_name_and_type(Some(name), entry_type)
    }

    /// Record a user-timing mark at the given time.
    ///
    /// In a window context the names of the legacy navigation-timing
    /// attributes are reserved and rejected with a `Syntax` error; otherwise
    /// the mark is queued like any entry.
    pub fn Mark(&mut self, mark_name: String, now: u64, is_window: bool) -> (r: Result<
        QueueEntryOutcome,
        TimelineError,
    >)
        ensures
            is_window && reserved_mark_name(mark_name@) ==> *final(self) == *old(self) && r
                == Err::<QueueEntryOutcome, TimelineError>(TimelineError::Syntax),
            !(is_window && reserved_mark_name(mark_name@)) ==> {
                &&& r matches Ok(out) && {
                    &&& out.buffer_full_events == 0
                    &&& out.index == (if old(self).pending_notification_observers_task {
                        Option::<usize>::None
                    } else {
                        Option::<usize>::Some(old(self).buffer.entries@.len() as usize)
                    })
                }
                &&& final(self).buffer.entries@.len() == old(self).buffer.entries@.len() + 1
                &&& final(self).buffer.entries@.subrange(
                    0,
                    old(self).buffer.entries@.len() as int,
                ) == old(self).buffer.entries@
                &&& ({
                    let e = final(self).buffer.entries@.last();
                    &&& e.name == mark_name
                    &&& e.entry_type@ == "mark"@
                    &&& e.start_time == now
                    &&& e.duration == 0
                })
                &&& observers_after_deliveries(
                    old(self).observers@,
                    final(self).observers@,
                    seq![final(self).buffer.entries@.last()],
                )
                &&& final(self).pending_notification_observers_task == true
                &&& (Performance {
                    buffer: old(self).buffer,
                    observers: old(self).observers,
                    pending_notification_observers_task: old(
                        self,
                    ).pending_notification_observers_task,
                    ..*final(self)
                }) == *old(self)
            },
    {
        if is_window && is_reserved_mark_name(&mark_name) {
            return Err(TimelineError::Syntax);
        }
        let entry = PerformanceEntry {
            name: mark_name,
            entry_type: "mark".to_owned(),
            start_time: now,
            duration: 0,
        };
        proof {
            reveal_strlit("mark");
            reveal_strlit("resource");
            assert(("mark"@).len() == 4);
            assert(("resource"@).len() == 8);
            assert(!is_resource_entry(entry));
        }
        let out = self.queue_entry(&entry);
        proof {
            assert(self.buffer.entries@.subrange(0, old(self).buffer.entries@.len() as int)
                =~= old(self).buffer.entries@);
        }
        Ok(out)
    }

    /// Drop the user-timing marks: every entry of type mark, and with a
    /// name given, every entry of that name as well.
    pub fn ClearMarks(&mut self, mark_name: Option<String>)
        ensures
            final(self).buffer.entries@ == retained(
                old(self).buffer.entries@,
                opt_view(mark_name),
                Some("mark"@),
            ),
            (Performance { buffer: old(self).buffer, ..*final(self) }) == *old(self),
    {
        self.buffer.clear_entries_by_name_and_type(mark_name, Some("mark".to_owned()));
    }

    /// Record a user-timing measure between two named endpoints, between an
    /// endpoint and now, or from the time origin to now.
    ///
    /// A named endpoint takes the start time of the latest buffered entry
    /// whose name is the word mark and whose entry type is the endpoint's
    /// name — zero when no such entry exists.  An omitted end is the given
    /// time, an omitted start the time origin.
    pub fn Measure(
        &mut self,
        measure_name: String,
        start_mark: Option<String>,
        end_mark: Option<String>,
        now: u64,
    ) -> (r: QueueEntryOutcome)
        ensures
            ({
                let end_time = (match end_mark {
                    Some(n) => last_matching_start_time(old(self).buffer.entries@, "mark"@, n@),
                    None => now,
                });
                let start_time = (match start_mark {
                    Some(n) => last_matching_start_time(old(self).buffer.entries@, "mark"@, n@),
                    None => 0u64,
                });
                &&& r.buffer_full_events == 0
                &&& r.index == (if old(self).pending_notification_observers_task {
                    Option::<usize>::None
                } else {
                    Option::<usize>::Some(old(self).buffer.entries@.len() as usize)
                })
                &&& final(self).buffer.entries@.len() == old(self).buffer.entries@.len() + 1
                &&& final(self).buffer.entries@.subrange(
                    0,
                    old(self).buffer.entries@.len() as int,
                ) == old(self).buffer.entries@
                &&& ({
                    let e = final(self).buffer.entries@.last();
                    &&& e.name == measure_name
                    &&& e.entry_type@ == "measure"@
                    &&& e.start_time == start_time
                    &&& e.duration == end_time - start_time
                })
                &&& observers_after_deliveries(
                    old(self).observers@,
                    final(self).observers@,
                    seq![final(self).buffer.entries@.last()],
                )
                &&& final(self).pending_notification_observers_task == true
                &&& (Performance {
                    buffer: old(self).buffer,
                    observers: old(self).observers,
                    pending_notification_observers_task: old(
                        self,
                    ).pending_notification_observers_task,
                    ..*final(self)
                }) == *old(self)
            }),
    {
        let end_time: u64 = match &end_mark {
            Some(name) => self.buffer.get_last_entry_start_time_with_name_and_type(
                "mark".to_owned(),
                name.clone(),
            ),
            None => now,
        };
        let start_time: u64 = match &start_mark {
            Some(name) => self.buffer.get_last_entry_start_time_with_name_and_type(
                "mark".to_owned(),
                name.clone(),
            ),
            None => 0,
        };
        let entry = PerformanceEntry {
            name: measure_name,
            entry_type: "measure".to_owned(),
            start_time,
            duration: end_time as i128 - start_time as i128,
        };
        proof {
            reveal_strlit("measure");
            reveal_strlit("resource");
            assert(("measure"@).len() == 7);
            assert(("resource"@).len() == 8);
            assert(!is_resource_entry(entry));
        }
        let out = self.queue_entry(&entry);
        proof {
            assert(self.buffer.entries@.subrange(0, old(self).buffer.entries@.len() as int)
                =~= old(self).buffer.entries@);
        }
        out
    }

    /// Drop the user-timing measures: every entry of type measure, and with
    /// a name given, every entry of that name as well.
    pub fn ClearMeasures(&mut self, measure_name: Option<String>)
        ensures
            final(self).buffer.entries@ == retained(
                old(self).buffer.entries@,
                opt_view(measure_name),
                Some("measure"@),
            ),
            (Performance { buffer: old(self).buffer, ..*final(self) }) == *old(self),
    {
        self.buffer.clear_entries_by_name_and_type(measure_name, Some("measure".to_owned()));
    }

    /// Drop every resource-timing entry and reset the resource count.
    pub fn ClearResourceTimings(&mut self)
        ensures
            final(self).buffer.entries@ == retained(
                old(self).buffer.entries@,
                Option::<Seq<char>>::None,
                Some("resource"@),
            ),
            final(self).resource_timing_buffer_current_size == 0,
            (Performance {
                buffer: old(self).buffer,
                resource_timing_buffer_current_size: old(
                    self,
                ).resource_timing_buffer_current_size,
                ..*final(self)
            }) == *old(self),
    {
        self.buffer.clear_entries_by_name_and_type(None, Some("resource".to_owned()));
        self.resource_timing_buffer_current_size = 0;
    }

    /// Replace the buffered entry at `index`, when there is one.
    pub fn update_entry(&mut self, index: usize, entry: &PerformanceEntry)
        ensures
            index < old(self).buffer.entries@.len() ==> final(self).buffer.entries@ == old(
                self,
            ).buffer.entries@.update(index as int, *entry),
            index >= old(self).buffer.entries@.len() ==> *final(self) == *old(self),
            (Performance { buffer: old(self).buffer, ..*final(self) }) == *old(self),
    {
        if index < self.buffer.entries.len() {
            self.buffer.entries.set(index, entry.clone());
        }
    }
}

} // verus!
