use vstd::prelude::*;
use crate::event::copy_chars;

verus! {

/// One calendar event: a UTC start instant (Unix seconds) and its summary.
#[derive(Debug)]
pub struct EventRecord {
    pub start: i64,
    pub summary: Vec<char>,
}

/// Mathematical model of an event record.
pub ghost struct RecModel {
    pub start: int,
    pub summary: Seq<char>,
}

impl DeepView for EventRecord {
    type V = RecModel;

    open spec fn deep_view(&self) -> RecModel {
        RecModel { start: self.start as int, summary: self.summary@ }
    }
}

impl EventRecord {
    /// A copy of this record that provably models the same event.
    pub fn duplicate(&self) -> (r: EventRecord)
        ensures
            r.deep_view() == self.deep_view(),
    {
        EventRecord { start: self.start, summary: copy_chars(&self.summary) }
    }
}

/// Keys strictly increase: each start instant occurs at most once.
pub open spec fn sorted_by_start(s: Seq<RecModel>) -> bool {
    forall|i: int, j: int| 0 <= i < j < s.len() ==> s[i].start < s[j].start
}

/// Where a key belongs in a sorted sequence: the first position whose
/// start instant is at least `k`.
pub open spec fn insert_pos(s: Seq<RecModel>, k: int) -> int
    decreases s.len(),
{
    if s.len() == 0 {
        0
    } else if s[0].start >= k {
        0
    } else {
        1 + insert_pos(s.subrange(1, s.len() as int), k)
    }
}

/// The sequence after inserting `r` by its start instant, overwriting an
/// entry that has the very same start.
pub open spec fn seq_insert(s: Seq<RecModel>, r: RecModel) -> Seq<RecModel> {
    let i = insert_pos(s, r.start);
    if i < s.len() && s[i].start == r.start {
        s.update(i, r)
    } else {
        s.insert(i, r)
    }
}

/// The entries whose start lies in the half-open range `[lo, hi)`, in
/// index order.
pub open spec fn in_range(s: Seq<RecModel>, lo: int, hi: int) -> Seq<RecModel>
    decreases s.len(),
{
    if s.len() == 0 {
        Seq::empty()
    } else {
        let rest = in_range(s.drop_last(), lo, hi);
        if lo <= s.last().start < hi {
            rest.push(s.last())
        } else {
            rest
        }
    }
}

pub proof fn lemma_insert_pos_props(s: Seq<RecModel>, k: int)
    ensures
        0 <= insert_pos(s, k) <= s.len(),
        forall|j: int| 0 <= j < insert_pos(s, k) ==> s[j].start < k,
        insert_pos(s, k) < s.len() ==> s[insert_pos(s, k)].start >= k,
    decreases s.len(),
{
    if s.len() > 0 && s[0].start < k {
        let sub = s.subrange(1, s.len() as int);
        lemma_insert_pos_props(sub, k);
        assert forall|j: int| 0 <= j < insert_pos(s, k) implies s[j].start < k by {
            if j > 0 {
                assert(sub[j - 1] == s[j]);
            }
        }
        if insert_pos(s, k) < s.len() {
            assert(sub[insert_pos(s, k) - 1] == s[insert_pos(s, k)]);
        }
    }
}

/// Inserting into a sorted sequence keeps it sorted.
pub proof fn lemma_seq_insert_sorted(s: Seq<RecModel>, r: RecModel)
    requires
        sorted_by_start(s),
    ensures
        sorted_by_start(seq_insert(s, r)),
{
    lemma_insert_pos_props(s, r.start);
    let p = insert_pos(s, r.start);
    let t = seq_insert(s, r);
    if p < s.len() && s[p].start == r.start {
        assert forall|a: int, b: int| 0 <= a < b < t.len() implies #[trigger] t[a].start
            < #[trigger] t[b].start by {}
    } else {
        assert forall|a: int, b: int| 0 <= a < b < t.len() implies #[trigger] t[a].start
            < #[trigger] t[b].start by {
            if b < p {
            } else if a > p {
                assert(t[a] == s[a - 1] && t[b] == s[b - 1]);
            } else if a < p && b == p {
                assert(t[a] == s[a]);
            } else if a == p && b > p {
                assert(t[b] == s[b - 1]);
            } else if a < p && b > p {
                assert(t[a] == s[a] && t[b] == s[b - 1]);
            }
        }
    }
}

/// The inserted record is in the result.
pub proof fn lemma_seq_insert_contains(s: Seq<RecModel>, r: RecModel)
    ensures
        seq_insert(s, r).contains(r),
{
    lemma_insert_pos_props(s, r.start);
    let p = insert_pos(s, r.start);
    assert(seq_insert(s, r)[p] == r);
}

/// A record with a different start instant survives an insertion.
pub proof fn lemma_seq_insert_preserves(s: Seq<RecModel>, r: RecModel, x: RecModel)
    requires
        s.contains(x),
        x.start != r.start,
    ensures
        seq_insert(s, r).contains(x),
{
    lemma_insert_pos_props(s, r.start);
    let p = insert_pos(s, r.start);
    let i = choose|i: int| 0 <= i < s.len() && s[i] == x;
    let t = seq_insert(s, r);
    if p < s.len() && s[p].start == r.start {
        assert(t[i] == x);
    } else {
        if i < p {
            assert(t[i] == x);
        } else {
            assert(t[i + 1] == x);
        }
    }
}

/// A contained record whose start lies in `[lo, hi)` is returned by the
/// range query.
pub proof fn lemma_in_range_contains(s: Seq<RecModel>, x: RecModel, lo: int, hi: int)
    requires
        s.contains(x),
        lo <= x.start < hi,
    ensures
        in_range(s, lo, hi).contains(x),
    decreases s.len(),
{
    let rest = in_range(s.drop_last(), lo, hi);
    if s.last() == x {
        assert(in_range(s, lo, hi).last() == x);
        assert(in_range(s, lo, hi).contains(x));
    } else {
        let i = choose|i: int| 0 <= i < s.len() && s[i] == x;
        assert(s.drop_last()[i] == x);
        assert(s.drop_last().contains(x));
        lemma_in_range_contains(s.drop_last(), x, lo, hi);
        let j = choose|j: int| 0 <= j < rest.len() && rest[j] == x;
        if lo <= s.last().start < hi {
            assert(in_range(s, lo, hi)[j] == x);
        }
        assert(in_range(s, lo, hi).contains(x));
    }
}

/// Two events inserted with distinct start instants both remain in the
/// index, and each one is returned by a range query around its own start.
pub proof fn lemma_distinct_starts_retrievable(s: Seq<RecModel>, r1: RecModel, r2: RecModel)
    requires
        sorted_by_start(s),
        r1.start != r2.start,
    ensures
        seq_insert(seq_insert(s, r1), r2).contains(r1),
        seq_insert(seq_insert(s, r1), r2).contains(r2),
        in_range(seq_insert(seq_insert(s, r1), r2), r1.start, r1.start + 1).contains(r1),
        in_range(seq_insert(seq_insert(s, r1), r2), r2.start, r2.start + 1).contains(r2),
{
    let t1 = seq_insert(s, r1);
    let t2 = seq_insert(t1, r2);
    lemma_seq_insert_contains(s, r1);
    lemma_seq_insert_sorted(s, r1);
    lemma_seq_insert_preserves(t1, r2, r1);
    lemma_seq_insert_contains(t1, r2);
    lemma_in_range_contains(t2, r1, r1.start, r1.start + 1);
    lemma_in_range_contains(t2, r2, r2.start, r2.start + 1);
}

/// An ordered index from UTC start instant to event record. Entries are
/// kept sorted by start, with at most one entry per instant.
pub struct EventIndex {
    pub entries: Vec<EventRecord>,
}

impl DeepView for EventIndex {
    type V = Seq<RecModel>;

    open spec fn deep_view(&self) -> Seq<RecModel> {
        self.entries.deep_view()
    }
}

impl EventIndex {
    /// The index invariant: entries are strictly sorted by start instant.
    pub open spec fn wf(&self) -> bool {
        sorted_by_start(self.deep_view())
    }

    /// An empty index.
    pub fn new() -> (r: Self)
        ensures
            r.deep_view() == Seq::<RecModel>::empty(),
            r.wf(),
    {
        let r = EventIndex { entries: Vec::new() };
        proof {
            assert(r.deep_view() =~= Seq::<RecModel>::empty());
        }
        r
    }

    /// How many events the index holds.
    pub fn len(&self) -> (n: usize)
        ensures
            n == self.deep_view().len(),
    {
        self.entries.len()
    }

    /// Inserts an event keyed by its start instant, replacing any earlier
    /// entry with the identical start.
    pub fn insert(&mut self, r: EventRecord)
        requires
            old(self).wf(),
        ensures
            final(self).deep_view() == seq_insert(old(self).deep_view(), r.deep_view()),
            final(self).wf(),
    {
        let ghost s = self.deep_view();
        let ghost k = r.deep_view().start;
        let mut i: usize = 0;
        while i < self.entries.len() && self.entries[i].start < r.start
            invariant
                0 <= i <= s.len(),
                s == self.deep_view(),
                self.entries.len() == s.len(),
                k == r.deep_view().start,
                k == r.start as int,
                forall|j: int| 0 <= j < i ==> s[j].start < k,
            decreases s.len() - i,
        {
            proof {
                assert(s[i as int] == self.entries@[i as int].deep_view());
            }
            i += 1;
        }
        proof {
            lemma_insert_pos_props(s, k);
            let p = insert_pos(s, k);
            if i < p {
                assert(s[i as int].start < k);
                assert(false);
            }
            if p < i {
                assert(s[p].start < k);
                assert(false);
            }
        }
        if i < self.entries.len() && self.entries[i].start == r.start {
            self.entries.set(i, r);
            proof {
                assert(self.deep_view() =~= s.update(i as int, r.deep_view()));
                lemma_seq_insert_sorted(s, r.deep_view());
            }
        } else {
            self.entries.insert(i, r);
            proof {
                assert(self.deep_view() =~= s.insert(i as int, r.deep_view()));
                lemma_seq_insert_sorted(s, r.deep_view());
            }
        }
    }

    /// All events whose start lies in `[lo, hi)`, in ascending index order.
    pub fn range(&self, lo: i64, hi: i64) -> (r: Vec<EventRecord>)
        ensures
            r.deep_view() == in_range(self.deep_view(), lo as int, hi as int),
    {
        let ghost s = self.deep_view();
        let mut out: Vec<EventRecord> = Vec::new();
        let mut i: usize = 0;
        while i < self.entries.len()
            invariant
                0 <= i <= s.len(),
                s == self.deep_view(),
                self.entries.len() == s.len(),
                out.deep_view() == in_range(s.take(i as int), lo as int, hi as int),
            decreases s.len() - i,
        {
            let e = &self.entries[i];
            let ghost prefix = s.take(i as int);
            if lo <= e.start && e.start < hi {
                out.push(self.entries[i].duplicate());
            }
            proof {
                assert(s.take(i + 1).drop_last() =~= prefix);
                assert(s.take(i + 1).last() == s[i as int]);
                if lo <= s[i as int].start < hi {
                    assert(out.deep_view() =~= in_range(prefix, lo as int, hi as int).push(
                        s[i as int],
                    ));
                }
            }
            i += 1;
        }
        proof {
            assert(s.take(s.len() as int) =~= s);
        }
        out
    }
}

} // verus!
