//! The bounded, ordered, deduplicating window of recent readings.
//!
//! The window holds at most [`WINDOW_CAPACITY`] readings in chronological
//! order, with no two adjacent entries sharing a timestamp. Appending is
//! pure: it returns a new window value and leaves the old one untouched.

use vstd::prelude::*;

use crate::reading::Reading;

verus! {

/// The capacity of the history window.
pub const WINDOW_CAPACITY: usize = 60;

/// Timestamps strictly increase along the sequence. This combines the
/// chronological-order invariant with the no-adjacent-duplicate rule.
pub open spec fn chronological(s: Seq<Reading>) -> bool {
    forall|i: int| 0 <= i < s.len() - 1 ==> #[trigger] s[i].timestamp < s[i + 1].timestamp
}

/// The window never holds more than its capacity.
pub open spec fn bounded(s: Seq<Reading>) -> bool {
    s.len() <= WINDOW_CAPACITY
}

/// Well-formedness of a window's contents.
pub open spec fn window_wf(s: Seq<Reading>) -> bool {
    bounded(s) && chronological(s)
}

/// What one append does to the window's contents: a reading whose
/// timestamp equals the tail's is a refresh beat and changes nothing;
/// otherwise the reading goes to the tail, evicting the oldest entry
/// only when the window is full.
pub open spec fn spec_append(s: Seq<Reading>, r: Reading) -> Seq<Reading> {
    if s.len() > 0 && s.last().timestamp == r.timestamp {
        s
    } else if s.len() < WINDOW_CAPACITY {
        s.push(r)
    } else {
        s.drop_first().push(r)
    }
}

/// The contents after appending each element of `rs` in order.
pub open spec fn spec_append_all(s: Seq<Reading>, rs: Seq<Reading>) -> Seq<Reading>
    decreases rs.len(),
{
    if rs.len() == 0 {
        s
    } else {
        spec_append_all(spec_append(s, rs[0]), rs.drop_first())
    }
}

/// Timestamps never decrease along the sequence; equal neighbours are
/// allowed. This is the order a bulk fetch is brought into before
/// deduplication.
pub open spec fn sorted_by_timestamp(s: Seq<Reading>) -> bool {
    forall|i: int| 0 <= i < s.len() - 1 ==> #[trigger] s[i].timestamp <= s[i + 1].timestamp
}

/// Insert `r` after every entry whose timestamp is at or below `r`'s,
/// so that readings with equal timestamps keep their arrival order.
pub open spec fn spec_insert_chrono(s: Seq<Reading>, r: Reading) -> Seq<Reading>
    decreases s.len(),
{
    if s.len() == 0 {
        seq![r]
    } else if s.last().timestamp <= r.timestamp {
        s.push(r)
    } else {
        spec_insert_chrono(s.drop_last(), r).push(s.last())
    }
}

/// Stable insertion sort by timestamp: ties keep their input order.
pub open spec fn spec_sort_chrono(s: Seq<Reading>) -> Seq<Reading>
    decreases s.len(),
{
    if s.len() == 0 {
        Seq::<Reading>::empty()
    } else {
        spec_insert_chrono(spec_sort_chrono(s.drop_last()), s.last())
    }
}

/// Collapse each run of entries sharing a timestamp to its first entry.
pub open spec fn spec_dedup_chrono(s: Seq<Reading>) -> Seq<Reading>
    decreases s.len(),
{
    if s.len() == 0 {
        Seq::<Reading>::empty()
    } else {
        let rest = spec_dedup_chrono(s.drop_last());
        if rest.len() > 0 && rest.last().timestamp == s.last().timestamp {
            rest
        } else {
            rest.push(s.last())
        }
    }
}

/// What hydrating from a bulk fetch leaves in the window: the readings
/// sorted by timestamp (stably), runs of equal timestamps collapsed to
/// their first entry, and only the most recent `WINDOW_CAPACITY` kept.
pub open spec fn spec_hydrate(s: Seq<Reading>) -> Seq<Reading> {
    keep_last(spec_dedup_chrono(spec_sort_chrono(s)), WINDOW_CAPACITY as int)
}

/// The bounded, ordered, deduplicating history window.
pub struct HistoryWindow {
    entries: Vec<Reading>,
}

impl View for HistoryWindow {
    type V = Seq<Reading>;

    closed spec fn view(&self) -> Seq<Reading> {
        self.entries@
    }
}

impl HistoryWindow {
    /// A window starts empty.
    pub fn new() -> (w: HistoryWindow)
        ensures
            w@ == Seq::<Reading>::empty(),
    {
        HistoryWindow { entries: Vec::new() }
    }

    pub fn len(&self) -> (n: usize)
        ensures
            n == self@.len(),
    {
        self.entries.len()
    }

    pub fn get(&self, i: usize) -> (r: Reading)
        requires
            i < self@.len(),
        ensures
            r == self@[i as int],
    {
        self.entries[i]
    }

    /// The most recent reading, if any.
    pub fn tail(&self) -> (r: Option<Reading>)
        ensures
            self@.len() == 0 ==> r is None,
            self@.len() > 0 ==> r == Some(self@.last()),
    {
        if self.entries.len() == 0 {
            None
        } else {
            Some(self.entries[self.entries.len() - 1])
        }
    }

    /// Build a window from a bulk history fetch: sort stably by
    /// timestamp, collapse each run of equal timestamps to its first
    /// reading, and keep only the most recent entries.
    pub fn hydrate(readings: &Vec<Reading>) -> (w: HistoryWindow)
        ensures
            w@ == spec_hydrate(readings@),
            window_wf(w@),
    {
        let n = readings.len();
        let mut sorted: Vec<Reading> = Vec::new();
        let mut k: usize = 0;
        while k < n
            invariant
                0 <= k <= n,
                n == readings@.len(),
                sorted@ == spec_sort_chrono(readings@.take(k as int)),
                sorted_by_timestamp(sorted@),
                sorted@.len() == k,
            decreases n - k,
        {
            let r = readings[k];
            let mut j: usize = sorted.len();
            while j > 0 && sorted[j - 1].timestamp > r.timestamp
                invariant
                    0 <= j <= sorted@.len(),
                    forall|m: int| j <= m < sorted@.len() ==> #[trigger] sorted@[m].timestamp
                        > r.timestamp,
                decreases j,
            {
                j -= 1;
            }
            proof {
                lemma_insert_chrono_at(sorted@, r, j as int);
                lemma_insert_chrono_sorted(sorted@, r);
                assert(readings@.take(k as int + 1).drop_last() =~= readings@.take(k as int));
                assert(readings@.take(k as int + 1).last() == readings@[k as int]);
            }
            sorted.insert(j, r);
            k += 1;
        }
        proof {
            assert(readings@.take(n as int) =~= readings@);
        }

        let mut deduped: Vec<Reading> = Vec::new();
        let mut i: usize = 0;
        while i < n
            invariant
                0 <= i <= n,
                n == sorted@.len(),
                sorted@ == spec_sort_chrono(readings@),
                sorted_by_timestamp(sorted@),
                deduped@ == spec_dedup_chrono(sorted@.take(i as int)),
                deduped@.len() <= i,
            decreases n - i,
        {
            let r = sorted[i];
            let m = deduped.len();
            proof {
                assert(sorted@.take(i as int + 1).drop_last() =~= sorted@.take(i as int));
                assert(sorted@.take(i as int + 1).last() == sorted@[i as int]);
            }
            if m == 0 || deduped[m - 1].timestamp != r.timestamp {
                deduped.push(r);
            }
            i += 1;
        }
        proof {
            assert(sorted@.take(n as int) =~= sorted@);
        }

        let len = deduped.len();
        let start: usize = if len > WINDOW_CAPACITY {
            len - WINDOW_CAPACITY
        } else {
            0
        };
        let mut entries: Vec<Reading> = Vec::new();
        let mut t: usize = start;
        while t < len
            invariant
                start <= t <= len,
                len == deduped@.len(),
                entries@ == deduped@.subrange(start as int, t as int),
            decreases len - t,
        {
            entries.push(deduped[t]);
            t += 1;
        }
        proof {
            assert(entries@ =~= keep_last(deduped@, WINDOW_CAPACITY as int));
            lemma_sort_chrono_sorted(readings@);
            lemma_dedup_chrono_wf(sorted@);
            lemma_chronological_skip(deduped@, start as int);
            assert(deduped@.skip(start as int) =~= deduped@.subrange(start as int, len as int));
        }
        HistoryWindow { entries }
    }

    /// Append one reading, deduplicating against the tail and evicting
    /// the oldest entry when full. Pure: the old window is untouched.
    pub fn append(&self, r: Reading) -> (w: HistoryWindow)
        requires
            bounded(self@),
        ensures
            w@ == spec_append(self@, r),
            bounded(w@),
            window_wf(self@) && (self@.len() == 0 || self@.last().timestamp <= r.timestamp)
                ==> window_wf(w@),
    {
        let n = self.entries.len();
        let mut entries: Vec<Reading> = Vec::new();
        let mut i: usize = 0;
        while i < n
            invariant
                0 <= i <= n,
                n == self@.len(),
                entries@ == self@.subrange(0, i as int),
            decreases n - i,
        {
            entries.push(self.entries[i]);
            i += 1;
        }
        assert(entries@ =~= self@);
        if n > 0 && entries[n - 1].timestamp == r.timestamp {
            return HistoryWindow { entries };
        }
        if n == WINDOW_CAPACITY {
            entries.remove(0);
        }
        entries.push(r);
        HistoryWindow { entries }
    }
}

proof fn lemma_sorted_drop_last(s: Seq<Reading>)
    requires
        sorted_by_timestamp(s),
        s.len() > 0,
    ensures
        sorted_by_timestamp(s.drop_last()),
{
    assert forall|i: int| 0 <= i < s.drop_last().len() - 1 implies #[trigger] s.drop_last()[
        i
    ].timestamp <= s.drop_last()[i + 1].timestamp by {
        assert(s.drop_last()[i] == s[i]);
        assert(s.drop_last()[i + 1] == s[i + 1]);
    }
}

/// Inserting keeps the sequence sorted by timestamp.
proof fn lemma_insert_chrono_sorted(s: Seq<Reading>, r: Reading)
    requires
        sorted_by_timestamp(s),
    ensures
        sorted_by_timestamp(spec_insert_chrono(s, r)),
        spec_insert_chrono(s, r).len() == s.len() + 1,
        spec_insert_chrono(s, r).last().timestamp == if s.len() > 0 && s.last().timestamp
            > r.timestamp {
            s.last().timestamp
        } else {
            r.timestamp
        },
    decreases s.len(),
{
    if s.len() == 0 {
    } else if s.last().timestamp <= r.timestamp {
    } else {
        lemma_sorted_drop_last(s);
        lemma_insert_chrono_sorted(s.drop_last(), r);
        let inner = spec_insert_chrono(s.drop_last(), r);
        let out = inner.push(s.last());
        assert(inner.last().timestamp <= s.last().timestamp);
        assert forall|i: int| 0 <= i < out.len() - 1 implies #[trigger] out[i].timestamp <= out[
            i + 1
        ].timestamp by {
            if i < inner.len() - 1 {
                assert(out[i] == inner[i]);
                assert(out[i + 1] == inner[i + 1]);
            } else {
                assert(out[i] == inner.last());
                assert(out[i + 1] == s.last());
            }
        }
    }
}

/// The stable sort really sorts.
pub proof fn lemma_sort_chrono_sorted(s: Seq<Reading>)
    ensures
        sorted_by_timestamp(spec_sort_chrono(s)),
        spec_sort_chrono(s).len() == s.len(),
    decreases s.len(),
{
    if s.len() > 0 {
        lemma_sort_chrono_sorted(s.drop_last());
        lemma_insert_chrono_sorted(spec_sort_chrono(s.drop_last()), s.last());
    }
}

/// Collapsing runs of a sorted sequence leaves strictly increasing
/// timestamps, and keeps the last timestamp.
pub proof fn lemma_dedup_chrono_wf(s: Seq<Reading>)
    requires
        sorted_by_timestamp(s),
    ensures
        chronological(spec_dedup_chrono(s)),
        spec_dedup_chrono(s).len() <= s.len(),
        s.len() > 0 ==> spec_dedup_chrono(s).len() > 0 && spec_dedup_chrono(s).last().timestamp
            == s.last().timestamp,
    decreases s.len(),
{
    if s.len() > 0 {
        lemma_sorted_drop_last(s);
        lemma_dedup_chrono_wf(s.drop_last());
        let rest = spec_dedup_chrono(s.drop_last());
        if rest.len() > 0 && rest.last().timestamp == s.last().timestamp {
        } else {
            let out = rest.push(s.last());
            assert(s.len() > 1 ==> s.drop_last().last().timestamp <= s.last().timestamp) by {
                if s.len() > 1 {
                    assert(s[s.len() - 2].timestamp <= s[s.len() - 1].timestamp);
                    assert(s.drop_last().last() == s[s.len() - 2]);
                }
            }
            assert forall|i: int| 0 <= i < out.len() - 1 implies #[trigger] out[i].timestamp < out[
                i + 1
            ].timestamp by {
                if i < rest.len() - 1 {
                    assert(out[i] == rest[i]);
                    assert(out[i + 1] == rest[i + 1]);
                } else {
                    assert(out[i] == rest.last());
                    assert(out[i + 1] == s.last());
                }
            }
        }
    }
}

/// Where the stable insert puts the new reading: right before the
/// longest tail suffix of strictly newer entries.
proof fn lemma_insert_chrono_at(s: Seq<Reading>, r: Reading, j: int)
    requires
        0 <= j <= s.len(),
        forall|m: int| j <= m < s.len() ==> #[trigger] s[m].timestamp > r.timestamp,
        j == 0 || s[j - 1].timestamp <= r.timestamp,
    ensures
        spec_insert_chrono(s, r) == s.insert(j, r),
    decreases s.len(),
{
    if j == s.len() {
        if s.len() == 0 {
            assert(spec_insert_chrono(s, r) =~= s.insert(j, r));
        } else {
            assert(s.last().timestamp <= r.timestamp);
            assert(s.push(r) =~= s.insert(j, r));
        }
    } else {
        assert(s[s.len() - 1].timestamp > r.timestamp);
        assert(forall|m: int| j <= m < s.drop_last().len() ==> #[trigger] s.drop_last()[
            m
        ].timestamp > r.timestamp);
        assert(j == 0 || s.drop_last()[j - 1].timestamp <= r.timestamp);
        lemma_insert_chrono_at(s.drop_last(), r, j);
        assert(spec_insert_chrono(s.drop_last(), r).push(s.last()) =~= s.insert(j, r));
    }
}

/// No sequence of appends ever grows a window past its capacity.
pub proof fn lemma_append_all_bounded(s: Seq<Reading>, rs: Seq<Reading>)
    requires
        bounded(s),
    ensures
        bounded(spec_append_all(s, rs)),
    decreases rs.len(),
{
    if rs.len() > 0 {
        lemma_append_all_bounded(spec_append(s, rs[0]), rs.drop_first());
    }
}

/// The `k` most recent entries of `s`, in their given order; all of
/// `s` when it is no longer than `k`.
pub open spec fn keep_last(s: Seq<Reading>, k: int) -> Seq<Reading> {
    if s.len() <= k {
        s
    } else {
        s.skip(s.len() - k)
    }
}

/// Dropping entries from the front keeps the order strict.
proof fn lemma_chronological_skip(s: Seq<Reading>, k: int)
    requires
        chronological(s),
        0 <= k <= s.len(),
    ensures
        chronological(s.skip(k)),
{
    assert forall|i: int| 0 <= i < s.skip(k).len() - 1 implies #[trigger] s.skip(k)[i].timestamp
        < s.skip(k)[i + 1].timestamp by {
        assert(s.skip(k)[i] == s[i + k]);
        assert(s.skip(k)[i + 1] == s[i + k + 1]);
    }
}

/// Appending strictly newer readings in order keeps the window equal to
/// the most recent entries of everything seen, oldest first.
pub proof fn lemma_append_all_keeps_most_recent(s: Seq<Reading>, rs: Seq<Reading>)
    requires
        window_wf(s),
        chronological(s + rs),
    ensures
        spec_append_all(s, rs) == keep_last(s + rs, WINDOW_CAPACITY as int),
        window_wf(spec_append_all(s, rs)),
    decreases rs.len(),
{
    if rs.len() == 0 {
        assert(s + rs =~= s);
    } else {
        let r0 = rs[0];
        let total = s + rs;
        assert(s.len() > 0 ==> s.last().timestamp < r0.timestamp) by {
            if s.len() > 0 {
                assert(total[s.len() - 1].timestamp < total[s.len() as int].timestamp);
                assert(total[s.len() - 1] == s.last());
                assert(total[s.len() as int] == r0);
            }
        }
        let s1 = spec_append(s, r0);
        if s.len() < WINDOW_CAPACITY {
            assert(s1 =~= s.push(r0));
            assert(s1 + rs.drop_first() =~= s + rs);
            assert(chronological(s1)) by {
                assert forall|i: int| 0 <= i < s1.len() - 1 implies #[trigger] s1[i].timestamp
                    < s1[i + 1].timestamp by {
                    assert(s1[i] == total[i]);
                    assert(s1[i + 1] == total[i + 1]);
                }
            }
            lemma_append_all_keeps_most_recent(s1, rs.drop_first());
        } else {
            assert(s1 =~= s.drop_first().push(r0));
            assert(s1 + rs.drop_first() =~= (s + rs).skip(1));
            lemma_chronological_skip(total, 1);
            assert(chronological(s1)) by {
                assert forall|i: int| 0 <= i < s1.len() - 1 implies #[trigger] s1[i].timestamp
                    < s1[i + 1].timestamp by {
                    assert(s1[i] == total.skip(1)[i]);
                    assert(s1[i + 1] == total.skip(1)[i + 1]);
                }
            }
            lemma_append_all_keeps_most_recent(s1, rs.drop_first());
            assert(keep_last((s + rs).skip(1), WINDOW_CAPACITY as int) =~= keep_last(
                s + rs,
                WINDOW_CAPACITY as int,
            ));
        }
    }
}

/// Appending a reading whose timestamp equals the tail's changes
/// nothing: the refresh beat is idempotent.
pub proof fn lemma_refresh_is_noop(s: Seq<Reading>, r: Reading)
    requires
        s.len() > 0,
        s.last().timestamp == r.timestamp,
    ensures
        spec_append(s, r) == s,
{
}

} // verus!
