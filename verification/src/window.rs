//! Bounded, time-ordered windows over the measurement stream.
//!
//! A window keeps its entries in receipt-time order. Inserting an entry
//! whose time lies before the last stored time means the device restarted
//! or its clock rolled back: the window is cleared and restarts from that
//! entry. After every insertion, entries older than the newest time minus
//! the window span are evicted from the front, and a frame window also
//! evicts from the front once a count cap is exceeded.

use crate::data::Ytf;
use vstd::prelude::*;

verus! {

/// One plotted point: receipt time in milliseconds and raw value.
pub type Measurement = (u64, i64);

/// Whether the entry times are nondecreasing.
pub open spec fn times_sorted<T>(s: Seq<(u64, T)>) -> bool {
    forall|i: int, j: int| 0 <= i <= j < s.len() ==> (#[trigger] s[i]).0 <= (#[trigger] s[j]).0
}

/// Drops entries from the front while they lie more than `span` before
/// `now`.
pub open spec fn evict_front<T>(s: Seq<(u64, T)>, span: u64, now: u64) -> Seq<(u64, T)>
    decreases s.len(),
{
    if s.len() > 0 && s[0].0 + span < now {
        evict_front(s.skip(1), span, now)
    } else {
        s
    }
}

/// Drops entries from the front until at most `cap` remain.
pub open spec fn evict_over_cap<T>(s: Seq<(u64, T)>, cap: usize) -> Seq<(u64, T)> {
    if s.len() > cap {
        s.skip(s.len() - cap)
    } else {
        s
    }
}

/// The window contents after inserting `(now, v)`: cleared wholly if `now`
/// lies before the last stored time, then appended, then evicted from the
/// front by time.
pub open spec fn window_insert<T>(s: Seq<(u64, T)>, span: u64, now: u64, v: T) -> Seq<(u64, T)> {
    let base = if s.len() > 0 && now < s.last().0 {
        Seq::<(u64, T)>::empty()
    } else {
        s
    };
    evict_front(base.push((now, v)), span, now)
}

/// Time eviction from a sorted window keeps it sorted, keeps the newest
/// entry, and leaves only entries within `span` of `now`.
proof fn lemma_evict_front_bound<T>(s: Seq<(u64, T)>, span: u64, now: u64)
    requires
        times_sorted(s),
        s.len() > 0,
        s.last().0 + span >= now,
    ensures
        times_sorted(evict_front(s, span, now)),
        evict_front(s, span, now).len() >= 1,
        evict_front(s, span, now).last() == s.last(),
        forall|i: int|
            0 <= i < evict_front(s, span, now).len() ==> (#[trigger] evict_front(s, span, now)[i]).0
                + span >= now,
    decreases s.len(),
{
    if s[0].0 + span < now {
        let s1 = s.skip(1);
        assert(s1.last() == s.last());
        lemma_evict_front_bound(s1, span, now);
    } else {
        assert forall|i: int| 0 <= i < s.len() implies (#[trigger] s[i]).0 + span >= now by {
            assert(s[0].0 <= s[i].0);
        }
    }
}

/// One insertion into a sorted window yields a sorted window whose
/// newest entry is the inserted one and whose every entry lies within
/// `span` of the inserted time.
proof fn lemma_window_insert_bound<T>(s: Seq<(u64, T)>, span: u64, now: u64, v: T)
    requires
        times_sorted(s),
    ensures
        times_sorted(window_insert(s, span, now, v)),
        window_insert(s, span, now, v).len() >= 1,
        window_insert(s, span, now, v).last() == (now, v),
        forall|i: int|
            0 <= i < window_insert(s, span, now, v).len() ==> (#[trigger] window_insert(
                s,
                span,
                now,
                v,
            )[i]).0 + span >= now,
{
    let base = if s.len() > 0 && now < s.last().0 {
        Seq::<(u64, T)>::empty()
    } else {
        s
    };
    let pushed = base.push((now, v));
    assert(times_sorted(pushed)) by {
        if base.len() > 0 {
            assert forall|i: int, j: int|
                0 <= i <= j < pushed.len() implies (#[trigger] pushed[i]).0 <= (
            #[trigger] pushed[j]).0 by {
                if j < pushed.len() - 1 {
                    assert(pushed[i] == s[i] && pushed[j] == s[j]);
                } else if i < j {
                    assert(pushed[i] == s[i]);
                    assert(s[i].0 <= s.last().0);
                }
            }
        }
    }
    lemma_evict_front_bound(pushed, span, now);
}

/// Truncation to the count cap keeps a sorted window sorted and keeps
/// its newest entry.
proof fn lemma_evict_over_cap_bound<T>(s: Seq<(u64, T)>, cap: usize)
    requires
        times_sorted(s),
        s.len() >= 1,
        cap >= 1,
    ensures
        times_sorted(evict_over_cap(s, cap)),
        1 <= evict_over_cap(s, cap).len() <= cap,
        evict_over_cap(s, cap).last() == s.last(),
        forall|i: int|
            0 <= i < evict_over_cap(s, cap).len() ==> exists|j: int|
                0 <= j < s.len() && #[trigger] evict_over_cap(s, cap)[i] == s[j],
{
    if s.len() > cap {
        lemma_sorted_skip(s, s.len() - cap);
        assert forall|i: int| 0 <= i < evict_over_cap(s, cap).len() implies exists|j: int|
            0 <= j < s.len() && #[trigger] evict_over_cap(s, cap)[i] == s[j] by {
            assert(evict_over_cap(s, cap)[i] == s[i + s.len() - cap]);
        }
    } else {
        assert forall|i: int| 0 <= i < evict_over_cap(s, cap).len() implies exists|j: int|
            0 <= j < s.len() && #[trigger] evict_over_cap(s, cap)[i] == s[j] by {
            assert(evict_over_cap(s, cap)[i] == s[i]);
        }
    }
}

/// The window contents after a whole run of insertions, one after the
/// other, into an initially empty window.
pub open spec fn window_run<T>(inserts: Seq<(u64, T)>, span: u64, cap: usize) -> Seq<(u64, T)>
    decreases inserts.len(),
{
    if inserts.len() == 0 {
        Seq::empty()
    } else {
        window_insert_capped(
            window_run(inserts.drop_last(), span, cap),
            span,
            cap,
            inserts.last().0,
            inserts.last().1,
        )
    }
}

/// Eviction bound: after any sequence of insertions into a window of
/// span `span` — increasing in time or not — every retained entry lies
/// within `span` of the last inserted time, the entries are in time
/// order, at most `cap` remain, and the last insertion is among them.
pub proof fn lemma_eviction_bound<T>(inserts: Seq<(u64, T)>, span: u64, cap: usize)
    requires
        inserts.len() >= 1,
        cap >= 1,
    ensures
        times_sorted(window_run(inserts, span, cap)),
        1 <= window_run(inserts, span, cap).len() <= cap,
        window_run(inserts, span, cap).last() == inserts.last(),
        forall|i: int|
            0 <= i < window_run(inserts, span, cap).len() ==> (#[trigger] window_run(
                inserts,
                span,
                cap,
            )[i]).0 + span >= inserts.last().0,
    decreases inserts.len(),
{
    let prev = window_run(inserts.drop_last(), span, cap);
    if inserts.len() > 1 {
        lemma_eviction_bound(inserts.drop_last(), span, cap);
    }
    let now = inserts.last().0;
    let v = inserts.last().1;
    lemma_window_insert_bound(prev, span, now, v);
    lemma_evict_over_cap_bound(window_insert(prev, span, now, v), cap);
    assert forall|i: int| 0 <= i < window_run(inserts, span, cap).len() implies (
    #[trigger] window_run(inserts, span, cap)[i]).0 + span >= now by {
        let mid = window_insert(prev, span, now, v);
        assert(exists|j: int| 0 <= j < mid.len() && window_run(inserts, span, cap)[i] == mid[j]);
    }
}

/// A suffix of a sorted window is sorted.
proof fn lemma_sorted_skip<T>(s: Seq<(u64, T)>, k: int)
    requires
        times_sorted(s),
        0 <= k <= s.len(),
    ensures
        times_sorted(s.skip(k)),
{
    assert forall|i: int, j: int|
        0 <= i <= j < s.skip(k).len() implies (#[trigger] s.skip(k)[i]).0 <= (#[trigger] s.skip(
        k,
    )[j]).0 by {
        assert(s.skip(k)[i] == s[i + k]);
        assert(s.skip(k)[j] == s[j + k]);
    }
}

/// The gliding window of points behind the live plot.
///
/// `look_behind` is the width of the time window in milliseconds.
pub struct MeasurementWindow {
    pub values: Vec<Measurement>,
    pub look_behind: u64,
}

impl MeasurementWindow {
    /// The entries are in time order.
    pub open spec fn wf(&self) -> bool {
        times_sorted(self.values@)
    }

    /// An empty window of width `look_behind`.
    pub fn new_with_look_behind(look_behind: u64) -> (r: Self)
        ensures
            r.values@.len() == 0,
            r.look_behind == look_behind,
            r.wf(),
    {
        MeasurementWindow { values: Vec::new(), look_behind }
    }

    /// Inserts a measurement.
    ///
    /// A time before the last stored one clears the window first; then the
    /// measurement is appended and entries older than its time minus the
    /// window width are evicted from the front. Afterwards every retained
    /// entry lies within the window width of the newest time.
    pub fn add(&mut self, measurement: Measurement)
        requires
            old(self).wf(),
        ensures
            final(self).look_behind == old(self).look_behind,
            final(self).values@ == window_insert(
                old(self).values@,
                old(self).look_behind,
                measurement.0,
                measurement.1,
            ),
            final(self).wf(),
            final(self).values@.len() >= 1,
            final(self).values@.last() == measurement,
            forall|i: int|
                0 <= i < final(self).values@.len() ==> (#[trigger] final(self).values@[i]).0
                    + old(self).look_behind >= measurement.0,
    {
        let ghost orig = self.values@;
        if self.values.len() > 0 {
            let last = self.values[self.values.len() - 1];
            if measurement.0 < last.0 {
                self.values.clear();
            }
        }
        self.values.push(measurement);
        let ghost base = self.values@;
        proof {
            assert(base.last() == measurement);
            assert(times_sorted(base));
        }
        if measurement.0 > self.look_behind {
            let cutoff = measurement.0 - self.look_behind;
            while self.values.len() > 0 && self.values[0].0 < cutoff
                invariant
                    cutoff == measurement.0 - self.look_behind,
                    measurement.0 > self.look_behind,
                    times_sorted(self.values@),
                    evict_front(base, self.look_behind, measurement.0) == evict_front(
                        self.values@,
                        self.look_behind,
                        measurement.0,
                    ),
                decreases self.values@.len(),
            {
                proof {
                    lemma_sorted_skip(self.values@, 1);
                }
                self.values.remove(0);
            }
            proof {
                assert(evict_front(self.values@, self.look_behind, measurement.0)
                    == self.values@);
                lemma_evict_front_bound(base, self.look_behind, measurement.0);
            }
        } else {
            proof {
                assert(evict_front(base, self.look_behind, measurement.0) == base);
                lemma_evict_front_bound(base, self.look_behind, measurement.0);
            }
        }
    }

    /// A copy of the stored points, oldest first, for the plot.
    pub fn plot_values(&self) -> (r: Vec<Measurement>)
        ensures
            r@ == self.values@,
    {
        let mut r: Vec<Measurement> = Vec::new();
        let mut i: usize = 0;
        while i < self.values.len()
            invariant
                0 <= i <= self.values@.len(),
                r@ =~= self.values@.take(i as int),
            decreases self.values@.len() - i,
        {
            r.push(self.values[i]);
            i = i + 1;
        }
        proof {
            assert(self.values@.take(self.values@.len() as int) =~= self.values@);
        }
        r
    }
}

/// The window contents after inserting `(now, v)` into a window that also
/// caps its entry count: time eviction first, then the oldest entries
/// leave until at most `cap` remain.
pub open spec fn window_insert_capped<T>(
    s: Seq<(u64, T)>,
    span: u64,
    cap: usize,
    now: u64,
    v: T,
) -> Seq<(u64, T)> {
    evict_over_cap(window_insert(s, span, now, v), cap)
}

/// A bounded, time-ordered window of transport frames for one bank.
///
/// `span` is the window width in milliseconds; `max_len` caps the entry
/// count and is at least one, so the newest frame always stays.
pub struct WindowBuffer {
    pub entries: Vec<(u64, Ytf)>,
    pub span: u64,
    pub max_len: usize,
}

/// The time difference between the newest and the oldest entry.
pub open spec fn duration_of<T>(s: Seq<(u64, T)>) -> int {
    if s.len() == 0 {
        0
    } else {
        s.last().0 - s[0].0
    }
}

impl WindowBuffer {
    /// The entries are in time order and the count cap is meaningful.
    pub open spec fn wf(&self) -> bool {
        times_sorted(self.entries@) && self.max_len >= 1
    }

    /// An empty window of width `span` milliseconds holding at most
    /// `max_len` frames.
    pub fn new(span: u64, max_len: usize) -> (r: Self)
        requires
            max_len >= 1,
        ensures
            r.entries@.len() == 0,
            r.span == span,
            r.max_len == max_len,
            r.wf(),
    {
        WindowBuffer { entries: Vec::new(), span, max_len }
    }

    /// The number of stored frames.
    pub fn len(&self) -> (r: usize)
        ensures
            r == self.entries@.len(),
    {
        self.entries.len()
    }

    /// Whether the window holds no frame.
    pub fn is_empty(&self) -> (r: bool)
        ensures
            r == (self.entries@.len() == 0),
    {
        self.entries.len() == 0
    }

    /// Inserts a frame received at `now` milliseconds.
    ///
    /// A receipt time before the last stored one clears the window first;
    /// then the frame is appended, entries older than `now` minus the
    /// window width are evicted from the front, and the oldest entries
    /// leave until the count cap holds. Every retained entry then lies
    /// within the window width of `now`.
    pub fn add(&mut self, now: u64, sample: Ytf)
        requires
            old(self).wf(),
        ensures
            final(self).span == old(self).span,
            final(self).max_len == old(self).max_len,
            final(self).entries@ == window_insert_capped(
                old(self).entries@,
                old(self).span,
                old(self).max_len,
                now,
                sample,
            ),
            final(self).wf(),
            1 <= final(self).entries@.len() <= old(self).max_len,
            final(self).entries@.last() == (now, sample),
            forall|i: int|
                0 <= i < final(self).entries@.len() ==> (#[trigger] final(self).entries@[i]).0
                    + old(self).span >= now,
    {
        let ghost orig = self.entries@;
        if self.entries.len() > 0 {
            let last_time = self.entries[self.entries.len() - 1].0;
            if now < last_time {
                self.entries.clear();
            }
        }
        self.entries.push((now, sample));
        let ghost base = self.entries@;
        proof {
            assert(base.last() == (now, sample));
            assert(times_sorted(base));
        }
        if now > self.span {
            let cutoff = now - self.span;
            while self.entries.len() > 0 && self.entries[0].0 < cutoff
                invariant
                    cutoff == now - self.span,
                    now > self.span,
                    self.span == old(self).span,
                    self.max_len == old(self).max_len,
                    times_sorted(self.entries@),
                    evict_front(base, self.span, now) == evict_front(self.entries@, self.span, now),
                decreases self.entries@.len(),
            {
                proof {
                    lemma_sorted_skip(self.entries@, 1);
                }
                self.entries.remove(0);
            }
            proof {
                assert(evict_front(self.entries@, self.span, now) == self.entries@);
                lemma_evict_front_bound(base, self.span, now);
            }
        } else {
            proof {
                assert(evict_front(base, self.span, now) == base);
                lemma_evict_front_bound(base, self.span, now);
            }
        }
        let ghost timed = self.entries@;
        while self.entries.len() > self.max_len
            invariant
                self.span == old(self).span,
                self.max_len == old(self).max_len,
                self.max_len >= 1,
                times_sorted(self.entries@),
                self.entries@.len() >= 1,
                self.entries@.last() == (now, sample),
                forall|i: int|
                    0 <= i < self.entries@.len() ==> (#[trigger] self.entries@[i]).0
                        + old(self).span >= now,
                evict_over_cap(timed, self.max_len) == evict_over_cap(self.entries@, self.max_len),
            decreases self.entries@.len(),
        {
            proof {
                lemma_sorted_skip(self.entries@, 1);
                assert(evict_over_cap(self.entries@, self.max_len) =~= evict_over_cap(
                    self.entries@.skip(1),
                    self.max_len,
                ));
                assert(self.entries@.skip(1).last() == self.entries@.last());
            }
            self.entries.remove(0);
        }
        proof {
            assert(evict_over_cap(self.entries@, self.max_len) == self.entries@);
        }
    }

    /// The stored time range: newest minus oldest receipt time, in
    /// milliseconds; zero when empty.
    pub fn duration_ms(&self) -> (r: u64)
        requires
            self.wf(),
        ensures
            r as int == duration_of(self.entries@),
    {
        if self.entries.len() == 0 {
            0
        } else {
            let first = self.entries[0].0;
            let last = self.entries[self.entries.len() - 1].0;
            last - first
        }
    }

    /// The mean interval between samples in milliseconds: the duration
    /// divided by one less than the count; nothing below two samples.
    pub fn mean_interval_ms(&self) -> (r: Option<u64>)
        requires
            self.wf(),
        ensures
            r is Some <==> self.entries@.len() >= 2,
            r matches Some(v) ==> v as int == duration_of(self.entries@) / (
            self.entries@.len() - 1) as int,
    {
        let n = self.entries.len();
        if n < 2 {
            None
        } else {
            let d = self.duration_ms();
            Some(d / ((n - 1) as u64))
        }
    }

    /// The sample rate in whole samples per second: the count divided by
    /// the duration. Nothing below two samples or when all samples share
    /// one time.
    pub fn rate(&self) -> (r: Option<u64>)
        requires
            self.wf(),
        ensures
            r is Some <==> self.entries@.len() >= 2 && duration_of(self.entries@) > 0
                && self.entries@.len() * 1000 / (duration_of(self.entries@) as nat) <= u64::MAX,
            r matches Some(v) ==> v as nat == self.entries@.len() * 1000 / (duration_of(
                self.entries@,
            ) as nat),
    {
        let n = self.entries.len();
        if n < 2 {
            return None;
        }
        let d = self.duration_ms();
        if d == 0 {
            return None;
        }
        let scaled: u128 = (n as u128) * 1000;
        let q: u128 = scaled / (d as u128);
        if q > u64::MAX as u128 {
            None
        } else {
            Some(q as u64)
        }
    }

    /// Regroups the stored frames into eight point series, one per
    /// channel, each in stored order: the receipt time paired with that
    /// channel's reading.
    pub fn split(&self) -> (out: Vec<Vec<Measurement>>)
        ensures
            out@.len() == 8,
            forall|c: int| 0 <= c < 8 ==> (#[trigger] out@[c])@.len() == self.entries@.len(),
            forall|c: int, i: int|
                0 <= c < 8 && 0 <= i < self.entries@.len() ==> (#[trigger] out@[c]@[i])
                    == ((self.entries@[i].0, self.entries@[i].1.read[c])),
    {
        let mut out: Vec<Vec<Measurement>> = Vec::new();
        let mut c: usize = 0;
        while c < 8
            invariant
                0 <= c <= 8,
                out@.len() == c,
                forall|k: int| 0 <= k < c ==> (#[trigger] out@[k])@.len() == self.entries@.len(),
                forall|k: int, i: int|
                    0 <= k < c && 0 <= i < self.entries@.len() ==> (#[trigger] out@[k]@[i])
                        == ((self.entries@[i].0, self.entries@[i].1.read[k])),
            decreases 8 - c,
        {
            let mut series: Vec<Measurement> = Vec::new();
            let mut i: usize = 0;
            while i < self.entries.len()
                invariant
                    0 <= i <= self.entries@.len(),
                    0 <= c < 8,
                    series@.len() == i,
                    forall|j: int|
                        0 <= j < i ==> (#[trigger] series@[j]) == ((self.entries@[j].0,
                        self.entries@[j].1.read[c as int])),
                decreases self.entries@.len() - i,
            {
                let e = &self.entries[i];
                series.push((e.0, e.1.read[c]));
                i = i + 1;
            }
            out.push(series);
            c = c + 1;
        }
        out
    }
}

/// The per-bank windows: one frame window for each sensory bank.
pub type Banks = Vec<WindowBuffer>;

/// Eight empty point series, one per channel.
pub fn new_multi_lines() -> (out: Vec<Vec<Measurement>>)
    ensures
        out@.len() == 8,
        forall|c: int| 0 <= c < 8 ==> (#[trigger] out@[c])@.len() == 0,
{
    let mut out: Vec<Vec<Measurement>> = Vec::new();
    let mut c: usize = 0;
    while c < 8
        invariant
            0 <= c <= 8,
            out@.len() == c,
            forall|k: int| 0 <= k < c ==> (#[trigger] out@[k])@.len() == 0,
        decreases 8 - c,
    {
        out.push(Vec::new());
        c = c + 1;
    }
    out
}

/// `n` empty banks, each a frame window of `span_ms` milliseconds holding
/// at most `max_len` frames.
pub fn make_banks(n: u8, span_ms: u64, max_len: usize) -> (out: Banks)
    requires
        max_len >= 1,
    ensures
        out@.len() == n,
        forall|k: int|
            0 <= k < n ==> (#[trigger] out@[k]).entries@.len() == 0 && out@[k].span == span_ms
                && out@[k].max_len == max_len && out@[k].wf(),
{
    let mut out: Banks = Vec::new();
    let mut k: u8 = 0;
    while k < n
        invariant
            0 <= k <= n,
            max_len >= 1,
            out@.len() == k,
            forall|j: int|
                0 <= j < k ==> (#[trigger] out@[j]).entries@.len() == 0 && out@[j].span == span_ms
                    && out@[j].max_len == max_len && out@[j].wf(),
        decreases n - k,
    {
        out.push(WindowBuffer::new(span_ms, max_len));
        k = k + 1;
    }
    out
}

} // verus!
