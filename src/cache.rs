use vstd::prelude::*;

use crate::calendar::{business_days_between, count_business_days};
use crate::time::{parts_of, rfc3339_text, seconds_between, elapsed_parts, CalDate, Instant};

verus! {

/// How long the service keeps a business-day count, in seconds.
pub const COUNT_TTL_SECS: i64 = 60;

/// How many business-day counts the service keeps at once.
pub const COUNT_CAPACITY: usize = 5;

/// How long the service keeps a snapshot, in seconds.
pub const SNAPSHOT_TTL_SECS: i64 = 30;

/// A cached entry is fresh at `now` while its age in whole seconds is at least 0 and
/// below `ttl_secs`.
pub open spec fn is_fresh(stored_at: Instant, now: Instant, ttl_secs: int) -> bool {
    0 <= seconds_between(stored_at, now) < ttl_secs
}

fn fresh_at(stored_at: &Instant, now: &Instant, ttl_secs: i64) -> (r: bool)
    requires
        stored_at.wf(),
        now.wf(),
    ensures
        r == is_fresh(*stored_at, *now, ttl_secs as int),
{
    let age = crate::time::elapsed_seconds(stored_at, now);
    0 <= age && age < ttl_secs
}

/// One remembered business-day count.
#[derive(Clone, Copy, Debug, PartialEq, Eq, Structural)]
pub struct CountEntry {
    pub start: CalDate,
    pub end: CalDate,
    pub count: i64,
    pub stored_at: Instant,
}

/// A read-through cache of business-day counts keyed by `(start, end)`, with a time to
/// live and a bound on the number of entries.
pub struct BusinessDayCache {
    /// Entries, least recently stored first.
    pub entries: Vec<CountEntry>,
    pub ttl_secs: i64,
    pub capacity: usize,
    /// How many times the underlying counter has run (stops at `u64::MAX`).
    pub computations: u64,
}

impl CountEntry {
    pub open spec fn has_key(&self, start: CalDate, end: CalDate) -> bool {
        self.start == start && self.end == end
    }
}

/// The entries left once room is made for `(start, end)`: the entry for that key is
/// dropped if there is one; otherwise, when the cache is full, the least recently stored
/// entry is.
pub open spec fn make_room(
    entries: Seq<CountEntry>,
    start: CalDate,
    end: CalDate,
    capacity: int,
) -> Seq<CountEntry> {
    if exists|i: int| 0 <= i < entries.len() && (#[trigger] entries[i]).has_key(start, end) {
        entries.remove(
            choose|i: int| 0 <= i < entries.len() && (#[trigger] entries[i]).has_key(start, end),
        )
    } else if entries.len() >= capacity {
        entries.remove(0)
    } else {
        entries
    }
}

/// The computation counter after one more run: up by one, stopping at `u64::MAX`.
pub open spec fn next_count(c: u64) -> u64 {
    if c < u64::MAX {
        (c + 1) as u64
    } else {
        c
    }
}

impl BusinessDayCache {
    /// A lookup of `(start, end)` at `now` that returns `r` takes the cache from `self` to
    /// `after`: `r` is the count; a fresh entry leaves the cache as it was; otherwise the
    /// counter runs once and its result is stored last, stamped `now`, after room is made.
    pub open spec fn lookup(
        &self,
        after: BusinessDayCache,
        start: CalDate,
        end: CalDate,
        now: Instant,
        r: i64,
    ) -> bool {
        &&& r == business_days_between(start.day as int, end.day as int)
        &&& if self.has_fresh(start, end, now) {
            after == *self
        } else {
            &&& after.entries@ == make_room(self.entries@, start, end, self.capacity as int).push(
                CountEntry { start, end, count: r, stored_at: now },
            )
            &&& after.computations == next_count(self.computations)
            &&& after.ttl_secs == self.ttl_secs
            &&& after.capacity == self.capacity
        }
    }

    pub open spec fn wf(&self) -> bool {
        &&& self.capacity >= 1
        &&& self.entries@.len() <= self.capacity
        &&& forall|i: int|
            0 <= i < self.entries@.len() ==> {
                let e = #[trigger] self.entries@[i];
                &&& e.start.wf()
                &&& e.end.wf()
                &&& e.stored_at.wf()
                &&& e.count == business_days_between(e.start.day as int, e.end.day as int)
            }
        &&& forall|i: int, j: int|
            0 <= i < j < self.entries@.len() ==> !(#[trigger] self.entries@[i]).has_key(
                (#[trigger] self.entries@[j]).start,
                self.entries@[j].end,
            )
    }

    /// The cache holds an entry for `(start, end)` that is still fresh at `now`.
    pub open spec fn has_fresh(&self, start: CalDate, end: CalDate, now: Instant) -> bool {
        exists|i: int|
            0 <= i < self.entries@.len() && (#[trigger] self.entries@[i]).has_key(start, end)
                && is_fresh(self.entries@[i].stored_at, now, self.ttl_secs as int)
    }

    /// An empty cache whose entries live `ttl_secs` seconds, holding at most `capacity`.
    pub fn new(ttl_secs: i64, capacity: usize) -> (r: BusinessDayCache)
        requires
            capacity >= 1,
        ensures
            r.wf(),
            r.entries@.len() == 0,
            r.ttl_secs == ttl_secs,
            r.capacity == capacity,
            r.computations == 0,
    {
        BusinessDayCache { entries: Vec::new(), ttl_secs, capacity, computations: 0 }
    }

    /// Position of the entry for `(start, end)`, if any.
    fn position(&self, start: CalDate, end: CalDate) -> (r: Option<usize>)
        ensures
            match r {
                Some(i) => i < self.entries@.len() && self.entries@[i as int].has_key(start, end),
                None => forall|i: int|
                    0 <= i < self.entries@.len() ==> !(#[trigger] self.entries@[i]).has_key(
                        start,
                        end,
                    ),
            },
    {
        let mut i: usize = 0;
        while i < self.entries.len()
            invariant
                i <= self.entries@.len(),
                forall|k: int| 0 <= k < i ==> !(#[trigger] self.entries@[k]).has_key(start, end),
            decreases self.entries@.len() - i,
        {
            let e = self.entries[i];
            if e.start == start && e.end == end {
                return Some(i);
            }
            i = i + 1;
        }
        None
    }

    /// The number of business days in `[start, end)`. A fresh entry for the key is
    /// returned as it is; otherwise the count is computed, stored with time `now` at the
    /// back, and any stale entry for the key is dropped. When a new key finds the cache
    /// full, the least recently stored entry is evicted.
    pub fn get_or_compute(&mut self, start: CalDate, end: CalDate, now: &Instant) -> (r: i64)
        requires
            old(self).wf(),
            start.wf(),
            end.wf(),
            now.wf(),
        ensures
            old(self).lookup(*final(self), start, end, *now, r),
            final(self).wf(),
            final(self).ttl_secs == old(self).ttl_secs,
            final(self).capacity == old(self).capacity,
    {
        let found = self.position(start, end);
        match found {
            Some(i) => {
                let e = self.entries[i];
                if fresh_at(&e.stored_at, now, self.ttl_secs) {
                    return e.count;
                }
                proof {
                    let j = choose|j: int|
                        0 <= j < self.entries@.len() && (#[trigger] self.entries@[j]).has_key(
                            start,
                            end,
                        );
                    assert(self.entries@[i as int].has_key(start, end));
                    if j < i {
                        assert(!self.entries@[j].has_key(
                            self.entries@[i as int].start,
                            self.entries@[i as int].end,
                        ));
                    } else if j > i {
                        assert(!self.entries@[i as int].has_key(
                            self.entries@[j].start,
                            self.entries@[j].end,
                        ));
                    }
                }
                self.entries.remove(i);
                assert forall|k: int|
                    0 <= k < self.entries@.len() implies !(#[trigger] self.entries@[k]).has_key(
                        start,
                        end,
                    ) by {
                    if k >= i {
                        assert(self.entries@[k] == old(self).entries@[k + 1]);
                    }
                }
            },
            None => {
                if self.entries.len() >= self.capacity {
                    self.entries.remove(0);
                    assert forall|k: int|
                        0 <= k < self.entries@.len() implies !(
                        #[trigger] self.entries@[k]).has_key(start, end) by {
                        assert(self.entries@[k] == old(self).entries@[k + 1]);
                    }
                }
            },
        }
        let count = count_business_days(start, end);
        self.entries.push(CountEntry { start, end, count, stored_at: *now });
        if self.computations < u64::MAX {
            self.computations = self.computations + 1;
        }
        count
    }
}

/// The configured window: two UTC instants.
#[derive(Clone, Copy, Debug, PartialEq, Eq, Structural)]
pub struct DateWindow {
    pub start: Instant,
    pub end: Instant,
}

impl DateWindow {
    pub open spec fn wf(&self) -> bool {
        self.start.wf() && self.end.wf()
    }
}

/// The metrics of a window as of one instant.
#[derive(Debug, PartialEq, Eq)]
pub struct Snapshot {
    pub start: String,
    pub end: String,
    pub days_left: i64,
    pub business_days_left: i64,
    pub business_days_done: i64,
}

pub struct SnapshotView {
    pub start: Seq<char>,
    pub end: Seq<char>,
    pub days_left: int,
    pub business_days_left: int,
    pub business_days_done: int,
}

impl View for Snapshot {
    type V = SnapshotView;

    open spec fn view(&self) -> SnapshotView {
        SnapshotView {
            start: self.start@,
            end: self.end@,
            days_left: self.days_left as int,
            business_days_left: self.business_days_left as int,
            business_days_done: self.business_days_done as int,
        }
    }
}

/// What a snapshot of window `w` taken at `t` holds: the window's ends as RFC 3339 text,
/// the whole days from `t` to the end, the business days from the day of `t` to the day
/// of the end, and those from the day of the start to the day of `t`.
pub open spec fn snapshot_at(w: DateWindow, t: Instant) -> SnapshotView {
    SnapshotView {
        start: rfc3339_text(w.start.secs, w.start.nanos),
        end: rfc3339_text(w.end.secs, w.end.nanos),
        days_left: parts_of(seconds_between(t, w.end)).0,
        business_days_left: business_days_between(t.spec_date(), w.end.spec_date()) as int,
        business_days_done: business_days_between(w.start.spec_date(), t.spec_date()) as int,
    }
}

impl Snapshot {
    /// A copy with the same contents.
    pub fn duplicate(&self) -> (r: Snapshot)
        ensures
            r@ == self@,
    {
        Snapshot {
            start: self.start.clone(),
            end: self.end.clone(),
            days_left: self.days_left,
            business_days_left: self.business_days_left,
            business_days_done: self.business_days_done,
        }
    }
}

/// The last snapshot built, with the window and the instant it was built for.
pub struct StoredSnapshot {
    pub window: DateWindow,
    pub taken_at: Instant,
    pub snapshot: Snapshot,
}

/// The derived-metrics cache: business-day counts by key, and one snapshot with a short
/// time to live of its own.
pub struct MetricsCache {
    pub counts: BusinessDayCache,
    pub latest: Option<StoredSnapshot>,
    pub snapshot_ttl_secs: i64,
}

impl MetricsCache {
    pub open spec fn wf(&self) -> bool {
        &&& self.counts.wf()
        &&& match self.latest {
            Some(s) => s.window.wf() && s.taken_at.wf() && s.snapshot@ == snapshot_at(
                s.window,
                s.taken_at,
            ),
            None => true,
        }
    }

    /// The stored snapshot is for window `w` and still fresh at `now`.
    pub open spec fn snapshot_fresh(&self, w: DateWindow, now: Instant) -> bool {
        match self.latest {
            Some(s) => s.window == w && is_fresh(s.taken_at, now, self.snapshot_ttl_secs as int),
            None => false,
        }
    }

    /// The instant whose snapshot a request for `w` at `now` is answered with.
    pub open spec fn snapshot_time(&self, w: DateWindow, now: Instant) -> Instant {
        if self.snapshot_fresh(w, now) {
            self.latest->Some_0.taken_at
        } else {
            now
        }
    }

    /// An empty cache: counts live `count_ttl_secs` seconds, at most `count_capacity` of
    /// them, and a snapshot lives `snapshot_ttl_secs` seconds.
    pub fn new(count_ttl_secs: i64, count_capacity: usize, snapshot_ttl_secs: i64) -> (r:
        MetricsCache)
        requires
            count_capacity >= 1,
        ensures
            r.wf(),
            r.latest is None,
            r.snapshot_ttl_secs == snapshot_ttl_secs,
            r.counts.entries@.len() == 0,
            r.counts.ttl_secs == count_ttl_secs,
            r.counts.capacity == count_capacity,
            r.counts.computations == 0,
    {
        MetricsCache {
            counts: BusinessDayCache::new(count_ttl_secs, count_capacity),
            latest: None,
            snapshot_ttl_secs,
        }
    }

    /// The snapshot of `window` as of `now`: the stored one while it is fresh for this
    /// window, else one built at `now` (its counts through the keyed cache) and stored.
    pub fn get_snapshot_at(&mut self, window: &DateWindow, now: &Instant) -> (r: Snapshot)
        requires
            old(self).wf(),
            window.wf(),
            now.wf(),
        ensures
            r@ == snapshot_at(*window, old(self).snapshot_time(*window, *now)),
            final(self).wf(),
            final(self).snapshot_ttl_secs == old(self).snapshot_ttl_secs,
            final(self).counts.ttl_secs == old(self).counts.ttl_secs,
            final(self).counts.capacity == old(self).counts.capacity,
            final(self).latest is Some,
            final(self).latest->Some_0.window == *window,
            final(self).latest->Some_0.taken_at == old(self).snapshot_time(*window, *now),
            old(self).snapshot_fresh(*window, *now) ==> *final(self) == *old(self),
    {
        let fresh = match &self.latest {
            Some(s) => s.window == *window && fresh_at(&s.taken_at, now, self.snapshot_ttl_secs),
            None => false,
        };
        if fresh {
            let s = self.latest.as_ref().unwrap();
            return s.snapshot.duplicate();
        }
        let (days_left, _, _, _) = elapsed_parts(now, &window.end);
        let today = now.date();
        let business_days_left = self.counts.get_or_compute(today, window.end.date(), now);
        let business_days_done = self.counts.get_or_compute(window.start.date(), today, now);
        let snapshot = Snapshot {
            start: window.start.to_rfc3339(),
            end: window.end.to_rfc3339(),
            days_left,
            business_days_left,
            business_days_done,
        };
        let r = snapshot.duplicate();
        self.latest = Some(StoredSnapshot { window: *window, taken_at: *now, snapshot });
        r
    }

    /// The snapshot of `window` as of the system clock's current instant, through
    /// `get_snapshot_at`.
    pub fn get_snapshot(&mut self, window: &DateWindow) -> (r: Snapshot)
        requires
            old(self).wf(),
            window.wf(),
        ensures
            final(self).wf(),
            final(self).latest is Some,
            final(self).latest->Some_0.window == *window,
            r@ == snapshot_at(*window, final(self).latest->Some_0.taken_at),
            exists|now: Instant|
                now.wf() && final(self).latest->Some_0.taken_at == old(self).snapshot_time(
                    *window,
                    now,
                ) && (old(self).snapshot_fresh(*window, now) ==> *final(self) == *old(self)),
    {
        let now = Instant::now();
        let r = self.get_snapshot_at(window, &now);
        assert(self.latest->Some_0.taken_at == old(self).snapshot_time(*window, now));
        r
    }
}

/// Within the snapshot's time to live, a second request for the same window returns the
/// same snapshot as the first, however the clock moved: `c0` is the cache before a
/// request at `t1`, `c1` any cache that request may leave, and `t2` the time of the next
/// request.
pub proof fn lemma_snapshot_stable_within_ttl(
    c0: MetricsCache,
    c1: MetricsCache,
    w: DateWindow,
    t1: Instant,
    t2: Instant,
)
    requires
        c1.snapshot_ttl_secs == c0.snapshot_ttl_secs,
        c1.latest is Some,
        c1.latest->Some_0.window == w,
        c1.latest->Some_0.taken_at == c0.snapshot_time(w, t1),
        is_fresh(c0.snapshot_time(w, t1), t2, c0.snapshot_ttl_secs as int),
    ensures
        c1.snapshot_time(w, t2) == c0.snapshot_time(w, t1),
        snapshot_at(w, c1.snapshot_time(w, t2)) == snapshot_at(w, c0.snapshot_time(w, t1)),
{
}

/// Once the time to live of a stored count has passed, the next lookup of its key runs
/// the counter again: the counter of runs goes up by one (unless it already stands at
/// `u64::MAX`), the fresh count is returned, and the key is stored anew, stamped with
/// the time of that lookup. `c` is a cache in which the last lookup of `(start, end)`
/// stored it at `t1`; `after` and `r` are what a lookup at `t2` leaves and returns.
pub proof fn lemma_count_recomputed_after_ttl(
    c: BusinessDayCache,
    after: BusinessDayCache,
    start: CalDate,
    end: CalDate,
    t1: Instant,
    t2: Instant,
    r: i64,
)
    requires
        c.wf(),
        c.entries@.len() > 0,
        c.entries@.last().has_key(start, end),
        c.entries@.last().stored_at == t1,
        seconds_between(t1, t2) >= c.ttl_secs,
        c.lookup(after, start, end, t2, r),
    ensures
        !c.has_fresh(start, end, t2),
        after.computations == next_count(c.computations),
        c.computations < u64::MAX ==> after.computations == c.computations + 1,
        r == business_days_between(start.day as int, end.day as int),
        after.entries@.last() == (CountEntry { start, end, count: r, stored_at: t2 }),
{
    let n = c.entries@.len() - 1;
    assert forall|i: int|
        0 <= i < c.entries@.len() && (#[trigger] c.entries@[i]).has_key(start, end) implies !is_fresh(
        c.entries@[i].stored_at,
        t2,
        c.ttl_secs as int,
    ) by {
        if i != n {
            assert(!c.entries@[i].has_key(c.entries@[n].start, c.entries@[n].end));
        }
    }
}

} // verus!
