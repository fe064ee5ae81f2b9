use countdown::cache::{BusinessDayCache, DateWindow, MetricsCache};
use countdown::calendar::count_business_days;
use countdown::time::Instant;

fn at(text: &str) -> Instant {
    Instant::parse_rfc3339(text).unwrap()
}

fn plus(i: Instant, secs: i64) -> Instant {
    Instant { secs: i.secs + secs, nanos: i.nanos }
}

#[test]
fn keyed_cache_hits_within_ttl() {
    let mut c = BusinessDayCache::new(60, 5);
    let t = at("2021-07-01T00:00:00Z");
    let s = at("2021-01-01T00:00:00Z").date();
    let e = t.date();
    assert_eq!(c.get_or_compute(s, e, &t), 124);
    assert_eq!(c.computations, 1);
    assert_eq!(c.get_or_compute(s, e, &plus(t, 59)), 124);
    assert_eq!(c.computations, 1);
    assert_eq!(c.entries.len(), 1);
}

#[test]
fn keyed_cache_recomputes_after_ttl() {
    let mut c = BusinessDayCache::new(60, 5);
    let t = at("2021-07-01T00:00:00Z");
    let s = at("2021-01-01T00:00:00Z").date();
    let e = t.date();
    c.get_or_compute(s, e, &t);
    assert_eq!(c.computations, 1);
    let later = plus(t, 60);
    assert_eq!(c.get_or_compute(s, e, &later), 124);
    assert_eq!(c.computations, 2);
    assert_eq!(c.entries.len(), 1);
    assert_eq!(c.entries[0].stored_at, later);
}

#[test]
fn keyed_cache_recomputes_when_clock_goes_back() {
    let mut c = BusinessDayCache::new(60, 5);
    let t = at("2021-07-01T00:00:00Z");
    let s = at("2021-01-01T00:00:00Z").date();
    c.get_or_compute(s, t.date(), &t);
    c.get_or_compute(s, t.date(), &plus(t, -5));
    assert_eq!(c.computations, 2);
}

#[test]
fn keyed_cache_distinct_keys_and_eviction() {
    let mut c = BusinessDayCache::new(60, 2);
    let t = at("2021-07-01T00:00:00Z");
    let d = t.date();
    let a = countdown::time::CalDate { day: d.day + 7 };
    let b = countdown::time::CalDate { day: d.day + 14 };
    let x = countdown::time::CalDate { day: d.day + 21 };
    assert_eq!(c.get_or_compute(d, a, &t), count_business_days(d, a));
    assert_eq!(c.get_or_compute(d, b, &t), count_business_days(d, b));
    assert_eq!(c.get_or_compute(d, x, &t), count_business_days(d, x));
    assert_eq!(c.entries.len(), 2);
    assert_eq!(c.computations, 3);
    assert_eq!(c.entries[0].end, b);
    assert_eq!(c.entries[1].end, x);
    // The evicted key is computed again.
    c.get_or_compute(d, a, &t);
    assert_eq!(c.computations, 4);
}

fn window() -> DateWindow {
    DateWindow { start: at("2021-01-01T00:00:00Z"), end: at("2022-01-01T00:00:00Z") }
}

#[test]
fn snapshot_contents() {
    let mut m = MetricsCache::new(60, 5, 30);
    let now = at("2021-07-01T00:00:00Z");
    let s = m.get_snapshot_at(&window(), &now);
    assert_eq!(s.start, "2021-01-01T00:00:00+00:00");
    assert_eq!(s.end, "2022-01-01T00:00:00+00:00");
    assert_eq!(s.days_left, 184);
    assert_eq!(s.business_days_done, 124);
    let end = window().end.date();
    assert_eq!(s.business_days_left, count_business_days(now.date(), end));
}

#[test]
fn snapshot_stable_within_ttl() {
    let mut m = MetricsCache::new(60, 5, 30);
    let now = at("2021-06-30T12:00:00Z");
    let first = m.get_snapshot_at(&window(), &now);
    let computed = m.counts.computations;
    // Past midnight: a fresh build would count one more business day done.
    let second = m.get_snapshot_at(&window(), &plus(now, 29));
    assert_eq!(first, second);
    assert_eq!(m.counts.computations, computed);
    let rebuilt = m.get_snapshot_at(&window(), &plus(now, 12 * 3600 + 1));
    assert_ne!(first, rebuilt);
}

#[test]
fn snapshot_rebuilt_after_ttl() {
    let mut m = MetricsCache::new(60, 5, 30);
    let now = at("2021-06-30T12:00:00Z");
    m.get_snapshot_at(&window(), &now);
    let later = plus(now, 30);
    m.get_snapshot_at(&window(), &later);
    assert_eq!(m.latest.as_ref().unwrap().taken_at, later);
}

#[test]
fn snapshot_for_other_window_is_rebuilt() {
    let mut m = MetricsCache::new(60, 5, 30);
    let now = at("2021-07-01T00:00:00Z");
    m.get_snapshot_at(&window(), &now);
    let other = DateWindow { start: at("2021-06-01T00:00:00Z"), end: at("2021-08-01T00:00:00Z") };
    let s = m.get_snapshot_at(&other, &now);
    assert_eq!(s.days_left, 31);
    assert_eq!(s.start, "2021-06-01T00:00:00+00:00");
}

#[test]
fn snapshot_from_clock_repeats() {
    let mut m = MetricsCache::new(60, 5, 30);
    let a = m.get_snapshot(&window());
    let b = m.get_snapshot(&window());
    assert_eq!(a, b);
}

#[test]
fn keyed_cache_miss_keeps_other_entries() {
    let mut c = BusinessDayCache::new(60, 3);
    let t = at("2021-07-01T00:00:00Z");
    let d = t.date();
    let a = countdown::time::CalDate { day: d.day + 7 };
    let b = countdown::time::CalDate { day: d.day + 14 };
    c.get_or_compute(d, a, &t);
    c.get_or_compute(d, b, &plus(t, 30));
    // The entry for `a` is stale here, the one for `b` is not.
    let later = plus(t, 61);
    assert_eq!(c.get_or_compute(d, a, &later), count_business_days(d, a));
    assert_eq!(c.entries.len(), 2);
    assert_eq!(c.entries[0].end, b);
    assert_eq!(c.entries[0].stored_at, plus(t, 30));
    assert_eq!(c.entries[1].end, a);
    assert_eq!(c.entries[1].stored_at, later);
    assert_eq!(c.computations, 3);
}
