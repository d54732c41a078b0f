//! Time ranges split into request-sized windows.
//!
//! Instants are milliseconds since the Unix epoch, the plain value of a
//! `chrono::DateTime<Utc>` at millisecond precision.

use vstd::prelude::*;

verus! {

/// Earliest millisecond instant a `chrono::DateTime<Utc>` holds (-262143-01-01T00:00:00Z).
pub const MIN_UTC_MILLIS: i64 = -8334601315200000i64;

/// Latest millisecond instant a `chrono::DateTime<Utc>` holds outside a leap
/// second (+262142-12-31T23:59:59.999Z).
pub const MAX_UTC_MILLIS: i64 = 8210266876799999i64;

/// Milliseconds in one minute.
pub const MILLIS_PER_MINUTE: i64 = 60000i64;

/// Largest magnitude of minutes that `chrono::Duration::minutes` accepts
/// (the seconds must stay within `i64::MAX / 1000`).
pub const MAX_DURATION_MINUTES: i64 = 153722867280912i64;

/// Largest window size, in minutes, that a time range accepts.
pub const MAX_INTERVAL_MINUTES: i64 = 500i64;

/// Window size, in minutes, of the default time range.
pub const DEFAULT_INTERVAL_MINUTES: i64 = 300i64;

/// Length of the default time range: seven days in milliseconds.
pub const DEFAULT_LOOKBACK_MILLIS: i64 = 604800000i64;

/// Whether a millisecond instant is one that `chrono::DateTime<Utc>` can hold.
pub open spec fn in_utc_range(t: int) -> bool {
    MIN_UTC_MILLIS <= t <= MAX_UTC_MILLIS
}

/// Number of windows of `step` milliseconds needed to cover `len` milliseconds.
pub open spec fn window_count(len: int, step: int) -> int {
    if len <= 0 || step <= 0 {
        0
    } else {
        (len + step - 1) / step
    }
}

/// A span of time from `start` to `end`, walked in windows of a fixed size.
#[derive(Clone, Copy, Debug)]
pub struct TimeRange {
    pub start: i64,
    pub end: i64,
    /// Window size in milliseconds.
    pub interval_size: i64,
}

impl TimeRange {
    /// Builds a range from `start` to `end` walked in windows of
    /// `interval_size` minutes; windows above 500 minutes are refused.
    pub fn new(start: i64, end: i64, interval_size: i64) -> (r: Result<Self, &'static str>)
        requires
            interval_size >= -MAX_DURATION_MINUTES,
        ensures
            interval_size > MAX_INTERVAL_MINUTES ==> (r matches Err(e) && e@
                == "Max interval size is 500."@),
            interval_size <= MAX_INTERVAL_MINUTES ==> (r matches Ok(tr) && tr.start == start
                && tr.end == end && tr.interval_size == interval_size * MILLIS_PER_MINUTE),
    {
        if interval_size > MAX_INTERVAL_MINUTES {
            return Err("Max interval size is 500.");
        }
        Ok(TimeRange { start, end, interval_size: interval_size * MILLIS_PER_MINUTE })
    }

    /// The seven days up to `now`, walked in 300-minute windows.
    pub fn ending_at(now: i64) -> (r: Self)
        requires
            in_utc_range(now - DEFAULT_LOOKBACK_MILLIS),
            in_utc_range(now as int),
        ensures
            r.start == now - DEFAULT_LOOKBACK_MILLIS,
            r.end == now,
            r.interval_size == DEFAULT_INTERVAL_MINUTES * MILLIS_PER_MINUTE,
    {
        TimeRange {
            start: now - DEFAULT_LOOKBACK_MILLIS,
            end: now,
            interval_size: DEFAULT_INTERVAL_MINUTES * MILLIS_PER_MINUTE,
        }
    }

    /// The seven days up to `now`, walked in 300-minute windows; `None`
    /// when seven days before `now` is not a representable instant.
    pub fn default_at(now: i64) -> (r: Option<Self>)
        requires
            in_utc_range(now as int),
        ensures
            r is None <==> now < MIN_UTC_MILLIS + DEFAULT_LOOKBACK_MILLIS,
            r matches Some(tr) ==> tr.start == now - DEFAULT_LOOKBACK_MILLIS && tr.end == now
                && tr.interval_size == DEFAULT_INTERVAL_MINUTES * MILLIS_PER_MINUTE,
    {
        if now < MIN_UTC_MILLIS + DEFAULT_LOOKBACK_MILLIS {
            None
        } else {
            Some(TimeRange::ending_at(now))
        }
    }

    /// The seven days up to the current time, walked in 300-minute windows,
    /// as `default_at` gives them for the clock's reading.
    pub fn default() -> (r: Option<Self>)
        ensures
            r matches Some(tr) ==> tr.start == tr.end - DEFAULT_LOOKBACK_MILLIS && in_utc_range(
                tr.end as int,
            ) && tr.interval_size == DEFAULT_INTERVAL_MINUTES * MILLIS_PER_MINUTE,
    {
        TimeRange::default_at(utc_now_millis())
    }

    /// The range after one window is taken: `start` moves by one window,
    /// stopping at `end`; nothing changes once `start` has reached `end`.
    pub open spec fn advanced(self) -> TimeRange {
        if self.start >= self.end {
            self
        } else {
            TimeRange {
                start: if self.start + self.interval_size <= self.end {
                    (self.start + self.interval_size) as i64
                } else {
                    self.end
                },
                end: self.end,
                interval_size: self.interval_size,
            }
        }
    }

    /// Takes the next window: `None` once `start` has reached `end`;
    /// otherwise the window from `start` to `start + interval`, cut at `end`,
    /// after which `start` moves to the window's end.
    pub fn next(&mut self) -> (r: Option<TimeRange>)
        requires
            old(self).start < old(self).end ==> in_utc_range(
                old(self).start + old(self).interval_size,
            ),
        ensures
            *final(self) == old(self).advanced(),
            final(self).end == old(self).end,
            final(self).interval_size == old(self).interval_size,
            old(self).start >= old(self).end ==> r is None && final(self).start == old(self).start,
            old(self).start < old(self).end ==> {
                &&& final(self).start == (if old(self).start + old(self).interval_size <= old(
                    self,
                ).end {
                    old(self).start + old(self).interval_size
                } else {
                    old(self).end as int
                })
                &&& r matches Some(w) && w.start == old(self).start && w.end == final(self).start
                    && w.interval_size == old(self).interval_size
            },
    {
        if self.start >= self.end {
            return None;
        }
        let current_start = self.start;
        let next_start = self.start + self.interval_size;
        if next_start <= self.end {
            self.start = next_start;
        } else {
            self.start = self.end;
        }
        Some(TimeRange { start: current_start, end: self.start, interval_size: self.interval_size })
    }

    /// Whether `sub_ranges` can walk the range: the window size is positive
    /// (else the walk never ends) and, when the range is not empty, the
    /// first and the last window boundary that the walk computes are
    /// instants that chrono can hold.
    pub open spec fn walk_allowed(self) -> bool {
        &&& self.interval_size > 0
        &&& self.start < self.end ==> in_utc_range(self.start + self.interval_size)
        &&& self.start < self.end ==> in_utc_range(
            self.start + window_count(self.end - self.start, self.interval_size as int)
                * self.interval_size,
        )
    }

    /// Every range with a positive window whose start is an instant chrono
    /// holds, and whose end lies at least one window before chrono's last
    /// instant, can be walked; in particular a non-empty range shorter than
    /// one window is walked in one window cut at its end. A range with a
    /// window that is not positive cannot be walked.
    pub proof fn lemma_walk_allowed(self)
        ensures
            self.interval_size > 0 && in_utc_range(self.start as int) && in_utc_range(
                self.end + self.interval_size,
            ) ==> self.walk_allowed(),
            self.interval_size <= 0 ==> !self.walk_allowed(),
    {
        if self.interval_size > 0 && in_utc_range(self.start as int) && in_utc_range(
            self.end + self.interval_size,
        ) && self.start < self.end {
            let len = self.end - self.start;
            let step = self.interval_size as int;
            lemma_window_count(len, step);
            let n = window_count(len, step);
            assert((n - 1) * step == n * step - step) by (nonlinear_arith);
            assert(n * step >= step) by (nonlinear_arith)
                requires
                    n >= 1,
                    step > 0,
            ;
        }
    }

    /// The windows of the range as `sub_ranges` gives them, or `None` when
    /// the range cannot be walked (see `walk_allowed`).
    pub fn checked_sub_ranges(&self) -> (r: Option<Vec<TimeRange>>)
        ensures
            r is None <==> !self.walk_allowed(),
            self.interval_size > 0 && in_utc_range(self.start as int) && in_utc_range(
                self.end + self.interval_size,
            ) ==> r is Some,
            self.interval_size <= 0 ==> r is None,
            r matches Some(v) ==> {
                &&& v.len() == window_count(self.end - self.start, self.interval_size as int)
                &&& forall|i: int|
                    #![trigger v[i]]
                    0 <= i < v.len() ==> {
                        &&& v[i].start == self.start + i * self.interval_size
                        &&& v[i].end == (if self.start + (i + 1) * self.interval_size <= self.end {
                            self.start + (i + 1) * self.interval_size
                        } else {
                            self.end as int
                        })
                        &&& v[i].interval_size == self.interval_size
                    }
            },
    {
        proof {
            self.lemma_walk_allowed();
        }
        if self.interval_size <= 0 {
            return None;
        }
        if self.start < self.end {
            let len: i128 = self.end as i128 - self.start as i128;
            let step: i128 = self.interval_size as i128;
            let count: i128 = (len + step - 1) / step;
            proof {
                lemma_window_count(len as int, step as int);
                assert(count == window_count(self.end - self.start, self.interval_size as int));
                assert(count * step < len + step) by (nonlinear_arith)
                    requires
                        (count - 1) * step < len,
                ;
                assert(count * step > 0) by (nonlinear_arith)
                    requires
                        count >= 1,
                        step > 0,
                ;
            }
            let first: i128 = self.start as i128 + step;
            let last: i128 = self.start as i128 + count * step;
            if first < MIN_UTC_MILLIS as i128 || first > MAX_UTC_MILLIS as i128
                || last < MIN_UTC_MILLIS as i128 || last > MAX_UTC_MILLIS as i128 {
                return None;
            }
        }
        Some(self.sub_ranges())
    }

    /// All windows of the range, in order: window `i` runs from
    /// `start + i * interval` to the smaller of `start + (i + 1) * interval`
    /// and `end`. Together they tile the range without gap or overlap.
    pub fn sub_ranges(&self) -> (v: Vec<TimeRange>)
        requires
            self.interval_size > 0,
            self.start < self.end ==> in_utc_range(self.start + self.interval_size),
            self.start < self.end ==> in_utc_range(
                self.start + window_count(self.end - self.start, self.interval_size as int)
                    * self.interval_size,
            ),
        ensures
            v.len() == window_count(self.end - self.start, self.interval_size as int),
            forall|i: int|
                #![trigger v[i]]
                0 <= i < v.len() ==> {
                    &&& v[i].start == self.start + i * self.interval_size
                    &&& v[i].end == (if self.start + (i + 1) * self.interval_size <= self.end {
                        self.start + (i + 1) * self.interval_size
                    } else {
                        self.end as int
                    })
                    &&& v[i].interval_size == self.interval_size
                    &&& v[i].start < v[i].end
                    &&& v[i].end - v[i].start <= self.interval_size
                },
            v.len() > 0 ==> v[0].start == self.start && v[v.len() - 1].end == self.end,
            forall|i: int| 0 <= i < v.len() - 1 ==> #[trigger] v[i].end == v[i + 1].start,
    {
        let ghost iv = self.interval_size as int;
        let ghost n = window_count(self.end - self.start, iv);
        proof {
            if self.start < self.end {
                lemma_window_count(self.end - self.start, iv);
            }
        }
        let mut cur = *self;
        let mut v: Vec<TimeRange> = Vec::new();
        while cur.start < cur.end
            invariant
                iv == self.interval_size,
                iv > 0,
                n == window_count(self.end - self.start, iv),
                self.start < self.end ==> (n - 1) * iv < self.end - self.start <= n * iv,
                self.start < self.end ==> in_utc_range(self.start + iv),
                self.start < self.end ==> in_utc_range(self.start + n * iv),
                cur.end == self.end,
                cur.interval_size == self.interval_size,
                v.len() <= n,
                self.start >= self.end ==> cur.start == self.start && v.len() == 0,
                self.start < self.end ==> cur.start == (if v.len() < n {
                    self.start + v.len() * iv
                } else {
                    self.end as int
                }),
                forall|i: int|
                    #![trigger v[i]]
                    0 <= i < v.len() ==> {
                        &&& v[i].start == self.start + i * iv
                        &&& v[i].end == (if self.start + (i + 1) * iv <= self.end {
                            self.start + (i + 1) * iv
                        } else {
                            self.end as int
                        })
                        &&& v[i].interval_size == iv
                        &&& v[i].start < v[i].end
                        &&& v[i].end - v[i].start <= iv
                    },
            decreases cur.end - cur.start,
        {
            let ghost k = v.len() as int;
            proof {
                assert(k < n);
                lemma_window_bounds(k, n, iv);
            }
            let w = cur.next();
            match w {
                Some(w) => {
                    v.push(w);
                },
                None => {},
            }
        }
        proof {
            if self.start < self.end && v.len() < n {
                let k = v.len() as int;
                assert(k * iv <= (n - 1) * iv) by (nonlinear_arith)
                    requires
                        k <= n - 1,
                        iv > 0,
                ;
            }
        }
        v
    }
}

/// The range after `k` calls of `next`.
pub open spec fn walked(tr: TimeRange, k: nat) -> TimeRange
    decreases k,
{
    if k == 0 {
        tr
    } else {
        walked(tr, (k - 1) as nat).advanced()
    }
}

/// Repeated `next` calls: with a positive window, the `k + 1`-th call yields
/// a window exactly when `k` is below the window count, so windows come
/// `window_count` times and then never again; with a window of zero or
/// less, `start` keeps moving back by the window and every call yields one,
/// so the walk never ends (as long as the instants stay within `i64`).
pub proof fn lemma_repeated_next(tr: TimeRange, k: nat)
    requires
        tr.interval_size <= 0 ==> tr.start + k * tr.interval_size >= i64::MIN,
    ensures
        walked(tr, k).end == tr.end,
        walked(tr, k).interval_size == tr.interval_size,
        tr.start >= tr.end ==> walked(tr, k).start == tr.start,
        tr.interval_size > 0 ==> (walked(tr, k).start < walked(tr, k).end <==> k < window_count(
            tr.end - tr.start,
            tr.interval_size as int,
        )),
        tr.interval_size > 0 && tr.start < tr.end ==> walked(tr, k).start == (if k < window_count(
            tr.end - tr.start,
            tr.interval_size as int,
        ) {
            tr.start + k * tr.interval_size
        } else {
            tr.end as int
        }),
        tr.interval_size <= 0 && tr.start < tr.end ==> walked(tr, k).start == tr.start + k
            * tr.interval_size && walked(tr, k).start < walked(tr, k).end,
    decreases k,
{
    let d = tr.interval_size as int;
    let len = tr.end - tr.start;
    if tr.start < tr.end && d > 0 {
        lemma_window_count(len, d);
    }
    if k > 0 {
        let j = (k - 1) as nat;
        assert(j * d + d == k * d) by (nonlinear_arith)
            requires
                j == k - 1,
        ;
        if d <= 0 {
            assert(tr.start + j * d >= tr.start + k * d) by (nonlinear_arith)
                requires
                    j * d + d == k * d,
                    d <= 0,
            ;
        }
        lemma_repeated_next(tr, j);
        if tr.start < tr.end && d > 0 {
            let n = window_count(len, d);
            if j < n {
                lemma_window_bounds(j as int, n, d);
                assert((j + 1) * d == k * d);
                let w = walked(tr, j);
                assert(w.start == tr.start + j * d);
                assert(w.start + d == tr.start + k * d);
                if k < n {
                    assert(k * d <= (n - 1) * d);
                    assert(tr.start + k * d < tr.end);
                } else {
                    assert(k == n);
                    assert(tr.start + k * d >= tr.end);
                }
            }
        }
    } else {
        assert(k * d == 0) by (nonlinear_arith)
            requires
                k == 0,
        ;
    }
}

/// `window_count(len, step)` windows of `step` cover `len`, one fewer do not.
proof fn lemma_window_count(len: int, step: int)
    requires
        len > 0,
        step > 0,
    ensures
        window_count(len, step) >= 1,
        (window_count(len, step) - 1) * step < len <= window_count(len, step) * step,
{
    let n = (len + step - 1) / step;
    let r = (len + step - 1) % step;
    assert(len + step - 1 == n * step + r && 0 <= r < step) by (nonlinear_arith)
        requires
            n == (len + step - 1) / step,
            r == (len + step - 1) % step,
            step > 0,
    ;
    assert((n - 1) * step == n * step - step) by (nonlinear_arith);
    assert(n >= 1) by (nonlinear_arith)
        requires
            len + step - 1 == n * step + r,
            0 <= r < step,
            len > 0,
            step > 0,
    ;
}

/// Bounds on the k-th window of a walk of `n` windows.
proof fn lemma_window_bounds(k: int, n: int, step: int)
    requires
        0 <= k < n,
        step > 0,
    ensures
        step <= (k + 1) * step <= n * step,
        (k + 1) * step == k * step + step,
        k + 1 < n ==> (k + 1) * step <= (n - 1) * step,
{
    assert(step <= (k + 1) * step <= n * step) by (nonlinear_arith)
        requires
            0 <= k < n,
            step > 0,
    ;
    assert((k + 1) * step == k * step + step) by (nonlinear_arith);
    assert(k + 1 < n ==> (k + 1) * step <= (n - 1) * step) by (nonlinear_arith)
        requires
            step > 0,
    ;
}

/// Length of the look-back of a full history download: four weeks in milliseconds.
pub const HISTORY_LOOKBACK_MILLIS: i64 = 2419200000i64;

/// Number of windows of `step` that fit before `len` ends, each ending
/// strictly before it.
pub open spec fn full_window_count(len: int, step: int) -> int {
    if len <= 0 || step <= 0 {
        0
    } else {
        (len - 1) / step
    }
}

/// The request windows of a full history download up to `now`: 300-minute
/// windows laid end to end from four weeks before `now`, as long as a
/// window ends before `now`; the partial window at the end is not taken.
pub fn history_windows(now: i64) -> (v: Vec<(i64, i64)>)
    requires
        in_utc_range(now - HISTORY_LOOKBACK_MILLIS),
        in_utc_range(now as int),
    ensures
        v.len() == full_window_count(
            HISTORY_LOOKBACK_MILLIS as int,
            DEFAULT_INTERVAL_MINUTES * MILLIS_PER_MINUTE,
        ),
        forall|k: int|
            #![trigger v[k]]
            0 <= k < v.len() ==> v[k].0 == now - HISTORY_LOOKBACK_MILLIS + k * (
            DEFAULT_INTERVAL_MINUTES * MILLIS_PER_MINUTE) && v[k].1 == v[k].0 + DEFAULT_INTERVAL_MINUTES
                * MILLIS_PER_MINUTE,
        forall|k: int| 0 <= k < v.len() ==> #[trigger] v[k].1 < now,
{
    let step = DEFAULT_INTERVAL_MINUTES * MILLIS_PER_MINUTE;
    let first = now - HISTORY_LOOKBACK_MILLIS;
    let mut start = first;
    let mut end = first + step;
    let mut v: Vec<(i64, i64)> = Vec::new();
    let ghost total = full_window_count(HISTORY_LOOKBACK_MILLIS as int, step as int);
    assert(total == 134);
    while end < now
        invariant
            step == DEFAULT_INTERVAL_MINUTES * MILLIS_PER_MINUTE,
            first == now - HISTORY_LOOKBACK_MILLIS,
            in_utc_range(now as int),
            total == 134,
            v.len() <= total,
            start == first + v.len() * 18000000,
            end == start + step,
            forall|k: int|
                #![trigger v[k]]
                0 <= k < v.len() ==> v[k].0 == first + k * 18000000 && v[k].1 == v[k].0 + step,
            forall|k: int| 0 <= k < v.len() ==> #[trigger] v[k].1 < now,
        decreases now + step - end,
    {
        v.push((start, end));
        start = start + step;
        end = end + step;
    }
    v
}

/// Whole seconds of a millisecond instant, rounded down (what
/// `DateTime::timestamp` gives).
pub fn timestamp_secs(millis: i64) -> (s: i64)
    ensures
        s == millis / 1000,
{
    let q = millis / 1000;
    let r = millis % 1000;
    if r < 0 {
        q - 1
    } else {
        q
    }
}

/// Current time, as the millisecond value of `chrono::DateTime<Utc>::from(SystemTime::now())`.
/// Claims only that the instant is one chrono can hold; chrono panics for a
/// system clock outside its range, which is left unsaid.
#[verifier::external_body]
fn utc_now_millis() -> (t: i64)
    ensures
        MIN_UTC_MILLIS <= t <= MAX_UTC_MILLIS,
{
    chrono::DateTime::<chrono::Utc>::from(std::time::SystemTime::now()).timestamp_millis()
}

} // verus!
