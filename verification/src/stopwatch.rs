use vstd::prelude::*;

verus! {

/// Addition of nanosecond durations, saturating at the largest representable
/// value so that time accounting is total.
pub open spec fn sat_add(a: u64, b: u64) -> u64 {
    if a + b <= u64::MAX {
        (a + b) as u64
    } else {
        u64::MAX
    }
}

/// The length of the interval from mark `s` to clock reading `n`; zero when
/// the reading does not exceed the mark.
pub open spec fn dur_since(s: u64, n: u64) -> u64 {
    if n >= s {
        (n - s) as u64
    } else {
        0
    }
}

/// A single timer: it accumulates wall-clock time across start/pause cycles.
/// Timestamps and durations are nanosecond counts.
#[derive(Debug, Clone, Copy)]
pub struct Stopwatch {
    /// Identifier, unique within the owning collection.
    pub id: u8,
    /// Nanosecond timestamp recorded at the most recent transition to running.
    pub start_time: Option<u64>,
    /// Total nanoseconds accrued over completed running intervals; `None` until
    /// a running interval has been recorded.
    pub elapsed_time: Option<u64>,
    /// True iff the stopwatch is currently accumulating time.
    pub is_running: bool,
}

impl Stopwatch {
    /// A stopwatch is well formed when the start mark is present exactly while
    /// it is running.
    pub open spec fn wf(self) -> bool {
        self.is_running <==> self.start_time is Some
    }

    /// The state of a freshly created stopwatch: never started.
    pub open spec fn spec_new(id: u8) -> Stopwatch {
        Stopwatch { id, start_time: None, elapsed_time: None, is_running: false }
    }

    pub fn new(id: u8) -> (w: Self)
        ensures
            w == Stopwatch::spec_new(id),
            w.wf(),
    {
        Self { id, start_time: None, elapsed_time: None, is_running: false }
    }

    /// The nanoseconds accrued over completed intervals, with "never
    /// recorded" read as zero.
    pub open spec fn spec_elapsed_or_zero(self) -> u64 {
        match self.elapsed_time {
            Some(e) => e,
            None => 0,
        }
    }

    /// The state after `start_at(now)`: a no-op while running, else the mark
    /// is set and the stopwatch runs.
    pub open spec fn spec_start_at(self, now: u64) -> Stopwatch {
        if self.is_running {
            self
        } else {
            Stopwatch { start_time: Some(now), is_running: true, ..self }
        }
    }

    /// The state after `pause_at(now)`: a no-op while not running, else the
    /// interval since the mark is folded into the stored time and the mark is
    /// cleared.
    pub open spec fn spec_pause_at(self, now: u64) -> Stopwatch {
        if self.is_running {
            Stopwatch {
                elapsed_time: Some(
                    sat_add(
                        self.spec_elapsed_or_zero(),
                        match self.start_time {
                            Some(st) => dur_since(st, now),
                            None => 0,
                        },
                    ),
                ),
                start_time: None,
                is_running: false,
                ..self
            }
        } else {
            self
        }
    }

    /// The total elapsed time as of clock reading `now`: `None` iff never
    /// started, else the stored time plus the live interval while running.
    pub open spec fn spec_total(self, now: u64) -> Option<u64> {
        match self.start_time {
            Some(st) => Some(sat_add(self.spec_elapsed_or_zero(), dur_since(st, now))),
            None => self.elapsed_time,
        }
    }

    /// Set the stopwatch to not running and clear the start mark.
    pub fn stop(&mut self)
        ensures
            *final(self) == (Stopwatch {
                start_time: None,
                is_running: false,
                ..*old(self)
            }),
            final(self).wf(),
    {
        self.is_running = false;
        self.start_time = None;
    }

    /// Start or continue the stopwatch as of clock reading `now`; a no-op
    /// when it is already running.
    pub fn start_at(&mut self, now: u64)
        requires
            old(self).wf(),
        ensures
            *final(self) == old(self).spec_start_at(now),
            final(self).wf(),
    {
        if !self.is_running {
            self.start_time = Some(now);
            self.is_running = true;
        }
    }

    /// Pause the stopwatch as of clock reading `now`, folding the running
    /// interval into the stored time; a no-op when it is not running.
    pub fn pause_at(&mut self, now: u64)
        requires
            old(self).wf(),
        ensures
            *final(self) == old(self).spec_pause_at(now),
            final(self).wf(),
    {
        if self.is_running {
            let interval: u64 = match self.start_time {
                Some(st) => if now >= st {
                    now - st
                } else {
                    0
                },
                None => 0,
            };
            let prior: u64 = match self.elapsed_time {
                Some(e) => e,
                None => 0,
            };
            self.elapsed_time = Some(
                if prior <= u64::MAX - interval {
                    prior + interval
                } else {
                    u64::MAX
                },
            );
            self.stop();
        }
    }

    /// The total elapsed time as of clock reading `now`; read-only.
    pub fn total_elapsed_time_at(&self, now: u64) -> (r: Option<u64>)
        requires
            self.wf(),
        ensures
            r == self.spec_total(now),
    {
        match self.start_time {
            Some(st) => {
                let interval: u64 = if now >= st {
                    now - st
                } else {
                    0
                };
                let prior: u64 = match self.elapsed_time {
                    Some(e) => e,
                    None => 0,
                };
                Some(
                    if prior <= u64::MAX - interval {
                        prior + interval
                    } else {
                        u64::MAX
                    },
                )
            },
            None => self.elapsed_time,
        }
    }

    /// Start or continue the stopwatch, reading the wall clock; a no-op when
    /// it is already running.
    pub fn start(&mut self)
        requires
            old(self).wf(),
        ensures
            final(self).wf(),
            final(self).id == old(self).id,
            final(self).elapsed_time == old(self).elapsed_time,
            final(self).is_running,
            old(self).is_running ==> *final(self) == *old(self),
            exists|now: u64| *final(self) == old(self).spec_start_at(now),
    {
        let now = clock_nanos();
        self.start_at(now);
    }

    /// Pause the stopwatch, reading the wall clock; a no-op when it is not
    /// running. Stored time never decreases.
    pub fn pause(&mut self)
        requires
            old(self).wf(),
        ensures
            final(self).wf(),
            final(self).id == old(self).id,
            !final(self).is_running,
            final(self).start_time is None,
            !old(self).is_running ==> *final(self) == *old(self),
            old(self).is_running ==> final(self).elapsed_time is Some,
            final(self).spec_elapsed_or_zero() >= old(self).spec_elapsed_or_zero(),
            exists|now: u64| *final(self) == old(self).spec_pause_at(now),
    {
        let now = clock_nanos();
        self.pause_at(now);
    }

    /// The total elapsed time so far, reading the wall clock; `None` iff the
    /// stopwatch was never started. Read-only.
    pub fn total_elapsed_time(&self) -> (r: Option<u64>)
        requires
            self.wf(),
        ensures
            (r is None) <==> (self.start_time is None && self.elapsed_time is None),
            !self.is_running ==> r == self.elapsed_time,
            r matches Some(t) ==> t >= self.spec_elapsed_or_zero(),
            exists|now: u64| r == self.spec_total(now),
    {
        let now = clock_nanos();
        self.total_elapsed_time_at(now)
    }
}

/// Relies on std::time::SystemTime::elapsed, called on the Unix epoch: the
/// wall clock's reading, converted to whole nanoseconds since the epoch.
/// Readings come from the live clock, so nothing relates one call to another.
#[verifier::external_body]
fn clock_nanos() -> u64 {
    std::time::UNIX_EPOCH
        .elapsed()
        .unwrap_or(std::time::Duration::ZERO)
        .as_nanos()
        .try_into()
        .unwrap_or(u64::MAX)
}

impl PartialEq for Stopwatch {
    /// Two stopwatches are equal when they carry the same identifier.
    fn eq(&self, other: &Self) -> bool {
        self.id == other.id
    }
}

impl vstd::std_specs::cmp::PartialEqSpecImpl for Stopwatch {
    open spec fn obeys_eq_spec() -> bool {
        true
    }

    open spec fn eq_spec(&self, other: &Stopwatch) -> bool {
        self.id == other.id
    }
}

/// A never-started stopwatch reports no elapsed time, whatever the clock
/// reads.
pub proof fn lemma_fresh_total_none(id: u8, now: u64)
    ensures
        Stopwatch::spec_new(id).spec_total(now) is None,
{
}

/// Starting a fresh stopwatch at reading `t0` and pausing it at reading `t1`
/// records exactly the interval between the two readings, and that total is
/// what every later query reports.
pub proof fn lemma_single_run_records_interval(id: u8, t0: u64, t1: u64, now: u64)
    requires
        t0 <= t1,
    ensures
        Stopwatch::spec_new(id).spec_start_at(t0).spec_pause_at(t1).spec_total(now)
            == Some((t1 - t0) as u64),
{
}

/// Pausing twice in a row changes nothing beyond the first pause: the second
/// pause adds no time.
pub proof fn lemma_pause_idempotent(w: Stopwatch, t1: u64, t2: u64)
    ensures
        w.spec_pause_at(t1).spec_pause_at(t2) == w.spec_pause_at(t1),
{
}

/// Starting twice in a row without an intervening pause changes nothing
/// beyond the first start: the mark is not reset.
pub proof fn lemma_start_idempotent(w: Stopwatch, t0: u64, t1: u64)
    ensures
        w.spec_start_at(t0).spec_start_at(t1) == w.spec_start_at(t0),
{
}

/// Two completed running intervals accumulate additively: the total is the
/// sum of the two interval lengths.
pub proof fn lemma_two_runs_accumulate(id: u8, t0: u64, t1: u64, t2: u64, t3: u64, now: u64)
    requires
        t0 <= t1,
        t2 <= t3,
        t1 - t0 + t3 - t2 <= u64::MAX,
    ensures
        Stopwatch::spec_new(id).spec_start_at(t0).spec_pause_at(t1).spec_start_at(t2).spec_pause_at(
            t3,
        ).spec_total(now) == Some((t1 - t0 + t3 - t2) as u64),
{
}

} // verus!
