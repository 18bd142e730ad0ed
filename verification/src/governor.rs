//! Hourly volume governor: counts the records of the current hour and
//! suppresses remote delivery once a configured per-hour threshold is
//! exceeded, reporting the two boundary events exactly once per hour.

use vstd::prelude::*;

verus! {

/// The hour of day (0..24) that `now_secs` seconds after the Unix epoch
/// falls in.
pub open spec fn hour_of(now_secs: u64) -> u8 {
    (((now_secs as nat) / 3600) % 24) as u8
}

/// Computes `hour_of` at run time.
pub fn hour_of_exec(now_secs: u64) -> (h: u8)
    ensures
        h == hour_of(now_secs),
{
    ((now_secs / 3600) % 24) as u8
}

/// Volume state: the hour last seen and the records counted in it.
pub struct Governor {
    pub last_hour: u8,
    pub count: u32,
}

/// What the governor decided for one record.
#[derive(Clone, Copy, PartialEq, Eq, Debug)]
pub struct Verdict {
    /// the record must not be delivered
    pub suppress: bool,
    /// set on an hour rollover whose finished hour overflowed: how many
    /// records were lost
    pub lost: Option<u32>,
    /// this record is the one that reaches the threshold
    pub reached: bool,
}

/// The governor's decision for one record, at the specification level: the
/// state after the record and the verdict on it.  A zero threshold disables
/// the governor.  Otherwise, on an hour rollover the count restarts and an
/// overflowed hour is reported with its loss; the record is counted
/// whatever the outcome, passes while the pre-increment count is below the
/// threshold, and the one record whose pre-increment count equals the
/// threshold is flagged as reaching it (and itself suppressed).
pub open spec fn check_model(g: Governor, threshold: u32, now_secs: u64) -> (Governor, Verdict) {
    if threshold == 0 {
        (g, Verdict { suppress: false, lost: None, reached: false })
    } else {
        let h = hour_of(now_secs);
        let rolled = g.last_hour != h;
        let base: u32 = if rolled {
            0u32
        } else {
            g.count
        };
        (
            Governor {
                last_hour: h,
                count: if base == u32::MAX {
                    0u32
                } else {
                    (base + 1) as u32
                },
            },
            Verdict {
                suppress: base >= threshold,
                lost: if rolled && g.count > threshold {
                    Some((g.count - threshold) as u32)
                } else {
                    None
                },
                reached: base == threshold,
            },
        )
    }
}

impl Governor {
    /// A governor that has seen nothing yet.
    pub fn new() -> (g: Governor)
        ensures
            g.last_hour == 0,
            g.count == 0,
    {
        Governor { last_hour: 0, count: 0 }
    }

    /// Judges one record arriving at `now_secs`, exactly as `check_model`
    /// describes.
    pub fn check(&mut self, threshold: u32, now_secs: u64) -> (v: Verdict)
        ensures
            (*final(self), v) == check_model(*old(self), threshold, now_secs),
    {
        if threshold == 0 {
            return Verdict { suppress: false, lost: None, reached: false };
        }
        let this_hour = hour_of_exec(now_secs);
        let mut lost: Option<u32> = None;
        let mut base = self.count;
        if self.last_hour != this_hour {
            if base > threshold {
                lost = Some(base - threshold);
            }
            base = 0;
            self.last_hour = this_hour;
        }
        // the count always includes the current record, delivered or not
        self.count = if base == u32::MAX {
            0
        } else {
            base + 1
        };
        if base > threshold {
            Verdict { suppress: true, lost, reached: false }
        } else if base == threshold {
            Verdict { suppress: true, lost, reached: true }
        } else {
            Verdict { suppress: false, lost, reached: false }
        }
    }
}

/// The governor state after `c` records have arrived at `now_secs` with
/// threshold `t`, starting from `g`.
pub open spec fn run_hour(g: Governor, t: u32, now_secs: u64, c: nat) -> Governor
    decreases c,
{
    if c == 0 {
        g
    } else {
        check_model(run_hour(g, t, now_secs, (c - 1) as nat), t, now_secs).0
    }
}

/// How many of those `c` records are delivered-attempted (not suppressed).
pub open spec fn allowed_in_hour(g: Governor, t: u32, now_secs: u64, c: nat) -> nat
    decreases c,
{
    if c == 0 {
        0
    } else {
        allowed_in_hour(g, t, now_secs, (c - 1) as nat) + (if !check_model(
            run_hour(g, t, now_secs, (c - 1) as nat),
            t,
            now_secs,
        ).1.suppress {
            1nat
        } else {
            0nat
        })
    }
}

/// How many of those `c` records are flagged as reaching the threshold.
pub open spec fn reached_in_hour(g: Governor, t: u32, now_secs: u64, c: nat) -> nat
    decreases c,
{
    if c == 0 {
        0
    } else {
        reached_in_hour(g, t, now_secs, (c - 1) as nat) + (if check_model(
            run_hour(g, t, now_secs, (c - 1) as nat),
            t,
            now_secs,
        ).1.reached {
            1nat
        } else {
            0nat
        })
    }
}

/// Hourly allowance law, proved of the governor's own step: with a positive
/// threshold `t` and a fresh hour (count 0, hour already current), of `c`
/// records arriving within that hour every one is delivered-attempted while
/// `c <= t`; beyond that exactly `t` pass and the rest are suppressed, and
/// exactly one threshold-reached warning fires, at the moment the count
/// reaches `t`.
pub proof fn lemma_hourly_allowance(g: Governor, t: u32, now_secs: u64, c: nat)
    requires
        t > 0,
        g.count == 0,
        g.last_hour == hour_of(now_secs),
        c <= u32::MAX,
    ensures
        run_hour(g, t, now_secs, c).count == c,
        run_hour(g, t, now_secs, c).last_hour == hour_of(now_secs),
        allowed_in_hour(g, t, now_secs, c) == if c <= t {
            c
        } else {
            t as nat
        },
        reached_in_hour(g, t, now_secs, c) == if c <= t {
            0nat
        } else {
            1nat
        },
    decreases c,
{
    if c > 0 {
        lemma_hourly_allowance(g, t, now_secs, (c - 1) as nat);
    }
}

} // verus!
