//! Tick counts and their display decomposition: ticks are counted at 20 per
//! second, and a count is broken into days, hours, minutes and seconds for
//! the presentation layer.

use vstd::prelude::*;

verus! {

/// A play time decomposed for display: days, hours, minutes and whole
/// seconds.
#[derive(Clone, Copy, Debug, PartialEq, Eq, Structural)]
pub struct Duration {
    pub days: u64,
    pub hours: u64,
    pub minutes: u64,
    pub seconds: u64,
}

/// Game ticks per second.
pub const TICKS_PER_SECOND: u64 = 20;

/// The canonical decomposition of a tick count: whole seconds at 20 ticks
/// each, split into days, hours below a day, minutes below an hour and
/// seconds below a minute.
pub open spec fn spec_ticks_to_duration(ticks: u64) -> Duration {
    Duration {
        days: ((ticks / 20) / 86400) as u64,
        hours: (((ticks / 20) % 86400) / 3600) as u64,
        minutes: (((ticks / 20) % 3600) / 60) as u64,
        seconds: ((ticks / 20) % 60) as u64,
    }
}

/// The tick count a decomposition stands for.
pub open spec fn spec_duration_ticks(d: Duration) -> int {
    (d.days * 86400 + d.hours * 3600 + d.minutes * 60 + d.seconds) * 20
}

/// Decomposes a tick count for display.
pub fn ticks_to_duration(ticks: u64) -> (r: Duration)
    ensures
        r == spec_ticks_to_duration(ticks),
        r.hours < 24,
        r.minutes < 60,
        r.seconds < 60,
{
    let total_seconds = ticks / 20;
    Duration {
        days: total_seconds / 86400,
        hours: (total_seconds % 86400) / 3600,
        minutes: (total_seconds % 3600) / 60,
        seconds: total_seconds % 60,
    }
}

/// Recomposes a decomposition into its tick count.
pub fn duration_to_ticks(d: &Duration) -> (r: u64)
    requires
        spec_duration_ticks(*d) <= u64::MAX,
    ensures
        r as int == spec_duration_ticks(*d),
{
    let seconds = d.days * 86400 + d.hours * 3600 + d.minutes * 60 + d.seconds;
    seconds * 20
}

/// Law: decomposing a tick count into days, hours, minutes and seconds at
/// 20 ticks per second and recomposing reconstructs the count exactly,
/// provided the count is a whole number of seconds (a multiple of 20 — a
/// sub-second remainder is not representable in the decomposition and would
/// be lost).
pub proof fn lemma_duration_round_trip(ticks: u64)
    requires
        ticks % 20 == 0,
    ensures
        spec_duration_ticks(spec_ticks_to_duration(ticks)) == ticks,
{
    let ts = ticks as int / 20;
    let d = spec_ticks_to_duration(ticks);
    assert((ts % 86400) % 3600 == ts % 3600) by {
        vstd::arithmetic::div_mod::lemma_mod_mod(ts, 3600, 24);
    }
    assert((ts % 3600) % 60 == ts % 60) by {
        vstd::arithmetic::div_mod::lemma_mod_mod(ts, 60, 60);
    }
    assert(86400 * (ts / 86400) + ts % 86400 == ts) by {
        vstd::arithmetic::div_mod::lemma_fundamental_div_mod(ts, 86400);
    }
    assert(3600 * ((ts % 86400) / 3600) + (ts % 86400) % 3600 == ts % 86400) by {
        vstd::arithmetic::div_mod::lemma_fundamental_div_mod(ts % 86400, 3600);
    }
    assert(60 * ((ts % 3600) / 60) + (ts % 3600) % 60 == ts % 3600) by {
        vstd::arithmetic::div_mod::lemma_fundamental_div_mod(ts % 3600, 60);
    }
    assert(d.days * 86400 + d.hours * 3600 + d.minutes * 60 + d.seconds == ts);
    assert(20 * (ticks as int / 20) + ticks as int % 20 == ticks as int) by {
        vstd::arithmetic::div_mod::lemma_fundamental_div_mod(ticks as int, 20);
    }
}

} // verus!
