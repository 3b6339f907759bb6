use vstd::prelude::*;

verus! {

/// Time is counted in units of 1/480 of a microsecond, so that the length of
/// any whole number of ticks at any tempo is an exact integer.
pub const UNITS_PER_SECOND: u64 = 480_000_000;

/// Tempo (microseconds per quarter note) in force before any tempo marker.
pub const DEFAULT_TEMPO: u32 = 500_000;

/// Length in time units of `ticks` ticks at `tempo` microseconds per quarter
/// note, a quarter note being 480 ticks.
pub open spec fn segment_duration_spec(tempo: u32, ticks: u32) -> u64 {
    (tempo as nat * ticks as nat) as u64
}

/// Length in time units of a segment of `ticks` ticks at `tempo`.
pub fn segment_duration(tempo: u32, ticks: u32) -> (r: u64)
    ensures
        r as nat == tempo as nat * ticks as nat,
        r == segment_duration_spec(tempo, ticks),
{
    proof {
        assert(tempo as nat * ticks as nat <= u32::MAX as nat * u32::MAX as nat) by (nonlinear_arith);
    }
    (tempo as u64) * (ticks as u64)
}

/// Oscillation period of `pitch` in time units, read from a period table
/// indexed by pitch; a pitch outside the table has period zero.
pub open spec fn period_spec(periods: Seq<u64>, pitch: u8) -> u64 {
    if (pitch as int) < periods.len() {
        periods[pitch as int]
    } else {
        0
    }
}

/// Looks up the oscillation period of `pitch` in `periods`.
pub fn period_of(periods: &Vec<u64>, pitch: u8) -> (r: u64)
    ensures
        r == period_spec(periods@, pitch),
{
    if (pitch as usize) < periods.len() {
        periods[pitch as usize]
    } else {
        0
    }
}

/// How many whole frames of `frametime` time units fit in `tick` ticks at
/// `tempo`, at most `u32::MAX`: the repeat count of a note played alone.
pub open spec fn repeat_spec(tempo: u32, frametime: u64, tick: u32) -> u32
    recommends
        frametime > 0,
{
    let n = segment_duration_spec(tempo, tick) / frametime;
    if n > u32::MAX {
        u32::MAX
    } else {
        n as u32
    }
}

/// Repeat count of a record of `frametime` time units that lasts `tick`
/// ticks at `tempo`.
pub fn frametime_tick_to_repeat(tempo: u32, frametime: u64, tick: u32) -> (r: u32)
    requires
        frametime > 0,
    ensures
        r == repeat_spec(tempo, frametime, tick),
        r < u32::MAX ==> (r as nat) * (frametime as nat) <= (tempo as nat) * (tick as nat) < (r as nat
            + 1) * (frametime as nat),
{
    let n = segment_duration(tempo, tick) / frametime;
    proof {
        let d = segment_duration_spec(tempo, tick) as int;
        let f = frametime as int;
        assert(d == (d / f) * f + d % f) by (nonlinear_arith)
            requires f > 0;
        assert(0 <= d % f < f) by (nonlinear_arith)
            requires f > 0;
        assert((d / f) * f + f == (d / f + 1) * f) by (nonlinear_arith);
    }
    if n > u32::MAX as u64 {
        u32::MAX
    } else {
        n as u32
    }
}

} // verus!
