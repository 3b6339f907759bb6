use midi_hltas::{
    advance, frametime_tick_to_repeat, period_of, run, segment_duration, Action, Config, Cursor, Event, EventKind, Record,
    ScheduleError, Scheduler, DEFAULT_TEMPO, UNITS_PER_SECOND,
};

const QUARTER: u64 = UNITS_PER_SECOND / 4;

fn ev(delta: u32, kind: EventKind) -> Event {
    Event { delta, kind }
}

fn periods_with(pitch: u8, period: u64) -> Vec<u64> {
    let mut p = vec![1u64; 128];
    p[pitch as usize] = period;
    p
}

/// One second of a sounding note of pitch 60 at one second per quarter.
fn one_second_note() -> Vec<Event> {
    vec![
        ev(0, EventKind::Tempo(1_000_000)),
        ev(0, EventKind::NoteOn { key: 60, vel: 100 }),
        ev(480, EventKind::NoteOn { key: 60, vel: 0 }),
        ev(0, EventKind::EndOfTrack),
    ]
}

fn config(periods: Vec<u64>) -> Config {
    Config { legato: 1, markers: false, periods }
}

#[test]
fn segment_duration_of_a_quarter() {
    // 480 ticks at 500000 microseconds per quarter last half a second.
    assert_eq!(segment_duration(500_000, 480), UNITS_PER_SECOND / 2);
    assert_eq!(segment_duration(1_000_000, 480), UNITS_PER_SECOND);
    assert_eq!(segment_duration(0, 480), 0);
    assert_eq!(segment_duration(u32::MAX, u32::MAX), (u32::MAX as u64) * (u32::MAX as u64));
}

#[test]
fn period_lookup() {
    let p = periods_with(69, 1_090_909);
    assert_eq!(period_of(&p, 69), 1_090_909);
    assert_eq!(period_of(&p, 70), 1);
    assert_eq!(period_of(&p, 200), 0);
}

#[test]
fn advance_reads_until_delta_exceeds_legato() {
    let track = vec![
        ev(0, EventKind::NoteOn { key: 64, vel: 90 }),
        ev(1, EventKind::NoteOn { key: 64, vel: 0 }),
        ev(480, EventKind::Other),
        ev(0, EventKind::EndOfTrack),
    ];
    let mut c = Cursor::new();
    let t = advance(&mut c, &track, 1, 500_000);
    assert_eq!(t, 500_000);
    assert_eq!(c.read_position, 3);
    assert_eq!(c.active_pitch, 64);
    assert_eq!(c.sounding_flag, 0);
    assert_eq!(c.remaining_duration, 500_000 * 480);
    assert!(c.fresh_beat);
    assert!(!c.ended);

    let mut c0 = Cursor::new();
    advance(&mut c0, &track, 0, 500_000);
    assert_eq!(c0.read_position, 2);
    assert_eq!(c0.remaining_duration, 500_000);
}

#[test]
fn advance_is_a_no_op_inside_a_segment() {
    let track = one_second_note();
    let mut c = Cursor::new();
    c.remaining_duration = 5;
    let before = c;
    let t = advance(&mut c, &track, 1, 42);
    assert_eq!(t, 42);
    assert_eq!(c, before);
}

#[test]
fn tempo_marker_applies_to_its_own_delta() {
    let track = vec![ev(480, EventKind::Tempo(250_000)), ev(0, EventKind::EndOfTrack)];
    let mut c = Cursor::new();
    let t = advance(&mut c, &track, 1, 500_000);
    assert_eq!(t, 250_000);
    assert_eq!(c.remaining_duration, 250_000 * 480);
}

#[test]
fn end_of_track_ends_the_cursor() {
    let track = vec![ev(0, EventKind::EndOfTrack)];
    let mut c = Cursor::new();
    advance(&mut c, &track, 1, 500_000);
    assert!(c.ended);
    assert_eq!(c.read_position, 1);
    assert_eq!(c.remaining_duration, 0);
}

#[test]
fn one_note_of_four_periods() {
    let tracks = vec![one_second_note()];
    let actions = vec![Action::Nice3];
    let r = run(&tracks, &actions, &config(periods_with(60, QUARTER)), 1000).unwrap();
    let p = Record::Pulse(0);
    let w = Record::Wait(QUARTER);
    assert_eq!(r, vec![p, w, p, w, p, w, p, w]);
    let total: u64 = r
        .iter()
        .map(|x| match x {
            Record::Wait(t) => *t,
            _ => 0,
        })
        .sum();
    assert_eq!(total, UNITS_PER_SECOND);
}

#[test]
fn short_segment_cuts_the_last_period() {
    let tracks = vec![one_second_note()];
    let actions = vec![Action::Nice];
    let period = UNITS_PER_SECOND * 3 / 10;
    let r = run(&tracks, &actions, &config(periods_with(60, period)), 1000).unwrap();
    let p = Record::Pulse(0);
    let w = Record::Wait(period);
    assert_eq!(r, vec![p, w, p, w, p, w, p, Record::Wait(UNITS_PER_SECOND / 10)]);
}

#[test]
fn sustained_tap_is_issued_once_per_segment() {
    let tracks = vec![one_second_note()];
    let actions = vec![Action::Ducktap];
    let r = run(&tracks, &actions, &config(periods_with(60, QUARTER)), 1000).unwrap();
    let w = Record::Wait(QUARTER);
    assert_eq!(r, vec![Record::Pulse(0), w, w, w, w]);
}

#[test]
fn single_strike_is_primed() {
    let tracks = vec![one_second_note()];
    let actions = vec![Action::Attack1];
    let r = run(&tracks, &actions, &config(periods_with(60, UNITS_PER_SECOND / 2)), 1000).unwrap();
    let p = Record::Pulse(0);
    let w = Record::Wait(UNITS_PER_SECOND / 2);
    assert_eq!(r, vec![p, p, w, p, p, w]);
}

#[test]
fn markers_precede_each_wait() {
    let tracks = vec![one_second_note()];
    let actions = vec![Action::Nice3];
    let cfg = Config { legato: 1, markers: true, periods: periods_with(60, UNITS_PER_SECOND / 2) };
    let r = run(&tracks, &actions, &cfg, 1000).unwrap();
    let p = Record::Pulse(0);
    let w = Record::Wait(UNITS_PER_SECOND / 2);
    assert_eq!(r, vec![p, Record::Marker, w, p, Record::Marker, w]);
}

#[test]
fn rest_emits_one_stop_and_one_wait() {
    let tracks = vec![vec![
        ev(0, EventKind::Tempo(1_000_000)),
        ev(480, EventKind::NoteOn { key: 60, vel: 100 }),
        ev(0, EventKind::EndOfTrack),
    ]];
    let actions = vec![Action::Nice3];
    let r = run(&tracks, &actions, &config(periods_with(60, QUARTER)), 1000).unwrap();
    assert_eq!(r, vec![Record::Stop, Record::Wait(UNITS_PER_SECOND)]);
}

#[test]
fn two_tracks_share_one_clock() {
    let tracks = vec![one_second_note(), one_second_note()];
    let actions = vec![Action::Nice3, Action::Nice2];
    let mut periods = periods_with(60, QUARTER);
    periods[60] = QUARTER;
    let r = run(&tracks, &actions, &config(periods), 1000).unwrap();
    let (a, b, w) = (Record::Pulse(0), Record::Pulse(1), Record::Wait(QUARTER));
    assert_eq!(r, vec![a, b, w, a, b, w, a, b, w, a, b, w]);
}

#[test]
fn two_tracks_with_different_pitches() {
    let second = vec![
        ev(0, EventKind::NoteOn { key: 72, vel: 100 }),
        ev(480, EventKind::NoteOn { key: 72, vel: 0 }),
        ev(0, EventKind::EndOfTrack),
    ];
    let tracks = vec![one_second_note(), second];
    let actions = vec![Action::Nice3, Action::Nice2];
    let mut periods = periods_with(60, QUARTER);
    periods[72] = 2 * QUARTER;
    let r = run(&tracks, &actions, &config(periods), 1000).unwrap();
    let (a, b, w) = (Record::Pulse(0), Record::Pulse(1), Record::Wait(QUARTER));
    assert_eq!(r, vec![a, b, w, a, w, a, b, w, a, w]);
}

#[test]
fn mismatched_table_aborts() {
    let tracks = vec![one_second_note(), one_second_note(), one_second_note(), one_second_note()];
    let actions = vec![Action::Nice, Action::Nice, Action::Nice];
    let r = run(&tracks, &actions, &config(periods_with(60, QUARTER)), 1000);
    assert_eq!(r, Err(ScheduleError::TableMismatch));
}

#[test]
fn runs_are_repeatable() {
    let tracks = vec![one_second_note(), one_second_note()];
    let actions = vec![Action::Attack1, Action::Ducktap];
    let cfg = config(periods_with(60, QUARTER / 3));
    let a = run(&tracks, &actions, &cfg, 100_000);
    let b = run(&tracks, &actions, &cfg, 100_000);
    assert!(a.is_ok());
    assert_eq!(a, b);
}

#[test]
fn sounding_track_without_pitch_stalls() {
    let tracks = vec![vec![ev(480, EventKind::Other), ev(0, EventKind::EndOfTrack)]];
    let actions = vec![Action::Nice];
    let r = run(&tracks, &actions, &config(periods_with(60, QUARTER)), 1000);
    assert_eq!(r, Err(ScheduleError::Stalled));
}

#[test]
fn zero_period_stalls() {
    let tracks = vec![one_second_note()];
    let actions = vec![Action::Nice];
    let r = run(&tracks, &actions, &config(periods_with(60, 0)), 1000);
    assert_eq!(r, Err(ScheduleError::Stalled));
}

#[test]
fn step_limit_stops_a_run() {
    let tracks = vec![one_second_note()];
    let actions = vec![Action::Nice];
    let r = run(&tracks, &actions, &config(periods_with(60, QUARTER)), 2);
    assert_eq!(r, Err(ScheduleError::StepLimit));
}

#[test]
fn no_tracks_no_records() {
    let r = run(&vec![], &vec![], &config(vec![]), 1);
    assert_eq!(r, Ok(vec![]));
}

#[test]
fn scheduler_steps_one_at_a_time() {
    let tracks = vec![one_second_note()];
    let actions = vec![Action::Nice];
    let cfg = config(periods_with(60, UNITS_PER_SECOND));
    let mut s = Scheduler::new(1);
    assert_eq!(s.tempo, DEFAULT_TEMPO);
    let mut out = Vec::new();
    assert_eq!(s.step(&tracks, &actions, &cfg, &mut out), Ok(false));
    assert!(s.merging);
    assert_eq!(s.tempo, 1_000_000);
    assert!(out.is_empty());
    assert_eq!(s.step(&tracks, &actions, &cfg, &mut out), Ok(false));
    assert_eq!(out, vec![Record::Pulse(0), Record::Wait(UNITS_PER_SECOND)]);
    assert_eq!(s.cursors[0].remaining_duration, 0);
    assert_eq!(s.step(&tracks, &actions, &cfg, &mut out), Ok(false));
    assert!(!s.merging);
    assert_eq!(s.step(&tracks, &actions, &cfg, &mut out), Ok(true));
}

#[test]
fn repeat_count_of_a_lone_note() {
    assert_eq!(frametime_tick_to_repeat(1_000_000, QUARTER, 480), 4);
    assert_eq!(frametime_tick_to_repeat(1_000_000, QUARTER * 3 / 10 * 4, 480), 3);
    assert_eq!(frametime_tick_to_repeat(u32::MAX, 1, u32::MAX), u32::MAX);
    assert_eq!(frametime_tick_to_repeat(0, 5, 480), 0);
}
