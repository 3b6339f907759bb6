//! Schedules a multi-track note timeline onto one global clock as a linear
//! sequence of automation records.
//!
//! Each track is read through a cursor; the scheduler interleaves the
//! tracks, re-triggers each sounding note once per oscillation period of its
//! pitch, and emits one wait record per step of the global clock. Records
//! are rendered to lines of the automation format by an action table.
mod time;
mod track;
mod action;
mod schedule;
mod render;
mod laws;

pub use time::{frametime_tick_to_repeat, period_of, segment_duration, DEFAULT_TEMPO, UNITS_PER_SECOND};
pub use track::{advance, Cursor, Event, EventKind};
pub use action::{Action, EmitInfo};
pub use schedule::{run, Config, Record, ScheduleError, Scheduler};
pub use render::{format_line, ActionTable, Switches};
pub use laws::{
    lemma_advance_frame, lemma_merge_exact, lemma_rest_not_subdivided, lemma_rest_triggers_once,
    lemma_step_conserves_time, lemma_step_within_segments, lemma_time_conserved,
};
