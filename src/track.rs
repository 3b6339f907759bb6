use vstd::prelude::*;
use crate::time::{segment_duration, segment_duration_spec};

verus! {

/// What an event of a track does.
#[derive(Clone, Copy, Debug, PartialEq, Eq, Structural)]
pub enum EventKind {
    /// Sets the tempo, in microseconds per quarter note.
    Tempo(u32),
    /// Marks the end of the track.
    EndOfTrack,
    /// A note-state change: a pitch and its velocity.
    NoteOn { key: u8, vel: u8 },
    /// Any other event; it carries time but changes nothing.
    Other,
}

/// One event of a track, with the ticks that separate it from the next one.
#[derive(Clone, Copy, Debug, PartialEq, Eq, Structural)]
pub struct Event {
    pub delta: u32,
    pub kind: EventKind,
}

/// Per-track reading and playing state.
#[derive(Clone, Copy, Debug, PartialEq, Eq, Structural)]
pub struct Cursor {
    /// Index of the next event to read.
    pub read_position: usize,
    /// Set once the end-of-track marker has been read.
    pub ended: bool,
    /// Pitch of the last note with non-zero velocity; zero for none.
    pub active_pitch: u8,
    /// Velocity of the last note event read; zero marks a sounding note.
    pub sounding_flag: u8,
    /// Time units left in the current segment.
    pub remaining_duration: u64,
    /// Time units left until the next re-trigger within the segment.
    pub sub_interval_remainder: u64,
    /// Set when a segment is read, cleared by its first trigger.
    pub fresh_beat: bool,
}

impl Cursor {
    pub open spec fn initial() -> Cursor {
        Cursor {
            read_position: 0,
            ended: false,
            active_pitch: 0,
            sounding_flag: 0,
            remaining_duration: 0,
            sub_interval_remainder: 0,
            fresh_beat: false,
        }
    }

    /// A cursor at the start of its track, with nothing read yet.
    pub fn new() -> (r: Cursor)
        ensures
            r == Cursor::initial(),
    {
        Cursor {
            read_position: 0,
            ended: false,
            active_pitch: 0,
            sounding_flag: 0,
            remaining_duration: 0,
            sub_interval_remainder: 0,
            fresh_beat: false,
        }
    }
}

/// The tempo after reading event `e` with tempo `tempo` in force.
pub open spec fn tempo_after(e: Event, tempo: u32) -> u32 {
    match e.kind {
        EventKind::Tempo(t) => t,
        _ => tempo,
    }
}

/// The cursor after consuming event `e`, before any segment is committed.
pub open spec fn consume(c: Cursor, e: Event) -> Cursor {
    Cursor {
        read_position: (c.read_position + 1) as usize,
        ended: c.ended || e.kind is EndOfTrack,
        active_pitch: match e.kind {
            EventKind::NoteOn { key, vel } => if vel > 0 { key } else { c.active_pitch },
            _ => c.active_pitch,
        },
        sounding_flag: match e.kind {
            EventKind::NoteOn { key, vel } => vel,
            _ => c.sounding_flag,
        },
        fresh_beat: true,
        ..c
    }
}

/// Reads events of `track` into `c` until one whose delta exceeds `legato`
/// commits a new segment, or the track is exhausted. A cursor still inside
/// a segment is left as it is. Returns the cursor and the tempo in force.
pub open spec fn advance_spec(c: Cursor, track: Seq<Event>, legato: u32, tempo: u32) -> (Cursor, u32)
    decreases track.len() - c.read_position,
{
    if c.remaining_duration > 0 || c.read_position >= track.len() || c.read_position == usize::MAX {
        (c, tempo)
    } else {
        let e = track[c.read_position as int];
        let t = tempo_after(e, tempo);
        let c1 = consume(c, e);
        if e.delta > legato {
            (Cursor { remaining_duration: segment_duration_spec(t, e.delta), ..c1 }, t)
        } else {
            advance_spec(c1, track, legato, t)
        }
    }
}

/// Feeds `cursor` from `track` (see `advance_spec`) and returns the tempo in
/// force afterwards; tempo markers met on the way take effect from the next
/// event on.
pub fn advance(cursor: &mut Cursor, track: &Vec<Event>, legato: u32, tempo: u32) -> (r: u32)
    ensures
        (*final(cursor), r) == advance_spec(*old(cursor), track@, legato, tempo),
{
    let mut t: u32 = tempo;
    loop
        invariant
            advance_spec(*cursor, track@, legato, t) == advance_spec(*old(cursor), track@, legato, tempo),
        decreases track@.len() - cursor.read_position,
    {
        if cursor.remaining_duration > 0 || cursor.read_position >= track.len() {
            return t;
        }
        let e = track[cursor.read_position];
        match e.kind {
            EventKind::Tempo(v) => {
                t = v;
            },
            EventKind::EndOfTrack => {
                cursor.ended = true;
            },
            EventKind::NoteOn { key, vel } => {
                if vel > 0 {
                    cursor.active_pitch = key;
                }
                cursor.sounding_flag = vel;
            },
            EventKind::Other => {},
        }
        cursor.read_position = cursor.read_position + 1;
        cursor.fresh_beat = true;
        if e.delta > legato {
            cursor.remaining_duration = segment_duration(t, e.delta);
            return t;
        }
    }
}

} // verus!
