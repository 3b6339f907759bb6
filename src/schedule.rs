use vstd::prelude::*;
use itertools::Itertools;
use crate::action::Action;
use crate::time::{period_of, period_spec, DEFAULT_TEMPO};
use crate::track::{advance, advance_spec, Cursor, Event};

verus! {

/// One output record, in emission order.
#[derive(Clone, Copy, Debug, PartialEq, Eq, Structural)]
pub enum Record {
    /// A shortest-frametime record carrying the action of the given track.
    Pulse(usize),
    /// A shortest-frametime record carrying the stop action.
    Stop,
    /// A shortest-frametime diagnostic counter record.
    Marker,
    /// A wait of the given number of time units, with no action.
    Wait(u64),
}

/// Why a run produced no records.
#[derive(Clone, Copy, Debug, PartialEq, Eq, Structural)]
pub enum ScheduleError {
    /// The action table does not have one entry per track.
    TableMismatch,
    /// A merge step of length zero would repeat forever: a sounding track
    /// has no pitch yet, or its pitch has a zero period.
    Stalled,
    /// The run did not finish within the allowed number of steps.
    StepLimit,
}

/// Settings of a run.
pub struct Config {
    /// Events whose delta is at most this many ticks join the same segment.
    pub legato: u32,
    /// Emit a diagnostic counter record before each wait.
    pub markers: bool,
    /// Oscillation period of each pitch, in time units, indexed by pitch.
    pub periods: Vec<u64>,
}

/// The scheduler's state between two steps.
pub struct Scheduler {
    pub cursors: Vec<Cursor>,
    /// Tempo in force, microseconds per quarter note.
    pub tempo: u32,
    /// Track whose cursor the next advance round feeds.
    pub current: usize,
    /// Whether the merge phase is running.
    pub merging: bool,
}

/// Mathematical state of a scheduler.
pub struct State {
    pub cursors: Seq<Cursor>,
    pub tempo: u32,
    pub current: int,
    pub merging: bool,
}

impl Scheduler {
    pub open spec fn view(&self) -> State {
        State {
            cursors: self.cursors@,
            tempo: self.tempo,
            current: self.current as int,
            merging: self.merging,
        }
    }
}

pub open spec fn due(c: Cursor) -> bool {
    !c.ended && c.remaining_duration == 0
}

pub open spec fn any_due(cs: Seq<Cursor>) -> bool {
    exists|i: int| 0 <= i < cs.len() && due(#[trigger] cs[i])
}

pub open spec fn all_ended(cs: Seq<Cursor>) -> bool {
    forall|i: int| 0 <= i < cs.len() ==> (#[trigger] cs[i]).ended
}

pub open spec fn all_started(cs: Seq<Cursor>) -> bool {
    forall|i: int| 0 <= i < cs.len() ==> (#[trigger] cs[i]).read_position != 0
}

/// Every cursor still playing has its sub-interval within its segment.
pub open spec fn within_segments(cs: Seq<Cursor>) -> bool {
    forall|i: int|
        0 <= i < cs.len() && !(#[trigger] cs[i]).ended ==> cs[i].sub_interval_remainder
            <= cs[i].remaining_duration
}

/// A cursor with a pitch whose sub-interval has run out re-triggers.
pub open spec fn trigger_due(c: Cursor) -> bool {
    !c.ended && c.active_pitch != 0 && c.sub_interval_remainder == 0
}

pub open spec fn min_u64(a: u64, b: u64) -> u64 {
    if a <= b {
        a
    } else {
        b
    }
}

/// The cursor after its trigger: a sounding note gets a sub-interval of one
/// period, cut at the end of the segment; a rest runs to its end at once.
pub open spec fn triggered(c: Cursor, periods: Seq<u64>) -> Cursor {
    if c.sounding_flag == 0 {
        Cursor {
            sub_interval_remainder: min_u64(period_spec(periods, c.active_pitch), c.remaining_duration),
            fresh_beat: false,
            ..c
        }
    } else {
        Cursor { sub_interval_remainder: c.remaining_duration, ..c }
    }
}

/// Records that the trigger of cursor `c` of track `i` emits.
pub open spec fn trigger_records(c: Cursor, i: int, action: Action) -> Seq<Record> {
    if c.sounding_flag == 0 {
        if !c.fresh_beat && action is Ducktap {
            seq![]
        } else if action is Attack1 {
            seq![Record::Pulse(i as usize), Record::Pulse(i as usize)]
        } else {
            seq![Record::Pulse(i as usize)]
        }
    } else {
        seq![Record::Stop]
    }
}

pub open spec fn trigger_one(c: Cursor, periods: Seq<u64>) -> Cursor {
    if trigger_due(c) {
        triggered(c, periods)
    } else {
        c
    }
}

/// The cursors after the trigger pass.
pub open spec fn trigger_all(cs: Seq<Cursor>, periods: Seq<u64>) -> Seq<Cursor> {
    cs.map_values(|c: Cursor| trigger_one(c, periods))
}

/// Records of the trigger pass over the first `k` cursors, in track order.
pub open spec fn pass_records(cs: Seq<Cursor>, actions: Seq<Action>, k: int) -> Seq<Record>
    decreases k,
{
    if k <= 0 {
        seq![]
    } else {
        pass_records(cs, actions, k - 1) + if trigger_due(cs[k - 1]) {
            trigger_records(cs[k - 1], k - 1, actions[k - 1])
        } else {
            seq![]
        }
    }
}

/// Smallest sub-interval among the cursors that have not ended.
pub open spec fn min_open(cs: Seq<Cursor>) -> Option<u64>
    decreases cs.len(),
{
    if cs.len() == 0 {
        None
    } else {
        let rest = min_open(cs.drop_last());
        let c = cs.last();
        if c.ended {
            rest
        } else {
            match rest {
                None => Some(c.sub_interval_remainder),
                Some(m) => Some(min_u64(c.sub_interval_remainder, m)),
            }
        }
    }
}

pub open spec fn sat_sub(a: u64, b: u64) -> u64 {
    if a >= b {
        (a - b) as u64
    } else {
        0
    }
}

/// The cursor after time `step` has passed.
pub open spec fn decremented(c: Cursor, step: u64) -> Cursor {
    Cursor {
        remaining_duration: sat_sub(c.remaining_duration, step),
        sub_interval_remainder: sat_sub(c.sub_interval_remainder, step),
        ..c
    }
}

pub open spec fn decrement_all(cs: Seq<Cursor>, step: u64) -> Seq<Cursor> {
    cs.map_values(|c: Cursor| decremented(c, step))
}

/// The step that one merge iteration on `cs` advances the clock by.
pub open spec fn merge_step(cs: Seq<Cursor>, periods: Seq<u64>) -> u64 {
    match min_open(trigger_all(cs, periods)) {
        Some(m) => m,
        None => 0,
    }
}

/// One merge iteration: the trigger pass, the choice of the step, its wait
/// record and the decrement of every cursor.
pub open spec fn merge_once(
    cs: Seq<Cursor>,
    actions: Seq<Action>,
    markers: bool,
    periods: Seq<u64>,
) -> Result<(Seq<Cursor>, Seq<Record>), ScheduleError> {
    let step = merge_step(cs, periods);
    if step == 0 {
        Err(ScheduleError::Stalled)
    } else {
        Ok(
            (
                decrement_all(trigger_all(cs, periods), step),
                pass_records(cs, actions, cs.len() as int) + (if markers {
                    seq![Record::Marker]
                } else {
                    seq![]
                }) + seq![Record::Wait(step)],
            ),
        )
    }
}

/// One scheduler step: an advance round, or one merge iteration, or the
/// switch from merging back to advancing. `Ok(None)` when the run is over.
pub open spec fn step_spec(
    s: State,
    tracks: Seq<Vec<Event>>,
    actions: Seq<Action>,
    legato: u32,
    markers: bool,
    periods: Seq<u64>,
) -> Result<Option<(State, Seq<Record>)>, ScheduleError> {
    if !s.merging {
        if all_ended(s.cursors) {
            Ok(None)
        } else {
            let i = s.current;
            let (c, t) = advance_spec(s.cursors[i], tracks[i]@, legato, s.tempo);
            let cs = s.cursors.update(i, c);
            let next = (i + 1) % (s.cursors.len() as int);
            if !all_started(cs) {
                Ok(Some((State { cursors: cs, tempo: t, current: next, merging: false }, seq![])))
            } else if all_ended(cs) {
                Ok(None)
            } else {
                Ok(Some((State { cursors: cs, tempo: t, current: next, merging: true }, seq![])))
            }
        }
    } else if any_due(s.cursors) {
        Ok(Some((State { merging: false, ..s }, seq![])))
    } else {
        match merge_once(s.cursors, actions, markers, periods) {
            Err(e) => Err(e),
            Ok((cs, r)) => Ok(Some((State { cursors: cs, ..s }, r))),
        }
    }
}

/// Relies on itertools::Itertools::position_min: the position of the first
/// smallest element, or none for an empty sequence.
#[verifier::external_body]
fn first_min_position(v: &Vec<u64>) -> (r: Option<usize>)
    ensures
        r is None <==> v@.len() == 0,
        r matches Some(p) ==> p < v@.len() && (forall|j: int|
            0 <= j < v@.len() ==> v@[p as int] <= #[trigger] v@[j]) && (forall|j: int|
            0 <= j < p ==> v@[p as int] < #[trigger] v@[j]),
{
    v.iter().position_min()
}

/// What `min_open` is: the sub-interval of some cursor that has not ended,
/// and no larger than that of any other such cursor.
pub proof fn lemma_min_open(cs: Seq<Cursor>)
    ensures
        min_open(cs) is None <==> all_ended(cs),
        min_open(cs) matches Some(m) ==> (exists|i: int|
            0 <= i < cs.len() && !cs[i].ended && #[trigger] cs[i].sub_interval_remainder == m) && (
        forall|i: int|
            0 <= i < cs.len() && !cs[i].ended ==> m <= #[trigger] cs[i].sub_interval_remainder),
    decreases cs.len(),
{
    if cs.len() > 0 {
        let d = cs.drop_last();
        lemma_min_open(d);
        assert(forall|i: int| 0 <= i < d.len() ==> d[i] == cs[i]);
        let n = cs.len() - 1;
        if !cs.last().ended {
            assert(!all_ended(cs)) by {
                assert(!cs[n].ended);
            }
        }
        if let Some(m) = min_open(d) {
            let w = choose|i: int|
                0 <= i < d.len() && !d[i].ended && #[trigger] d[i].sub_interval_remainder == m;
            assert(cs[w] == d[w]);
            assert(!all_ended(cs)) by {
                assert(!cs[w].ended);
            }
        }
        if all_ended(d) && cs.last().ended {
            assert forall|i: int| 0 <= i < cs.len() implies (#[trigger] cs[i]).ended by {
                if i < n {
                    assert(d[i] == cs[i]);
                }
            }
        }
        if !all_ended(d) {
            let w = choose|i: int| 0 <= i < d.len() && !(#[trigger] d[i]).ended;
            assert(cs[w] == d[w]);
        }
    }
}

fn is_ducktap(a: &Action) -> (r: bool)
    ensures
        r == (*a is Ducktap),
{
    match a {
        Action::Ducktap => true,
        _ => false,
    }
}

fn is_attack(a: &Action) -> (r: bool)
    ensures
        r == (*a is Attack1),
{
    match a {
        Action::Attack1 => true,
        _ => false,
    }
}

fn all_ended_exec(cs: &Vec<Cursor>) -> (r: bool)
    ensures
        r == all_ended(cs@),
{
    let mut i: usize = 0;
    while i < cs.len()
        invariant
            i <= cs@.len(),
            forall|j: int| 0 <= j < i ==> (#[trigger] cs@[j]).ended,
        decreases cs@.len() - i,
    {
        if !cs[i].ended {
            return false;
        }
        i = i + 1;
    }
    true
}

fn all_started_exec(cs: &Vec<Cursor>) -> (r: bool)
    ensures
        r == all_started(cs@),
{
    let mut i: usize = 0;
    while i < cs.len()
        invariant
            i <= cs@.len(),
            forall|j: int| 0 <= j < i ==> (#[trigger] cs@[j]).read_position != 0,
        decreases cs@.len() - i,
    {
        if cs[i].read_position == 0 {
            return false;
        }
        i = i + 1;
    }
    true
}

fn any_due_exec(cs: &Vec<Cursor>) -> (r: bool)
    ensures
        r == any_due(cs@),
{
    let mut i: usize = 0;
    while i < cs.len()
        invariant
            i <= cs@.len(),
            forall|j: int| 0 <= j < i ==> !due(#[trigger] cs@[j]),
        decreases cs@.len() - i,
    {
        if !cs[i].ended && cs[i].remaining_duration == 0 {
            assert(due(cs@[i as int]));
            return true;
        }
        i = i + 1;
    }
    false
}

/// The trigger pass: re-arms every cursor whose sub-interval has run out and
/// appends the records of each, in track order.
fn trigger_pass(
    cursors: &mut Vec<Cursor>,
    actions: &Vec<Action>,
    periods: &Vec<u64>,
    out: &mut Vec<Record>,
)
    requires
        actions@.len() == old(cursors)@.len(),
    ensures
        final(cursors)@ == trigger_all(old(cursors)@, periods@),
        final(out)@ == old(out)@ + pass_records(old(cursors)@, actions@, old(cursors)@.len() as int),
{
    let ghost cs0 = cursors@;
    let ghost out0 = out@;
    let mut i: usize = 0;
    while i < cursors.len()
        invariant
            i <= cs0.len(),
            cursors@.len() == cs0.len(),
            actions@.len() == cs0.len(),
            forall|j: int| 0 <= j < i ==> cursors@[j] == trigger_one(#[trigger] cs0[j], periods@),
            forall|j: int| i <= j < cs0.len() ==> cursors@[j] == #[trigger] cs0[j],
            out@ == out0 + pass_records(cs0, actions@, i as int),
        decreases cs0.len() - i,
    {
        let c = cursors[i];
        let ghost before = out@;
        if !c.ended && c.active_pitch != 0 && c.sub_interval_remainder == 0 {
            if c.sounding_flag == 0 {
                let suppressed = !c.fresh_beat && is_ducktap(&actions[i]);
                if !suppressed {
                    if is_attack(&actions[i]) {
                        out.push(Record::Pulse(i));
                    }
                    out.push(Record::Pulse(i));
                }
                let p = period_of(periods, c.active_pitch);
                let sub = if p <= c.remaining_duration {
                    p
                } else {
                    c.remaining_duration
                };
                cursors.set(i, Cursor { sub_interval_remainder: sub, fresh_beat: false, ..c });
            } else {
                out.push(Record::Stop);
                cursors.set(i, Cursor { sub_interval_remainder: c.remaining_duration, ..c });
            }
        }
        assert(out@ =~= out0 + pass_records(cs0, actions@, i + 1));
        i = i + 1;
    }
    assert(cursors@ =~= trigger_all(cs0, periods@));
}

/// Smallest sub-interval among the cursors that have not ended, zero if all
/// have ended.
fn min_open_exec(cs: &Vec<Cursor>) -> (r: u64)
    ensures
        r == match min_open(cs@) {
            Some(m) => m,
            None => 0,
        },
{
    let mut cands: Vec<u64> = Vec::new();
    let ghost mut idx: Seq<int> = seq![];
    let mut i: usize = 0;
    while i < cs.len()
        invariant
            i <= cs@.len(),
            cands@.len() == idx.len(),
            forall|k: int|
                0 <= k < idx.len() ==> 0 <= #[trigger] idx[k] < i && !cs@[idx[k]].ended
                    && cands@[k] == cs@[idx[k]].sub_interval_remainder,
            forall|j: int|
                0 <= j < i && !(#[trigger] cs@[j]).ended ==> exists|k: int|
                    0 <= k < idx.len() && idx[k] == j,
        decreases cs@.len() - i,
    {
        let ghost idx0 = idx;
        if !cs[i].ended {
            proof {
                idx = idx.push(i as int);
            }
            cands.push(cs[i].sub_interval_remainder);
        }
        proof {
            assert forall|j: int| 0 <= j < i + 1 && !(#[trigger] cs@[j]).ended implies exists|k: int|
                0 <= k < idx.len() && idx[k] == j by {
                if j == i {
                    assert(idx[idx.len() - 1] == j);
                } else {
                    let k0 = choose|k: int| 0 <= k < idx0.len() && idx0[k] == j;
                    assert(idx[k0] == j);
                }
            }
        }
        i = i + 1;
    }
    proof {
        lemma_min_open(cs@);
    }
    match first_min_position(&cands) {
        None => {
            proof {
                assert forall|j: int| 0 <= j < cs@.len() implies (#[trigger] cs@[j]).ended by {
                    if !cs@[j].ended {
                        let k = choose|k: int| 0 <= k < idx.len() && idx[k] == j;
                    }
                }
            }
            0
        },
        Some(p) => {
            proof {
                let w = idx[p as int];
                assert(!cs@[w].ended);
                let m = min_open(cs@)->Some_0;
                let v = choose|v: int|
                    0 <= v < cs@.len() && !cs@[v].ended && #[trigger] cs@[v].sub_interval_remainder == m;
                let k = choose|k: int| 0 <= k < idx.len() && idx[k] == v;
                assert(cands@[k] == m);
                assert(cands@[p as int] <= cands@[k]);
                assert(m <= cs@[w].sub_interval_remainder);
            }
            cands[p]
        },
    }
}

/// Lets time `step` pass on every cursor, stopping at zero.
fn decrement(cursors: &mut Vec<Cursor>, step: u64)
    ensures
        final(cursors)@ == decrement_all(old(cursors)@, step),
{
    let ghost cs0 = cursors@;
    let mut i: usize = 0;
    while i < cursors.len()
        invariant
            i <= cs0.len(),
            cursors@.len() == cs0.len(),
            forall|j: int| 0 <= j < i ==> cursors@[j] == decremented(#[trigger] cs0[j], step),
            forall|j: int| i <= j < cs0.len() ==> cursors@[j] == #[trigger] cs0[j],
        decreases cs0.len() - i,
    {
        let c = cursors[i];
        let rem = if c.remaining_duration >= step {
            c.remaining_duration - step
        } else {
            0
        };
        let sub = if c.sub_interval_remainder >= step {
            c.sub_interval_remainder - step
        } else {
            0
        };
        cursors.set(i, Cursor { remaining_duration: rem, sub_interval_remainder: sub, ..c });
        i = i + 1;
    }
    assert(cursors@ =~= decrement_all(cs0, step));
}

/// One merge iteration on `cursors` (see `merge_once`).
fn merge_once_exec(
    cursors: &mut Vec<Cursor>,
    actions: &Vec<Action>,
    markers: bool,
    periods: &Vec<u64>,
    out: &mut Vec<Record>,
) -> (r: Result<(), ScheduleError>)
    requires
        actions@.len() == old(cursors)@.len(),
    ensures
        match merge_once(old(cursors)@, actions@, markers, periods@) {
            Ok((cs, recs)) => r is Ok && final(cursors)@ == cs && final(out)@ == old(out)@ + recs,
            Err(e) => r == Err::<(), ScheduleError>(e),
        },
{
    let ghost cs0 = cursors@;
    let ghost out0 = out@;
    trigger_pass(cursors, actions, periods, out);
    let step = min_open_exec(cursors);
    if step == 0 {
        return Err(ScheduleError::Stalled);
    }
    if markers {
        out.push(Record::Marker);
    }
    out.push(Record::Wait(step));
    decrement(cursors, step);
    proof {
        let recs = pass_records(cs0, actions@, cs0.len() as int) + (if markers {
            seq![Record::Marker]
        } else {
            seq![]
        }) + seq![Record::Wait(step)];
        assert(out@ =~= out0 + recs);
    }
    Ok(())
}

impl Scheduler {
    /// The scheduler is consistent with `n` tracks.
    pub open spec fn wf(&self, n: nat) -> bool {
        &&& self.cursors@.len() == n
        &&& (n > 0 ==> self.current < n)
    }

    /// A scheduler for `n` tracks, before anything is read.
    pub fn new(n: usize) -> (r: Scheduler)
        ensures
            r@ == initial_state(n as nat),
            r.wf(n as nat),
    {
        let mut cursors: Vec<Cursor> = Vec::new();
        let mut i: usize = 0;
        while i < n
            invariant
                i <= n,
                cursors@ == Seq::new(i as nat, |j: int| Cursor::initial()),
            decreases n - i,
        {
            cursors.push(Cursor::new());
            i = i + 1;
            assert(cursors@ =~= Seq::new(i as nat, |j: int| Cursor::initial()));
        }
        Scheduler { cursors, tempo: DEFAULT_TEMPO, current: 0, merging: false }
    }

    /// Performs one scheduler step (see `step_spec`), appending its records
    /// to `out`. Returns `Ok(true)` when the run is over.
    pub fn step(
        &mut self,
        tracks: &Vec<Vec<Event>>,
        actions: &Vec<Action>,
        config: &Config,
        out: &mut Vec<Record>,
    ) -> (r: Result<bool, ScheduleError>)
        requires
            old(self).wf(tracks@.len()),
            actions@.len() == tracks@.len(),
        ensures
            match step_spec(old(self)@, tracks@, actions@, config.legato, config.markers, config.periods@) {
                Ok(None) => r == Ok::<bool, ScheduleError>(true) && final(out)@ == old(out)@,
                Ok(Some((s, recs))) => r == Ok::<bool, ScheduleError>(false) && final(self)@ == s
                    && final(out)@ == old(out)@ + recs && final(self).wf(tracks@.len()),
                Err(e) => r == Err::<bool, ScheduleError>(e),
            },
    {
        if !self.merging {
            if all_ended_exec(&self.cursors) {
                return Ok(true);
            }
            if self.cursors.len() == 0 {
                assert(all_ended(self.cursors@));
            }
            let i = self.current;
            let mut c = self.cursors[i];
            let t = advance(&mut c, &tracks[i], config.legato, self.tempo);
            self.cursors.set(i, c);
            self.tempo = t;
            self.current = (i + 1) % self.cursors.len();
            assert(out@ =~= old(out)@ + seq![]);
            if !all_started_exec(&self.cursors) {
                Ok(false)
            } else if all_ended_exec(&self.cursors) {
                Ok(true)
            } else {
                self.merging = true;
                Ok(false)
            }
        } else if any_due_exec(&self.cursors) {
            self.merging = false;
            assert(out@ =~= old(out)@ + seq![]);
            Ok(false)
        } else {
            match merge_once_exec(&mut self.cursors, actions, config.markers, &config.periods, out) {
                Ok(()) => Ok(false),
                Err(e) => Err(e),
            }
        }
    }
}

pub open spec fn initial_state(n: nat) -> State {
    State {
        cursors: Seq::new(n, |j: int| Cursor::initial()),
        tempo: DEFAULT_TEMPO,
        current: 0,
        merging: false,
    }
}

/// `r` with `pre` put in front of its records.
pub open spec fn prefixed(pre: Seq<Record>, r: Result<Seq<Record>, ScheduleError>) -> Result<
    Seq<Record>,
    ScheduleError,
> {
    match r {
        Ok(rest) => Ok(pre + rest),
        Err(e) => Err(e),
    }
}

/// The records of a run from state `s` that ends within `fuel` steps.
pub open spec fn run_from(
    s: State,
    tracks: Seq<Vec<Event>>,
    actions: Seq<Action>,
    legato: u32,
    markers: bool,
    periods: Seq<u64>,
    fuel: nat,
) -> Result<Seq<Record>, ScheduleError>
    decreases fuel,
{
    if fuel == 0 {
        Err(ScheduleError::StepLimit)
    } else {
        match step_spec(s, tracks, actions, legato, markers, periods) {
            Err(e) => Err(e),
            Ok(None) => Ok(seq![]),
            Ok(Some((s2, recs))) => prefixed(
                recs,
                run_from(s2, tracks, actions, legato, markers, periods, (fuel - 1) as nat),
            ),
        }
    }
}

/// The records of a whole run over `tracks` with one action per track,
/// within `fuel` steps.
pub open spec fn run_spec(
    tracks: Seq<Vec<Event>>,
    actions: Seq<Action>,
    legato: u32,
    markers: bool,
    periods: Seq<u64>,
    fuel: nat,
) -> Result<Seq<Record>, ScheduleError> {
    if actions.len() != tracks.len() {
        Err(ScheduleError::TableMismatch)
    } else {
        run_from(initial_state(tracks.len()), tracks, actions, legato, markers, periods, fuel)
    }
}

/// Schedules all `tracks` onto one clock and returns the records in emission
/// order; `actions` gives the action of each track. Fails before emitting
/// anything when the table does not have one entry per track, when a merge
/// step would be empty, or when the run takes more than `max_steps` steps.
pub fn run(tracks: &Vec<Vec<Event>>, actions: &Vec<Action>, config: &Config, max_steps: u64) -> (r:
    Result<Vec<Record>, ScheduleError>)
    ensures
        match r {
            Ok(v) => run_spec(tracks@, actions@, config.legato, config.markers, config.periods@, max_steps as nat)
                == Ok::<Seq<Record>, ScheduleError>(v@),
            Err(e) => run_spec(tracks@, actions@, config.legato, config.markers, config.periods@, max_steps as nat)
                == Err::<Seq<Record>, ScheduleError>(e),
        },
        actions@.len() != tracks@.len() <==> r == Err::<Vec<Record>, ScheduleError>(ScheduleError::TableMismatch),
{
    if actions.len() != tracks.len() {
        return Err(ScheduleError::TableMismatch);
    }
    let mut sched = Scheduler::new(tracks.len());
    let mut out: Vec<Record> = Vec::new();
    let mut fuel: u64 = max_steps;
    let ghost total = run_spec(tracks@, actions@, config.legato, config.markers, config.periods@, max_steps as nat);
    while fuel > 0
        invariant
            sched.wf(tracks@.len()),
            actions@.len() == tracks@.len(),
            total == run_spec(tracks@, actions@, config.legato, config.markers, config.periods@, max_steps as nat),
            total == prefixed(out@, run_from(sched@, tracks@, actions@, config.legato, config.markers, config.periods@, fuel as nat)),
        decreases fuel,
    {
        let ghost s0 = sched@;
        let ghost out0 = out@;
        let ghost rest = run_from(s0, tracks@, actions@, config.legato, config.markers, config.periods@, fuel as nat);
        match sched.step(tracks, actions, config, &mut out) {
            Ok(true) => {
                assert(rest == Ok::<Seq<Record>, ScheduleError>(seq![]));
                assert(out0 + seq![] =~= out0);
                return Ok(out);
            },
            Ok(false) => {
                proof {
                    let next = run_from(sched@, tracks@, actions@, config.legato, config.markers, config.periods@, (fuel - 1) as nat);
                    if let Ok(Some((s2, recs))) = step_spec(s0, tracks@, actions@, config.legato, config.markers, config.periods@) {
                        assert(rest == prefixed(recs, next));
                        if let Ok(x) = next {
                            assert(out0 + (recs + x) =~= out@ + x);
                        }
                    }
                }
                fuel = fuel - 1;
            },
            Err(e) => {
                assert(rest == Err::<Seq<Record>, ScheduleError>(e));
                assert(e == ScheduleError::Stalled);
                return Err(e);
            },
        }
    }
    Err(ScheduleError::StepLimit)
}

} // verus!
