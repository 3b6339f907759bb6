use vstd::prelude::*;
use crate::action::Action;
use crate::schedule::{
    all_ended, any_due, decremented, due, lemma_min_open, merge_once, merge_step, pass_records,
    trigger_all, trigger_due,
    initial_state, step_spec, trigger_one, trigger_records, triggered, within_segments, Record, State,
};
use crate::track::{advance_spec, consume, tempo_after, Cursor, Event};

verus! {

/// `k` merge iterations in a row from `cs`, each started while no cursor
/// is due: the cursors afterwards and the total time waited.
pub open spec fn merge_chain(
    cs: Seq<Cursor>,
    actions: Seq<Action>,
    markers: bool,
    periods: Seq<u64>,
    k: nat,
) -> Option<(Seq<Cursor>, nat)>
    decreases k,
{
    if k == 0 {
        Some((cs, 0))
    } else {
        match merge_chain(cs, actions, markers, periods, (k - 1) as nat) {
            None => None,
            Some((c1, t)) => if any_due(c1) {
                None
            } else {
                match merge_once(c1, actions, markers, periods) {
                    Ok((c2, _)) => Some((c2, (t + merge_step(c1, periods)) as nat)),
                    Err(_) => None,
                }
            },
        }
    }
}

/// A merge iteration started while no cursor is due takes its step from
/// every open cursor's clocks exactly: neither clock of an open cursor
/// would go below zero, and each stays within its segment.
pub proof fn lemma_merge_exact(
    cs: Seq<Cursor>,
    actions: Seq<Action>,
    markers: bool,
    periods: Seq<u64>,
)
    requires
        within_segments(cs),
        !any_due(cs),
        merge_once(cs, actions, markers, periods) is Ok,
    ensures
        ({
            let c1 = trigger_all(cs, periods);
            let c2 = merge_once(cs, actions, markers, periods)->Ok_0.0;
            let step = merge_step(cs, periods);
            &&& c2.len() == cs.len()
            &&& within_segments(c2)
            &&& forall|i: int|
                0 <= i < cs.len() && !cs[i].ended ==> {
                    &&& step <= c1[i].sub_interval_remainder <= c1[i].remaining_duration
                    &&& #[trigger] c2[i].remaining_duration == c1[i].remaining_duration - step
                    &&& c2[i].sub_interval_remainder == c1[i].sub_interval_remainder - step
                    &&& c2[i].remaining_duration == cs[i].remaining_duration - step
                    &&& !c2[i].ended
                }
        }),
{
    let c1 = trigger_all(cs, periods);
    let step = merge_step(cs, periods);
    lemma_min_open(c1);
    assert forall|i: int| 0 <= i < cs.len() && !cs[i].ended implies step <= c1[i].sub_interval_remainder
        <= c1[i].remaining_duration by {
        assert(!due(cs[i]));
        assert(c1[i] == trigger_one(cs[i], periods));
    }
    let c2 = merge_once(cs, actions, markers, periods)->Ok_0.0;
    assert forall|i: int| 0 <= i < c2.len() && !(#[trigger] c2[i]).ended implies c2[i].sub_interval_remainder
        <= c2[i].remaining_duration by {
        assert(c2[i] == decremented(c1[i], step));
        assert(c1[i] == trigger_one(cs[i], periods));
    }
}

/// Time is conserved over merge iterations: while a segment is played, the
/// waits emitted add up to exactly what the segment lost, so from the read
/// of a segment to its end they add up to its whole duration.
pub proof fn lemma_time_conserved(
    cs: Seq<Cursor>,
    actions: Seq<Action>,
    markers: bool,
    periods: Seq<u64>,
    k: nat,
    i: int,
)
    requires
        within_segments(cs),
        0 <= i < cs.len(),
        !cs[i].ended,
        merge_chain(cs, actions, markers, periods, k) is Some,
    ensures
        ({
            let (ck, t) = merge_chain(cs, actions, markers, periods, k)->Some_0;
            &&& ck.len() == cs.len()
            &&& within_segments(ck)
            &&& !ck[i].ended
            &&& cs[i].remaining_duration == ck[i].remaining_duration + t
        }),
    decreases k,
{
    if k > 0 {
        lemma_time_conserved(cs, actions, markers, periods, (k - 1) as nat, i);
        let (c1, t) = merge_chain(cs, actions, markers, periods, (k - 1) as nat)->Some_0;
        lemma_merge_exact(c1, actions, markers, periods);
    }
}

/// A rest emits exactly one stop record when its segment starts, and its
/// sub-interval then spans the whole rest of the segment.
pub proof fn lemma_rest_triggers_once(c: Cursor, i: int, action: Action, periods: Seq<u64>)
    requires
        trigger_due(c),
        c.sounding_flag != 0,
    ensures
        trigger_records(c, i, action) == seq![Record::Stop],
        triggered(c, periods).sub_interval_remainder == triggered(c, periods).remaining_duration,
{
}

/// A cursor whose sub-interval spans the rest of its segment keeps it so
/// through merge iterations: a rest is never subdivided, and it is not
/// triggered again before its segment is over.
pub proof fn lemma_rest_not_subdivided(
    cs: Seq<Cursor>,
    actions: Seq<Action>,
    markers: bool,
    periods: Seq<u64>,
    k: nat,
    i: int,
)
    requires
        within_segments(cs),
        0 <= i < cs.len(),
        !cs[i].ended,
        cs[i].sub_interval_remainder == cs[i].remaining_duration,
        merge_chain(cs, actions, markers, periods, k) is Some,
    ensures
        ({
            let ck = merge_chain(cs, actions, markers, periods, k)->Some_0.0;
            &&& ck[i].sub_interval_remainder == ck[i].remaining_duration
            &&& trigger_due(ck[i]) ==> due(ck[i])
        }),
    decreases k,
{
    lemma_time_conserved(cs, actions, markers, periods, k, i);
    if k > 0 {
        lemma_rest_not_subdivided(cs, actions, markers, periods, (k - 1) as nat, i);
        let (c1, t) = merge_chain(cs, actions, markers, periods, (k - 1) as nat)->Some_0;
        lemma_time_conserved(cs, actions, markers, periods, (k - 1) as nat, i);
        lemma_merge_exact(c1, actions, markers, periods);
        assert(!due(c1[i]));
    }
}

/// Reading events never touches the sub-interval, never reopens an ended
/// cursor, and leaves a cursor inside a segment as it is.
pub proof fn lemma_advance_frame(c: Cursor, track: Seq<Event>, legato: u32, tempo: u32)
    ensures
        advance_spec(c, track, legato, tempo).0.sub_interval_remainder == c.sub_interval_remainder,
        c.ended ==> advance_spec(c, track, legato, tempo).0.ended,
        c.remaining_duration > 0 ==> advance_spec(c, track, legato, tempo).0 == c,
    decreases track.len() - c.read_position,
{
    if !(c.remaining_duration > 0 || c.read_position >= track.len() || c.read_position == usize::MAX) {
        let e = track[c.read_position as int];
        if e.delta <= legato {
            lemma_advance_frame(consume(c, e), track, legato, tempo_after(e, tempo));
        }
    }
}

/// Every open cursor's sub-interval stays within its segment, from the
/// start of a run and through every step of it.
pub proof fn lemma_step_within_segments(
    s: State,
    tracks: Seq<Vec<Event>>,
    actions: Seq<Action>,
    legato: u32,
    markers: bool,
    periods: Seq<u64>,
)
    requires
        within_segments(s.cursors),
        s.cursors.len() == tracks.len(),
        s.cursors.len() > 0 ==> 0 <= s.current < s.cursors.len(),
        step_spec(s, tracks, actions, legato, markers, periods) matches Ok(Some(_)),
    ensures
        within_segments(initial_state(tracks.len()).cursors),
        within_segments(step_spec(s, tracks, actions, legato, markers, periods)->Ok_0->Some_0.0.cursors),
{
    let s2 = step_spec(s, tracks, actions, legato, markers, periods)->Ok_0->Some_0.0;
    if !s.merging {
        let i = s.current;
        assert(s.cursors.len() > 0) by {
            if s.cursors.len() == 0 {
                assert(all_ended(s.cursors));
            }
        }
        let c = s.cursors[i];
        lemma_advance_frame(c, tracks[i]@, legato, s.tempo);
        assert forall|j: int| 0 <= j < s2.cursors.len() && !(#[trigger] s2.cursors[j]).ended implies s2.cursors[j].sub_interval_remainder
            <= s2.cursors[j].remaining_duration by {
            if j == i && c.remaining_duration == 0 {
                assert(!c.ended);
            }
        }
    } else if !any_due(s.cursors) {
        lemma_merge_exact(s.cursors, actions, markers, periods);
    }
}

/// Total time of the wait records in `recs`.
pub open spec fn waited(recs: Seq<Record>) -> nat
    decreases recs.len(),
{
    if recs.len() == 0 {
        0
    } else {
        waited(recs.drop_last()) + match recs.last() {
            Record::Wait(t) => t as nat,
            _ => 0,
        }
    }
}

proof fn lemma_waited_concat(a: Seq<Record>, b: Seq<Record>)
    ensures
        waited(a + b) == waited(a) + waited(b),
    decreases b.len(),
{
    if b.len() == 0 {
        assert(a + b =~= a);
    } else {
        lemma_waited_concat(a, b.drop_last());
        assert((a + b).drop_last() =~= a + b.drop_last());
    }
}

proof fn lemma_waited_one(x: Record)
    ensures
        waited(seq![x]) == match x {
            Record::Wait(t) => t as nat,
            _ => 0,
        },
{
    assert(seq![x].drop_last() =~= Seq::<Record>::empty());
    assert(seq![x].last() == x);
    assert(waited(Seq::<Record>::empty()) == 0);
    reveal_with_fuel(waited, 2);
}

/// The trigger pass emits no waits.
proof fn lemma_pass_waits_nothing(cs: Seq<Cursor>, actions: Seq<Action>, k: int)
    ensures
        waited(pass_records(cs, actions, k)) == 0,
    decreases k,
{
    if k > 0 {
        lemma_pass_waits_nothing(cs, actions, k - 1);
        let tail = if trigger_due(cs[k - 1]) {
            trigger_records(cs[k - 1], k - 1, actions[k - 1])
        } else {
            seq![]
        };
        lemma_waited_concat(pass_records(cs, actions, k - 1), tail);
        let p = Record::Pulse((k - 1) as usize);
        lemma_waited_one(p);
        lemma_waited_one(Record::Stop);
        lemma_waited_concat(seq![p], seq![p]);
        assert(seq![p, p] =~= seq![p] + seq![p]);
        assert(waited(Seq::<Record>::empty()) == 0);
    }
}

/// Time is conserved over every step of a run: a cursor inside a segment
/// loses exactly the time of the wait records that the step emits. A cursor
/// reads its next segment only once nothing of the current one is left, so
/// the frametimes emitted between two reads add up to the whole segment.
pub proof fn lemma_step_conserves_time(
    s: State,
    tracks: Seq<Vec<Event>>,
    actions: Seq<Action>,
    legato: u32,
    markers: bool,
    periods: Seq<u64>,
    i: int,
)
    requires
        within_segments(s.cursors),
        s.cursors.len() == tracks.len(),
        s.cursors.len() > 0 ==> 0 <= s.current < s.cursors.len(),
        step_spec(s, tracks, actions, legato, markers, periods) matches Ok(Some(_)),
        0 <= i < s.cursors.len(),
        !s.cursors[i].ended,
        s.cursors[i].remaining_duration > 0,
    ensures
        ({
            let (s2, recs) = step_spec(s, tracks, actions, legato, markers, periods)->Ok_0->Some_0;
            &&& s2.cursors.len() == s.cursors.len()
            &&& !s2.cursors[i].ended
            &&& s.cursors[i].remaining_duration == s2.cursors[i].remaining_duration + waited(recs)
        }),
{
    let (s2, recs) = step_spec(s, tracks, actions, legato, markers, periods)->Ok_0->Some_0;
    assert(waited(Seq::<Record>::empty()) == 0);
    if !s.merging {
        let j = s.current;
        lemma_advance_frame(s.cursors[j], tracks[j]@, legato, s.tempo);
    } else if !any_due(s.cursors) {
        lemma_merge_exact(s.cursors, actions, markers, periods);
        let step = merge_step(s.cursors, periods);
        let pass = pass_records(s.cursors, actions, s.cursors.len() as int);
        let mk = if markers {
            seq![Record::Marker]
        } else {
            seq![]
        };
        lemma_pass_waits_nothing(s.cursors, actions, s.cursors.len() as int);
        lemma_waited_one(Record::Marker);
        lemma_waited_one(Record::Wait(step));
        lemma_waited_concat(pass, mk);
        lemma_waited_concat(pass + mk, seq![Record::Wait(step)]);
    }
}

} // verus!
