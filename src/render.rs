use vstd::prelude::*;
use vstd::string::*;
use crate::action::{Action, EmitInfo};
use crate::schedule::Record;

verus! {

pub open spec fn digit_text(d: nat) -> Seq<char> {
    if d == 0 {
        "0"@
    } else if d == 1 {
        "1"@
    } else if d == 2 {
        "2"@
    } else if d == 3 {
        "3"@
    } else if d == 4 {
        "4"@
    } else if d == 5 {
        "5"@
    } else if d == 6 {
        "6"@
    } else if d == 7 {
        "7"@
    } else if d == 8 {
        "8"@
    } else {
        "9"@
    }
}

/// Decimal digits of `n`, most significant first, without leading zeros.
pub open spec fn decimal(n: nat) -> Seq<char>
    decreases n,
{
    if n < 10 {
        digit_text(n)
    } else {
        decimal(n / 10) + digit_text(n % 10)
    }
}

/// Decimal text of a signed integer.
pub open spec fn signed_decimal(n: int) -> Seq<char> {
    if n < 0 {
        "-"@ + decimal((-n) as nat)
    } else {
        decimal(n as nat)
    }
}

fn digit_str(d: u64) -> (r: &'static str)
    requires
        d < 10,
    ensures
        r@ == digit_text(d as nat),
{
    if d == 0 {
        "0"
    } else if d == 1 {
        "1"
    } else if d == 2 {
        "2"
    } else if d == 3 {
        "3"
    } else if d == 4 {
        "4"
    } else if d == 5 {
        "5"
    } else if d == 6 {
        "6"
    } else if d == 7 {
        "7"
    } else if d == 8 {
        "8"
    } else {
        "9"
    }
}

fn append_decimal(s: &mut String, n: u64)
    ensures
        final(s)@ == old(s)@ + decimal(n as nat),
    decreases n,
{
    if n >= 10 {
        append_decimal(s, n / 10);
    }
    s.append(digit_str(n % 10));
    assert(s@ =~= old(s)@ + decimal(n as nat));
}

fn append_signed(s: &mut String, n: i32)
    ensures
        final(s)@ == old(s)@ + signed_decimal(n as int),
{
    if n < 0 {
        s.append("-");
        append_decimal(s, (0 - (n as i64)) as u64);
        assert(s@ =~= old(s)@ + signed_decimal(n as int));
    } else {
        append_decimal(s, n as u64);
    }
}

/// State of the two actions whose text changes from use to use.
#[derive(Clone, Copy, Debug, PartialEq, Eq, Structural)]
pub struct Switches {
    /// Slot that the group switch selected last, 1 or 2.
    pub toggle: u8,
    /// Number of diagnostic counter records so far.
    pub counter: u64,
}

/// The switches after one use of `a`.
pub open spec fn switched(a: Action, s: Switches) -> Switches {
    match a {
        Action::SwitchGroup => Switches { toggle: (s.toggle % 2 + 1) as u8, ..s },
        Action::PauseFinder => Switches {
            counter: if s.counter == u64::MAX {
                0
            } else {
                (s.counter + 1) as u64
            },
            ..s
        },
        _ => s,
    }
}

pub open spec fn slot_text(n: u8) -> Seq<char> {
    if n == 0 {
        "slot0"@
    } else if n == 1 {
        "slot1"@
    } else if n == 2 {
        "slot2"@
    } else if n == 3 {
        "slot3"@
    } else if n == 4 {
        "slot4"@
    } else if n == 5 {
        "slot5"@
    } else {
        ""@
    }
}

/// Command text of an action with a plain command field; `s` is the state
/// of the switches after this use.
pub open spec fn command_text(a: Action, s: Switches) -> Seq<char> {
    match a {
        Action::Flashlight => "impulse 100"@,
        Action::Nice => "speak player/sprayer"@,
        Action::Nice2 => "speak \"common/bodysplat(v30)\""@,
        Action::Nice3 => "speak \"common/wpn_moveselect(v30)\""@,
        Action::SwitchScroll(n) => slot_text(n),
        Action::SwitchGroup => if s.toggle == 1 {
            "slot1"@
        } else if s.toggle == 2 {
            "slot2"@
        } else {
            "slot0"@
        },
        Action::Stopsound => "stopsound"@,
        Action::Attack1 => "+attack; wait; -attack"@,
        Action::WpnMoveSelect => "speak \"common/wpn_moveselect\""@,
        _ => ""@,
    }
}

pub open spec fn emit_args(e: EmitInfo) -> Seq<char> {
    e.sound@ + " "@ + signed_decimal(e.channel as int) + " "@ + e.volume@ + " "@ + decimal(e.from as nat)
        + " 0 0.8 0 100\"\n"@
}

/// The line of one record: frametime text `ft`, repeat count `repeat`,
/// action `a`, and `s` the state of the switches after this use.
pub open spec fn line_spec(a: Action, ft: Seq<char>, repeat: u32, s: Switches) -> Seq<char> {
    match a {
        Action::Emit(e) => "----------|------|------|"@ + ft + "|-|-|"@ + decimal(repeat as nat)
            + "|bxt_emit_sound \""@ + emit_args(e),
        Action::EmitDynamic(e) => "----------|------|------|"@ + ft + "|-|-|"@ + decimal(
            repeat as nat,
        ) + "|bxt_emit_sound_dynamic \""@ + emit_args(e),
        Action::Ducktap => "-----d----|------|------|"@ + ft + "|-|-|"@ + decimal(repeat as nat)
            + "\n"@,
        Action::Use => "----------|------|--u---|"@ + ft + "|-|-|"@ + decimal(repeat as nat) + "\n"@,
        Action::PauseFinder => "----------|------|------|"@ + ft + "|-|-|"@ + decimal(repeat as nat)
            + "|echo "@ + decimal(s.counter as nat) + "\n"@,
        _ => "----------|------|------|"@ + ft + "|-|-|"@ + decimal(repeat as nat) + "|"@
            + command_text(a, s) + "\n"@,
    }
}

fn slot_str(n: u8) -> (r: &'static str)
    ensures
        r@ == slot_text(n),
{
    if n == 0 {
        "slot0"
    } else if n == 1 {
        "slot1"
    } else if n == 2 {
        "slot2"
    } else if n == 3 {
        "slot3"
    } else if n == 4 {
        "slot4"
    } else if n == 5 {
        "slot5"
    } else {
        ""
    }
}

fn command_str(a: &Action, s: Switches) -> (r: &'static str)
    ensures
        r@ == command_text(*a, s),
{
    match a {
        Action::Flashlight => "impulse 100",
        Action::Nice => "speak player/sprayer",
        Action::Nice2 => "speak \"common/bodysplat(v30)\"",
        Action::Nice3 => "speak \"common/wpn_moveselect(v30)\"",
        Action::SwitchScroll(n) => slot_str(*n),
        Action::SwitchGroup => if s.toggle == 1 {
            "slot1"
        } else if s.toggle == 2 {
            "slot2"
        } else {
            "slot0"
        },
        Action::Stopsound => "stopsound",
        Action::Attack1 => "+attack; wait; -attack",
        Action::WpnMoveSelect => "speak \"common/wpn_moveselect\"",
        _ => "",
    }
}

fn append_emit_args(line: &mut String, e: &EmitInfo)
    ensures
        final(line)@ == old(line)@ + emit_args(*e),
{
    line.append(e.sound.as_str());
    line.append(" ");
    append_signed(line, e.channel);
    line.append(" ");
    line.append(e.volume.as_str());
    line.append(" ");
    append_decimal(line, e.from as u64);
    line.append(" 0 0.8 0 100\"\n");
    assert(line@ =~= old(line)@ + emit_args(*e));
}

/// The line of one record (see `line_spec`); `s` is the state of the
/// switches after this use.
pub fn format_line(a: &Action, frametime: &str, repeat: u32, s: Switches) -> (r: String)
    ensures
        r@ == line_spec(*a, frametime@, repeat, s),
{
    let mut line = match a {
        Action::Ducktap => String::from_str("-----d----|------|------|"),
        Action::Use => String::from_str("----------|------|--u---|"),
        _ => String::from_str("----------|------|------|"),
    };
    line.append(frametime);
    line.append("|-|-|");
    append_decimal(&mut line, repeat as u64);
    match a {
        Action::Emit(e) => {
            line.append("|bxt_emit_sound \"");
            append_emit_args(&mut line, e);
        },
        Action::EmitDynamic(e) => {
            line.append("|bxt_emit_sound_dynamic \"");
            append_emit_args(&mut line, e);
        },
        Action::Ducktap => {
            line.append("\n");
        },
        Action::Use => {
            line.append("\n");
        },
        Action::PauseFinder => {
            line.append("|echo ");
            append_decimal(&mut line, s.counter);
            line.append("\n");
        },
        _ => {
            line.append("|");
            line.append(command_str(a, s));
            line.append("\n");
        },
    }
    line
}

impl Switches {
    /// Switches before any use: the group switch last selected slot 1.
    pub fn new() -> (r: Switches)
        ensures
            r == (Switches { toggle: 1, counter: 0 }),
    {
        Switches { toggle: 1, counter: 0 }
    }

    /// Records one use of `action` in the switches and returns the line of a
    /// record with that action.
    pub fn format_bulk(&mut self, frametime: &str, repeat: u32, action: &Action) -> (r: String)
        ensures
            *final(self) == switched(*action, *old(self)),
            r@ == line_spec(*action, frametime@, repeat, *final(self)),
    {
        match action {
            Action::SwitchGroup => {
                self.toggle = self.toggle % 2 + 1;
            },
            Action::PauseFinder => {
                self.counter = if self.counter == u64::MAX {
                    0
                } else {
                    self.counter + 1
                };
            },
            _ => {},
        }
        format_line(action, frametime, repeat, *self)
    }
}

/// The action table of a run, with the state of its switches.
pub struct ActionTable {
    /// The action of each track, by track index.
    pub actions: Vec<Action>,
    pub switches: Switches,
}

/// The action that record `rec` carries, given the table `actions`.
pub open spec fn record_action(actions: Seq<Action>, rec: Record) -> Action {
    match rec {
        Record::Pulse(i) => if i < actions.len() {
            actions[i as int]
        } else {
            Action::Nothing
        },
        Record::Stop => Action::Stopsound,
        Record::Marker => Action::PauseFinder,
        Record::Wait(_) => Action::Nothing,
    }
}

impl ActionTable {
    pub fn new(actions: Vec<Action>) -> (r: ActionTable)
        ensures
            r.actions@ == actions@,
            r.switches == (Switches { toggle: 1, counter: 0 }),
    {
        ActionTable { actions, switches: Switches::new() }
    }

    /// The line of record `rec`, whose frametime is written `frametime`; a
    /// record uses the action of its track, the stop action, the counter,
    /// or none.
    pub fn render(&mut self, rec: Record, frametime: &str) -> (r: String)
        ensures
            final(self).actions@ == old(self).actions@,
            final(self).switches == switched(record_action(old(self).actions@, rec), old(self).switches),
            r@ == line_spec(record_action(old(self).actions@, rec), frametime@, 1, final(self).switches),
    {
        match rec {
            Record::Pulse(i) => {
                if i < self.actions.len() {
                    self.switches.format_bulk(frametime, 1, &self.actions[i])
                } else {
                    self.switches.format_bulk(frametime, 1, &Action::Nothing)
                }
            },
            Record::Stop => self.switches.format_bulk(frametime, 1, &Action::Stopsound),
            Record::Marker => self.switches.format_bulk(frametime, 1, &Action::PauseFinder),
            Record::Wait(_) => self.switches.format_bulk(frametime, 1, &Action::Nothing),
        }
    }
}

} // verus!
