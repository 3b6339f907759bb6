use vstd::prelude::*;

verus! {

/// Parameters of a sound-emission command.
#[derive(Clone, Debug, PartialEq)]
pub struct EmitInfo {
    pub sound: String,
    pub channel: i32,
    /// The volume as it is written in the command, such as `0.4`.
    pub volume: String,
    pub from: u32,
}

/// What a record makes the automation engine do.
#[derive(Clone, Debug, PartialEq)]
pub enum Action {
    /// No action: the record only lets time pass.
    Nothing,
    Flashlight,
    SwitchScroll(u8),
    /// Alternates between two slots on each use.
    SwitchGroup,
    Use,
    /// A sustained tap: issued once per segment, never re-triggered.
    Ducktap,
    Nice,
    Nice2,
    Nice3,
    Stopsound,
    /// A single strike, primed by an extra pulse before each use.
    Attack1,
    WpnMoveSelect,
    Emit(EmitInfo),
    EmitDynamic(EmitInfo),
    /// Diagnostic counter, incremented on each use.
    PauseFinder,
}

} // verus!
