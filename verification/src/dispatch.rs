//! Static index-to-code mapping tables and axis re-centering for the
//! dispatch loop.

use vstd::prelude::*;

use crate::decode::ButtonState;

verus! {

/// Semantic button codes of the virtual input device, one per button slot.
#[derive(Clone, Copy, Debug, PartialEq, Eq, Structural)]
pub enum Button {
    LeftNorth,
    LeftWest,
    LeftEast,
    LeftSouth,
    LeftSpecial,
    RightSouth,
    RightSpecial,
    RightEast,
    RightWest,
    RightNorth,
    R2,
    R1,
    L2,
    L1,
    TriggerHappy1,
    TriggerHappy2,
    TriggerHappy3,
    TriggerHappy4,
    TriggerHappy5,
    TriggerHappy6,
    TriggerHappy7,
    TriggerHappy8,
    TriggerHappy9,
    TriggerHappy10,
    TriggerHappy11,
    TriggerHappy12,
    TriggerHappy13,
    TriggerHappy14,
    TriggerHappy15,
    TriggerHappy16,
    TriggerHappy17,
    TriggerHappy18,
    TriggerHappy19,
    TriggerHappy20,
    TriggerHappy21,
    TriggerHappy22,
    TriggerHappy23,
    TriggerHappy24,
    TriggerHappy25,
    TriggerHappy26,
    TriggerHappy27,
    TriggerHappy28,
    TriggerHappy29,
    TriggerHappy30,
    TriggerHappy31,
    TriggerHappy32,
    TriggerHappy33,
    TriggerHappy34,
}

/// Semantic axis codes of the virtual input device: two analog sticks.
#[derive(Clone, Copy, Debug, PartialEq, Eq, Structural)]
pub enum Axis {
    X,
    Y,
    RX,
    RY,
}

/// The fixed 48-entry table from button slot to device button code.
pub open spec fn spec_button_map(i: int) -> Button {
    if i == 0 {
        Button::LeftNorth
    } else if i == 1 {
        Button::LeftWest
    } else if i == 2 {
        Button::LeftEast
    } else if i == 3 {
        Button::LeftSouth
    } else if i == 4 {
        Button::LeftSpecial
    } else if i == 5 {
        Button::RightSouth
    } else if i == 6 {
        Button::RightSpecial
    } else if i == 7 {
        Button::RightEast
    } else if i == 8 {
        Button::RightWest
    } else if i == 9 {
        Button::RightNorth
    } else if i == 10 {
        Button::R2
    } else if i == 11 {
        Button::R1
    } else if i == 12 {
        Button::L2
    } else if i == 13 {
        Button::L1
    } else if i == 14 {
        Button::TriggerHappy1
    } else if i == 15 {
        Button::TriggerHappy2
    } else if i == 16 {
        Button::TriggerHappy3
    } else if i == 17 {
        Button::TriggerHappy4
    } else if i == 18 {
        Button::TriggerHappy5
    } else if i == 19 {
        Button::TriggerHappy6
    } else if i == 20 {
        Button::TriggerHappy7
    } else if i == 21 {
        Button::TriggerHappy8
    } else if i == 22 {
        Button::TriggerHappy9
    } else if i == 23 {
        Button::TriggerHappy10
    } else if i == 24 {
        Button::TriggerHappy11
    } else if i == 25 {
        Button::TriggerHappy12
    } else if i == 26 {
        Button::TriggerHappy13
    } else if i == 27 {
        Button::TriggerHappy14
    } else if i == 28 {
        Button::TriggerHappy15
    } else if i == 29 {
        Button::TriggerHappy16
    } else if i == 30 {
        Button::TriggerHappy17
    } else if i == 31 {
        Button::TriggerHappy18
    } else if i == 32 {
        Button::TriggerHappy19
    } else if i == 33 {
        Button::TriggerHappy20
    } else if i == 34 {
        Button::TriggerHappy21
    } else if i == 35 {
        Button::TriggerHappy22
    } else if i == 36 {
        Button::TriggerHappy23
    } else if i == 37 {
        Button::TriggerHappy24
    } else if i == 38 {
        Button::TriggerHappy25
    } else if i == 39 {
        Button::TriggerHappy26
    } else if i == 40 {
        Button::TriggerHappy27
    } else if i == 41 {
        Button::TriggerHappy28
    } else if i == 42 {
        Button::TriggerHappy29
    } else if i == 43 {
        Button::TriggerHappy30
    } else if i == 44 {
        Button::TriggerHappy31
    } else if i == 45 {
        Button::TriggerHappy32
    } else if i == 46 {
        Button::TriggerHappy33
    } else {
        Button::TriggerHappy34
    }
}

/// The fixed 4-entry table from axis slot to device axis code.
pub open spec fn spec_axis_map(i: int) -> Axis {
    if i == 0 {
        Axis::X
    } else if i == 1 {
        Axis::Y
    } else if i == 2 {
        Axis::RX
    } else {
        Axis::RY
    }
}

/// Maps a button slot index to its device button code.
pub fn button_map(i: usize) -> (b: Button)
    requires
        i < 48,
    ensures
        b == spec_button_map(i as int),
{
    match i {
        0 => Button::LeftNorth,
        1 => Button::LeftWest,
        2 => Button::LeftEast,
        3 => Button::LeftSouth,
        4 => Button::LeftSpecial,
        5 => Button::RightSouth,
        6 => Button::RightSpecial,
        7 => Button::RightEast,
        8 => Button::RightWest,
        9 => Button::RightNorth,
        10 => Button::R2,
        11 => Button::R1,
        12 => Button::L2,
        13 => Button::L1,
        14 => Button::TriggerHappy1,
        15 => Button::TriggerHappy2,
        16 => Button::TriggerHappy3,
        17 => Button::TriggerHappy4,
        18 => Button::TriggerHappy5,
        19 => Button::TriggerHappy6,
        20 => Button::TriggerHappy7,
        21 => Button::TriggerHappy8,
        22 => Button::TriggerHappy9,
        23 => Button::TriggerHappy10,
        24 => Button::TriggerHappy11,
        25 => Button::TriggerHappy12,
        26 => Button::TriggerHappy13,
        27 => Button::TriggerHappy14,
        28 => Button::TriggerHappy15,
        29 => Button::TriggerHappy16,
        30 => Button::TriggerHappy17,
        31 => Button::TriggerHappy18,
        32 => Button::TriggerHappy19,
        33 => Button::TriggerHappy20,
        34 => Button::TriggerHappy21,
        35 => Button::TriggerHappy22,
        36 => Button::TriggerHappy23,
        37 => Button::TriggerHappy24,
        38 => Button::TriggerHappy25,
        39 => Button::TriggerHappy26,
        40 => Button::TriggerHappy27,
        41 => Button::TriggerHappy28,
        42 => Button::TriggerHappy29,
        43 => Button::TriggerHappy30,
        44 => Button::TriggerHappy31,
        45 => Button::TriggerHappy32,
        46 => Button::TriggerHappy33,
        _ => Button::TriggerHappy34,
    }
}

/// Maps an axis slot index to its device axis code.
pub fn axis_map(i: usize) -> (a: Axis)
    requires
        i < 4,
    ensures
        a == spec_axis_map(i as int),
{
    match i {
        0 => Axis::X,
        1 => Axis::Y,
        2 => Axis::RX,
        _ => Axis::RY,
    }
}

/// Re-centers a raw unsigned axis sample into a signed displacement by
/// subtracting the fixed mid-scale offset of 512.
pub fn center_axis(raw: u16) -> (v: i32)
    ensures
        v == raw as int - 512,
{
    raw as i32 - 512
}

/// The batch of button events one decoded frame sends to the event sink:
/// slot `i` becomes its device button code paired with the decoded flag.
pub fn button_events(state: &ButtonState) -> (events: Vec<(Button, bool)>)
    ensures
        events@.len() == 48,
        forall|i: int| 0 <= i < 48 ==> events@[i] == (spec_button_map(i), state.pressed@[i]),
{
    let mut events: Vec<(Button, bool)> = Vec::new();
    let mut i: usize = 0;
    while i < 48
        invariant
            i <= 48,
            events@.len() == i,
            forall|j: int| 0 <= j < i ==> events@[j] == (spec_button_map(j), state.pressed@[j]),
        decreases 48 - i,
    {
        events.push((button_map(i), state.pressed[i]));
        i += 1;
    }
    events
}

/// The batch of axis events one decoded frame sends to the event sink:
/// slot `i` becomes its device axis code paired with the re-centered
/// displacement of the raw sample.
pub fn axis_events(state: &ButtonState) -> (events: Vec<(Axis, i32)>)
    ensures
        events@.len() == 4,
        forall|i: int|
            0 <= i < 4 ==> events@[i].0 == spec_axis_map(i) && events@[i].1
                == state.joysticks@[i] - 512,
{
    let mut events: Vec<(Axis, i32)> = Vec::new();
    let mut i: usize = 0;
    while i < 4
        invariant
            i <= 4,
            events@.len() == i,
            forall|j: int|
                0 <= j < i ==> events@[j].0 == spec_axis_map(j) && events@[j].1
                    == state.joysticks@[j] - 512,
        decreases 4 - i,
    {
        events.push((axis_map(i), center_axis(state.joysticks[i])));
        i += 1;
    }
    events
}

} // verus!
