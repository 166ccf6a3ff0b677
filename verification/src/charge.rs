//! Charge states of history entries and states that a battery reports.

use vstd::prelude::*;

use crate::text::{ascii_bytes, bytes_eq};

verus! {

/// Whether the battery was charging, discharging, or in an unknown state when a
/// history entry was recorded.
#[derive(Debug, Clone, Copy, PartialEq, Eq, Structural)]
pub enum ChargeState {
    Charging,
    Discharging,
    Unknown,
}

/// The bytes of `charging`.
pub open spec fn charging_word() -> Seq<u8> {
    seq![99u8, 104u8, 97u8, 114u8, 103u8, 105u8, 110u8, 103u8]
}

/// The bytes of `discharging`.
pub open spec fn discharging_word() -> Seq<u8> {
    seq![100u8, 105u8, 115u8, 99u8, 104u8, 97u8, 114u8, 103u8, 105u8, 110u8, 103u8]
}

/// The charge state that a state column names: exactly `charging` or
/// `discharging`; any other text is an unknown state.
pub open spec fn charge_state_of_name(name: Seq<u8>) -> ChargeState {
    if name == charging_word() {
        ChargeState::Charging
    } else if name == discharging_word() {
        ChargeState::Discharging
    } else {
        ChargeState::Unknown
    }
}

/// The label that a charge state has in an exported history file.
pub open spec fn charge_state_label(state: ChargeState) -> Seq<char> {
    match state {
        ChargeState::Charging => "Charging"@,
        ChargeState::Discharging => "Discharging"@,
        ChargeState::Unknown => "Unknown"@,
    }
}

impl ChargeState {
    /// Reads the state column of a history line.
    pub fn from_name(name: &[u8]) -> (state: ChargeState)
        ensures
            state == charge_state_of_name(name@),
    {
        let charging: [u8; 8] = [99, 104, 97, 114, 103, 105, 110, 103];
        let discharging: [u8; 11] = [100, 105, 115, 99, 104, 97, 114, 103, 105, 110, 103];
        assert(charging@ =~= charging_word());
        assert(discharging@ =~= discharging_word());
        if bytes_eq(name, &charging) {
            ChargeState::Charging
        } else if bytes_eq(name, &discharging) {
            ChargeState::Discharging
        } else {
            ChargeState::Unknown
        }
    }

    /// The label of this state in an exported history file.
    pub fn label(&self) -> (label: &'static str)
        ensures
            label@ == charge_state_label(*self),
    {
        match self {
            ChargeState::Charging => "Charging",
            ChargeState::Discharging => "Discharging",
            ChargeState::Unknown => "Unknown",
        }
    }
}

/// The state that a battery reports.
#[derive(Debug, Clone, Copy, PartialEq, Eq, Structural)]
pub enum BatteryState {
    Unknown,
    Charging,
    Discharging,
    Empty,
    Full,
}

/// The lowercase name under which a battery state is displayed.
pub open spec fn battery_state_name(state: BatteryState) -> Seq<char> {
    match state {
        BatteryState::Unknown => "unknown"@,
        BatteryState::Charging => "charging"@,
        BatteryState::Discharging => "discharging"@,
        BatteryState::Empty => "empty"@,
        BatteryState::Full => "full"@,
    }
}

/// The charge state that a predicted entry records for a battery state: a
/// battery whose displayed name is `discharging` or `charging` is in that charge
/// state; every other state is unknown.
pub open spec fn charge_state_of_battery(state: BatteryState) -> ChargeState {
    match state {
        BatteryState::Discharging => ChargeState::Discharging,
        BatteryState::Charging => ChargeState::Charging,
        _ => ChargeState::Unknown,
    }
}

/// The sign that the prediction service is given for a battery state:
/// `-1` when discharging, `1` when charging, `0` otherwise.
pub open spec fn battery_state_sign(state: BatteryState) -> int {
    match state {
        BatteryState::Discharging => -1,
        BatteryState::Charging => 1,
        _ => 0,
    }
}

impl BatteryState {
    /// The lowercase name under which this state is displayed.
    pub fn name(&self) -> (name: &'static str)
        ensures
            name@ == battery_state_name(*self),
    {
        match self {
            BatteryState::Unknown => "unknown",
            BatteryState::Charging => "charging",
            BatteryState::Discharging => "discharging",
            BatteryState::Empty => "empty",
            BatteryState::Full => "full",
        }
    }

    /// The charge state recorded for a battery in this state.
    pub fn charge_state(&self) -> (state: ChargeState)
        ensures
            state == charge_state_of_battery(*self),
    {
        match self {
            BatteryState::Discharging => ChargeState::Discharging,
            BatteryState::Charging => ChargeState::Charging,
            _ => ChargeState::Unknown,
        }
    }

    /// The sign given to the prediction service for this state.
    pub fn sign(&self) -> (sign: i8)
        ensures
            sign as int == battery_state_sign(*self),
    {
        match self {
            BatteryState::Discharging => -1,
            BatteryState::Charging => 1,
            _ => 0,
        }
    }
}


/// The charge state recorded for a battery state is the one that its displayed
/// name gives when read as a state column.
pub proof fn lemma_battery_state_name_charge(state: BatteryState)
    ensures
        charge_state_of_name(ascii_bytes(battery_state_name(state))) == charge_state_of_battery(state),
{
    reveal_strlit("unknown");
    reveal_strlit("charging");
    reveal_strlit("discharging");
    reveal_strlit("empty");
    reveal_strlit("full");
    let b = ascii_bytes(battery_state_name(state));
    match state {
        BatteryState::Charging => {
            assert(b =~= charging_word());
        },
        BatteryState::Discharging => {
            assert(b =~= discharging_word());
        },
        BatteryState::Unknown => {
            assert(b.len() == 7);
        },
        BatteryState::Empty => {
            assert(b.len() == 5);
        },
        BatteryState::Full => {
            assert(b.len() == 4);
        },
    }
}

} // verus!
