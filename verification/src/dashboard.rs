//! What the dashboard shows for the state of the battery, and the summary of
//! the batteries that the main window lists.

use vstd::prelude::*;

use crate::charge::BatteryState;
use crate::text::{decimal_chars, push_decimal};

verus! {

/// Which estimate the remaining-time field shows.
#[derive(Debug, Clone, Copy, PartialEq, Eq, Structural)]
pub enum RemainingTime {
    /// The field keeps its value.
    Unchanged,
    /// The time until the battery is full.
    UntilFull,
    /// The time until the battery is empty.
    UntilEmpty,
}

/// What a refresh of the dashboard writes for a battery state: the caption of
/// the remaining-time field, the caption of the drain field if it changes, and
/// which estimate the remaining-time field shows.
pub struct RefreshPlan {
    pub remaining_caption: &'static str,
    pub drain_caption: Option<&'static str>,
    pub remaining_time: RemainingTime,
}

/// The caption of the remaining-time field for a battery state.
pub open spec fn remaining_caption(state: BatteryState) -> Seq<char> {
    match state {
        BatteryState::Unknown => "Charge State Unknown"@,
        BatteryState::Charging => "Remaining Time For Full Charge"@,
        BatteryState::Discharging => "Remaining Screen On Time"@,
        BatteryState::Empty => "Battery Empty"@,
        BatteryState::Full => "Battery Full"@,
    }
}

/// The caption that the drain field takes for a battery state, where it changes.
pub open spec fn drain_caption(state: BatteryState) -> Option<Seq<char>> {
    match state {
        BatteryState::Unknown => Some("Current Drain"@),
        BatteryState::Charging => Some("Current Charge Rate"@),
        _ => None,
    }
}

/// The estimate that the remaining-time field shows for a battery state.
pub open spec fn remaining_time_of(state: BatteryState) -> RemainingTime {
    match state {
        BatteryState::Charging => RemainingTime::UntilFull,
        BatteryState::Discharging => RemainingTime::UntilEmpty,
        _ => RemainingTime::Unchanged,
    }
}

/// What a refresh of the dashboard writes for a battery in `state`.
pub fn refresh_plan(state: BatteryState) -> (plan: RefreshPlan)
    ensures
        plan.remaining_caption@ == remaining_caption(state),
        match drain_caption(state) {
            Some(c) => plan.drain_caption is Some && plan.drain_caption.unwrap()@ == c,
            None => plan.drain_caption is None,
        },
        plan.remaining_time == remaining_time_of(state),
{
    match state {
        BatteryState::Unknown => RefreshPlan {
            remaining_caption: "Charge State Unknown",
            drain_caption: Some("Current Drain"),
            remaining_time: RemainingTime::Unchanged,
        },
        BatteryState::Charging => RefreshPlan {
            remaining_caption: "Remaining Time For Full Charge",
            drain_caption: Some("Current Charge Rate"),
            remaining_time: RemainingTime::UntilFull,
        },
        BatteryState::Discharging => RefreshPlan {
            remaining_caption: "Remaining Screen On Time",
            drain_caption: None,
            remaining_time: RemainingTime::UntilEmpty,
        },
        BatteryState::Empty => RefreshPlan {
            remaining_caption: "Battery Empty",
            drain_caption: None,
            remaining_time: RemainingTime::Unchanged,
        },
        BatteryState::Full => RefreshPlan {
            remaining_caption: "Battery Full",
            drain_caption: None,
            remaining_time: RemainingTime::Unchanged,
        },
    }
}

/// What one battery reports: its cycle count, if known, and its state.
#[derive(Debug, Clone, Copy, PartialEq, Eq, Structural)]
pub struct BatteryReading {
    pub cycle_count: Option<u32>,
    pub state: BatteryState,
}

/// The battery information that the dashboard keeps: the cycle count and state
/// of the last battery read, or no cycle count and an unknown state where no
/// battery was read.
#[derive(Debug, Clone, Copy, PartialEq, Eq, Structural)]
pub struct BatteryInfo {
    pub cycle_count: Option<u32>,
    pub state: BatteryState,
}

/// The battery information kept after reading `readings` in order.
pub open spec fn battery_info_of(readings: Seq<BatteryReading>) -> BatteryInfo {
    if readings.len() == 0 {
        BatteryInfo { cycle_count: None, state: BatteryState::Unknown }
    } else {
        BatteryInfo { cycle_count: readings.last().cycle_count, state: readings.last().state }
    }
}

/// The debug text of an optional count.
pub open spec fn optional_count_text(count: Option<u32>) -> Seq<char> {
    match count {
        Some(n) => "Some("@ + decimal_chars(n as nat) + ")"@,
        None => "None"@,
    }
}

/// The debug text of a battery state: the name of its variant.
pub open spec fn battery_state_debug(state: BatteryState) -> Seq<char> {
    match state {
        BatteryState::Unknown => "Unknown"@,
        BatteryState::Charging => "Charging"@,
        BatteryState::Discharging => "Discharging"@,
        BatteryState::Empty => "Empty"@,
        BatteryState::Full => "Full"@,
    }
}

impl BatteryState {
    /// The debug text of this state: the name of its variant.
    pub fn debug_name(&self) -> (name: &'static str)
        ensures
            name@ == battery_state_debug(*self),
    {
        match self {
            BatteryState::Unknown => "Unknown",
            BatteryState::Charging => "Charging",
            BatteryState::Discharging => "Discharging",
            BatteryState::Empty => "Empty",
            BatteryState::Full => "Full",
        }
    }
}

impl BatteryInfo {
    /// The information kept after reading the batteries' reports in order: the
    /// last battery's cycle count and state.
    pub fn new(readings: &[BatteryReading]) -> (info: BatteryInfo)
        ensures
            info == battery_info_of(readings@),
    {
        let mut info = BatteryInfo { cycle_count: None, state: BatteryState::Unknown };
        let mut i: usize = 0;
        while i < readings.len()
            invariant
                i <= readings.len(),
                info == battery_info_of(readings@.take(i as int)),
            decreases readings.len() - i,
        {
            info.cycle_count = readings[i].cycle_count;
            info.state = readings[i].state;
            i = i + 1;
        }
        assert(readings@.take(readings.len() as int) =~= readings@);
        info
    }

    /// The two lines that describe this information: the cycle count and the state.
    pub fn info_lines(&self) -> (lines: (String, String))
        ensures
            lines.0@ == "The battery cycle count is:"@ + optional_count_text(self.cycle_count),
            lines.1@ == "The current battery state is:"@ + battery_state_debug(self.state),
    {
        let mut count_line = String::new();
        count_line.append("The battery cycle count is:");
        match self.cycle_count {
            Some(n) => {
                count_line.append("Some(");
                push_decimal(&mut count_line, n as u64);
                count_line.append(")");
            },
            None => {
                count_line.append("None");
            },
        }
        let mut state_line = String::new();
        state_line.append("The current battery state is:");
        state_line.append(self.state.debug_name());
        assert(state_line@ =~= "The current battery state is:"@ + battery_state_debug(self.state));
        (count_line, state_line)
    }
}

/// The labels that the main window lists for battery number `index`: its
/// number, vendor, model and state, then the time to full charge and the time
/// to empty where they are known. Texts other than the state are given as
/// they are to be shown.
pub open spec fn summary_labels(
    index: nat,
    vendor: Seq<char>,
    model: Seq<char>,
    state: BatteryState,
    time_to_full: Option<Seq<char>>,
    time_to_empty: Option<Seq<char>>,
) -> Seq<Seq<char>> {
    let base = seq![
        "Battery #"@ + decimal_chars(index) + ":"@,
        "Vendor: "@ + vendor,
        "Model: "@ + model,
        "State: "@ + battery_state_debug(state),
    ];
    let with_full = match time_to_full {
        Some(t) => base.push("Time to full charge: "@ + t),
        None => base,
    };
    match time_to_empty {
        Some(t) => with_full.push("Time to emtpy: "@ + t),
        None => with_full,
    }
}

/// The contents of each string of `v`.
pub open spec fn string_views(v: Seq<String>) -> Seq<Seq<char>> {
    v.map_values(|s: String| s@)
}

fn prefixed(prefix: &str, text: &str) -> (s: String)
    ensures
        s@ == prefix@ + text@,
{
    let mut s = String::new();
    s.append(prefix);
    s.append(text);
    s
}

/// The labels that the main window lists for battery number `index`.
pub fn battery_summary_labels(
    index: usize,
    vendor: &str,
    model: &str,
    state: BatteryState,
    time_to_full: Option<&str>,
    time_to_empty: Option<&str>,
) -> (labels: Vec<String>)
    ensures
        string_views(labels@) == summary_labels(
            index as nat,
            vendor@,
            model@,
            state,
            match time_to_full {
                Some(t) => Some(t@),
                None => None,
            },
            match time_to_empty {
                Some(t) => Some(t@),
                None => None,
            },
        ),
{
    let mut labels: Vec<String> = Vec::new();
    let mut number = String::new();
    number.append("Battery #");
    push_decimal(&mut number, index as u64);
    number.append(":");
    labels.push(number);
    labels.push(prefixed("Vendor: ", vendor));
    labels.push(prefixed("Model: ", model));
    labels.push(prefixed("State: ", state.debug_name()));
    let ghost base = string_views(labels@);
    match time_to_full {
        Some(t) => {
            labels.push(prefixed("Time to full charge: ", t));
        },
        None => {},
    }
    match time_to_empty {
        Some(t) => {
            labels.push(prefixed("Time to emtpy: ", t));
        },
        None => {},
    }
    assert(string_views(labels@) =~= summary_labels(
        index as nat,
        vendor@,
        model@,
        state,
        match time_to_full {
            Some(t) => Some(t@),
            None => None,
        },
        match time_to_empty {
            Some(t) => Some(t@),
            None => None,
        },
    ));
    labels
}


/// The kept battery information is that of the last battery read: any
/// non-empty list of readings gives the last reading's cycle count and state, a
/// single reading gives its own, and no reading gives no count and an unknown state.
pub proof fn lemma_battery_info_last(readings: Seq<BatteryReading>, r: BatteryReading)
    ensures
        readings.len() >= 1 ==> battery_info_of(readings) == (BatteryInfo {
            cycle_count: readings[readings.len() - 1].cycle_count,
            state: readings[readings.len() - 1].state,
        }),
        battery_info_of(seq![r]) == (BatteryInfo { cycle_count: r.cycle_count, state: r.state }),
        battery_info_of(readings.push(r)) == (BatteryInfo { cycle_count: r.cycle_count, state: r.state }),
        battery_info_of(Seq::empty()) == (BatteryInfo { cycle_count: None, state: BatteryState::Unknown }),
{
}

/// The debug text of a battery state is the name of its variant, so different
/// states give different texts and different state labels in the summary.
pub proof fn lemma_battery_state_debug_names(a: BatteryState, b: BatteryState)
    ensures
        battery_state_debug(BatteryState::Unknown) == "Unknown"@,
        battery_state_debug(BatteryState::Charging) == "Charging"@,
        battery_state_debug(BatteryState::Discharging) == "Discharging"@,
        battery_state_debug(BatteryState::Empty) == "Empty"@,
        battery_state_debug(BatteryState::Full) == "Full"@,
        a != b ==> battery_state_debug(a) != battery_state_debug(b),
        forall|i: nat, v: Seq<char>, m: Seq<char>, f: Option<Seq<char>>, e: Option<Seq<char>>|
            #![trigger summary_labels(i, v, m, a, f, e)]
            #![trigger summary_labels(i, v, m, b, f, e)]
            a != b ==> summary_labels(i, v, m, a, f, e)[3] != summary_labels(i, v, m, b, f, e)[3],
{
    reveal_strlit("Unknown");
    reveal_strlit("Charging");
    reveal_strlit("Discharging");
    reveal_strlit("Empty");
    reveal_strlit("Full");
    reveal_strlit("State: ");
    assert("Unknown"@.len() == 7);
    assert("Charging"@.len() == 8);
    assert("Discharging"@.len() == 11);
    assert("Empty"@.len() == 5);
    assert("Full"@.len() == 4);
    assert("Unknown"@[0] == 'U' && "Charging"@[0] == 'C' && "Discharging"@[0] == 'D');
    assert("Empty"@[0] == 'E' && "Full"@[0] == 'F');
    if a != b {
        assert(battery_state_debug(a) != battery_state_debug(b)) by {
            if battery_state_debug(a) == battery_state_debug(b) {
                assert(battery_state_debug(a).len() == battery_state_debug(b).len());
                assert(battery_state_debug(a)[0] == battery_state_debug(b)[0]);
            }
        }
        assert forall|i: nat, v: Seq<char>, m: Seq<char>, f: Option<Seq<char>>, e: Option<Seq<char>>|
            summary_labels(i, v, m, a, f, e)[3] != summary_labels(i, v, m, b, f, e)[3] by {
            let la = summary_labels(i, v, m, a, f, e)[3];
            let lb = summary_labels(i, v, m, b, f, e)[3];
            assert(la == "State: "@ + battery_state_debug(a));
            assert(lb == "State: "@ + battery_state_debug(b));
            if la == lb {
                assert(la.subrange(7, la.len() as int) =~= battery_state_debug(a));
                assert(lb.subrange(7, lb.len() as int) =~= battery_state_debug(b));
            }
        }
    }
}

} // verus!
