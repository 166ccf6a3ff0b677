use prophesy::charge::{BatteryState, ChargeState};
use prophesy::dashboard::{battery_summary_labels, refresh_plan, BatteryInfo, BatteryReading, RemainingTime};
use prophesy::graph::{longest_line, plan_graph, range_error_width, GraphPlan};
use prophesy::prediction::{next_prediction, PredictionStep, MAX_NUMBER_OF_PREDICTIONS};

#[test]
fn refresh_plans_per_state() {
    let p = refresh_plan(BatteryState::Charging);
    assert_eq!(p.remaining_caption, "Remaining Time For Full Charge");
    assert_eq!(p.drain_caption, Some("Current Charge Rate"));
    assert_eq!(p.remaining_time, RemainingTime::UntilFull);
    let p = refresh_plan(BatteryState::Discharging);
    assert_eq!(p.remaining_caption, "Remaining Screen On Time");
    assert_eq!(p.drain_caption, None);
    assert_eq!(p.remaining_time, RemainingTime::UntilEmpty);
    let p = refresh_plan(BatteryState::Unknown);
    assert_eq!(p.remaining_caption, "Charge State Unknown");
    assert_eq!(p.drain_caption, Some("Current Drain"));
    assert_eq!(p.remaining_time, RemainingTime::Unchanged);
    let p = refresh_plan(BatteryState::Empty);
    assert_eq!(p.remaining_caption, "Battery Empty");
    assert_eq!(p.remaining_time, RemainingTime::Unchanged);
    let p = refresh_plan(BatteryState::Full);
    assert_eq!(p.remaining_caption, "Battery Full");
    assert_eq!(p.drain_caption, None);
}

#[test]
fn battery_info_keeps_the_last_battery() {
    let none = BatteryInfo::new(&[]);
    assert_eq!(none, BatteryInfo { cycle_count: None, state: BatteryState::Unknown });
    let readings = [
        BatteryReading { cycle_count: Some(3), state: BatteryState::Full },
        BatteryReading { cycle_count: None, state: BatteryState::Charging },
    ];
    let info = BatteryInfo::new(&readings);
    assert_eq!(info, BatteryInfo { cycle_count: None, state: BatteryState::Charging });
}

#[test]
fn battery_info_lines() {
    let info = BatteryInfo { cycle_count: Some(512), state: BatteryState::Discharging };
    let (count, state) = info.info_lines();
    assert_eq!(count, format!("The battery cycle count is:{:?}", Some(512u32)));
    assert_eq!(state, "The current battery state is:Discharging");
    let (count, _) = BatteryInfo { cycle_count: None, state: BatteryState::Unknown }.info_lines();
    assert_eq!(count, "The battery cycle count is:None");
}

#[test]
fn summary_labels() {
    let labels = battery_summary_labels(0, "Some(\"ACME\")", "None", BatteryState::Charging, Some("3600 s"), None);
    assert_eq!(
        labels,
        vec![
            "Battery #0:",
            "Vendor: Some(\"ACME\")",
            "Model: None",
            "State: Charging",
            "Time to full charge: 3600 s",
        ]
    );
    let labels = battery_summary_labels(12, "v", "m", BatteryState::Full, None, Some("1 h"));
    assert_eq!(labels[0], "Battery #12:");
    assert_eq!(labels[4], "Time to emtpy: 1 h");
    assert_eq!(labels.len(), 5);
}

#[test]
fn battery_states() {
    assert_eq!(BatteryState::Charging.name(), "charging");
    assert_eq!(BatteryState::Full.name(), "full");
    assert_eq!(BatteryState::Charging.charge_state(), ChargeState::Charging);
    assert_eq!(BatteryState::Discharging.charge_state(), ChargeState::Discharging);
    assert_eq!(BatteryState::Empty.charge_state(), ChargeState::Unknown);
    assert_eq!(BatteryState::Discharging.sign(), -1);
    assert_eq!(BatteryState::Charging.sign(), 1);
    assert_eq!(BatteryState::Unknown.sign(), 0);
    for s in [BatteryState::Unknown, BatteryState::Charging, BatteryState::Discharging, BatteryState::Empty, BatteryState::Full] {
        assert_eq!(ChargeState::from_name(s.name().as_bytes()), s.charge_state());
    }
}

#[test]
fn graph_plans() {
    assert_eq!(range_error_width(), 67);
    assert_eq!(longest_line("ab\r\ncd\r"), 3);
    assert_eq!(longest_line(""), 0);
    assert_eq!(longest_line("abc\n"), 3);
    assert_eq!(plan_graph(0, 100, 1, 0), GraphPlan::Nothing);
    assert_eq!(plan_graph(100, 0, 1, 5), GraphPlan::Nothing);
    assert_eq!(plan_graph(800, 600, 5, 2), GraphPlan::History { start_day: 5, end_day: 2 });
    assert_eq!(plan_graph(800, 600, 1, 1), GraphPlan::RangeError { x: 366, y: 300 });
    assert_eq!(plan_graph(67, 1, 1, 13), GraphPlan::RangeError { x: 0, y: 0 });
    assert_eq!(
        plan_graph(u32::MAX, 9, 1, 1),
        GraphPlan::RangeError { x: ((u32::MAX - 67) as i32) / 2, y: 4 }
    );
}

#[test]
fn prediction_schedule() {
    assert_eq!(
        next_prediction(0, true),
        Some(PredictionStep { number: 1, offset_minutes: 60, offset_seconds: 3600 })
    );
    assert_eq!(
        next_prediction(9, true),
        Some(PredictionStep { number: 10, offset_minutes: 600, offset_seconds: 36000 })
    );
    assert_eq!(next_prediction(MAX_NUMBER_OF_PREDICTIONS, true), None);
    assert_eq!(next_prediction(3, false), None);
    let mut done = 0u8;
    while let Some(step) = next_prediction(done, true) {
        done = step.number;
    }
    assert_eq!(done, 10);
}
