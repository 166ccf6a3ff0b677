use prophesy::charge::ChargeState;
use prophesy::report::{battery_report_arguments, battery_report_usages, BatteryReportDocument, UsageEntry};

const REPORT: &str = r#"<?xml version="1.0" encoding="utf-8"?>
<BatteryReport xmlns="http://schemas.microsoft.com/battery/2012">
  <SystemInformation>
    <ComputerName>LAPTOP</ComputerName>
  </SystemInformation>
  <Batteries>
    <Battery>
      <Id>BAT0</Id>
    </Battery>
  </Batteries>
  <RecentUsage>
    <UsageEntry Timestamp="2023-11-14T10:00:00" Ac="1" ChargeCapacity="41000" />
    <UsageEntry Timestamp="2023-11-14T11:00:00" Ac="0" ChargeCapacity="39000" />
    <UsageEntry Timestamp="2023-11-14T12:00:00" Ac="0" />
    <UsageEntry Ac="1" ChargeCapacity="1" />
  </RecentUsage>
</BatteryReport>
"#;

fn entry(ts: &str, ac: Option<&str>, cap: Option<&str>) -> (String, Option<String>, Option<String>) {
    (ts.to_string(), ac.map(|s| s.to_string()), cap.map(|s| s.to_string()))
}

fn views(us: &[UsageEntry]) -> Vec<(String, Option<String>, Option<String>)> {
    us.iter().map(|u| (u.timestamp.clone(), u.on_ac.clone(), u.charge_capacity.clone())).collect()
}

#[test]
fn parse_xml_test() {
    let usages = battery_report_usages(REPORT).expect("the report is well-formed");
    assert_eq!(
        views(&usages),
        vec![
            entry("2023-11-14T10:00:00", Some("1"), Some("41000")),
            entry("2023-11-14T11:00:00", Some("0"), Some("39000")),
            entry("2023-11-14T12:00:00", Some("0"), None),
        ]
    );
}

#[test]
fn malformed_report_is_refused() {
    assert!(battery_report_usages("<BatteryReport><RecentUsage></BatteryReport>").is_none());
    assert!(BatteryReportDocument::parse("").is_none());
}

#[test]
fn document_type_definitions_are_allowed() {
    let text = "<?xml version=\"1.0\"?>\n<!DOCTYPE BatteryReport [ <!ENTITY ac \"1\"> ]>\n<BatteryReport><SystemInformation/><Batteries/><RecentUsage><E Timestamp=\"t\" Ac=\"&ac;\" ChargeCapacity=\"5\"/></RecentUsage></BatteryReport>";
    let usages = battery_report_usages(text).expect("DTD is allowed");
    assert_eq!(views(&usages), vec![entry("t", Some("1"), Some("5"))]);
}

#[test]
fn sections_are_searched_in_order() {
    // No SystemInformation element: the search runs out before the usage section.
    let text = "<R><Batteries/><RecentUsage><E Timestamp=\"t\"/></RecentUsage></R>";
    assert_eq!(battery_report_usages(text).unwrap().len(), 0);
    // The usage section before the batteries section is not found.
    let text = "<R><SystemInformation/><RecentUsage><E Timestamp=\"t\"/></RecentUsage><Batteries/></R>";
    assert_eq!(battery_report_usages(text).unwrap().len(), 0);
    let text = "<R><SystemInformation/><Batteries/><RecentUsage><E Timestamp=\"t\"/></RecentUsage></R>";
    assert_eq!(battery_report_usages(text).unwrap().len(), 1);
}

#[test]
fn usage_children_filtered_by_text_and_timestamp() {
    let text = "<R><SystemInformation/><Batteries/><RecentUsage><E Timestamp=\"a\"></E><E Timestamp=\"b\">x</E>y<E Ac=\"1\"/></RecentUsage></R>";
    let usages = battery_report_usages(text).unwrap();
    assert_eq!(views(&usages), vec![entry("a", None, None), entry("b", None, None)]);
}

#[test]
fn usage_readings() {
    let charging = UsageEntry { timestamp: "t".to_string(), on_ac: Some("1".to_string()), charge_capacity: Some("41000".to_string()) };
    assert_eq!(charging.reading(), Some((ChargeState::Charging, "41000".to_string())));
    let other = UsageEntry { timestamp: "t".to_string(), on_ac: Some("true".to_string()), charge_capacity: Some("7".to_string()) };
    assert_eq!(other.reading(), Some((ChargeState::Discharging, "7".to_string())));
    let missing = UsageEntry { timestamp: "t".to_string(), on_ac: None, charge_capacity: Some("7".to_string()) };
    assert_eq!(missing.reading(), None);
    let no_capacity = UsageEntry { timestamp: "t".to_string(), on_ac: Some("1".to_string()), charge_capacity: None };
    assert_eq!(no_capacity.reading(), None);
}

#[test]
fn report_command_arguments() {
    assert_eq!(
        battery_report_arguments("./batteryreport.xml", 14),
        vec!["/batteryreport", "/output", "./batteryreport.xml", "/xml", "/duration", "14"]
    );
    assert_eq!(battery_report_arguments("r.xml", 3)[5], "3");
    assert_eq!(battery_report_arguments("r.xml", 255)[5], "255");
}
