use sinfo::model::sensor::{SensorId, SensorUnit};
use sinfo::output::csv::{CsvLogger, CsvSensor};
use sinfo::output::tui::{
    event_for, format_elapsed, format_precision, get_group_at_cursor, group_header, group_key, status_line,
    title, unique_groups, DashboardEvent, DashboardState, InputEvent, KeyCode,
};

fn sid(source: &str, chip: &str, sensor: &str) -> SensorId {
    SensorId { source: source.to_string(), chip: chip.to_string(), sensor: sensor.to_string() }
}

fn snapshot() -> Vec<SensorId> {
    vec![
        sid("cpu", "cpufreq", "cpu0"),
        sid("cpu", "cpufreq", "cpu1"),
        sid("cpu", "utilization", "total"),
        sid("hwmon", "nct6798", "fan1"),
        sid("hwmon", "nct6798", "in0"),
        sid("net", "eth0", "rx_mbps"),
    ]
}

#[test]
fn group_key_joins_source_and_chip() {
    assert_eq!(group_key(&sid("hwmon", "nct6798", "in0")), "hwmon/nct6798");
    assert_eq!(group_key(&sid("", "", "x")), "/");
}

#[test]
fn unique_groups_in_first_appearance_order() {
    let mut ids = snapshot();
    ids.push(sid("cpu", "cpufreq", "cpu2"));
    let g = unique_groups(&ids);
    assert_eq!(g, vec!["cpu/cpufreq", "cpu/utilization", "hwmon/nct6798", "net/eth0"]);
}

#[test]
fn group_at_cursor() {
    let ids = snapshot();
    assert_eq!(get_group_at_cursor(&ids, &vec![], 2), Some("hwmon/nct6798".to_string()));
    assert_eq!(get_group_at_cursor(&ids, &vec![], 4), None);
}

#[test]
fn precision_by_unit() {
    assert_eq!(format_precision(&SensorUnit::Celsius), 1);
    assert_eq!(format_precision(&SensorUnit::Rpm), 0);
    assert_eq!(format_precision(&SensorUnit::Mhz), 0);
    assert_eq!(format_precision(&SensorUnit::Percent), 0);
    assert_eq!(format_precision(&SensorUnit::MegabytesPerSec), 1);
    assert_eq!(format_precision(&SensorUnit::Unitless), 1);
}

#[test]
fn elapsed_time_text() {
    assert_eq!(format_elapsed(0), "0s");
    assert_eq!(format_elapsed(59), "59s");
    assert_eq!(format_elapsed(60), "1m 00s");
    assert_eq!(format_elapsed(125), "2m 05s");
    assert_eq!(format_elapsed(3600), "1h 00m 00s");
    assert_eq!(format_elapsed(3723), "1h 02m 03s");
    assert_eq!(format_elapsed(360000), "100h 00m 00s");
}

#[test]
fn layout_has_a_header_per_group_and_a_row_per_sensor() {
    let mut st = DashboardState::new();
    let layout = st.prepare(&snapshot());
    assert_eq!(layout.group_indices, vec![0, 3, 5, 8]);
    assert_eq!(layout.total_rows, 10);
    assert_eq!(layout.groups.len(), 4);
    assert!(st.auto_collapsed);
    assert!(st.collapsed.is_empty());
}

#[test]
fn folded_group_keeps_only_its_header() {
    let mut st = DashboardState::new();
    let layout = st.prepare(&snapshot());
    st.cursor = 2;
    assert!(!st.handle(&DashboardEvent::Toggle, &layout));
    assert!(st.collapsed.contains_key(&"hwmon/nct6798".to_string()));
    let layout = st.prepare(&snapshot());
    assert_eq!(layout.group_indices, vec![0, 3, 5, 6]);
    assert_eq!(layout.total_rows, 8);
    st.handle(&DashboardEvent::Toggle, &layout);
    assert!(st.collapsed.is_empty());
}

#[test]
fn crowded_groups_fold_on_the_first_snapshot_only() {
    let mut ids = Vec::new();
    for i in 0..33 {
        ids.push(sid("hwmon", "big", &format!("in{i}")));
    }
    ids.push(sid("net", "eth0", "rx_mbps"));
    let mut st = DashboardState::new();
    let layout = st.prepare(&ids);
    assert_eq!(st.collapsed.len(), 1);
    assert!(st.collapsed.contains_key(&"hwmon/big".to_string()));
    assert_eq!(layout.total_rows, 3);
    st.handle(&DashboardEvent::ExpandAll, &layout);
    let layout = st.prepare(&ids);
    assert!(st.collapsed.is_empty());
    assert_eq!(layout.total_rows, 36);
}

#[test]
fn thirty_two_sensors_stay_open() {
    let mut ids = Vec::new();
    for i in 0..32 {
        ids.push(sid("hwmon", "big", &format!("in{i}")));
    }
    let mut st = DashboardState::new();
    st.prepare(&ids);
    assert!(st.collapsed.is_empty());
}

#[test]
fn empty_snapshot_does_not_use_up_the_auto_fold() {
    let mut st = DashboardState::new();
    let layout = st.prepare(&Vec::new());
    assert_eq!(layout.total_rows, 0);
    assert!(!st.auto_collapsed);
}

#[test]
fn cursor_moves_and_scroll_follows() {
    let mut st = DashboardState::new();
    let layout = st.prepare(&snapshot());
    st.handle(&DashboardEvent::Down { term_height: 8 }, &layout);
    assert_eq!(st.cursor, 1);
    assert_eq!(st.scroll_offset, 2); // header row 3 is below 0 + (8 - 6), so scroll to 3 - 1
    st.handle(&DashboardEvent::Up, &layout);
    assert_eq!(st.cursor, 0);
    assert_eq!(st.scroll_offset, 0);
    st.handle(&DashboardEvent::Up, &layout);
    assert_eq!(st.cursor, 0);
    st.handle(&DashboardEvent::End, &layout);
    assert_eq!(st.cursor, 3);
    assert_eq!(st.scroll_offset, 9);
    st.handle(&DashboardEvent::Down { term_height: 40 }, &layout);
    assert_eq!(st.cursor, 3);
    st.handle(&DashboardEvent::Home, &layout);
    assert_eq!((st.cursor, st.scroll_offset), (0, 0));
}

#[test]
fn paging_moves_the_cursor_to_a_visible_group() {
    let mut st = DashboardState::new();
    let layout = st.prepare(&snapshot());
    st.scroll_offset = 0;
    st.handle(&DashboardEvent::PageDown, &layout);
    assert_eq!(st.scroll_offset, 20);
    assert_eq!(st.cursor, 3);
    let layout = st.prepare(&snapshot());
    assert_eq!(st.scroll_offset, 9);
    st.handle(&DashboardEvent::PageUp, &layout);
    assert_eq!(st.scroll_offset, 0);
    assert_eq!(st.cursor, 3);
    st.scroll_offset = 25;
    st.handle(&DashboardEvent::PageUp, &layout);
    assert_eq!(st.scroll_offset, 5);
    assert_eq!(st.cursor, 3);
    st.cursor = 3;
    st.scroll_offset = 30;
    st.handle(&DashboardEvent::PageUp, &layout);
    assert_eq!(st.scroll_offset, 10);
    assert_eq!(st.cursor, 0);
}

#[test]
fn mouse_scrolling_saturates() {
    let mut st = DashboardState::new();
    let layout = st.prepare(&snapshot());
    st.handle(&DashboardEvent::ScrollUp, &layout);
    assert_eq!(st.scroll_offset, 0);
    st.handle(&DashboardEvent::ScrollDown, &layout);
    assert_eq!(st.scroll_offset, 3);
    st.scroll_offset = usize::MAX - 1;
    st.handle(&DashboardEvent::ScrollDown, &layout);
    assert_eq!(st.scroll_offset, usize::MAX);
}

#[test]
fn collapse_all_and_quit() {
    let mut st = DashboardState::new();
    let layout = st.prepare(&snapshot());
    assert!(!st.handle(&DashboardEvent::CollapseAll, &layout));
    assert_eq!(st.collapsed.len(), 4);
    let layout = st.prepare(&snapshot());
    assert_eq!(layout.total_rows, 4);
    assert!(!st.handle(&DashboardEvent::Other, &layout));
    assert!(st.handle(&DashboardEvent::Quit, &layout));
}

#[test]
fn prepare_brings_scroll_and_cursor_back_inside() {
    let mut st = DashboardState::new();
    st.scroll_offset = 100;
    st.cursor = 9;
    let layout = st.prepare(&snapshot());
    assert_eq!(st.scroll_offset, layout.total_rows - 1);
    assert_eq!(st.cursor, 3);
}

fn csv_sensor(source: &str, chip: &str, sensor: &str, label: &str, unit: &str) -> CsvSensor {
    CsvSensor { id: sid(source, chip, sensor), label: label.to_string(), unit: unit.to_string() }
}

#[test]
fn csv_columns_are_fixed_by_the_first_row() {
    let mut log = CsvLogger::new();
    let first = vec![
        csv_sensor("net", "eth0", "rx_mbps", "eth0 RX", "MB/s"),
        csv_sensor("cpu", "cpufreq", "cpu1", "Core 1 Frequency", "MHz"),
        csv_sensor("cpu", "cpufreq", "cpu0", "Core 0 Frequency", "MHz"),
    ];
    let row = log.write_row(&first);
    assert_eq!(
        row.header,
        Some(vec![
            "timestamp".to_string(),
            "Core 0 Frequency [MHz]".to_string(),
            "Core 1 Frequency [MHz]".to_string(),
            "eth0 RX [MB/s]".to_string(),
        ])
    );
    let cols: Vec<String> = log.columns().iter().map(|c| c.sensor.clone()).collect();
    assert_eq!(cols, vec!["cpu0", "cpu1", "rx_mbps"]);
    assert_eq!(row.cells, vec![Some(2), Some(1), Some(0)]);

    // A sensor that appeared later has no column; one that has gone leaves an empty cell.
    let second = vec![
        csv_sensor("cpu", "cpufreq", "cpu0", "Core 0 Frequency", "MHz"),
        csv_sensor("zz", "new", "x", "New", ""),
        csv_sensor("net", "eth0", "rx_mbps", "eth0 RX", "MB/s"),
    ];
    let row = log.write_row(&second);
    assert!(row.header.is_none());
    assert_eq!(log.columns().len(), 3);
    assert_eq!(row.cells, vec![Some(0), None, Some(2)]);
}

#[test]
fn csv_empty_first_snapshot_has_no_columns() {
    let mut log = CsvLogger::new();
    let row = log.write_row(&Vec::new());
    assert_eq!(row.header, Some(vec!["timestamp".to_string()]));
    assert!(row.cells.is_empty());
    let later = vec![csv_sensor("cpu", "cpufreq", "cpu0", "Core 0 Frequency", "MHz")];
    let row = log.write_row(&later);
    assert!(row.header.is_none());
    assert!(row.cells.is_empty());
}

fn press(code: KeyCode) -> InputEvent {
    InputEvent::Key { code, press: true }
}

#[test]
fn keys_map_to_events() {
    assert_eq!(event_for(&press(KeyCode::Char('q')), 30), DashboardEvent::Quit);
    assert_eq!(event_for(&press(KeyCode::Esc), 30), DashboardEvent::Quit);
    assert_eq!(event_for(&press(KeyCode::Char('k')), 30), DashboardEvent::Up);
    assert_eq!(event_for(&press(KeyCode::Up), 30), DashboardEvent::Up);
    assert_eq!(event_for(&press(KeyCode::Char('j')), 30), DashboardEvent::Down { term_height: 30 });
    assert_eq!(event_for(&press(KeyCode::Down), 12), DashboardEvent::Down { term_height: 12 });
    assert_eq!(event_for(&press(KeyCode::Enter), 30), DashboardEvent::Toggle);
    assert_eq!(event_for(&press(KeyCode::Char(' ')), 30), DashboardEvent::Toggle);
    assert_eq!(event_for(&press(KeyCode::Char('c')), 30), DashboardEvent::CollapseAll);
    assert_eq!(event_for(&press(KeyCode::Char('e')), 30), DashboardEvent::ExpandAll);
    assert_eq!(event_for(&press(KeyCode::PageUp), 30), DashboardEvent::PageUp);
    assert_eq!(event_for(&press(KeyCode::PageDown), 30), DashboardEvent::PageDown);
    assert_eq!(event_for(&press(KeyCode::Home), 30), DashboardEvent::Home);
    assert_eq!(event_for(&press(KeyCode::End), 30), DashboardEvent::End);
    assert_eq!(event_for(&press(KeyCode::Char('x')), 30), DashboardEvent::Other);
    assert_eq!(event_for(&InputEvent::Key { code: KeyCode::Char('q'), press: false }, 30), DashboardEvent::Other);
    assert_eq!(event_for(&InputEvent::ScrollUp, 30), DashboardEvent::ScrollUp);
    assert_eq!(event_for(&InputEvent::ScrollDown, 30), DashboardEvent::ScrollDown);
    assert_eq!(event_for(&InputEvent::Resize, 30), DashboardEvent::Other);
}

#[test]
fn title_text() {
    assert_eq!(
        title(12, 4, 1, "2m 05s", true),
        " sinfo \u{2014} Sensor Monitor | 12 sensors | 4 groups (1 collapsed) | 2m 05s"
    );
    assert_eq!(
        title(0, 0, 0, "3s", false),
        " sinfo \u{2014} Sensor Monitor | 0 sensors | 0 groups (0 collapsed) | 3s | \u{26a0} run as root for SMART, DMI serials, MSR"
    );
}

#[test]
fn status_line_text() {
    assert_eq!(
        status_line(&Vec::new(), 12, 340),
        " q: quit | \u{2191}\u{2193}: navigate | Enter: toggle | c/e: collapse/expand | Sensors: 12 | Samples: 340"
    );
    assert_eq!(
        status_line(&vec!["CPU hot".to_string(), "Fan 1 stopped".to_string()], 3, 7),
        " \u{26a0} CPU hot | Fan 1 stopped | Sensors: 3 | Samples: 7"
    );
}

#[test]
fn group_header_text() {
    assert_eq!(group_header("hwmon/nct6798", 2, false), " \u{25bc} hwmon/nct6798 (2 sensors)");
    assert_eq!(group_header("net/eth0", 1, true), " \u{25b6} net/eth0 (1 sensor)");
    assert_eq!(group_header("x/y", 0, true), " \u{25b6} x/y (0 sensors)");
}
