use sinfo::model::sensor::SensorId;
use sinfo::sensors::cpu_freq::{CpuFreqFile, CpuFreqSource};
use sinfo::sensors::cpu_util::{parse_stat_content, CpuUtilSource};
use sinfo::sensors::network_stats::{
    is_physical_interface, read_net_stat, NetInterface, NetReading, NetStat, NetworkStatsSource,
};
use sinfo::sensors::poller::{new_state, LatestReading, Poller, SensorState};
use sinfo::strmap::StrMap;

fn freq_file(dir: &str) -> CpuFreqFile {
    CpuFreqFile { cpu_dir: dir.to_string(), path: format!("/sys/devices/system/cpu/{dir}/cpufreq/scaling_cur_freq") }
}

#[test]
fn cpu_freq_discover_orders_cores_and_skips_other_dirs() {
    let files = vec![freq_file("cpu10"), freq_file("cpu2"), freq_file("cpufreq"), freq_file("cpu0")];
    let src = CpuFreqSource::discover(&files);
    let paths = src.freq_paths();
    assert_eq!(paths.len(), 3);
    assert!(paths[0].contains("/cpu0/"));
    assert!(paths[1].contains("/cpu2/"));
    assert!(paths[2].contains("/cpu10/"));
}

#[test]
fn cpu_freq_poll_labels_cores_and_skips_unreadable() {
    let files = vec![freq_file("cpu1"), freq_file("cpu0")];
    let src = CpuFreqSource::discover(&files);
    let r = src.poll(&vec![Some("3400000\n".to_string()), None]);
    assert_eq!(r.len(), 1);
    assert_eq!(r[0].id.source, "cpu");
    assert_eq!(r[0].id.chip, "cpufreq");
    assert_eq!(r[0].id.sensor, "cpu0");
    assert_eq!(r[0].label, "Core 0 Frequency");
    assert_eq!(r[0].khz, 3400000);
}

const STAT_1: &str = "cpu  100 0 50 1000 10 0 0 0 0 0\ncpu0 60 0 30 500 5 0 0 0 0 0\ncpu1 40 0 20 500 5 0 0 0 0 0\nintr 12345\nctxt 999\n";
const STAT_2: &str = "cpu  160 0 70 1100 20 0 0 0 0 0\ncpu0 100 0 40 550 10 0 0 0 0 0\ncpu1 60 0 30 550 10 0 0 0 0 0\n";

#[test]
fn parse_stat_reads_cpu_lines_only() {
    let samples = parse_stat_content(STAT_1);
    assert_eq!(samples.len(), 3);
    assert_eq!(samples[0].total(), 1160);
    assert_eq!(samples[0].idle_total(), 1010);
    assert_eq!(samples[1].total(), 595);
}

#[test]
fn parse_stat_skips_short_and_misnamed_lines() {
    let samples = parse_stat_content("cpu0 1 2 3\ncpux 1 2 3 4 5 6 7 8\ncpu1 1 2 3 4 5 6 7 8\n");
    assert_eq!(samples.len(), 1);
    assert_eq!(samples[0].total(), 36);
}

#[test]
fn cpu_util_poll_gives_deltas_against_previous_sample() {
    let mut src = CpuUtilSource::discover(parse_stat_content(STAT_1));
    let current = parse_stat_content(STAT_2);
    assert!(src.can_poll(&current));
    let r = src.poll(current);
    assert_eq!(r.len(), 3);
    assert_eq!(r[0].id.sensor, "total");
    assert_eq!(r[0].label, "Total CPU Usage");
    assert_eq!(r[0].total_delta, 1350 - 1160);
    assert_eq!(r[0].idle_delta, 1120 - 1010);
    assert_eq!(r[1].id.chip, "utilization");
    assert_eq!(r[1].id.sensor, "cpu0");
    assert_eq!(r[1].label, "Core 0 Usage");
    assert_eq!(r[1].total_delta, 700 - 595);
    assert_eq!(r[2].label, "Core 1 Usage");
}

#[test]
fn cpu_util_repoll_of_same_sample_is_idle() {
    let mut src = CpuUtilSource::discover(parse_stat_content(STAT_2));
    let r = src.poll(parse_stat_content(STAT_2));
    assert_eq!(r.len(), 3);
    for reading in &r {
        assert_eq!(reading.total_delta, 0);
        assert_eq!(reading.idle_delta, 0);
    }
}

#[test]
fn cpu_util_counters_that_go_back_give_zero() {
    let mut src = CpuUtilSource::discover(parse_stat_content(STAT_2));
    let r = src.poll(parse_stat_content(STAT_1));
    assert_eq!(r[0].total_delta, 0);
    assert_eq!(r[0].idle_delta, 0);
}

#[test]
fn cpu_util_new_core_has_no_reading_until_next_poll() {
    let mut src = CpuUtilSource::discover(parse_stat_content("cpu0 1 1 1 1 1 1 1 1\n"));
    let r = src.poll(parse_stat_content("cpu0 2 2 2 2 2 2 2 2\ncpu1 1 1 1 1 1 1 1 1\n"));
    assert_eq!(r.len(), 1);
    let r = src.poll(parse_stat_content("cpu0 3 2 2 2 2 2 2 2\ncpu1 2 1 1 1 1 1 1 1\n"));
    assert_eq!(r.len(), 2);
    assert_eq!(r[1].total_delta, 1);
}

#[test]
fn cpu_util_overflowing_totals_are_refused() {
    let src = CpuUtilSource::discover(parse_stat_content("cpu0 18446744073709551615 1 0 0 0 0 0 0\n"));
    let current = parse_stat_content("cpu0 1 1 1 1 1 1 1 1\n");
    assert!(!src.can_poll(&current));
}

fn iface(name: &str, link: bool, rx: Option<&str>, tx: Option<&str>) -> NetInterface {
    NetInterface {
        name: name.to_string(),
        has_device_link: link,
        rx_bytes: rx.map(|s| s.to_string()),
        tx_bytes: tx.map(|s| s.to_string()),
    }
}

#[test]
fn physical_interfaces() {
    assert!(is_physical_interface("eth0", true));
    assert!(!is_physical_interface("lo", true));
    assert!(!is_physical_interface("docker0", false));
}

#[test]
fn net_stat_needs_both_counters() {
    assert_eq!(read_net_stat(&Some("10\n".to_string()), &Some("20".to_string())), Some(NetStat { rx_bytes: 10, tx_bytes: 20 }));
    assert_eq!(read_net_stat(&Some("10".to_string()), &None), None);
}

#[test]
fn network_poll_gives_byte_deltas() {
    let ifs = vec![
        iface("lo", true, Some("1"), Some("1")),
        iface("eth0", true, Some("1000"), Some("500")),
        iface("veth1", false, Some("1"), Some("1")),
        iface("wlan0", true, None, Some("1")),
    ];
    let mut src = NetworkStatsSource::discover(&ifs);
    let names = src.interfaces();
    assert_eq!(names, vec!["eth0".to_string()]);
    let current = vec![
        ("eth0".to_string(), Some(NetStat { rx_bytes: 3000, tx_bytes: 400 })),
    ];
    let r = src.poll(1_000_000_000, &current);
    assert_eq!(r.len(), 2);
    assert_eq!(r[0].id.source, "net");
    assert_eq!(r[0].id.chip, "eth0");
    assert_eq!(r[0].id.sensor, "rx_mbps");
    assert_eq!(r[0].label, "eth0 RX");
    assert_eq!(r[0].delta_bytes, 2000);
    assert_eq!(r[1].id.sensor, "tx_mbps");
    assert_eq!(r[1].label, "eth0 TX");
    assert_eq!(r[1].delta_bytes, 0);
    let r = src.poll(1_000_000_000, &vec![("eth0".to_string(), Some(NetStat { rx_bytes: 3500, tx_bytes: 900 }))]);
    assert_eq!(r[0].delta_bytes, 500);
    assert_eq!(r[1].delta_bytes, 500);
}

#[test]
fn network_unread_interface_drops_out() {
    let ifs = vec![iface("eth0", true, Some("1"), Some("1"))];
    let mut src = NetworkStatsSource::discover(&ifs);
    let r = src.poll(1_000_000_000, &vec![("eth0".to_string(), None)]);
    assert!(r.is_empty());
    assert!(src.interfaces().is_empty());
}

fn net(delta: u64) -> NetReading {
    NetReading { id: sid("net", "eth0", "rx_mbps"), label: "eth0 RX".to_string(), delta_bytes: delta }
}

fn sid(source: &str, chip: &str, sensor: &str) -> SensorId {
    SensorId { source: source.to_string(), chip: chip.to_string(), sensor: sensor.to_string() }
}

#[test]
fn merge_adds_new_sensors_and_refreshes_known_ones() {
    let mut state: SensorState<NetReading> = new_state();
    state.merge(vec![
        (sid("cpu", "cpufreq", "cpu0"), net(1)),
        (sid("net", "eth0", "rx_mbps"), net(2)),
    ]);
    assert_eq!(state.len(), 2);
    state.merge(vec![
        (sid("net", "eth0", "rx_mbps"), net(5)),
        (sid("cpu", "cpufreq", "cpu1"), net(7)),
        (sid("cpu", "cpufreq", "cpu1"), net(8)),
    ]);
    assert_eq!(state.len(), 3);
    let (id0, r0) = state.entry(0);
    assert_eq!(id0.sensor, "cpu0");
    assert_eq!(r0.delta_bytes, 1);
    let (id1, r1) = state.entry(1);
    assert_eq!(id1.chip, "eth0");
    assert_eq!(r1.delta_bytes, 5);
    let (id2, r2) = state.entry(2);
    assert_eq!(id2.sensor, "cpu1");
    assert_eq!(r2.delta_bytes, 8);
}

#[test]
fn poller_keeps_its_settings() {
    let mut labels = StrMap::new();
    labels.insert("hwmon/nct6798/in0".to_string(), "Vcore".to_string());
    let p = Poller::new(new_state::<NetReading>(), 1000, true, labels);
    assert_eq!(p.interval_ms, 1000);
    assert!(p.no_nvidia);
    assert_eq!(p.label_overrides.get("hwmon/nct6798/in0").unwrap(), "Vcore");
    assert_eq!(p.state.len(), 0);
}

#[test]
fn network_repoll_of_same_counters_reads_no_traffic() {
    let ifs = vec![iface("eth0", true, Some("10"), Some("20")), iface("eth1", true, Some("5"), Some("6"))];
    let mut src = NetworkStatsSource::discover(&ifs);
    let current = vec![
        ("eth0".to_string(), Some(NetStat { rx_bytes: 100, tx_bytes: 200 })),
        ("eth1".to_string(), Some(NetStat { rx_bytes: 50, tx_bytes: 60 })),
    ];
    let first = src.poll(1_000_000_000, &current);
    assert_eq!(first.len(), 4);
    let again = src.poll(1_000_000_000, &current);
    assert_eq!(again.len(), 4);
    for r in &again {
        assert_eq!(r.delta_bytes, 0);
    }
}

#[test]
fn insert_replaces_the_reading_of_a_known_sensor() {
    let mut state: SensorState<NetReading> = new_state();
    state.insert(sid("cpu", "cpufreq", "cpu0"), net(1));
    state.insert(sid("cpu", "cpufreq", "cpu1"), net(2));
    state.insert(sid("cpu", "cpufreq", "cpu0"), net(3));
    assert_eq!(state.len(), 2);
    assert_eq!(state.entry(0).1.delta_bytes, 3);
    assert_eq!(state.entry(1).1.delta_bytes, 2);
}

#[test]
fn network_poll_ignores_interfaces_the_previous_sample_lacks() {
    let ifs = vec![iface("eth0", true, Some("10"), Some("20"))];
    let mut src = NetworkStatsSource::discover(&ifs);
    let current = vec![
        ("eth0".to_string(), Some(NetStat { rx_bytes: 11, tx_bytes: 21 })),
        ("eth9".to_string(), Some(NetStat { rx_bytes: 5, tx_bytes: 5 })),
    ];
    let r = src.poll(1_000_000_000, &current);
    assert_eq!(r.len(), 2);
    assert_eq!(src.interfaces(), vec!["eth0".to_string()]);
}

#[test]
fn latest_reading_is_replaced_on_merge() {
    let mut state: SensorState<LatestReading<u32>> = new_state();
    state.merge(vec![(sid("a", "b", "c"), LatestReading { reading: 1 })]);
    state.merge(vec![(sid("a", "b", "c"), LatestReading { reading: 2 }), (sid("a", "b", "c"), LatestReading { reading: 3 })]);
    assert_eq!(state.len(), 1);
    assert_eq!(state.entry(0).1.reading, 3);
}

#[test]
fn network_poll_without_elapsed_time_reads_nothing() {
    let ifs = vec![iface("eth0", true, Some("10"), Some("20"))];
    let mut src = NetworkStatsSource::discover(&ifs);
    let current = vec![("eth0".to_string(), None)];
    let r = src.poll(0, &current);
    assert!(r.is_empty());
    // The previous sample stays: the unread interface is still there.
    assert_eq!(src.interfaces(), vec!["eth0".to_string()]);
    let r = src.poll(1, &vec![("eth0".to_string(), Some(NetStat { rx_bytes: 15, tx_bytes: 20 }))]);
    assert_eq!(r[0].delta_bytes, 5);
}
