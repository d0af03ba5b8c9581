use sinfo::platform::procfs::{meminfo_values_fit, parse_cpuinfo_content, parse_meminfo_content};

#[test]
fn test_parse_meminfo_basic() {
    let content = "\
MemTotal:       32617396 kB
MemFree:         1234567 kB
MemAvailable:   20000000 kB
Buffers:          456789 kB
SwapTotal:       8388608 kB
SwapFree:        8388608 kB
HugePages_Total:       0
";
    let map = parse_meminfo_content(content);
    assert_eq!(*map.get("MemTotal").unwrap(), 32617396 * 1024);
    assert_eq!(*map.get("MemFree").unwrap(), 1234567 * 1024);
    assert_eq!(*map.get("MemAvailable").unwrap(), 20000000 * 1024);
    assert_eq!(*map.get("SwapTotal").unwrap(), 8388608 * 1024);
    assert_eq!(*map.get("HugePages_Total").unwrap(), 0);
}

#[test]
fn test_parse_meminfo_empty() {
    let map = parse_meminfo_content("");
    assert!(map.is_empty());
}

#[test]
fn test_parse_cpuinfo_single_processor() {
    let content = "\
processor\t: 0
vendor_id\t: AuthenticAMD
cpu family\t: 25
model\t\t: 33
model name\t: AMD Ryzen 9 5950X
stepping\t: 2
cpu MHz\t\t: 3400.000
";
    let cpus = parse_cpuinfo_content(content);
    assert_eq!(cpus.len(), 1);
    assert_eq!(cpus[0].get("processor").unwrap(), "0");
    assert_eq!(cpus[0].get("vendor_id").unwrap(), "AuthenticAMD");
    assert_eq!(cpus[0].get("cpu family").unwrap(), "25");
    assert_eq!(cpus[0].get("model").unwrap(), "33");
    assert_eq!(cpus[0].get("model name").unwrap(), "AMD Ryzen 9 5950X");
}

#[test]
fn test_parse_cpuinfo_two_processors() {
    let content = "\
processor\t: 0
vendor_id\t: GenuineIntel
model name\t: Intel(R) Core(TM) i7-12700K

processor\t: 1
vendor_id\t: GenuineIntel
model name\t: Intel(R) Core(TM) i7-12700K
";
    let cpus = parse_cpuinfo_content(content);
    assert_eq!(cpus.len(), 2);
    assert_eq!(cpus[0].get("processor").unwrap(), "0");
    assert_eq!(cpus[1].get("processor").unwrap(), "1");
}

#[test]
fn test_parse_cpuinfo_empty() {
    let cpus = parse_cpuinfo_content("");
    assert!(cpus.is_empty());
}

#[test]
fn test_parse_cpuinfo_no_trailing_newline() {
    let content = "processor\t: 0\nvendor_id\t: AuthenticAMD";
    let cpus = parse_cpuinfo_content(content);
    assert_eq!(cpus.len(), 1);
    assert_eq!(cpus[0].get("vendor_id").unwrap(), "AuthenticAMD");
}

#[test]
fn meminfo_unparsable_value_counts_as_zero() {
    let map = parse_meminfo_content("Weird:  lots kB\nPlain: 12\nNoColonHere 5\n");
    assert_eq!(*map.get("Weird").unwrap(), 0);
    assert_eq!(*map.get("Plain").unwrap(), 12);
    assert_eq!(map.len(), 2);
}

#[test]
fn meminfo_later_line_replaces_earlier_key() {
    let map = parse_meminfo_content("A: 1\nA: 2 kB\n");
    assert_eq!(*map.get("A").unwrap(), 2048);
    assert_eq!(map.len(), 1);
}

#[test]
fn meminfo_fit_check_rejects_overflowing_kilobytes() {
    assert!(meminfo_values_fit("MemTotal: 32617396 kB\n"));
    assert!(!meminfo_values_fit("Huge: 18446744073709551615 kB\n"));
}

#[test]
fn cpuinfo_blank_lines_separate_and_collapse() {
    let cpus = parse_cpuinfo_content("\n\nprocessor : 0\n   \n\nprocessor : 1\nflags : fpu vme\n\n");
    assert_eq!(cpus.len(), 2);
    assert_eq!(cpus[1].get("flags").unwrap(), "fpu vme");
}

#[test]
fn cpuinfo_line_without_colon_is_skipped() {
    let cpus = parse_cpuinfo_content("processor : 3\ngarbage line\n");
    assert_eq!(cpus.len(), 1);
    assert_eq!(cpus[0].len(), 1);
    assert_eq!(cpus[0].get("processor").unwrap(), "3");
}
