use sinfo::sensors::superio::chip_detect::{ChipType, SuperIoChip};
use sinfo::sensors::superio::nct67xx::{
    chip_name, fan_rpm, read_word, register_select, temp_connected, Nct67xxSource, NctRegisters, NctValue,
    FAN_RPM_FACTOR, VOLTAGE_REGS, VOLTAGE_SCALE_NCT6798,
};

#[test]
fn test_voltage_scale_array_length() {
    assert_eq!(VOLTAGE_SCALE_NCT6798.len(), VOLTAGE_REGS.len());
}

#[test]
fn test_voltage_calculation() {
    // Raw value 96 with scale 800 should give 0.768V
    let raw = 96u8;
    let scale = 800u32;
    let mv = raw as f64 * scale as f64 / 100.0;
    let volts = mv / 1000.0;
    assert!((volts - 0.768).abs() < 0.001);
}

#[test]
fn test_fan_rpm_calculation() {
    // Count value of 675 should give 2000 RPM
    let count = 675u32;
    let rpm = FAN_RPM_FACTOR / count;
    assert_eq!(rpm, 2000);
}

#[test]
fn test_fan_rpm_zero_count() {
    // Count 0 means stopped — should not divide by zero
    let count = 0u32;
    if count == 0 {
        // Handled as stopped fan
        assert!(true);
    }
}

#[test]
fn fan_rpm_of_counts() {
    assert_eq!(fan_rpm(675), 2000);
    assert_eq!(fan_rpm(0), 0);
    assert_eq!(fan_rpm(0xFFFF), 0);
    assert_eq!(fan_rpm(1), 1_350_000);
}

#[test]
fn register_select_splits_bank_and_index() {
    assert_eq!(register_select(0x4C2), (4, 0xC2));
    assert_eq!(register_select(0x027), (0, 0x27));
}

#[test]
fn temperature_bytes_that_hold_readings() {
    assert!(!temp_connected(0));
    assert!(!temp_connected(0x80));
    assert!(temp_connected(45));
    assert!(temp_connected(0xFF));
}

#[test]
fn chip_names() {
    assert_eq!(chip_name(ChipType::Nct6798), "nct6798");
    assert_eq!(chip_name(ChipType::Nct6775), "nct6775");
}

fn source(chip: ChipType) -> Nct67xxSource {
    Nct67xxSource::new(SuperIoChip { chip, hwm_base: 0x290 })
}

#[test]
fn ports_follow_the_base() {
    let s = source(ChipType::Nct6798);
    assert_eq!(s.address_port(), 0x295);
    assert_eq!(s.data_port_number(), 0x296);
}

#[test]
fn supported_chips() {
    assert!(source(ChipType::Nct6798).is_supported());
    assert!(source(ChipType::Nct6775).is_supported());
    assert!(!source(ChipType::Other(0x1234)).is_supported());
}

fn empty_registers() -> NctRegisters {
    NctRegisters {
        voltages: [None; 18],
        temps: [None; 7],
        extra_temps: [(None, None); 5],
        fans: [(None, None); 7],
    }
}

#[test]
fn poll_with_no_register_read_gives_nothing() {
    let s = source(ChipType::Nct6798);
    assert!(s.poll(&empty_registers()).is_empty());
}

#[test]
fn poll_reads_each_table_in_order() {
    let s = source(ChipType::Nct6798);
    let mut regs = empty_registers();
    regs.voltages[0] = Some(96);
    regs.voltages[1] = Some(0); // unconnected input
    regs.voltages[8] = Some(200);
    regs.temps[2] = Some(45);
    regs.temps[3] = Some(0x80); // disconnected
    regs.temps[4] = Some(0xF6); // -10 degrees
    regs.extra_temps[1] = (Some(50), Some(0x80));
    regs.extra_temps[2] = (Some(0), Some(0x80));
    regs.fans[0] = (Some(0x02), Some(0xA3)); // 675
    regs.fans[1] = (Some(0), Some(0)); // stopped
    regs.fans[2] = (Some(0x02), None); // low byte unread
    let r = s.poll(&regs);
    assert_eq!(r.len(), 7);

    assert_eq!(r[0].id.source, "superio");
    assert_eq!(r[0].id.chip, "nct6798");
    assert_eq!(r[0].id.sensor, "vin0");
    assert_eq!(r[0].label, "VIN0");
    assert_eq!(r[0].value, NctValue::Voltage { raw: 96, scale: 800 });

    assert_eq!(r[1].id.sensor, "vin8");
    assert_eq!(r[1].label, "VBAT");
    assert_eq!(r[1].value, NctValue::Voltage { raw: 200, scale: 1600 });

    assert_eq!(r[2].id.sensor, "cputin");
    assert_eq!(r[2].label, "CPUTIN");
    assert_eq!(r[2].value, NctValue::Temperature { degrees: 45, half: false });

    assert_eq!(r[3].id.sensor, "auxtin0");
    assert_eq!(r[3].value, NctValue::Temperature { degrees: -10, half: false });

    assert_eq!(r[4].id.sensor, "auxtin0_direct");
    assert_eq!(r[4].label, "AUXTIN0 Direct");
    assert_eq!(r[4].value, NctValue::Temperature { degrees: 50, half: true });

    assert_eq!(r[5].id.sensor, "fan1");
    assert_eq!(r[5].label, "Fan 1");
    assert_eq!(r[5].value, NctValue::FanRpm(2000));

    assert_eq!(r[6].id.sensor, "fan2");
    assert_eq!(r[6].value, NctValue::FanRpm(0));
}

#[test]
fn words_need_both_bytes() {
    assert_eq!(read_word(Some(0x02), Some(0xA3)), Some(675));
    assert_eq!(read_word(Some(0xFF), Some(0xFF)), Some(0xFFFF));
    assert_eq!(read_word(Some(0x02), None), None);
    assert_eq!(read_word(None, Some(0x02)), None);
}
