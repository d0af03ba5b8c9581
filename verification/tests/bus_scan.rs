use sinfo::sensors::i2c::bus_scan::{
    classify_adapter, classify_lowered, enumerate_buses, enumerate_smbus_adapters, probe_address,
    smbus_only, I2cAdapterType, I2cBusEntry, ProbeOutcome,
};

#[test]
fn classify_piix4() {
    assert_eq!(classify_adapter("SMBus PIIX4 adapter port 0 at 0b00"), I2cAdapterType::Piix4Smbus);
}

#[test]
fn classify_i801() {
    assert_eq!(classify_adapter("SMBus I801 adapter at efa0"), I2cAdapterType::I801);
}

#[test]
fn classify_nvidia() {
    assert_eq!(classify_adapter("NVIDIA i2c adapter 1 at 1:00.0"), I2cAdapterType::Nvidia);
}

#[test]
fn classify_designware() {
    assert_eq!(classify_adapter("Synopsys DesignWare I2C adapter"), I2cAdapterType::DesignWare);
}

#[test]
fn classify_other() {
    let t = classify_adapter("Some Unknown Adapter");
    assert!(matches!(t, I2cAdapterType::Other(_)));
}

#[test]
fn smbus_check() {
    assert!(I2cAdapterType::Piix4Smbus.is_smbus());
    assert!(I2cAdapterType::I801.is_smbus());
    assert!(!I2cAdapterType::Nvidia.is_smbus());
    assert!(!I2cAdapterType::DesignWare.is_smbus());
    assert!(!I2cAdapterType::Other("x".into()).is_smbus());
}

#[test]
fn classify_is_case_insensitive_through_lowercasing() {
    // Only the lowercased name contains "piix4" here.
    assert_eq!(classify_adapter("SMBUS PIIX4 ADAPTER"), I2cAdapterType::Piix4Smbus);
    assert_eq!(classify_adapter("designware i2c"), I2cAdapterType::DesignWare);
}

#[test]
fn classify_other_keeps_the_name() {
    assert_eq!(classify_adapter("Some Unknown Adapter"), I2cAdapterType::Other("Some Unknown Adapter".to_string()));
}

#[test]
fn classify_lowered_uses_the_given_lowercase() {
    assert_eq!(classify_lowered("X", "smbus i801"), I2cAdapterType::I801);
}

fn entry(dir: &str, name: Option<&str>) -> I2cBusEntry {
    I2cBusEntry { dir_name: dir.to_string(), name_content: name.map(|s| s.to_string()) }
}

#[test]
fn enumerate_buses_sorts_by_bus_number_and_skips_unnamed() {
    let entries = vec![
        entry("i2c-10", Some("NVIDIA i2c adapter 1 at 1:00.0\n")),
        entry("i2c-2", Some("SMBus PIIX4 adapter port 0 at 0b00\n")),
        entry("i2c-x", Some("SMBus I801 adapter at efa0")),
        entry("i2c-3", None),
        entry("other", Some("SMBus I801 adapter at efa0")),
    ];
    let buses = enumerate_buses(&entries);
    assert_eq!(buses.len(), 2);
    assert_eq!(buses[0].bus_num, 2);
    assert_eq!(buses[0].adapter_type, I2cAdapterType::Piix4Smbus);
    assert_eq!(buses[1].bus_num, 10);
    assert_eq!(buses[1].adapter_type, I2cAdapterType::Nvidia);
}

#[test]
fn enumerate_smbus_adapters_keeps_only_smbus() {
    let entries = vec![
        entry("i2c-1", Some("Synopsys DesignWare I2C adapter")),
        entry("i2c-0", Some("SMBus I801 adapter at efa0")),
        entry("i2c-5", Some("SMBus PIIX4 adapter port 2 at 0b00")),
    ];
    let buses = enumerate_smbus_adapters(&entries);
    assert_eq!(buses.len(), 2);
    assert_eq!(buses[0].bus_num, 0);
    assert_eq!(buses[1].bus_num, 5);
    let all = enumerate_buses(&entries);
    assert_eq!(smbus_only(all).len(), 2);
}

#[test]
fn probe_address_counts_only_answers() {
    assert!(probe_address(&ProbeOutcome::Answered(0)));
    assert!(!probe_address(&ProbeOutcome::ReadFailed));
    assert!(!probe_address(&ProbeOutcome::OpenFailed));
}
