use sinfo::db::sensor_labels::{builtin_labels, load_labels, read_board_name};
use sinfo::strmap::StrMap;

#[test]
fn test_builtin_labels_wrx90e() {
    let labels = builtin_labels("Pro WS WRX90E-SAGE SE");
    assert_eq!(labels.get("hwmon/nct6798/in0").unwrap(), "Vcore");
    assert_eq!(labels.get("hwmon/nct6798/fan7").unwrap(), "AIO Pump");
}

#[test]
fn test_builtin_labels_crosshair_x670() {
    let labels = builtin_labels("ROG CROSSHAIR X670E HERO");
    assert_eq!(labels.get("hwmon/nct6798/fan1").unwrap(), "CPU Fan");
    assert_eq!(labels.get("hwmon/nct6798/fan2").unwrap(), "CPU OPT");
}

#[test]
fn test_builtin_labels_unknown_board() {
    let labels = builtin_labels("Some Unknown Board");
    assert!(labels.is_empty());
}

#[test]
fn test_user_labels_override_builtin() {
    let mut user = StrMap::new();
    user.insert("hwmon/nct6798/in0".into(), "My Custom Vcore".into());

    let labels = load_labels(Some("WRX90E-SAGE SE"), &user);
    // User label takes precedence over the built-in "Vcore"
    assert_eq!(labels.get("hwmon/nct6798/in0").unwrap(), "My Custom Vcore");
    // Built-in labels for other sensors still present
    assert_eq!(labels.get("hwmon/nct6798/fan1").unwrap(), "CPU Fan");
}

#[test]
fn test_load_labels_no_board() {
    let mut user = StrMap::new();
    user.insert("hwmon/coretemp/temp1".into(), "CPU Package".into());

    let labels = load_labels(None, &user);
    assert_eq!(labels.len(), 1);
    assert_eq!(labels.get("hwmon/coretemp/temp1").unwrap(), "CPU Package");
}

#[test]
fn builtin_labels_crosshair_has_no_wrx90e_pump() {
    let labels = builtin_labels("ROG CROSSHAIR X670E HERO");
    assert!(labels.get("hwmon/nct6798/fan7").is_none());
}

#[test]
fn load_labels_unknown_board_keeps_only_user_labels() {
    let mut user = StrMap::new();
    user.insert("hwmon/nct6798/in0".into(), "Mine".into());
    let labels = load_labels(Some("Some Unknown Board"), &user);
    assert_eq!(labels.len(), 1);
    assert_eq!(labels.get("hwmon/nct6798/in0").unwrap(), "Mine");
}

#[test]
fn load_labels_without_user_labels_is_the_builtin_table() {
    let user = StrMap::new();
    let labels = load_labels(Some("Pro WS WRX90E-SAGE SE"), &user);
    let builtin = builtin_labels("Pro WS WRX90E-SAGE SE");
    assert_eq!(labels.len(), builtin.len());
    assert_eq!(labels.get("hwmon/nct6798/in0").unwrap(), "Vcore");
}

#[test]
fn read_board_name_trims_and_drops_missing() {
    assert_eq!(read_board_name(Some("  ROG CROSSHAIR X670E HERO\n".to_string())), Some("ROG CROSSHAIR X670E HERO".to_string()));
    assert_eq!(read_board_name(None), None);
}
