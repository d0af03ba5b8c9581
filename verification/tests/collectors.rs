use sinfo::collectors::audio::{card_headers, classify_bus_type, device, parse_card, read_codec};
use sinfo::collectors::me::{collect as collect_me, MeiDevice};
use sinfo::collectors::usb::{classify_speed, collect as collect_usb, collect_device, parse_max_power, UsbEntry};
use sinfo::model::audio::AudioBusType;
use sinfo::model::usb::UsbSpeed;

#[test]
fn parse_card_header_line() {
    let h = parse_card(" 0 [NVidia         ]: HDA-Intel - HDA NVidia").unwrap();
    assert_eq!(h.card_index, 0);
    assert_eq!(h.card_id, "NVidia");
    assert_eq!(h.driver, "HDA-Intel");
    assert_eq!(h.card_long_name, "HDA NVidia");
    assert_eq!(h.bus_type, AudioBusType::HdAudio);
}

#[test]
fn parse_card_without_long_name() {
    let h = parse_card(" 3 [Loop ]: Loopback").unwrap();
    assert_eq!(h.card_index, 3);
    assert_eq!(h.driver, "Loopback");
    assert_eq!(h.card_long_name, "");
    assert_eq!(h.bus_type, AudioBusType::Virtual);
}

#[test]
fn parse_card_rejects_malformed_lines() {
    assert!(parse_card("no bracket here").is_none());
    assert!(parse_card(" x [Id]: HDA-Intel - Name").is_none());
    assert!(parse_card(" 1 [Id: HDA-Intel").is_none());
    assert!(parse_card(" 1 [Id]HDA-Intel").is_none());
}

#[test]
fn bus_types_by_driver() {
    assert_eq!(classify_bus_type("USB-Audio"), AudioBusType::Usb);
    assert_eq!(classify_bus_type("AC97"), AudioBusType::Ac97);
    assert_eq!(classify_bus_type("Dummy"), AudioBusType::Virtual);
    assert_eq!(classify_bus_type("snd_soc"), AudioBusType::Unknown("snd_soc".to_string()));
}

#[test]
fn card_headers_take_every_other_line_and_sort() {
    let content = " 1 [Generic        ]: HDA-Intel - HD-Audio Generic\n                      HD-Audio Generic at 0xfcd00000 irq 91\n 0 [NVidia         ]: HDA-Intel - HDA NVidia\n                      HDA NVidia at 0xfb080000 irq 17\n";
    let hs = card_headers(content);
    assert_eq!(hs.len(), 2);
    assert_eq!(hs[0].card_index, 0);
    assert_eq!(hs[1].card_index, 1);
    assert_eq!(hs[1].card_long_name, "HD-Audio Generic");
}

#[test]
fn codec_is_the_first_non_empty_codec_line() {
    assert_eq!(read_codec(Some("Vendor Id: 1\nCodec:   \nCodec: Realtek ALC1220\nCodec: Other\n".to_string())), Some("Realtek ALC1220".to_string()));
    assert_eq!(read_codec(Some("Vendor Id: 1\n".to_string())), None);
    assert_eq!(read_codec(None), None);
}

#[test]
fn device_keeps_header_codec_and_address() {
    let h = parse_card(" 2 [Audio ]: USB-Audio - USB Audio Device").unwrap();
    let d = device(h, Some("ALC".to_string()), Some("0000:0a:00.4".to_string()));
    assert_eq!(d.card_index, 2);
    assert_eq!(d.card_id, "Audio");
    assert_eq!(d.bus_type, AudioBusType::Usb);
    assert_eq!(d.codec, Some("ALC".to_string()));
    assert_eq!(d.pci_bus_address, Some("0000:0a:00.4".to_string()));
}

#[test]
fn me_first_device_with_a_version_decides() {
    let devices = vec![
        MeiDevice { path: "/sys/class/mei/mei0".to_string(), fw_ver: Some("N/A".to_string()) },
        MeiDevice { path: "/sys/class/mei/mei1".to_string(), fw_ver: Some(" 0:16.1.25.2091\n".to_string()) },
    ];
    let me = collect_me(&devices, None).unwrap();
    assert_eq!(me.device_path, "/sys/class/mei/mei1");
    assert_eq!(me.firmware_version, Some("0:16.1.25.2091".to_string()));
}

#[test]
fn me_falls_back_to_mei0() {
    let me = collect_me(&Vec::new(), Some("0:15.0.0.1".to_string())).unwrap();
    assert_eq!(me.device_path, "/sys/class/mei/mei0");
    assert_eq!(me.firmware_version, Some("0:15.0.0.1".to_string()));
    assert!(collect_me(&Vec::new(), None).is_none());
    assert!(collect_me(&Vec::new(), Some("".to_string())).is_none());
}

#[test]
fn usb_speeds() {
    assert_eq!(classify_speed("1.5"), UsbSpeed::Low);
    assert_eq!(classify_speed("12"), UsbSpeed::Full);
    assert_eq!(classify_speed("480"), UsbSpeed::High);
    assert_eq!(classify_speed("5000"), UsbSpeed::Super);
    assert_eq!(classify_speed("10000"), UsbSpeed::SuperPlus);
    assert_eq!(classify_speed("20000"), UsbSpeed::SuperPlus2x2);
    assert_eq!(classify_speed("40000"), UsbSpeed::Unknown("40000".to_string()));
}

#[test]
fn usb_max_power() {
    assert_eq!(parse_max_power("500mA"), Some(500));
    assert_eq!(parse_max_power(" 100 mA"), Some(100));
    assert_eq!(parse_max_power("1 0mA"), None);
    assert_eq!(parse_max_power("100 mA"), Some(100));
    assert_eq!(parse_max_power("0mA"), Some(0));
    assert_eq!(parse_max_power("500"), None);
}

fn usb_entry(name: &str, bus: &str, devpath: &str, vendor: &str) -> UsbEntry {
    UsbEntry {
        name: name.to_string(),
        id_vendor: Some(format!("{vendor}\n")),
        id_product: Some("0001\n".to_string()),
        busnum: Some(format!("{bus}\n")),
        devnum: Some("4\n".to_string()),
        devpath: Some(format!("{devpath}\n")),
        manufacturer: Some("Logitech\n".to_string()),
        product: Some("To Be Filled By O.E.M.".to_string()),
        serial: None,
        version: Some(" 2.00\n".to_string()),
        device_class: Some("09\n".to_string()),
        speed: Some("480\n".to_string()),
        max_power: Some("100mA\n".to_string()),
    }
}

#[test]
fn usb_device_from_attributes() {
    let d = collect_device(&usb_entry("1-2", "1", "2", "046d")).unwrap();
    assert_eq!(d.vendor_id, 0x046d);
    assert_eq!(d.product_id, 1);
    assert_eq!(d.bus, 1);
    assert_eq!(d.devnum, 4);
    assert_eq!(d.port_path, "2");
    assert_eq!(d.manufacturer, Some("Logitech".to_string()));
    assert_eq!(d.product, None);
    assert_eq!(d.serial_number, None);
    assert_eq!(d.usb_version, Some("2.00".to_string()));
    assert_eq!(d.device_class, 9);
    assert_eq!(d.speed, UsbSpeed::High);
    assert_eq!(d.max_power_ma, Some(100));
    assert_eq!(d.sysfs_id, "1-2");
}

#[test]
fn usb_device_needs_ids_and_numbers() {
    let mut e = usb_entry("1-2", "1", "2", "046d");
    e.id_vendor = None;
    assert!(collect_device(&e).is_none());
    let mut e = usb_entry("1-2", "1", "2", "zz");
    e.devpath = None;
    assert!(collect_device(&e).is_none());
    let mut e = usb_entry("1-2", "1", "2", "046d");
    e.devpath = None;
    e.speed = None;
    let d = collect_device(&e).unwrap();
    assert_eq!(d.port_path, "0");
    assert_eq!(d.speed, UsbSpeed::Unknown("unknown".to_string()));
}

#[test]
fn usb_collect_skips_interfaces_and_sorts() {
    let entries = vec![
        usb_entry("2-1", "2", "1", "1d6b"),
        usb_entry("1-10", "1", "10", "1d6b"),
        usb_entry("1-2:1.0", "1", "2", "1d6b"),
        usb_entry("1-2", "1", "2", "1d6b"),
    ];
    let ds = collect_usb(&entries);
    assert_eq!(ds.len(), 3);
    assert_eq!((ds[0].bus, ds[0].port_path.as_str()), (1, "10"));
    assert_eq!((ds[1].bus, ds[1].port_path.as_str()), (1, "2"));
    assert_eq!((ds[2].bus, ds[2].port_path.as_str()), (2, "1"));
}
