use liischte::sysfs::{
    parse_attribute_int, BacklightDevice, BatteryPowerDevice, ChargePoller, Device,
    MainsPowerDevice, PowerDevice, PowerDeviceKind,
};

#[test]
fn attribute_files_trim_and_parse() {
    assert_eq!(parse_attribute_int("42\n"), Some(42));
    assert_eq!(parse_attribute_int("  -3 \n"), Some(-3));
    assert_eq!(parse_attribute_int("oops"), None);
    assert_eq!(parse_attribute_int(""), None);
}

#[test]
fn device_paths_are_assembled() {
    let device = Device::new("/sys/class/power_supply", "BAT0");
    assert_eq!(device.name, "BAT0");
    assert_eq!(device.path, "/sys/class/power_supply/BAT0");
    assert_eq!(device.attribute_path("energy_full"), "/sys/class/power_supply/BAT0/energy_full");
}

#[test]
fn power_kinds_decode_from_the_type_attribute() {
    assert_eq!(PowerDeviceKind::parse("Mains\n"), PowerDeviceKind::Mains);
    assert_eq!(PowerDeviceKind::parse("Battery\n"), PowerDeviceKind::Battery);
    assert_eq!(PowerDeviceKind::parse("UPS\n"), PowerDeviceKind::Unknown);

    let device = Device::new("/sys/class/power_supply", "AC");
    let classified = PowerDevice::classify(device, Some("Mains\n"));
    assert_eq!(classified.kind, PowerDeviceKind::Mains);
    let unreadable = PowerDevice::classify(Device::new("/sys/class/power_supply", "X"), None);
    assert_eq!(unreadable.kind, PowerDeviceKind::Unknown);
}

#[test]
fn online_reads_one_as_on() {
    assert_eq!(MainsPowerDevice::online_from_attribute("1\n"), Some(true));
    assert_eq!(MainsPowerDevice::online_from_attribute("0\n"), Some(false));
    assert_eq!(MainsPowerDevice::online_from_attribute("2\n"), Some(false));
    assert_eq!(MainsPowerDevice::online_from_attribute("?\n"), None);
}

#[test]
fn hotplug_events_match_by_device_name() {
    let mains = MainsPowerDevice(PowerDevice::classify(
        Device::new("/sys/class/power_supply", "AC"),
        Some("Mains"),
    ));
    assert!(mains.matches_event("AC"));
    assert!(!mains.matches_event("BAT0"));
}

#[test]
fn charge_readings_coalesce() {
    assert_eq!(BatteryPowerDevice::charge_percent_from_attribute("57\n"), Some(57));
    let mut poller = ChargePoller::new();
    // the first reading is always delivered
    assert!(poller.on_reading(57));
    // an unchanged poll is not
    assert!(!poller.on_reading(57));
    assert!(poller.on_reading(56));
    assert!(!poller.on_reading(56));
}

#[test]
fn backlights_need_a_numeric_maximum() {
    let device = Device::new("/sys/class/backlight", "intel_backlight");
    let backlight = BacklightDevice::accept(device, "400\n").unwrap();
    assert_eq!(backlight.max, 400);
    assert_eq!(backlight.brightness_permille(100), 250);
    assert_eq!(backlight.brightness_permille(400), 1000);
    assert!(backlight.matches_event("intel_backlight"));

    let bad = BacklightDevice::accept(Device::new("/sys/class/backlight", "x"), "?");
    assert!(bad.is_none());
    let negative = BacklightDevice::accept(Device::new("/sys/class/backlight", "x"), "-4");
    assert!(negative.is_none());
}
