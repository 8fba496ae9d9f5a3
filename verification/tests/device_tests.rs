use btcli::device::{device_from_props, Device, DeviceProps};
use btcli::manager::BluetoothManager;

struct CountingManager {
    pair_calls: usize,
    connect_calls: usize,
    set_pairable_calls: usize,
    pair_ok: bool,
    connect_ok: bool,
}

impl CountingManager {
    fn new(pair_ok: bool, connect_ok: bool) -> CountingManager {
        CountingManager { pair_calls: 0, connect_calls: 0, set_pairable_calls: 0, pair_ok, connect_ok }
    }
}

impl BluetoothManager for CountingManager {
    fn update(&mut self) {}

    fn get_all_devices(&self) -> Vec<DeviceProps> {
        Vec::new()
    }

    fn device_info(&self, _address: &str) -> Option<DeviceProps> {
        None
    }

    fn set_pairable(&mut self, _pairable: bool) {
        self.set_pairable_calls += 1;
    }

    fn scan(&mut self, _duration_secs: u64) {}

    fn pair_device(&mut self, _address: &str) -> bool {
        self.pair_calls += 1;
        self.pair_ok
    }

    fn unpair_device(&mut self, _address: &str) {}

    fn connect_device(&mut self, _address: &str) -> bool {
        self.connect_calls += 1;
        self.connect_ok
    }

    fn disconnect_device(&mut self, _address: &str) {}
}

fn plain_device(name: &str) -> Device {
    let mut d = Device::new(
        String::from("00:11:22:33:44:55"),
        String::from(name),
        false,
        false,
        false,
        false,
        false,
    );
    d.set_name_in_color(false);
    d
}

#[test]
fn pair_on_paired_device_makes_no_transport_call() {
    let mut d = plain_device("Keyboard");
    d.paired = true;
    let mut m = CountingManager::new(false, false);
    assert!(d.pair(&mut m));
    assert_eq!(m.pair_calls, 0);
    assert_eq!(m.set_pairable_calls, 0);
    assert!(d.paired);
}

#[test]
fn connect_on_connected_device_makes_no_transport_call() {
    let mut d = plain_device("Headset");
    d.connected = true;
    let mut m = CountingManager::new(false, false);
    assert!(d.connect(&mut m));
    assert_eq!(m.connect_calls, 0);
    assert!(d.connected);
}

#[test]
fn pair_success_updates_record_optimistically() {
    let mut d = plain_device("Keyboard");
    let mut m = CountingManager::new(true, false);
    assert!(d.pair(&mut m));
    assert_eq!(m.pair_calls, 1);
    assert_eq!(m.set_pairable_calls, 2);
    assert!(d.paired);
    assert!(!d.connected);
}

#[test]
fn pair_failure_leaves_record_unpaired() {
    let mut d = plain_device("Keyboard");
    let mut m = CountingManager::new(false, false);
    assert!(!d.pair(&mut m));
    assert_eq!(m.pair_calls, 1);
    assert!(!d.paired);
}

#[test]
fn connect_success_updates_record() {
    let mut d = plain_device("Mouse");
    let mut m = CountingManager::new(false, true);
    assert!(d.connect(&mut m));
    assert!(d.connected);
}

#[test]
fn unpair_clears_both_flags() {
    let mut d = plain_device("Mouse");
    d.paired = true;
    d.connected = true;
    let mut m = CountingManager::new(false, false);
    assert!(d.unpair(&mut m));
    assert!(!d.paired);
    assert!(!d.connected);
}

#[test]
fn disconnect_clears_both_flags() {
    let mut d = plain_device("Mouse");
    d.paired = true;
    d.connected = true;
    let mut m = CountingManager::new(false, false);
    assert!(d.disconnect(&mut m));
    assert!(!d.paired);
    assert!(!d.connected);
}

#[test]
fn getters_reflect_record_state() {
    let mut d = plain_device("Speaker");
    d.paired = true;
    d.bonded = true;
    d.trusted = false;
    d.blocked = false;
    d.connected = true;
    d.battery = Some(42);
    assert_eq!(d.name().as_str(), "Speaker");
    assert_eq!(d.address().as_str(), "00:11:22:33:44:55");
    assert!(d.is_paired());
    assert!(d.is_bonded());
    assert!(!d.is_trusted());
    assert!(!d.is_blocked());
    assert!(d.is_connected());
    assert_eq!(d.battery(), Some(42));
    assert_eq!(d.name_len(), 7);
}

#[test]
fn colored_name_uses_state_codes() {
    let mut d = plain_device("Buds");
    d.set_name_in_color(true);
    assert_eq!(d.get_name_colored(), "\u{1b}[2;37mBuds\u{1b}[0m");
    d.paired = true;
    assert_eq!(d.get_name_colored(), "\u{1b}[22;39mBuds\u{1b}[0m");
    d.connected = true;
    assert_eq!(d.get_name_colored(), "\u{1b}[1;34mBuds\u{1b}[0m");
    d.set_name_in_color(false);
    assert_eq!(d.get_name_colored(), "Buds");
}

#[test]
fn quoted_name_quotes_only_whitespaced_names() {
    let d = plain_device("My Keyboard");
    assert_eq!(d.quoted_name("'", " "), "'My Keyboard'");
    let p = plain_device("Keyboard");
    assert_eq!(p.quoted_name("'", " "), " Keyboard ");
}

#[test]
fn info_text_lists_the_record() {
    let mut d = plain_device("Buds");
    d.battery = Some(80);
    d.icon = Some(String::from("audio-headset"));
    let text = d.info_text();
    assert_eq!(
        text,
        "00:11:22:33:44:55 Buds\n\tPaired: no\n\tBonded: no\n\tTrusted: no\n\tBlocked: no\n\tConnected: no\n\tBattery Percentage: 80\n\tIcon: audio-headset"
    );
}

#[test]
fn update_info_merges_only_reported_attributes() {
    let mut d = plain_device("Buds");
    d.paired = true;
    let props = DeviceProps {
        address: None,
        alias: None,
        paired: None,
        bonded: Some(true),
        trusted: None,
        blocked: None,
        connected: Some(true),
        remote_name: Some(String::from("BUDS-X")),
        icon: None,
        battery: Some(55),
    };
    d.update_info(&props);
    assert!(d.paired);
    assert!(d.bonded);
    assert!(d.connected);
    assert_eq!(d.battery, Some(55));
    assert_eq!(d.remote_name.as_deref(), Some("BUDS-X"));
    assert_eq!(d.name().as_str(), "Buds");
}

fn full_props(address: &str, alias: &str) -> DeviceProps {
    DeviceProps {
        address: Some(String::from(address)),
        alias: Some(String::from(alias)),
        paired: Some(true),
        bonded: Some(false),
        trusted: Some(true),
        blocked: Some(false),
        connected: Some(false),
        remote_name: Some(String::from("remote")),
        icon: None,
        battery: Some(10),
    }
}

#[test]
fn device_from_props_builds_valid_entry() {
    let p = full_props("AA:BB", "Keys");
    let d = device_from_props(&p).expect("valid entry");
    assert_eq!(d.address().as_str(), "AA:BB");
    assert_eq!(d.name().as_str(), "Keys");
    assert!(d.is_paired());
    assert!(!d.is_bonded());
    assert!(d.is_trusted());
    assert_eq!(d.battery(), Some(10));
}

#[test]
fn device_from_props_rejects_missing_required_attribute() {
    let mut p = full_props("AA:BB", "Keys");
    p.paired = None;
    assert!(device_from_props(&p).is_none());
}

#[test]
fn device_from_props_rejects_empty_address() {
    let p = full_props("", "Keys");
    assert!(device_from_props(&p).is_none());
}

#[test]
fn device_from_props_rejects_overlong_name() {
    let long = "x".repeat(249);
    let p = full_props("AA:BB", &long);
    assert!(device_from_props(&p).is_none());
    let edge = "x".repeat(248);
    let q = full_props("AA:BB", &edge);
    assert!(device_from_props(&q).is_some());
}
