use btcli::device::{Device, DeviceProps};
use btcli::TermSize;
use btcli::manager::{pairable, BluetoothManager};
use btcli::registry::{devices_from_snapshot, DeviceList, FilterBehaviour};

struct SnapshotManager {
    entries: Vec<DeviceProps>,
    pair_ok: bool,
    pair_calls: usize,
}

fn props(address: &str, alias: &str) -> DeviceProps {
    DeviceProps {
        address: Some(String::from(address)),
        alias: Some(String::from(alias)),
        paired: Some(false),
        bonded: Some(false),
        trusted: Some(false),
        blocked: Some(false),
        connected: Some(false),
        remote_name: None,
        icon: None,
        battery: None,
    }
}

impl BluetoothManager for SnapshotManager {
    fn update(&mut self) {}

    fn get_all_devices(&self) -> Vec<DeviceProps> {
        let mut v = Vec::new();
        for e in &self.entries {
            v.push(DeviceProps {
                address: e.address.clone(),
                alias: e.alias.clone(),
                paired: e.paired,
                bonded: e.bonded,
                trusted: e.trusted,
                blocked: e.blocked,
                connected: e.connected,
                remote_name: e.remote_name.clone(),
                icon: e.icon.clone(),
                battery: e.battery,
            });
        }
        v
    }

    fn device_info(&self, _address: &str) -> Option<DeviceProps> {
        None
    }

    fn set_pairable(&mut self, _pairable: bool) {}

    fn scan(&mut self, _duration_secs: u64) {}

    fn pair_device(&mut self, _address: &str) -> bool {
        self.pair_calls += 1;
        self.pair_ok
    }

    fn unpair_device(&mut self, _address: &str) {}

    fn connect_device(&mut self, _address: &str) -> bool {
        false
    }

    fn disconnect_device(&mut self, _address: &str) {}
}

fn device(name: &str) -> Device {
    Device::new(
        String::from("AA:00"),
        String::from(name),
        false,
        false,
        false,
        false,
        false,
    )
}

fn sample_list() -> DeviceList {
    let mut list = DeviceList::new();
    list.set_print_in_color(false);
    list.add_device(device("Keyboard"));
    list.add_device(device("Headset"));
    list.add_device(device("Mouse"));
    list
}

#[test]
fn add_device_tracks_metadata() {
    let mut list = DeviceList::new();
    list.set_print_in_color(false);
    assert_eq!(list.max_name_len, 0);
    assert_eq!(list.min_name_len, 0);
    list.add_device(device("Keyboard"));
    assert_eq!(list.max_name_len, 8);
    assert_eq!(list.min_name_len, 8);
    assert!(!list.quote_names);
    list.add_device(device("My Mouse"));
    assert_eq!(list.max_name_len, 8);
    assert_eq!(list.min_name_len, 8);
    assert!(list.quote_names);
    list.add_device(device("Pen"));
    assert_eq!(list.max_name_len, 8);
    assert_eq!(list.min_name_len, 3);
}

#[test]
fn fill_skips_malformed_entries() {
    let mut bad = props("BB:11", "NoFlags");
    bad.connected = None;
    let manager = SnapshotManager {
        entries: vec![props("AA:00", "Keyboard"), bad, props("CC:22", "Mouse")],
        pair_ok: false,
        pair_calls: 0,
    };
    let mut list = DeviceList::new();
    list.fill(&manager);
    assert_eq!(list.devices.len(), 2);
    assert_eq!(list.devices[0].name().as_str(), "Keyboard");
    assert_eq!(list.devices[1].name().as_str(), "Mouse");
}

#[test]
fn devices_from_snapshot_drops_empty_address_and_long_name() {
    let entries = vec![
        props("", "Keyboard"),
        props("AA:00", &"y".repeat(249)),
        props("BB:11", "Mouse"),
    ];
    let records = devices_from_snapshot(&entries);
    assert_eq!(records.len(), 1);
    assert_eq!(records[0].name().as_str(), "Mouse");
}

#[test]
fn filtered_name_full_matches_whole_name() {
    let list = sample_list();
    let r = list.filtered_name_full("Mouse");
    assert_eq!(r.devices.len(), 1);
    assert_eq!(r.devices[0].name().as_str(), "Mouse");
    assert_eq!(list.filtered_name_full("Mous").devices.len(), 0);
}

#[test]
fn filtered_name_contains_matches_substring() {
    let list = sample_list();
    let r = list.filtered_name_contains("se");
    assert_eq!(r.devices.len(), 2);
    assert_eq!(r.devices[0].name().as_str(), "Headset");
    assert_eq!(r.devices[1].name().as_str(), "Mouse");
}

#[test]
fn filtered_name_contains_regex_matches_within() {
    let list = sample_list();
    let r = list.filtered_name_contains_regex("o.r?d");
    assert_eq!(r.devices.len(), 1);
    assert_eq!(r.devices[0].name().as_str(), "Keyboard");
}

#[test]
fn filtered_name_full_regex_matches_whole_name_only() {
    let list = sample_list();
    let r = list.filtered_name_full_regex("Key.*");
    assert_eq!(r.devices.len(), 1);
    assert_eq!(r.devices[0].name().as_str(), "Keyboard");
    // Within-name matching alone would keep this one too; the full-string
    // reading must not.
    assert_eq!(list.filtered_name_full_regex("eyboar").devices.len(), 0);
    assert_eq!(list.filtered_name_full_regex("M.*e").devices.len(), 1);
}

#[test]
fn invalid_regex_yields_empty_registry() {
    let list = sample_list();
    assert_eq!(list.filtered_name_full_regex("(").devices.len(), 0);
    assert_eq!(list.filtered_name_contains_regex("(").devices.len(), 0);
    assert_eq!(list.filtered_name_contains_regex("[z-a]").devices.len(), 0);
    assert_eq!(
        list.filtered_name("*oops", FilterBehaviour::ContainsRegex).devices.len(),
        0
    );
}

#[test]
fn filtered_name_dispatches_on_behaviour() {
    let list = sample_list();
    assert_eq!(list.filtered_name("Mouse", FilterBehaviour::Full).devices.len(), 1);
    assert_eq!(list.filtered_name("se", FilterBehaviour::Contains).devices.len(), 2);
    assert_eq!(list.filtered_name("^M", FilterBehaviour::ContainsRegex).devices.len(), 1);
    assert_eq!(list.filtered_name(".e.*", FilterBehaviour::FullRegex).devices.len(), 2);
}

#[test]
fn filtered_with_predicate_keeps_matching_records() {
    let mut list = sample_list();
    list.devices[2].paired = true;
    let r = list.filtered(|d: &Device| d.is_paired());
    assert_eq!(r.devices.len(), 1);
    assert_eq!(r.devices[0].name().as_str(), "Mouse");
}

#[test]
fn pair_all_counts_successes_and_short_circuits() {
    let mut list = sample_list();
    list.devices[0].paired = true;
    let mut manager = SnapshotManager { entries: Vec::new(), pair_ok: true, pair_calls: 0 };
    let count = list.pair_all(&mut manager);
    assert_eq!(count, 3);
    // The already paired record was counted without a transport call.
    assert_eq!(manager.pair_calls, 2);
    assert!(list.devices.iter().all(|d| d.is_paired()));
}

#[test]
fn pair_all_counts_failures_as_zero_and_goes_on() {
    let mut list = sample_list();
    list.devices[1].paired = true;
    let mut manager = SnapshotManager { entries: Vec::new(), pair_ok: false, pair_calls: 0 };
    let count = list.pair_all(&mut manager);
    assert_eq!(count, 1);
    assert_eq!(manager.pair_calls, 2);
    assert!(!list.devices[0].is_paired());
    assert!(list.devices[1].is_paired());
}

#[test]
fn unpair_all_clears_every_record() {
    let mut list = sample_list();
    list.devices[0].paired = true;
    list.devices[1].connected = true;
    let mut manager = SnapshotManager { entries: Vec::new(), pair_ok: false, pair_calls: 0 };
    let count = list.unpair_all(&mut manager);
    assert_eq!(count, 3);
    assert!(list.devices.iter().all(|d| !d.is_paired() && !d.is_connected()));
}

#[test]
fn correctly_quoted_device_name_follows_registry_flag() {
    let mut list = DeviceList::new();
    list.set_print_in_color(false);
    list.add_device(device("My Mouse"));
    list.add_device(device("Pen"));
    assert!(list.quote_names);
    let quoted = list.correctly_quoted_device_name(&list.devices[0]);
    assert_eq!(quoted, "'My Mouse'");
    let padded = list.correctly_quoted_device_name(&list.devices[1]);
    assert_eq!(padded, " Pen ");
    list.set_quote_names(false);
    assert_eq!(list.correctly_quoted_device_name(&list.devices[1]), "Pen");
}

#[test]
fn devices_with_name_hands_out_exact_matches() {
    let list = sample_list();
    let refs = list.devices_with_name("Headset");
    assert_eq!(refs.len(), 1);
    assert_eq!(refs[0].name().as_str(), "Headset");
    assert!(list.devices_with_name("headset").is_empty());
}

#[test]
fn pairable_recognizes_only_the_success_phrase() {
    assert!(pairable("Changing pairable on succeeded"));
    assert!(!pairable("Changing pairable on failed"));
    assert!(!pairable(""));
    assert!(!pairable("succeede"));
}

struct InfoManager;

impl BluetoothManager for InfoManager {
    fn update(&mut self) {}

    fn get_all_devices(&self) -> Vec<DeviceProps> {
        Vec::new()
    }

    fn device_info(&self, _address: &str) -> Option<DeviceProps> {
        Some(DeviceProps {
            address: None,
            alias: None,
            paired: Some(true),
            bonded: None,
            trusted: None,
            blocked: None,
            connected: Some(true),
            remote_name: None,
            icon: None,
            battery: Some(64),
        })
    }

    fn set_pairable(&mut self, _pairable: bool) {}

    fn scan(&mut self, _duration_secs: u64) {}

    fn pair_device(&mut self, _address: &str) -> bool {
        false
    }

    fn unpair_device(&mut self, _address: &str) {}

    fn connect_device(&mut self, _address: &str) -> bool {
        false
    }

    fn disconnect_device(&mut self, _address: &str) {}
}

#[test]
fn printing_refetches_detail_first() {
    let mut list = sample_list();
    list.print_fullline(&InfoManager);
    assert!(list.devices.iter().all(|d| d.is_paired() && d.is_connected()));
    assert!(list.devices.iter().all(|d| d.battery() == Some(64)));
}

#[test]
fn print_paths_run_on_every_mode() {
    let mut list = sample_list();
    let term = Some(TermSize { lines: 24, cols: 24 });
    list.print(&InfoManager, false, false, &term);
    list.print(&InfoManager, true, false, &term);
    list.print(&InfoManager, false, true, &term);
    list.print_info_all(&InfoManager);
    let mut empty = DeviceList::new();
    empty.print(&InfoManager, false, false, &None);
}
