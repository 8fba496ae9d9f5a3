use btcli::agent::{
    confirm_reply, passkey_reply, pin_reply, AgentBridge, ChallengeGate, ConfirmReply,
    PasskeyReply, PinReply,
};
use btcli::device::DeviceProps;
use btcli::manager::BluetoothManager;
use btcli::pairing::{connect_succeeded, BusReplyBody, PairPhase, PairWaiter, PairingFlow};
use btcli::registry::DeviceList;
use btcli::Device;

fn bridge() -> AgentBridge {
    AgentBridge::new(String::from("/org/bluez/hci0/dev_AA"), String::from("Keyboard"))
}

#[test]
fn challenge_for_another_path_is_rejected() {
    let b = bridge();
    assert!(matches!(b.challenge_gate("/org/bluez/hci0/dev_BB"), ChallengeGate::Rejected));
    assert!(matches!(b.challenge_gate("/org/bluez/hci0/dev_AA"), ChallengeGate::Prompt));
    assert!(b.display_pin_code("/org/bluez/hci0/dev_BB", "1234").is_none());
    assert!(b.display_passkey("/org/bluez/hci0/dev_BB", 123456).is_none());
    assert!(!b.authorize("/org/bluez/hci0/dev_BB"));
    assert!(b.authorize("/org/bluez/hci0/dev_AA"));
}

#[test]
fn display_lines_are_pinned_down() {
    let b = bridge();
    assert_eq!(
        b.display_pin_code("/org/bluez/hci0/dev_AA", "1234").as_deref(),
        Some("The pincode for Keyboard is 1234.")
    );
    assert_eq!(
        b.display_passkey("/org/bluez/hci0/dev_AA", 42).as_deref(),
        Some("The pincode for Keyboard is 000042.")
    );
}

#[test]
fn connect_reply_normalizes_already_connected() {
    assert!(connect_succeeded(&BusReplyBody::Success));
    assert!(connect_succeeded(&BusReplyBody::Failure(String::from(
        "org.bluez.Error.AlreadyConnected"
    ))));
    assert!(!connect_succeeded(&BusReplyBody::Failure(String::from(
        "org.bluez.Error.Failed"
    ))));
    assert!(!connect_succeeded(&BusReplyBody::Failure(String::from(
        "org.bluez.Error.AlreadyExists"
    ))));
}

#[test]
fn empty_pin_input_cancels() {
    assert!(matches!(pin_reply(""), PinReply::Canceled));
}

#[test]
fn pin_input_bounds() {
    assert!(matches!(pin_reply("12345678901234567"), PinReply::Reprompt));
    match pin_reply("1234567890123456") {
        PinReply::Pin(p) => assert_eq!(p, "1234567890123456"),
        _ => panic!("sixteen characters are a valid PIN"),
    }
    match pin_reply("abcd") {
        PinReply::Pin(p) => assert_eq!(p, "abcd"),
        _ => panic!("a short PIN is returned as given"),
    }
}

#[test]
fn empty_passkey_input_cancels() {
    assert!(matches!(passkey_reply(""), PasskeyReply::Canceled));
}

#[test]
fn passkey_input_bounds() {
    match passkey_reply("042042") {
        PasskeyReply::Passkey(v) => assert_eq!(v, 42042),
        _ => panic!("a six digit number is a valid passkey"),
    }
    assert!(matches!(passkey_reply("1000000"), PasskeyReply::Reprompt));
    assert!(matches!(passkey_reply("12x"), PasskeyReply::Reprompt));
    match passkey_reply("0") {
        PasskeyReply::Passkey(v) => assert_eq!(v, 0),
        _ => panic!("zero is a valid passkey"),
    }
}

#[test]
fn confirmation_keystrokes() {
    assert!(matches!(confirm_reply('y'), ConfirmReply::Accepted));
    assert!(matches!(confirm_reply('n'), ConfirmReply::Rejected));
    assert!(matches!(confirm_reply('q'), ConfirmReply::Reprompt));
    assert!(matches!(confirm_reply('Y'), ConfirmReply::Reprompt));
}

#[test]
fn prompts_name_the_bound_device() {
    let b = bridge();
    assert_eq!(
        b.pin_prompt(),
        "Please enter the pin code displayed on Keyboard. (1-16 symbols, empty input to cancel)"
    );
    assert_eq!(
        b.passkey_prompt(),
        "Please enter the passkey displayed on Keyboard. (6 digits, empty input to cancel)"
    );
    assert_eq!(
        b.confirm_prompt(7777),
        "Does 007777 match the pincode on Keyboard? [y/n]"
    );
}

#[test]
fn waiter_ignores_uncorrelated_messages() {
    let mut w = PairWaiter::new();
    // Before the call is sent nothing can resolve the wait.
    assert!(w.on_message(Some(5), &BusReplyBody::Success));
    assert!(w.is_pending());
    w.record_sent(Some(5));
    assert!(w.on_message(Some(4), &BusReplyBody::Success));
    assert!(w.on_message(None, &BusReplyBody::Success));
    assert!(w.is_pending());
    assert!(!w.on_message(Some(5), &BusReplyBody::Success));
    assert!(!w.is_pending());
    assert!(w.succeeded());
}

#[test]
fn already_exists_error_counts_as_paired() {
    let mut w = PairWaiter::new();
    w.record_sent(Some(9));
    assert!(!w.on_message(
        Some(9),
        &BusReplyBody::Failure(String::from("org.bluez.Error.AlreadyExists"))
    ));
    assert!(w.succeeded());
    let mut v = PairWaiter::new();
    v.record_sent(Some(9));
    assert!(!v.on_message(
        Some(9),
        &BusReplyBody::Failure(String::from("org.bluez.Error.AuthenticationFailed"))
    ));
    assert!(!v.succeeded());
}

#[test]
fn failed_advertisement_tears_the_entry_down() {
    let mut flow = PairingFlow::new();
    flow.install_agent_entry();
    assert!(flow.agent_installed);
    let remove_entry = flow.advertise_result(false);
    assert!(remove_entry);
    assert!(!flow.agent_installed);
    assert_eq!(flow.phase, PairPhase::TornDown);
    assert!(!flow.outcome());
}

#[test]
fn teardown_leaves_no_dispatch_entry() {
    let mut flow = PairingFlow::new();
    flow.install_agent_entry();
    assert!(!flow.advertise_result(true));
    flow.pair_sent(Some(3));
    let remove_entry = flow.teardown();
    assert!(remove_entry);
    assert!(!flow.agent_installed);
    assert!(!flow.advertised);
}

/// Runs one pairing attempt through the flow machine against a canned
/// sequence of bus replies, the way a backend's pump loop does.
fn pump_pair(serial: u32, replies: Vec<(Option<u32>, BusReplyBody)>) -> bool {
    let mut flow = PairingFlow::new();
    flow.install_agent_entry();
    if flow.advertise_result(true) {
        return false;
    }
    flow.pair_sent(Some(serial));
    for (reply_serial, body) in replies {
        if !flow.awaiting_reply() {
            break;
        }
        flow.on_bus_message(reply_serial, &body);
    }
    flow.teardown();
    flow.outcome()
}

struct BusManager {
    serial: u32,
    replies_per_device: Vec<(String, BusReplyBody)>,
}

impl BluetoothManager for BusManager {
    fn update(&mut self) {}

    fn get_all_devices(&self) -> Vec<DeviceProps> {
        Vec::new()
    }

    fn device_info(&self, _address: &str) -> Option<DeviceProps> {
        None
    }

    fn set_pairable(&mut self, _pairable: bool) {}

    fn scan(&mut self, _duration_secs: u64) {}

    fn pair_device(&mut self, address: &str) -> bool {
        self.serial += 1;
        let mut body = BusReplyBody::Failure(String::from("org.bluez.Error.Failed"));
        for (addr, reply) in &self.replies_per_device {
            if addr == address {
                body = match reply {
                    BusReplyBody::Success => BusReplyBody::Success,
                    BusReplyBody::Failure(name) => BusReplyBody::Failure(name.clone()),
                };
            }
        }
        // An unrelated signal arrives before the correlated reply.
        pump_pair(self.serial, vec![(None, BusReplyBody::Success), (Some(self.serial), body)])
    }

    fn unpair_device(&mut self, _address: &str) {}

    fn connect_device(&mut self, _address: &str) -> bool {
        false
    }

    fn disconnect_device(&mut self, _address: &str) {}
}

#[test]
fn pair_all_counts_already_exists_and_success_as_two() {
    let mut list = DeviceList::new();
    list.set_print_in_color(false);
    list.add_device(Device::new(
        String::from("AA:01"),
        String::from("Keyboard"),
        false,
        false,
        false,
        false,
        false,
    ));
    list.add_device(Device::new(
        String::from("AA:02"),
        String::from("Headset"),
        false,
        false,
        false,
        false,
        false,
    ));
    let mut manager = BusManager {
        serial: 0,
        replies_per_device: vec![
            (
                String::from("AA:01"),
                BusReplyBody::Failure(String::from("org.bluez.Error.AlreadyExists")),
            ),
            (String::from("AA:02"), BusReplyBody::Success),
        ],
    };
    let count = list.pair_all(&mut manager);
    assert_eq!(count, 2);
}

#[test]
fn rejected_confirmation_fails_the_attempt_without_retry() {
    // The user answers `n` to the numeric confirmation: the bridge reports
    // the rejection (not a re-prompt), and the bus then fails the "Pair"
    // call; the attempt resolves to false.
    assert!(matches!(confirm_reply('n'), ConfirmReply::Rejected));
    let verdict = pump_pair(
        7,
        vec![(
            Some(7),
            BusReplyBody::Failure(String::from("org.bluez.Error.AuthenticationRejected")),
        )],
    );
    assert!(!verdict);
}
