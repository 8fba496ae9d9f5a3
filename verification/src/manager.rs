//! The capability interface of a backend transport.

use vstd::prelude::*;
use crate::device::DeviceProps;
use crate::text::{contains_seq, contains_str};

verus! {

/// One backend transport at a time implements this interface; the registry
/// and the device records drive every transport operation through it.
///
/// The interface promises nothing about outcomes: whether a pair or connect
/// attempt succeeds is decided by the remote service, so callers state what
/// holds of their own records for either outcome.
pub trait BluetoothManager {
    /// Refreshes the backend's snapshot of remote devices and local
    /// adapters.
    fn update(&mut self);

    /// Hands out the last observed attribute set of every known remote
    /// device, as plain optional values; the registry validates them.
    fn get_all_devices(&self) -> Vec<DeviceProps>;

    /// Hands out the last observed attribute set of the device with the
    /// given address, when the backend knows it; used to re-fetch detail
    /// right before a record is rendered.
    fn device_info(&self, address: &str) -> Option<DeviceProps>;

    /// Makes the host pairable or not.
    fn set_pairable(&mut self, pairable: bool);

    /// Scans for discoverable devices for the given number of seconds,
    /// returning once scanning has stopped.
    fn scan(&mut self, duration_secs: u64);

    /// Attempts to pair the device with the given address; true means the
    /// device is now paired (also when it already was).
    fn pair_device(&mut self, address: &str) -> bool;

    /// Unpairs the device with the given address, best effort.
    fn unpair_device(&mut self, address: &str);

    /// Attempts to connect the device with the given address; true means
    /// the device is now connected (also when it already was).
    fn connect_device(&mut self, address: &str) -> bool;

    /// Disconnects the device with the given address, best effort.
    fn disconnect_device(&mut self, address: &str);
}

/// Decides from the transcript of the external control tool whether the
/// request to change the host's pairable state took effect: only the
/// recognized success phrase counts, and output without it means failure,
/// never a parse error.
pub fn pairable(transcript: &str) -> (ok: bool)
    ensures
        ok == contains_seq(transcript@, "succeeded"@),
{
    contains_str(transcript, "succeeded")
}

} // verus!
