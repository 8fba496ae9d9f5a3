//! Device records: the immutable identity and last observed state of one
//! remote device, together with the actions a record can drive through a
//! backend.

use vstd::prelude::*;
use vstd::string::*;
use crate::console::emit_line;
use crate::manager::BluetoothManager;
use crate::text::{dec_str, has_space, str_has_space, u32_to_dec};

verus! {

/// The protocol ceiling for the length of a broadcast name, in characters.
pub const NAME_MAX_CHARS: usize = 248;

/// One remote device: a stable address, a display name, and the flags the
/// backend last observed (kept up to date optimistically after successful
/// local actions).
#[derive(Debug)]
pub struct Device {
    /// Stable unique identifier; never changes after creation.
    pub address: String,
    /// Display name; may be a locally assigned alias.
    pub name: String,
    pub paired: bool,
    pub bonded: bool,
    pub trusted: bool,
    pub blocked: bool,
    pub connected: bool,
    /// The over-the-air broadcast name; never locally renamed.
    pub remote_name: Option<String>,
    /// Battery percentage, when the remote reports one.
    pub battery: Option<u8>,
    /// Classification hint, display only.
    pub icon: Option<String>,
    /// Whether strings built from this record carry ANSI color codes.
    pub name_in_color: bool,
}

/// The record invariant: a non-empty address and a name within the
/// protocol ceiling.
pub open spec fn device_wf(d: Device) -> bool {
    &&& d.address@.len() > 0
    &&& d.name@.len() <= NAME_MAX_CHARS
}

/// Identity and observed state other than the paired/connected flags.
pub open spec fn same_record_except_flags(a: Device, b: Device) -> bool {
    &&& a.address == b.address
    &&& a.name == b.name
    &&& a.bonded == b.bonded
    &&& a.trusted == b.trusted
    &&& a.blocked == b.blocked
    &&& a.remote_name == b.remote_name
    &&& a.battery == b.battery
    &&& a.icon == b.icon
    &&& a.name_in_color == b.name_in_color
}

fn clone_opt_string(o: &Option<String>) -> (r: Option<String>)
    ensures
        r == *o,
{
    match o {
        Some(s) => Some(s.clone()),
        None => None,
    }
}

impl Clone for Device {
    fn clone(&self) -> (res: Self)
        ensures
            res == *self,
    {
        Device {
            address: self.address.clone(),
            name: self.name.clone(),
            paired: self.paired,
            bonded: self.bonded,
            trusted: self.trusted,
            blocked: self.blocked,
            connected: self.connected,
            remote_name: clone_opt_string(&self.remote_name),
            battery: self.battery,
            icon: clone_opt_string(&self.icon),
            name_in_color: self.name_in_color,
        }
    }
}

impl Device {
    /// Creates a record from its required attributes. The address must not
    /// be empty and the name must stay within the protocol ceiling; a
    /// backend that cannot guarantee that goes through
    /// [`device_from_props`] instead.
    pub fn new(
        address: String,
        name: String,
        paired: bool,
        bonded: bool,
        trusted: bool,
        blocked: bool,
        connected: bool,
    ) -> (d: Device)
        requires
            address@.len() > 0,
            name@.len() <= NAME_MAX_CHARS,
        ensures
            d == (Device {
                address,
                name,
                paired,
                bonded,
                trusted,
                blocked,
                connected,
                remote_name: None::<String>,
                battery: None::<u8>,
                icon: None::<String>,
                name_in_color: true,
            }),
            device_wf(d),
    {
        Device {
            address,
            name,
            paired,
            bonded,
            trusted,
            blocked,
            connected,
            remote_name: None,
            battery: None,
            icon: None,
            name_in_color: true,
        }
    }

    /// The device name.
    pub fn name(&self) -> (r: &String)
        ensures
            r == &self.name,
    {
        &self.name
    }

    /// The device address.
    pub fn address(&self) -> (r: &String)
        ensures
            r == &self.address,
    {
        &self.address
    }

    /// True if the device was last observed paired.
    pub fn is_paired(&self) -> (r: bool)
        ensures
            r == self.paired,
    {
        self.paired
    }

    /// True if the device was last observed bonded.
    pub fn is_bonded(&self) -> (r: bool)
        ensures
            r == self.bonded,
    {
        self.bonded
    }

    /// True if the device was last observed trusted.
    pub fn is_trusted(&self) -> (r: bool)
        ensures
            r == self.trusted,
    {
        self.trusted
    }

    /// True if the device was last observed blocked.
    pub fn is_blocked(&self) -> (r: bool)
        ensures
            r == self.blocked,
    {
        self.blocked
    }

    /// True if the device was last observed connected.
    pub fn is_connected(&self) -> (r: bool)
        ensures
            r == self.connected,
    {
        self.connected
    }

    /// The battery percentage at the last refresh, when reported.
    pub fn battery(&self) -> (r: Option<u8>)
        ensures
            r == self.battery,
    {
        self.battery
    }

    /// The ANSI escape sequence that colors this record's name: dim for an
    /// unpaired device, bold blue for a connected one, normal otherwise,
    /// and nothing when coloring is off.
    pub open spec fn spec_color_codes(self) -> Seq<char> {
        if !self.name_in_color {
            ""@
        } else if !self.paired {
            "\u{1b}[2;37m"@
        } else if self.connected {
            "\u{1b}[1;34m"@
        } else {
            "\u{1b}[22;39m"@
        }
    }

    /// The ANSI reset sequence, or nothing when coloring is off.
    pub open spec fn spec_color_reset(self) -> Seq<char> {
        if self.name_in_color {
            "\u{1b}[0m"@
        } else {
            ""@
        }
    }

    /// ANSI color escape sequence based on device state.
    pub fn ansi_color_codes(&self) -> (r: &'static str)
        ensures
            r@ == self.spec_color_codes(),
    {
        if !self.name_in_color {
            ""
        } else if !self.paired {
            "\u{1b}[2;37m"
        } else if self.connected {
            "\u{1b}[1;34m"
        } else {
            "\u{1b}[22;39m"
        }
    }

    /// ANSI reset escape sequence if `name_in_color` is set, "" else.
    pub fn ansi_color_reset(&self) -> (r: &'static str)
        ensures
            r@ == self.spec_color_reset(),
    {
        if self.name_in_color {
            "\u{1b}[0m"
        } else {
            ""
        }
    }

    /// The name as displayed: surrounded by color codes when coloring is
    /// on.
    pub open spec fn spec_colored_name(self) -> Seq<char> {
        self.spec_color_codes() + self.name@ + self.spec_color_reset()
    }

    /// Returns the name, with ANSI color codes if `name_in_color` is set.
    pub fn get_name_colored(&self) -> (r: String)
        ensures
            r@ == self.spec_colored_name(),
    {
        String::from_str(self.ansi_color_codes()).concat(self.name.as_str()).concat(
            self.ansi_color_reset(),
        )
    }

    /// The displayed name with the quoting decoration: the name between
    /// two copies of `quotes` when it holds white space, between two
    /// copies of `placeholder` otherwise, colored as
    /// [`Device::spec_colored_name`] is.
    pub open spec fn spec_quoted_name(self, quotes: Seq<char>, placeholder: Seq<char>) -> Seq<
        char,
    > {
        let sel = if has_space(self.name@) {
            quotes
        } else {
            placeholder
        };
        self.spec_color_codes() + sel + self.name@ + sel + self.spec_color_reset()
    }

    /// Quoted name if it contains whitespace, otherwise placeholder is
    /// added instead. Includes ANSI color codes if `name_in_color` is set.
    pub fn quoted_name(&self, quotes: &str, placeholder: &str) -> (r: String)
        ensures
            r@ == self.spec_quoted_name(quotes@, placeholder@),
    {
        let sel = if str_has_space(self.name.as_str()) {
            quotes
        } else {
            placeholder
        };
        String::from_str(self.ansi_color_codes()).concat(sel).concat(self.name.as_str()).concat(
            sel,
        ).concat(self.ansi_color_reset())
    }

    /// Returns the length of the device name in characters; it fits in a
    /// u8 because the protocol bounds broadcast names by
    /// [`NAME_MAX_CHARS`].
    pub fn name_len(&self) -> (r: u8)
        requires
            device_wf(*self),
        ensures
            r == self.name@.len(),
    {
        self.name.as_str().unicode_len() as u8
    }

    /// Sets whether strings returned by name functions will be colored
    /// with ANSI color codes.
    pub fn set_name_in_color(&mut self, val: bool)
        ensures
            *final(self) == (Device { name_in_color: val, ..*old(self) }),
    {
        self.name_in_color = val;
    }

    /// Attempts to pair with the device. A device already marked paired is
    /// reported paired at once, and nothing is asked of the backend.
    pub fn pair<M: BluetoothManager>(&mut self, manager: &mut M) -> (ok: bool)
        ensures
            old(self).paired ==> ok && *final(self) == *old(self) && *final(manager) == *old(
                manager,
            ),
            same_record_except_flags(*old(self), *final(self)),
            final(self).connected == old(self).connected,
            final(self).paired == (old(self).paired || ok),
    {
        if self.paired {
            return true;
        }
        let mut msg = String::from_str("Attempting to pair with ");
        msg.append(self.get_name_colored().as_str());
        msg.append("...");
        emit_line(msg.as_str());
        manager.set_pairable(true);
        let ok = manager.pair_device(self.address.as_str());
        manager.set_pairable(false);
        if ok {
            self.paired = true;
            let mut done = self.get_name_colored();
            done.append(" paired.");
            emit_line(done.as_str());
        } else {
            let mut fail = String::from_str("Could not pair ");
            fail.append(self.get_name_colored().as_str());
            fail.append(".");
            emit_line(fail.as_str());
        }
        ok
    }

    /// Unpairs the device, best effort, and marks the record unpaired and
    /// disconnected.
    pub fn unpair<M: BluetoothManager>(&mut self, manager: &mut M) -> (ok: bool)
        ensures
            ok,
            same_record_except_flags(*old(self), *final(self)),
            !final(self).paired,
            !final(self).connected,
    {
        manager.unpair_device(self.address.as_str());
        self.paired = false;
        self.connected = false;
        let mut done = self.get_name_colored();
        done.append(" unpaired.");
        emit_line(done.as_str());
        true
    }

    /// Attempts to connect to the device. A device already marked
    /// connected is reported connected at once, and nothing is asked of
    /// the backend.
    pub fn connect<M: BluetoothManager>(&mut self, manager: &mut M) -> (ok: bool)
        ensures
            old(self).connected ==> ok && *final(self) == *old(self) && *final(manager) == *old(
                manager,
            ),
            same_record_except_flags(*old(self), *final(self)),
            final(self).paired == old(self).paired,
            final(self).connected == (old(self).connected || ok),
    {
        if self.connected {
            return true;
        }
        let mut msg = String::from_str("Attempting to connect with ");
        msg.append(self.get_name_colored().as_str());
        msg.append("...");
        emit_line(msg.as_str());
        let ok = manager.connect_device(self.address.as_str());
        if ok {
            self.connected = true;
            let mut done = self.get_name_colored();
            done.append(" connected.");
            emit_line(done.as_str());
        } else {
            let mut fail = String::from_str("Could not connect ");
            fail.append(self.get_name_colored().as_str());
            fail.append(".");
            emit_line(fail.as_str());
        }
        ok
    }

    /// Disconnects the device, best effort, and marks the record unpaired
    /// and disconnected.
    pub fn disconnect<M: BluetoothManager>(&mut self, manager: &mut M) -> (ok: bool)
        ensures
            ok,
            same_record_except_flags(*old(self), *final(self)),
            !final(self).paired,
            !final(self).connected,
    {
        manager.disconnect_device(self.address.as_str());
        self.paired = false;
        self.connected = false;
        let mut done = self.get_name_colored();
        done.append(" disconnected.");
        emit_line(done.as_str());
        true
    }
}

/// A yes or no, as displayed.
pub open spec fn spec_yes_no(v: bool) -> Seq<char> {
    if v {
        "yes"@
    } else {
        "no"@
    }
}

/// The color of a displayed flag: green for yes, red for no, nothing when
/// coloring is off.
pub open spec fn spec_flag_color(v: bool, on: bool) -> Seq<char> {
    if !on {
        ""@
    } else if v {
        "\u{1b}[32m"@
    } else {
        "\u{1b}[31m"@
    }
}

/// The reset that closes a colored value, nothing when coloring is off.
pub open spec fn spec_reset(on: bool) -> Seq<char> {
    if on {
        "\u{1b}[0m"@
    } else {
        ""@
    }
}

/// One displayed flag line.
pub open spec fn spec_flag_entry(prefix: Seq<char>, v: bool, on: bool) -> Seq<char> {
    prefix + spec_flag_color(v, on) + spec_yes_no(v) + spec_reset(on)
}

/// The color of a displayed battery percentage: green from 70 up, yellow
/// from 30 up, red below, nothing when coloring is off.
pub open spec fn spec_battery_color(p: u8, on: bool) -> Seq<char> {
    if !on {
        ""@
    } else if p >= 70 {
        "\u{1b}[32m"@
    } else if p >= 30 {
        "\u{1b}[33m"@
    } else {
        "\u{1b}[31m"@
    }
}

/// The battery line, empty when the remote reports no battery.
pub open spec fn spec_battery_entry(p: Option<u8>, on: bool) -> Seq<char> {
    match p {
        Some(x) => "\n\tBattery Percentage: "@ + spec_battery_color(x, on) + dec_str(x as int)
            + spec_reset(on),
        None => ""@,
    }
}

/// An optional text line, empty when the value is absent.
pub open spec fn spec_opt_entry(prefix: Seq<char>, o: Option<String>) -> Seq<char> {
    match o {
        Some(s) => prefix + s@,
        None => ""@,
    }
}

impl Device {
    /// The detailed information text of this record: the address and the
    /// colored name, then one indented line for each flag, for the remote
    /// name, the battery and the icon where they are known.
    pub open spec fn spec_info_text(self) -> Seq<char> {
        self.address@ + " "@ + self.spec_colored_name() + spec_flag_entry(
            "\n\tPaired: "@,
            self.paired,
            self.name_in_color,
        ) + spec_flag_entry("\n\tBonded: "@, self.bonded, self.name_in_color) + spec_flag_entry(
            "\n\tTrusted: "@,
            self.trusted,
            self.name_in_color,
        ) + spec_flag_entry("\n\tBlocked: "@, self.blocked, self.name_in_color) + spec_flag_entry(
            "\n\tConnected: "@,
            self.connected,
            self.name_in_color,
        ) + spec_opt_entry("\n\tRemote Name: "@, self.remote_name) + spec_battery_entry(
            self.battery,
            self.name_in_color,
        ) + spec_opt_entry("\n\tIcon: "@, self.icon)
    }

    fn push_flag_entry(&self, out: &mut String, prefix: &str, v: bool)
        ensures
            final(out)@ == old(out)@ + spec_flag_entry(prefix@, v, self.name_in_color),
    {
        let ghost out0 = out@;
        out.append(prefix);
        if self.name_in_color {
            if v {
                out.append("\u{1b}[32m");
            } else {
                out.append("\u{1b}[31m");
            }
        }
        if v {
            out.append("yes");
        } else {
            out.append("no");
        }
        if self.name_in_color {
            out.append("\u{1b}[0m");
        }
        proof {
            reveal_strlit("");
            assert(out@ =~= out0 + spec_flag_entry(prefix@, v, self.name_in_color));
        }
    }

    fn push_opt_entry(out: &mut String, prefix: &str, o: &Option<String>)
        ensures
            final(out)@ == old(out)@ + spec_opt_entry(prefix@, *o),
    {
        let ghost out0 = out@;
        match o {
            Some(s) => {
                out.append(prefix);
                out.append(s.as_str());
                proof {
                    reveal_strlit("");
                    assert(out@ =~= out0 + spec_opt_entry(prefix@, *o));
                }
            },
            None => {
                proof {
                    reveal_strlit("");
                    assert(out@ =~= out0 + spec_opt_entry(prefix@, *o));
                }
            },
        }
    }

    /// Builds the detailed information text about the device.
    #[verifier::rlimit(60)]
    pub fn info_text(&self) -> (r: String)
        ensures
            r@ == self.spec_info_text(),
    {
        let mut out = self.address.clone();
        out.append(" ");
        out.append(self.get_name_colored().as_str());
        self.push_flag_entry(&mut out, "\n\tPaired: ", self.paired);
        self.push_flag_entry(&mut out, "\n\tBonded: ", self.bonded);
        self.push_flag_entry(&mut out, "\n\tTrusted: ", self.trusted);
        self.push_flag_entry(&mut out, "\n\tBlocked: ", self.blocked);
        self.push_flag_entry(&mut out, "\n\tConnected: ", self.connected);
        Self::push_opt_entry(&mut out, "\n\tRemote Name: ", &self.remote_name);
        let ghost before_battery = out@;
        match self.battery {
            Some(p) => {
                out.append("\n\tBattery Percentage: ");
                if self.name_in_color {
                    if p >= 70 {
                        out.append("\u{1b}[32m");
                    } else if p >= 30 {
                        out.append("\u{1b}[33m");
                    } else {
                        out.append("\u{1b}[31m");
                    }
                }
                out.append(u32_to_dec(p as u32).as_str());
                if self.name_in_color {
                    out.append("\u{1b}[0m");
                }
            },
            None => {},
        }
        proof {
            reveal_strlit("");
            assert(out@ =~= before_battery + spec_battery_entry(self.battery, self.name_in_color));
        }
        Self::push_opt_entry(&mut out, "\n\tIcon: ", &self.icon);
        proof {
            assert(out@ == self.spec_info_text());
        }
        out
    }

    /// Prints detailed information about the device.
    pub fn print_info(&self)
    {
        emit_line(self.info_text().as_str());
    }

    /// Merges a freshly fetched attribute set into this record: every
    /// attribute the backend reported replaces the stored one, the others
    /// keep their last observed value. The identity (address) and the
    /// locally assigned name are never touched.
    pub fn update_info(&mut self, p: &DeviceProps)
        ensures
            *final(self) == merged_record(*old(self), *p),
    {
        match p.paired {
            Some(v) => {
                self.paired = v;
            },
            None => {},
        }
        match p.bonded {
            Some(v) => {
                self.bonded = v;
            },
            None => {},
        }
        match p.trusted {
            Some(v) => {
                self.trusted = v;
            },
            None => {},
        }
        match p.blocked {
            Some(v) => {
                self.blocked = v;
            },
            None => {},
        }
        match p.connected {
            Some(v) => {
                self.connected = v;
            },
            None => {},
        }
        match p.battery {
            Some(v) => {
                self.battery = Some(v);
            },
            None => {},
        }
        match &p.remote_name {
            Some(s) => {
                self.remote_name = Some(s.clone());
            },
            None => {},
        }
        match &p.icon {
            Some(s) => {
                self.icon = Some(s.clone());
            },
            None => {},
        }
    }
}

/// The record after an attribute set is merged into it: every reported
/// attribute replaces the stored one, the others keep their last
/// observed value, and the identity, name and color setting stay as they
/// are.
pub open spec fn merged_record(d: Device, p: DeviceProps) -> Device {
    Device {
        address: d.address,
        name: d.name,
        name_in_color: d.name_in_color,
        paired: match p.paired {
            Some(v) => v,
            None => d.paired,
        },
        bonded: match p.bonded {
            Some(v) => v,
            None => d.bonded,
        },
        trusted: match p.trusted {
            Some(v) => v,
            None => d.trusted,
        },
        blocked: match p.blocked {
            Some(v) => v,
            None => d.blocked,
        },
        connected: match p.connected {
            Some(v) => v,
            None => d.connected,
        },
        battery: match p.battery {
            Some(v) => Some(v),
            None => d.battery,
        },
        remote_name: match p.remote_name {
            Some(_) => p.remote_name,
            None => d.remote_name,
        },
        icon: match p.icon {
            Some(_) => p.icon,
            None => d.icon,
        },
    }
}

/// The attribute set a backend reports for one enumerated device, before
/// validation. Absent required attributes make the entry malformed.
#[derive(Debug)]
pub struct DeviceProps {
    pub address: Option<String>,
    pub alias: Option<String>,
    pub paired: Option<bool>,
    pub bonded: Option<bool>,
    pub trusted: Option<bool>,
    pub blocked: Option<bool>,
    pub connected: Option<bool>,
    pub remote_name: Option<String>,
    pub icon: Option<String>,
    pub battery: Option<u8>,
}

/// All attributes a record requires are present.
pub open spec fn props_complete(p: DeviceProps) -> bool {
    &&& p.address is Some
    &&& p.alias is Some
    &&& p.paired is Some
    &&& p.bonded is Some
    &&& p.trusted is Some
    &&& p.blocked is Some
    &&& p.connected is Some
}

/// The entry is complete and satisfies the record invariant.
pub open spec fn props_valid(p: DeviceProps) -> bool {
    &&& props_complete(p)
    &&& p.address->0@.len() > 0
    &&& p.alias->0@.len() <= NAME_MAX_CHARS
}

/// The record a valid attribute set denotes.
pub open spec fn device_of_props(p: DeviceProps) -> Device {
    Device {
        address: p.address->0,
        name: p.alias->0,
        paired: p.paired->0,
        bonded: p.bonded->0,
        trusted: p.trusted->0,
        blocked: p.blocked->0,
        connected: p.connected->0,
        remote_name: p.remote_name,
        battery: p.battery,
        icon: p.icon,
        name_in_color: true,
    }
}

/// Validates one enumerated entry: a record for a well-formed attribute
/// set, nothing for a malformed one (the enumeration skips it and goes
/// on).
pub fn device_from_props(p: &DeviceProps) -> (r: Option<Device>)
    ensures
        r is Some <==> props_valid(*p),
        props_valid(*p) ==> r == Some(device_of_props(*p)),
        r is Some ==> device_wf(r->0),
{
    match (&p.address, &p.alias, &p.paired, &p.bonded, &p.trusted, &p.blocked, &p.connected) {
        (
            Some(address),
            Some(alias),
            Some(paired),
            Some(bonded),
            Some(trusted),
            Some(blocked),
            Some(connected),
        ) => {
            if address.as_str().is_empty() {
                return None;
            }
            if alias.as_str().unicode_len() > NAME_MAX_CHARS {
                return None;
            }
            Some(
                Device {
                    address: address.clone(),
                    name: alias.clone(),
                    paired: *paired,
                    bonded: *bonded,
                    trusted: *trusted,
                    blocked: *blocked,
                    connected: *connected,
                    remote_name: clone_opt_string(&p.remote_name),
                    battery: p.battery,
                    icon: clone_opt_string(&p.icon),
                    name_in_color: true,
                },
            )
        },
        _ => None,
    }
}

} // verus!
